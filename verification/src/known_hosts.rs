//! Known host keys, in the format of OpenSSH.
use vstd::prelude::*;
use vstd::utf8::{decode_utf8, encode_utf8, valid_utf8};
use hmac::{KeyInit, Mac};
use crate::glob::{glob, law_search_finds_instances, search, wildcard, STAR};
use crate::native_api::list_capacity;
use crate::text::{
    char_lists, chars_of, decimal_digits, decimal_text, is_white, lower_chars, lower_text, text_of, trim_text,
    trimmed, utf8_text, white,
};
use crate::transport::ProtocolFailure;

verus! {

/// The most bytes of a file of known hosts.
pub const MAX_KNOWN_HOSTS_BYTES: usize = 8_388_608;

/// The most lines of a file of known hosts.
pub const MAX_KNOWN_HOSTS_LINES: usize = 65_536;

/// The most bytes of a line of known hosts, with its end.
pub const MAX_LINE: usize = 65_536;

/// The most memory that keys read from a file may take.
pub const MAX_RETAINED_KNOWN_HOSTS_BYTES: usize = 1_048_576;

/// What a line says of its key beyond that it is known.
#[derive(Clone, Copy, Debug, PartialEq, Eq, Structural)]
pub enum KnownMarker {
    CertAuthority,
    Revoked,
}

/// A key that a file of known hosts names for a host.
#[derive(Debug, PartialEq, Eq)]
pub struct KnownKey {
    pub marker: Option<KnownMarker>,
    pub key: Vec<u8>,
}

/// The hosts that a line speaks of.
#[derive(Debug, PartialEq, Eq)]
pub enum HostNames {
    /// One host, by a keyed digest of its name.
    Hashed { salt: Vec<u8>, hash: Vec<u8> },
    /// Those that match a pattern.
    Patterns(Vec<String>),
}

/// What the hosts of a line are.
#[verifier::ext_equal]
pub enum HostNamesView {
    Hashed { salt: Seq<u8>, hash: Seq<u8> },
    Patterns(Seq<Seq<char>>),
}

/// What texts hold.
pub open spec fn texts_view(texts: Seq<String>) -> Seq<Seq<char>> {
    texts.map_values(|text: String| text@)
}

impl View for HostNames {
    type V = HostNamesView;

    open spec fn view(&self) -> HostNamesView {
        match *self {
            HostNames::Hashed { salt, hash } => HostNamesView::Hashed { salt: salt@, hash: hash@ },
            HostNames::Patterns(patterns) => HostNamesView::Patterns(texts_view(patterns@)),
        }
    }
}

/// What a line holds: its marker, and its key in binary where it can be encoded.
#[derive(Debug, PartialEq, Eq)]
pub struct KnownEntry {
    pub marker: Option<KnownMarker>,
    pub key: Option<Vec<u8>>,
}

/// The bytes that may be there.
pub open spec fn bytes_view(bytes: Option<Vec<u8>>) -> Option<Seq<u8>> {
    match bytes {
        Some(bytes) => Some(bytes@),
        None => None,
    }
}

/// The hosts that a field names, as `ssh_key::known_hosts::HostPatterns` reads
/// it; `None` where it cannot be read.
pub uninterp spec fn host_names(text: Seq<char>) -> Option<HostNamesView>;

/// The marker and the key of a line, as `ssh_key::known_hosts::Entry` reads it;
/// `None` where it cannot be read.
pub uninterp spec fn host_entry(text: Seq<char>) -> Option<(Option<KnownMarker>, Option<Seq<u8>>)>;

/// The HMAC-SHA1 of a message under a key; `None` where there is none.
pub uninterp spec fn host_mac(key: Seq<u8>, message: Seq<u8>) -> Option<Seq<u8>>;

/// Reads the hosts of a line with `HostPatterns::from_str` of `ssh_key`. Nothing
/// is said of which texts can be read.
#[verifier::external_body]
fn read_host_names(text: &str) -> (r: Option<HostNames>)
    ensures
        (match r {
            Some(names) => Some(names@),
            None => None,
        }) == host_names(text@),
{
    match text.parse::<russh::keys::ssh_key::known_hosts::HostPatterns>() {
        Ok(russh::keys::ssh_key::known_hosts::HostPatterns::HashedName { salt, hash }) => {
            Some(HostNames::Hashed { salt, hash: hash.to_vec() })
        },
        Ok(russh::keys::ssh_key::known_hosts::HostPatterns::Patterns(patterns)) => {
            Some(HostNames::Patterns(patterns))
        },
        Err(_) => None,
    }
}

/// Reads a line with `Entry::from_str` of `ssh_key`, and encodes its key with
/// `PublicKey::to_bytes`. Nothing is said of which texts can be read.
#[verifier::external_body]
fn read_host_entry(text: &str) -> (r: Option<KnownEntry>)
    ensures
        (match r {
            Some(entry) => Some((entry.marker, bytes_view(entry.key))),
            None => None,
        }) == host_entry(text@),
{
    match text.parse::<russh::keys::ssh_key::known_hosts::Entry>() {
        Ok(entry) => Some(KnownEntry {
            marker: match entry.marker() {
                Some(russh::keys::ssh_key::known_hosts::Marker::CertAuthority) => Some(KnownMarker::CertAuthority),
                Some(russh::keys::ssh_key::known_hosts::Marker::Revoked) => Some(KnownMarker::Revoked),
                None => None,
            },
            key: entry.public_key().to_bytes().ok(),
        }),
        Err(_) => None,
    }
}

/// Whether a tag is the HMAC-SHA1 of a message, by `Mac::verify_slice` of
/// `hmac::Hmac` over `sha1::Sha1`: it is where the two are the same, all bytes and
/// no more.
#[verifier::external_body]
fn verifies_mac(key: &[u8], message: &[u8], tag: &[u8]) -> (r: bool)
    ensures
        r == (host_mac(key@, message@) == Some(tag@)),
{
    match hmac::Hmac::<sha1::Sha1>::new_from_slice(key) {
        Ok(mac) => mac.chain_update(message).verify_slice(tag).is_ok(),
        Err(_) => false,
    }
}

/// The name under which a host is known: in lower case, with its port unless it
/// is the usual one.
pub open spec fn known_name(host: Seq<char>, port: u16) -> Seq<char> {
    if port == 22 {
        lower_text(host)
    } else {
        "["@ + lower_text(host) + "]:"@ + decimal_digits(port as nat)
    }
}

/// The name under which a host is known.
pub fn host_name(host: &str, port: u16) -> (r: String)
    ensures
        r@ == known_name(host@, port),
{
    let low = text_of(&lower_chars(&chars_of(host)));
    if port == 22 {
        low
    } else {
        let mut r = "[".to_owned();
        r.append(low.as_str());
        r.append("]:");
        r.append(decimal_text(port as u64).as_str());
        r
    }
}

/// Whether a pattern excludes the hosts that match it.
pub open spec fn is_exclusion(pattern: Seq<char>) -> bool {
    pattern.len() > 0 && pattern[0] == '!'
}

/// Whether a pattern speaks of a host.
pub open spec fn speaks_of(pattern: Seq<char>, host: Seq<char>) -> bool {
    let shape = if is_exclusion(pattern) {
        pattern.drop_first()
    } else {
        pattern
    };
    search(encode_utf8(shape), encode_utf8(host), 0, 0, None, 0)
}

/// Whether hosts hold a host: some pattern speaks of it and none excludes it; or
/// its digest is the one given.
pub open spec fn hosts_hold(names: HostNamesView, host: Seq<char>) -> bool {
    match names {
        HostNamesView::Hashed { salt, hash } => host_mac(salt, encode_utf8(host)) == Some(hash),
        HostNamesView::Patterns(patterns) => {
            &&& exists|i: int| 0 <= i < patterns.len() && speaks_of(#[trigger] patterns[i], host)
            &&& forall|i: int| #![trigger patterns[i]]
                0 <= i < patterns.len() && is_exclusion(patterns[i]) ==> !speaks_of(patterns[i], host)
        },
    }
}

/// Whether a host is an instance of what a pattern spells besides its `!`.
pub open spec fn is_instance(pattern: Seq<char>, host: Seq<char>) -> bool {
    let shape = if is_exclusion(pattern) {
        pattern.drop_first()
    } else {
        pattern
    };
    glob(encode_utf8(shape), encode_utf8(host))
}

/// Whether a host is an instance of some patterns and of none that excludes.
pub open spec fn instance_held(patterns: Seq<Seq<char>>, host: Seq<char>) -> bool {
    &&& exists|i: int| 0 <= i < patterns.len() && is_instance(#[trigger] patterns[i], host)
    &&& forall|i: int| #![trigger patterns[i]]
        0 <= i < patterns.len() && is_exclusion(patterns[i]) ==> !is_instance(patterns[i], host)
}

/// A host whose name holds no star itself is held by patterns exactly where it is an
/// instance of some of them and of none that excludes.
pub proof fn law_patterns_hold_their_instances(patterns: Seq<Seq<char>>, host: Seq<char>)
    requires
        !encode_utf8(host).contains(STAR),
    ensures
        hosts_hold(HostNamesView::Patterns(patterns), host) == instance_held(patterns, host),
{
    assert forall|i: int| 0 <= i < patterns.len() implies speaks_of(#[trigger] patterns[i], host) == is_instance(
        patterns[i],
        host,
    ) by {
        let shape = if is_exclusion(patterns[i]) {
            patterns[i].drop_first()
        } else {
            patterns[i]
        };
        law_search_finds_instances(encode_utf8(shape), encode_utf8(host));
    }
    let names = HostNamesView::Patterns(patterns);
    if hosts_hold(names, host) {
        let i = choose|i: int| 0 <= i < patterns.len() && speaks_of(#[trigger] patterns[i], host);
        assert(is_instance(patterns[i], host));
        assert forall|k: int| #![trigger patterns[k]] 0 <= k < patterns.len() && is_exclusion(
            patterns[k],
        ) implies !is_instance(patterns[k], host) by {
            assert(!speaks_of(patterns[k], host));
        }
    }
    if instance_held(patterns, host) {
        let i = choose|i: int| 0 <= i < patterns.len() && is_instance(#[trigger] patterns[i], host);
        assert(speaks_of(patterns[i], host));
        assert forall|k: int| #![trigger patterns[k]] 0 <= k < patterns.len() && is_exclusion(
            patterns[k],
        ) implies !speaks_of(patterns[k], host) by {
            assert(!is_instance(patterns[k], host));
        }
        assert(names->Patterns_0 == patterns);
    }
}

pub fn same_bytes(a: &[u8], b: &[u8]) -> (r: bool)
    ensures
        r == (a@ == b@),
{
    if a.len() != b.len() {
        return false;
    }
    let mut i: usize = 0;
    while i < a.len()
        invariant
            i <= a.len(),
            a.len() == b.len(),
            forall|k: int| 0 <= k < i ==> a@[k] == b@[k],
        decreases a.len() - i,
    {
        if a[i] != b[i] {
            assert(a@[i as int] != b@[i as int]);
            return false;
        }
        i = i + 1;
    }
    assert(a@ =~= b@);
    true
}

/// Whether hosts hold a host.
pub fn matches_host(names: &HostNames, host: &str) -> (r: bool)
    ensures
        r == hosts_hold(names@, host@),
{
    match names {
        HostNames::Hashed { salt, hash } => verifies_mac(salt.as_slice(), host.as_bytes(), hash.as_slice()),
        HostNames::Patterns(patterns) => {
            let ghost all = texts_view(patterns@);
            let mut matched = false;
            let mut i: usize = 0;
            while i < patterns.len()
                invariant
                    i <= patterns.len(),
                    all == texts_view(patterns@),
                    names@ == HostNamesView::Patterns(all),
                    matched == exists|k: int| 0 <= k < i && speaks_of(#[trigger] all[k], host@),
                    forall|k: int| #![trigger all[k]] 0 <= k < i && is_exclusion(all[k]) ==> !speaks_of(all[k], host@),
                decreases patterns.len() - i,
            {
                let chars = chars_of(patterns[i].as_str());
                assert(all[i as int] == chars@);
                let negative = chars.len() > 0 && chars[0] == '!';
                let ghost before = matched;
                let fits = if negative {
                    let rest = crate::text::slice_chars(&chars, 1, chars.len());
                    assert(rest@ =~= chars@.drop_first());
                    wildcard(text_of(&rest).as_str().as_bytes(), host.as_bytes())
                } else {
                    wildcard(patterns[i].as_str().as_bytes(), host.as_bytes())
                };
                assert(fits == speaks_of(all[i as int], host@));
                if fits {
                    if negative {
                        return false;
                    }
                    matched = true;
                    assert(speaks_of(all[i as int], host@));
                }
                i = i + 1;
                proof {
                    if before {
                        let k = choose|k: int| 0 <= k < i - 1 && speaks_of(#[trigger] all[k], host@);
                        assert(speaks_of(all[k], host@));
                    }
                }
            }
            matched
        },
    }
}

/// The fields of a line, between white space.
pub open spec fn fields(s: Seq<char>) -> Seq<Seq<char>>
    decreases s.len(),
{
    if s.len() == 0 {
        Seq::empty()
    } else {
        let before = s.drop_last();
        let found = fields(before);
        if is_white(s.last()) {
            found
        } else if before.len() == 0 || is_white(before.last()) {
            found.push(seq![s.last()])
        } else {
            found.drop_last().push(found.last().push(s.last()))
        }
    }
}

/// The fields of a line.
pub fn split_fields(s: &Vec<char>) -> (r: Vec<Vec<char>>)
    ensures
        char_lists(r@) == fields(s@),
{
    let mut done: Vec<Vec<char>> = Vec::new();
    let mut field: Vec<char> = Vec::new();
    let mut i: usize = 0;
    assert(char_lists(done@) =~= Seq::empty());
    while i < s.len()
        invariant
            i <= s.len(),
            (i > 0 && !is_white(s@[i as int - 1])) == (field@.len() > 0),
            fields(s@.take(i as int)) == (if field@.len() > 0 {
                char_lists(done@).push(field@)
            } else {
                char_lists(done@)
            }),
        decreases s.len() - i,
    {
        let c = s[i];
        let ghost part = s@.take(i as int + 1);
        let ghost found = fields(s@.take(i as int));
        let ghost held = field@;
        let ghost listed = char_lists(done@);
        assert(part.drop_last() =~= s@.take(i as int));
        assert(held.len() > 0 ==> found.drop_last() =~= listed && found.last() == held);
        if white(c) {
            if field.len() > 0 {
                done.push(field);
                field = Vec::new();
                assert(char_lists(done@) =~= listed.push(held));
            }
        } else {
            field.push(c);
            assert(held.len() == 0 ==> field@ =~= seq![c]);
        }
        i = i + 1;
    }
    assert(s@.take(i as int) =~= s@);
    if field.len() > 0 {
        let ghost listed = char_lists(done@);
        let ghost held = field@;
        done.push(field);
        assert(char_lists(done@) =~= listed.push(held));
    }
    done
}

/// Fields with a space between them.
pub open spec fn spaced(parts: Seq<Seq<char>>) -> Seq<char>
    decreases parts.len(),
{
    if parts.len() == 0 {
        Seq::empty()
    } else if parts.len() == 1 {
        parts[0]
    } else {
        spaced(parts.drop_last()) + " "@ + parts.last()
    }
}

fn join_fields(parts: &Vec<Vec<char>>, count: usize) -> (r: String)
    requires
        count <= parts.len(),
    ensures
        r@ == spaced(char_lists(parts@).take(count as int)),
{
    let mut r = String::new();
    let ghost all = char_lists(parts@);
    let mut i: usize = 0;
    assert(all.take(0) =~= Seq::empty());
    assert(r@ =~= Seq::<char>::empty());
    while i < count
        invariant
            i <= count <= parts.len(),
            all == char_lists(parts@),
            r@ == spaced(all.take(i as int)),
        decreases count - i,
    {
        let part = text_of(&parts[i]);
        assert(all.take(i as int + 1).drop_last() =~= all.take(i as int));
        assert(all.take(i as int + 1).last() == part@);
        if i > 0 {
            r.append(" ");
        }
        let ghost before = r@;
        r.append(part.as_str());
        assert(i == 0 ==> before =~= Seq::<char>::empty() && r@ =~= part@);
        i = i + 1;
    }
    r
}

/// What a line names for a host: nothing, or a key with its marker.
pub open spec fn line_key(
    names: Option<HostNamesView>,
    entry: Option<(Option<KnownMarker>, Option<Seq<u8>>)>,
    complete: bool,
    host: Seq<char>,
) -> Result<Option<(Option<KnownMarker>, Seq<u8>)>, ProtocolFailure> {
    match names {
        None => Err(ProtocolFailure::HostKeyMismatch),
        Some(names) => if !hosts_hold(names, host) {
            Ok(None)
        } else if !complete {
            Err(ProtocolFailure::HostKeyMismatch)
        } else {
            match entry {
                None => Err(ProtocolFailure::HostKeyMismatch),
                Some((marker, None)) => Err(ProtocolFailure::Malformed),
                Some((marker, Some(key))) => Ok(Some((marker, key))),
            }
        },
    }
}

/// What a line without white space around it names for a host. A field that
/// starts with `@` is a marker; then come the hosts, the algorithm and the key,
/// and the rest does not count.
pub open spec fn known_line(text: Seq<char>, host: Seq<char>) -> Result<
    Option<(Option<KnownMarker>, Seq<u8>)>,
    ProtocolFailure,
> {
    let parts = fields(text);
    if text.len() == 0 || text[0] == '#' {
        Ok(None)
    } else if parts.len() == 0 {
        Err(ProtocolFailure::Malformed)
    } else {
        let at: int = if parts[0].len() > 0 && parts[0][0] == '@' {
            1
        } else {
            0
        };
        if parts.len() <= at {
            Err(ProtocolFailure::Malformed)
        } else {
            line_key(
                host_names(parts[at]),
                host_entry(spaced(parts.take(at + 3))),
                parts.len() >= at + 3,
                host,
            )
        }
    }
}

/// What a key taken from a line is.
pub open spec fn key_view(key: KnownKey) -> (Option<KnownMarker>, Seq<u8>) {
    (key.marker, key.key@)
}

/// What a key that may be there is.
pub open spec fn key_read(r: Result<Option<KnownKey>, ProtocolFailure>) -> Result<
    Option<(Option<KnownMarker>, Seq<u8>)>,
    ProtocolFailure,
> {
    match r {
        Ok(Some(key)) => Ok(Some(key_view(key))),
        Ok(None) => Ok(None),
        Err(failure) => Err(failure),
    }
}

/// The key of a line that holds the host, from what reading it gave.
pub fn entry_key(entry: Option<KnownEntry>) -> (r: Result<Option<KnownKey>, ProtocolFailure>)
    ensures
        key_read(r) == (match entry {
            None => Err(ProtocolFailure::HostKeyMismatch),
            Some(entry) => match entry.key {
                None => Err(ProtocolFailure::Malformed),
                Some(key) => Ok(Some((entry.marker, key@))),
            },
        }),
{
    match entry {
        None => Err(ProtocolFailure::HostKeyMismatch),
        Some(entry) => match entry.key {
            None => Err(ProtocolFailure::Malformed),
            Some(key) => Ok(Some(KnownKey { marker: entry.marker, key })),
        },
    }
}

/// What a line without white space around it names for a host.
pub fn read_known_line(text: &Vec<char>, host: &str) -> (r: Result<Option<KnownKey>, ProtocolFailure>)
    ensures
        key_read(r) == known_line(text@, host@),
{
    if text.len() == 0 || text[0] == '#' {
        return Ok(None);
    }
    let parts = split_fields(text);
    let ghost all = fields(text@);
    assert(all == char_lists(parts@));
    if parts.len() == 0 {
        return Err(ProtocolFailure::Malformed);
    }
    assert(all[0] == parts@[0]@);
    let at: usize = if parts[0].len() > 0 && parts[0][0] == '@' {
        1
    } else {
        0
    };
    if parts.len() <= at {
        return Err(ProtocolFailure::Malformed);
    }
    assert(all[at as int] == parts@[at as int]@);
    let names = match read_host_names(text_of(&parts[at]).as_str()) {
        Some(names) => names,
        None => return Err(ProtocolFailure::HostKeyMismatch),
    };
    if !matches_host(&names, host) {
        return Ok(None);
    }
    if parts.len() - at < 3 {
        return Err(ProtocolFailure::HostKeyMismatch);
    }
    let normal = join_fields(&parts, at + 3);
    entry_key(read_host_entry(normal.as_str()))
}

/// What has been read of a file of known hosts.
#[verifier::ext_equal]
pub struct KnownHostsView {
    pub keys: Seq<(Option<KnownMarker>, Seq<u8>)>,
    pub total: int,
    pub lines: int,
    pub retained: int,
}

/// The memory that a retained key takes in a room that holds it, or in no more than
/// it needs where the room would be less.
pub open spec fn key_cost(key: Seq<u8>, room: usize) -> int {
    let held = if room < key.len() {
        key.len() as int
    } else {
        room as int
    };
    held + 2 * vstd::layout::size_of::<KnownKey>()
}

/// What is retained with another key in a room.
pub open spec fn key_kept(
    state: KnownHostsView,
    marker: Option<KnownMarker>,
    key: Seq<u8>,
    room: usize,
    limit: usize,
) -> Result<KnownHostsView, ProtocolFailure> {
    if key.len() > limit || state.retained + key_cost(key, room) > MAX_RETAINED_KNOWN_HOSTS_BYTES {
        Err(ProtocolFailure::ResourceLimit)
    } else {
        Ok(
            KnownHostsView {
                keys: state.keys.push((marker, key)),
                retained: state.retained + key_cost(key, room),
                ..state
            },
        )
    }
}

/// What has been read after another line, its end included; `room` is that of the
/// key that it names, if it names one.
pub open spec fn line_taken(
    state: KnownHostsView,
    line: Seq<u8>,
    host: Seq<char>,
    limit: usize,
    room: usize,
) -> Result<KnownHostsView, ProtocolFailure> {
    if line.len() > MAX_LINE || state.total + line.len() > MAX_KNOWN_HOSTS_BYTES || state.lines
        >= MAX_KNOWN_HOSTS_LINES {
        Err(ProtocolFailure::ResourceLimit)
    } else if !valid_utf8(line) {
        Err(ProtocolFailure::Malformed)
    } else {
        let read = KnownHostsView { total: state.total + line.len(), lines: state.lines + 1, ..state };
        match known_line(trimmed(decode_utf8(line)), host) {
            Err(failure) => Err(failure),
            Ok(None) => Ok(read),
            Ok(Some((marker, key))) => key_kept(read, marker, key, room, limit),
        }
    }
}

/// A file of known hosts that is being read.
#[derive(Debug)]
pub struct KnownHosts {
    pub keys: Vec<KnownKey>,
    pub total: usize,
    pub lines: usize,
    pub retained: usize,
}

/// What keys are.
pub open spec fn key_views(keys: Seq<KnownKey>) -> Seq<(Option<KnownMarker>, Seq<u8>)> {
    keys.map_values(|key: KnownKey| key_view(key))
}

impl View for KnownHosts {
    type V = KnownHostsView;

    open spec fn view(&self) -> KnownHostsView {
        KnownHostsView {
            keys: key_views(self.keys@),
            total: self.total as int,
            lines: self.lines as int,
            retained: self.retained as int,
        }
    }
}

/// Nothing has been read yet.
pub open spec fn nothing_read() -> KnownHostsView {
    KnownHostsView { keys: Seq::empty(), total: 0, lines: 0, retained: 0 }
}

impl KnownHosts {
    /// Whether the bounds hold.
    pub open spec fn bounded(self) -> bool {
        &&& self.total <= MAX_KNOWN_HOSTS_BYTES
        &&& self.lines <= MAX_KNOWN_HOSTS_LINES
        &&& self.retained <= MAX_RETAINED_KNOWN_HOSTS_BYTES
    }

    pub fn new() -> (r: Self)
        ensures
            r@ == nothing_read(),
            r.bounded(),
    {
        let r = KnownHosts { keys: Vec::new(), total: 0, lines: 0, retained: 0 };
        assert(key_views(r.keys@) =~= Seq::empty());
        r
    }

    /// Keeps a key that has a room; `limit` is the most bytes of a key.
    pub fn keep(&mut self, key: KnownKey, room: usize, limit: usize) -> (r: Result<(), ProtocolFailure>)
        requires
            old(self).bounded(),
        ensures
            final(self).bounded(),
            match key_kept(old(self)@, key.marker, key.key@, room, limit) {
                Ok(next) => r is Ok && final(self)@ == next,
                Err(failure) => r == Err::<(), ProtocolFailure>(failure) && *final(self) == *old(self),
            },
    {
        let size: usize = core::mem::size_of::<KnownKey>();
        let slots: usize = match size.checked_mul(2) {
            Some(slots) => slots,
            None => usize::MAX,
        };
        let held: usize = if room < key.key.len() {
            key.key.len()
        } else {
            room
        };
        let retained: usize = self.retained.saturating_add(held).saturating_add(slots);
        if key.key.len() > limit || retained > MAX_RETAINED_KNOWN_HOSTS_BYTES {
            return Err(ProtocolFailure::ResourceLimit);
        }
        let ghost before = key_views(self.keys@);
        let ghost added = key_view(key);
        self.keys.push(key);
        assert(key_views(self.keys@) =~= before.push(added));
        self.retained = retained;
        Ok(())
    }

    /// Reads another line, its end included; `limit` is the most bytes of a key. A
    /// key counts with the room that it has.
    pub fn take_line(&mut self, line: &[u8], host: &str, limit: usize) -> (r: Result<(), ProtocolFailure>)
        requires
            old(self).bounded(),
        ensures
            final(self).bounded(),
            exists|room: usize|
                match #[trigger] line_taken(old(self)@, line@, host@, limit, room) {
                    Ok(next) => r is Ok && final(self)@ == next,
                    Err(failure) => r == Err::<(), ProtocolFailure>(failure) && *final(self) == *old(self),
                },
    {
        let ghost before = self@;
        let ghost none: usize = 0;
        if line.len() > MAX_LINE || self.total + line.len() > MAX_KNOWN_HOSTS_BYTES || self.lines
            >= MAX_KNOWN_HOSTS_LINES {
            assert(line_taken(before, line@, host@, limit, none) is Err);
            return Err(ProtocolFailure::ResourceLimit);
        }
        let text = match utf8_text(line) {
            Some(text) => text,
            None => {
                assert(line_taken(before, line@, host@, limit, none) is Err);
                return Err(ProtocolFailure::Malformed);
            },
        };
        let found = read_known_line(&trim_text(text), host);
        match found {
            Err(failure) => {
                assert(line_taken(before, line@, host@, limit, none) is Err);
                Err(failure)
            },
            Ok(None) => {
                self.total = self.total + line.len();
                self.lines = self.lines + 1;
                assert(line_taken(before, line@, host@, limit, none) == Ok::<KnownHostsView, ProtocolFailure>(self@));
                Ok(())
            },
            Ok(Some(key)) => {
                let room: usize = list_capacity(&key.key);
                let (total, lines): (usize, usize) = (self.total, self.lines);
                self.total = total + line.len();
                self.lines = lines + 1;
                let ghost read = self@;
                let ghost taken = line_taken(before, line@, host@, limit, room);
                assert(taken == key_kept(read, key.marker, key.key@, room, limit));
                match self.keep(key, room, limit) {
                    Ok(_) => Ok(()),
                    Err(failure) => {
                        self.total = total;
                        self.lines = lines;
                        Err(failure)
                    },
                }
            },
        }
    }
}

/// Where the line that starts at a place ends: behind its newline, or at the end.
pub open spec fn line_end(bytes: Seq<u8>, from: int) -> int
    decreases bytes.len() - from,
{
    if from < 0 || from >= bytes.len() {
        bytes.len() as int
    } else if bytes[from] == 0x0a {
        from + 1
    } else {
        line_end(bytes, from + 1)
    }
}

proof fn lemma_line_end(bytes: Seq<u8>, from: int)
    requires
        0 <= from < bytes.len(),
    ensures
        from < line_end(bytes, from) <= bytes.len(),
    decreases bytes.len() - from,
{
    reveal_with_fuel(line_end, 2);
    if bytes[from] != 0x0a && from + 1 < bytes.len() {
        lemma_line_end(bytes, from + 1);
    }
}

/// What has been read after all lines of some bytes from a place on; a key has the
/// room that stands at the number of its line.
pub open spec fn lines_taken(
    state: KnownHostsView,
    bytes: Seq<u8>,
    from: int,
    host: Seq<char>,
    limit: usize,
    rooms: Seq<usize>,
) -> Result<KnownHostsView, ProtocolFailure>
    decreases bytes.len() - from,
{
    let end = line_end(bytes, from);
    if from < 0 || from >= bytes.len() || end <= from || end > bytes.len() {
        Ok(state)
    } else {
        match line_taken(state, bytes.subrange(from, end), host, limit, rooms[state.lines]) {
            Ok(next) => lines_taken(next, bytes, end, host, limit, rooms),
            Err(failure) => Err(failure),
        }
    }
}

/// The keys that a file of known hosts names for a host; `limit` is the most
/// bytes of a key. Each key counts with the room that it has.
pub fn parse_known_hosts(bytes: &[u8], host: &str, port: u16, limit: usize) -> (r: Result<Vec<KnownKey>, ProtocolFailure>)
    ensures
        exists|rooms: Seq<usize>|
            match #[trigger] lines_taken(nothing_read(), bytes@, 0, known_name(host@, port), limit, rooms) {
                Ok(read) => r is Ok && key_views(r->Ok_0@) == read.keys,
                Err(failure) => r == Err::<Vec<KnownKey>, ProtocolFailure>(failure),
            },
{
    let name = host_name(host, port);
    let mut read = KnownHosts::new();
    let total: usize = bytes.len();
    let mut from: usize = 0;
    let ghost mut had: Seq<usize> = Seq::empty();
    while from < total
        invariant
            from <= total,
            total == bytes@.len(),
            read.bounded(),
            name@ == known_name(host@, port),
            had.len() == read.lines,
            forall|rooms: Seq<usize>|
                had.is_prefix_of(rooms) ==> #[trigger] lines_taken(nothing_read(), bytes@, 0, name@, limit, rooms)
                    == lines_taken(read@, bytes@, from as int, name@, limit, rooms),
        decreases total - from,
    {
        let mut end: usize = from;
        while end < total && bytes[end] != 0x0a
            invariant
                from <= end <= total,
                total == bytes@.len(),
                line_end(bytes@, from as int) == line_end(bytes@, end as int),
            decreases total - end,
        {
            end = end + 1;
        }
        if end < total {
            end = end + 1;
        }
        assert(end == line_end(bytes@, from as int));
        proof {
            lemma_line_end(bytes@, from as int);
        }
        let line = vstd::slice::slice_subrange(bytes, from, end);
        let ghost before = read@;
        let taken = read.take_line(line, name.as_str(), limit);
        proof {
            let room = choose|room: usize|
                match #[trigger] line_taken(before, line@, name@, limit, room) {
                    Ok(next) => taken is Ok && read@ == next,
                    Err(failure) => taken == Err::<(), ProtocolFailure>(failure) && read@ == before,
                };
            let old_had = had;
            had = had.push(room);
            assert forall|rooms: Seq<usize>| had.is_prefix_of(rooms) implies #[trigger] lines_taken(
                nothing_read(),
                bytes@,
                0,
                name@,
                limit,
                rooms,
            ) == (match line_taken(before, line@, name@, limit, room) {
                Ok(next) => lines_taken(next, bytes@, end as int, name@, limit, rooms),
                Err(failure) => Err(failure),
            }) by {
                assert(rooms.take(old_had.len() as int) =~= old_had);
                assert(rooms[old_had.len() as int] == had[old_had.len() as int]);
                assert(old_had.is_prefix_of(rooms));
            }
            assert(had.is_prefix_of(had));
        }
        match taken {
            Ok(_) => {},
            Err(failure) => {
                assert(lines_taken(nothing_read(), bytes@, 0, name@, limit, had) is Err);
                return Err(failure);
            },
        }
        from = end;
    }
    proof {
        assert(had.is_prefix_of(had));
        assert(lines_taken(nothing_read(), bytes@, 0, name@, limit, had) is Ok);
    }
    Ok(read.keys)
}

/// Keys taken from a file are bounded in number and in bytes, whatever the file
/// holds.
pub proof fn law_known_keys_are_bounded(bytes: Seq<u8>, host: Seq<char>, limit: usize, rooms: Seq<usize>)
    requires
        lines_taken(nothing_read(), bytes, 0, host, limit, rooms) is Ok,
    ensures
        ({
            let read = lines_taken(nothing_read(), bytes, 0, host, limit, rooms)->Ok_0;
            &&& read.keys.len() <= read.lines <= MAX_KNOWN_HOSTS_LINES
            &&& read.total <= MAX_KNOWN_HOSTS_BYTES
            &&& read.retained <= MAX_RETAINED_KNOWN_HOSTS_BYTES
            &&& forall|i: int| 0 <= i < read.keys.len() ==> (#[trigger] read.keys[i]).1.len() <= limit
        }),
{
    lemma_reading_is_bounded(nothing_read(), bytes, 0, host, limit, rooms);
}

proof fn lemma_reading_is_bounded(
    state: KnownHostsView,
    bytes: Seq<u8>,
    from: int,
    host: Seq<char>,
    limit: usize,
    rooms: Seq<usize>,
)
    requires
        state.keys.len() <= state.lines <= MAX_KNOWN_HOSTS_LINES,
        state.total <= MAX_KNOWN_HOSTS_BYTES,
        state.retained <= MAX_RETAINED_KNOWN_HOSTS_BYTES,
        forall|i: int| 0 <= i < state.keys.len() ==> (#[trigger] state.keys[i]).1.len() <= limit,
        lines_taken(state, bytes, from, host, limit, rooms) is Ok,
    ensures
        ({
            let read = lines_taken(state, bytes, from, host, limit, rooms)->Ok_0;
            &&& read.keys.len() <= read.lines <= MAX_KNOWN_HOSTS_LINES
            &&& read.total <= MAX_KNOWN_HOSTS_BYTES
            &&& read.retained <= MAX_RETAINED_KNOWN_HOSTS_BYTES
            &&& forall|i: int| 0 <= i < read.keys.len() ==> (#[trigger] read.keys[i]).1.len() <= limit
        }),
    decreases bytes.len() - from,
{
    let end = line_end(bytes, from);
    if !(from < 0 || from >= bytes.len() || end <= from || end > bytes.len()) {
        let next = line_taken(state, bytes.subrange(from, end), host, limit, rooms[state.lines])->Ok_0;
        lemma_reading_is_bounded(next, bytes, end, host, limit, rooms);
    }
}

} // verus!
