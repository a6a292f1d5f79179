//! Bounded, non-secret origin feedback shared by transfer workers.
use vstd::prelude::*;
use crate::byte_budget::ByteBudget;
use crate::protocols::ProtocolTable;
use crate::span::Span;
use crate::text::{
    byte_len, char_from, chars_of, decimal_digits, decimal_text, find_char, lower_chars, lower_text, same_text,
    stands_before, strip_around, text_before, text_of, without_leading, without_trailing,
};
use crate::xml::text_view;

verus! {

/// The authority of a URI.
#[derive(Debug, PartialEq, Eq)]
pub struct UriAuthority {
    pub text: String,
    pub host: String,
    pub port: Option<u16>,
}

/// The parts of a URI.
#[derive(Debug, PartialEq, Eq)]
pub struct UriParts {
    pub scheme: Option<String>,
    pub authority: Option<UriAuthority>,
    pub path: String,
    pub query: Option<String>,
}

/// What an authority holds.
#[verifier::ext_equal]
pub struct AuthorityView {
    pub text: Seq<char>,
    pub host: Seq<char>,
    pub port: Option<u16>,
}

/// What the parts of a URI hold.
#[verifier::ext_equal]
pub struct UriView {
    pub scheme: Option<Seq<char>>,
    pub authority: Option<AuthorityView>,
    pub path: Seq<char>,
    pub query: Option<Seq<char>>,
}

impl View for UriParts {
    type V = UriView;

    open spec fn view(&self) -> UriView {
        UriView {
            scheme: text_view(self.scheme),
            authority: match self.authority {
                Some(authority) => Some(
                    AuthorityView { text: authority.text@, host: authority.host@, port: authority.port },
                ),
                None => None,
            },
            path: self.path@,
            query: text_view(self.query),
        }
    }
}

/// What the parts of a URI hold, where there are any.
pub open spec fn uri_view(uri: Option<UriParts>) -> Option<UriView> {
    match uri {
        Some(parts) => Some(parts@),
        None => None,
    }
}

/// The parts of the URI that a text spells, if it does, as `hyper::Uri` reads it.
pub uninterp spec fn parsed_uri(text: Seq<char>) -> Option<UriView>;

/// Parses a URI as `hyper::Uri` and takes its parts over one for one.
#[verifier::external_body]
pub(crate) fn parse_uri(text: &str) -> (r: Option<UriParts>)
    ensures
        uri_view(r) == parsed_uri(text@),
{
    let uri: hyper::Uri = text.parse().ok()?;
    Some(UriParts {
        scheme: uri.scheme_str().map(str::to_owned),
        authority: uri.authority().map(|found| UriAuthority {
            text: found.as_str().to_owned(),
            host: found.host().to_owned(),
            port: found.port_u16(),
        }),
        path: uri.path().to_owned(),
        query: uri.query().map(str::to_owned),
    })
}

/// The host of an authority, without the brackets of an IPv6 address.
pub open spec fn bare_host(host: Seq<char>) -> Seq<char> {
    without_trailing(without_leading(host, '['), ']')
}

/// The port of an authority, or the default one where none is written.
pub open spec fn effective_port(authority: AuthorityView, default_port: u16) -> Option<u16> {
    match authority.port {
        Some(port) => Some(port),
        None => if (authority.text.len() > 0 && authority.text.last() == ']') || char_from(
            authority.text,
            ':',
            0,
        ) is None {
            Some(default_port)
        } else {
            None
        },
    }
}

/// An origin as text.
pub open spec fn origin_text(scheme: Seq<char>, host: Seq<char>, port: u16) -> Seq<char> {
    if char_from(host, ':', 0) is Some {
        scheme + "://["@ + host + "]:"@ + decimal_digits(port as nat)
    } else {
        scheme + "://"@ + host + ":"@ + decimal_digits(port as nat)
    }
}

/// The origin of a URI: its protocol, host in lower case and port, and nothing
/// of its credentials, path or query.
pub open spec fn origin_of(uri: UriView, protocols: ProtocolTable) -> Option<Seq<char>> {
    match (uri.scheme, uri.authority) {
        (Some(scheme), Some(authority)) => match protocols.spec_parse(scheme) {
            Some(protocol) => {
                let host = bare_host(authority.host);
                let port = effective_port(authority, protocol.default_port);
                if char_from(authority.text, '@', 0) is Some || byte_len(authority.text) > 500 {
                    None
                } else if port is None || host.len() == 0 || port == Some(0u16) {
                    None
                } else {
                    Some(origin_text(scheme, lower_text(host), port->0))
                }
            },
            None => None,
        },
        _ => None,
    }
}

/// The origin of parsed URI parts.
pub fn origin_of_parts(uri: &UriParts, protocols: &ProtocolTable) -> (r: Option<String>)
    ensures
        text_view(r) == origin_of(uri@, *protocols),
{
    let scheme = match &uri.scheme {
        Some(scheme) => scheme,
        None => return None,
    };
    let authority = match &uri.authority {
        Some(authority) => authority,
        None => return None,
    };
    let protocol = match protocols.parse(scheme.as_str()) {
        Some(protocol) => protocol,
        None => return None,
    };
    let text = chars_of(authority.text.as_str());
    if find_char(&text, '@', 0).is_some() || authority.text.as_str().len() > 500 {
        return None;
    }
    let host = strip_around(&chars_of(authority.host.as_str()), '[', ']');
    let port = match authority.port {
        Some(port) => port,
        None => {
            if (text.len() > 0 && text[text.len() - 1] == ']') || find_char(&text, ':', 0).is_none() {
                protocol.default_port
            } else {
                return None;
            }
        },
    };
    if host.len() == 0 || port == 0 {
        return None;
    }
    let host = lower_chars(&host);
    let mut origin = scheme.clone();
    if find_char(&host, ':', 0).is_some() {
        origin.append("://[");
        origin.append(text_of(&host).as_str());
        origin.append("]:");
    } else {
        origin.append("://");
        origin.append(text_of(&host).as_str());
        origin.append(":");
    }
    origin.append(decimal_text(port as u64).as_str());
    Some(origin)
}

/// The origin that feedback on a URI is kept under.
pub fn transfer_origin(text: &str, protocols: &ProtocolTable) -> (r: Option<String>)
    ensures
        text_view(r) == (match parsed_uri(text@) {
            Some(uri) => origin_of(uri, *protocols),
            None => None,
        }),
{
    match parse_uri(text) {
        Some(uri) => origin_of_parts(&uri, protocols),
        None => None,
    }
}

#[derive(Clone, Copy, Debug, PartialEq, Eq, Structural)]
pub struct ServerFeedback {
    pub bytes_per_second: u64,
    pub samples: u32,
    pub failures: u32,
}

/// Feedback before any sample.
pub open spec fn no_feedback() -> ServerFeedback {
    ServerFeedback { bytes_per_second: 0, samples: 0, failures: 0 }
}

impl Default for ServerFeedback {
    fn default() -> (r: Self)
        ensures
            r == no_feedback(),
    {
        ServerFeedback { bytes_per_second: 0, samples: 0, failures: 0 }
    }
}

/// The lesser of two numbers.
pub open spec fn lesser(a: int, b: int) -> int {
    if a <= b {
        a
    } else {
        b
    }
}

/// The speed of a transfer in bytes per second.
pub open spec fn speed_of(bytes: u64, elapsed: Span) -> int {
    let micros = if elapsed.spec_micros() == 0 {
        1
    } else {
        elapsed.spec_micros()
    };
    lesser(bytes * 1_000_000 / micros, u64::MAX as int)
}

/// Feedback with one more sample.
pub open spec fn sampled(feedback: ServerFeedback, bytes: u64, elapsed: Span, succeeded: bool) -> ServerFeedback {
    let samples = lesser(feedback.samples + 1, u32::MAX as int) as u32;
    if succeeded {
        let speed = speed_of(bytes, elapsed);
        let weighted = lesser(lesser(feedback.bytes_per_second * 3, u64::MAX as int) + speed, u64::MAX as int);
        ServerFeedback {
            bytes_per_second: if samples == 1 {
                speed as u64
            } else {
                (weighted / 4) as u64
            },
            samples,
            failures: if feedback.failures == 0 {
                0
            } else {
                (feedback.failures - 1) as u32
            },
        }
    } else {
        ServerFeedback { samples, failures: lesser(feedback.failures + 1, 32) as u32, ..feedback }
    }
}

/// How good a server is for one more transfer beside others.
pub open spec fn rated(feedback: ServerFeedback, concurrent: int) -> int {
    let throughput: int = if feedback.samples == 0 {
        1_048_576
    } else {
        feedback.bytes_per_second as int
    };
    throughput / (feedback.failures + 1) / (concurrent + 1)
}

impl ServerFeedback {
    /// Adds one sample.
    pub fn observe(&mut self, bytes: u64, elapsed: Span, succeeded: bool)
        ensures
            *final(self) == sampled(*old(self), bytes, elapsed, succeeded),
    {
        self.samples = self.samples.saturating_add(1);
        if succeeded {
            let elapsed_micros = elapsed.as_micros();
            let micros: u128 = if elapsed_micros == 0 {
                1
            } else {
                elapsed_micros
            };
            let product: u128 = (bytes as u128) * 1_000_000;
            let quotient: u128 = product / micros;
            let speed: u64 = if quotient > u64::MAX as u128 {
                u64::MAX
            } else {
                quotient as u64
            };
            assert(speed == speed_of(bytes, elapsed));
            self.bytes_per_second = if self.samples == 1 {
                speed
            } else {
                let tripled: u64 = match self.bytes_per_second.checked_mul(3) {
                    Some(product) => product,
                    None => u64::MAX,
                };
                tripled.saturating_add(speed) / 4
            };
            self.failures = self.failures.saturating_sub(1);
        } else {
            let failures: u32 = self.failures.saturating_add(1);
            self.failures = if failures > 32 {
                32
            } else {
                failures
            };
        }
    }

    /// How good the server is for one more transfer beside `concurrent` others.
    pub fn score(self, concurrent: usize) -> (r: u64)
        requires
            concurrent < u64::MAX,
        ensures
            r == rated(self, concurrent as int),
    {
        let throughput: u64 = if self.samples == 0 {
            1_048_576
        } else {
            self.bytes_per_second
        };
        throughput / (self.failures as u64 + 1) / (concurrent as u64 + 1)
    }
}

/// The feedback on one origin.
pub struct StatEntry {
    pub origin: String,
    pub feedback: ServerFeedback,
    pub updated_ms: u64,
    pub timeout_ms: u64,
    pub used: u64,
    pub bytes: usize,
}

/// What the feedback on one origin is.
#[verifier::ext_equal]
pub struct StatView {
    pub origin: Seq<char>,
    pub feedback: ServerFeedback,
    pub updated_ms: u64,
    pub timeout_ms: u64,
    pub used: u64,
    pub bytes: usize,
}

impl View for StatEntry {
    type V = StatView;

    open spec fn view(&self) -> StatView {
        StatView {
            origin: self.origin@,
            feedback: self.feedback,
            updated_ms: self.updated_ms,
            timeout_ms: self.timeout_ms,
            used: self.used,
            bytes: self.bytes,
        }
    }
}

/// What the feedback on each origin is.
pub open spec fn stat_views(entries: Seq<StatEntry>) -> Seq<StatView> {
    entries.map_values(|e: StatEntry| e@)
}

/// What the entries hold of the byte budget.
pub open spec fn stat_bytes(entries: Seq<StatView>) -> int
    decreases entries.len(),
{
    if entries.len() == 0 {
        0
    } else {
        stat_bytes(entries.drop_last()) + entries.last().bytes
    }
}

/// Statistics by origin: bounded in number, bytes and age.
pub struct ServerStatistics {
    pub capacity: usize,
    pub timeout_ms: u64,
    pub bytes: ByteBudget,
    pub tick: u64,
    pub entries: Vec<StatEntry>,
}

/// What statistics hold.
#[verifier::ext_equal]
pub struct StatsView {
    pub capacity: usize,
    pub timeout_ms: u64,
    pub bytes: ByteBudget,
    pub tick: u64,
    pub entries: Seq<StatView>,
}

impl View for ServerStatistics {
    type V = StatsView;

    open spec fn view(&self) -> StatsView {
        StatsView {
            capacity: self.capacity,
            timeout_ms: self.timeout_ms,
            bytes: self.bytes,
            tick: self.tick,
            entries: stat_views(self.entries@),
        }
    }
}

/// The first entry from `from` on of an origin.
pub open spec fn stat_of(entries: Seq<StatView>, origin: Seq<char>, from: int) -> Option<int>
    decreases entries.len() - from,
{
    if from < 0 || from >= entries.len() {
        None
    } else if entries[from].origin == origin {
        Some(from)
    } else {
        stat_of(entries, origin, from + 1)
    }
}

/// The time from one reading to another, none where the clock went back.
pub open spec fn since(now: u64, then: u64) -> int {
    if now >= then {
        now - then
    } else {
        0
    }
}

/// Whether an entry has outlived its own timeout.
pub open spec fn stale(entry: StatView, now: u64) -> bool {
    since(now, entry.updated_ms) >= entry.timeout_ms
}

/// Whether every entry is under an origin that may be kept.
pub open spec fn origins_keepable(entries: Seq<StatView>) -> bool {
    forall|k: int| 0 <= k < entries.len() ==> keepable((#[trigger] entries[k]).origin, parsed_uri(entries[k].origin))
}

/// Whether no origin has two entries.
pub open spec fn origins_distinct(entries: Seq<StatView>) -> bool {
    forall|i: int, j: int| 0 <= i < j < entries.len() ==> (#[trigger] entries[i]).origin != (#[trigger] entries[j]).origin
}

impl StatsView {
    /// The counts are within their bounds, and what the entries hold is taken of
    /// the budget.
    pub open spec fn bounded(self) -> bool {
        &&& self.capacity <= 4096
        &&& self.entries.len() <= self.capacity
        &&& self.bytes.valid()
        &&& stat_bytes(self.entries) <= self.bytes.used
    }

    /// Besides, every origin is one that may be kept, and none stands twice.
    pub open spec fn valid(self) -> bool {
        self.bounded() && origins_keepable(self.entries) && origins_distinct(self.entries)
    }
}

/// Statistics without one entry.
pub open spec fn without_stat(stats: StatsView, i: int) -> StatsView {
    StatsView {
        bytes: ByteBudget { used: (stats.bytes.used - stats.entries[i].bytes) as usize, ..stats.bytes },
        entries: stats.entries.remove(i),
        ..stats
    }
}

/// Statistics with one more tick.
pub open spec fn ticked(stats: StatsView) -> StatsView {
    StatsView { tick: lesser(stats.tick + 1, u64::MAX as int) as u64, ..stats }
}

/// The feedback on an origin at a time, and the statistics after it was read: a
/// stale entry is dropped, and one that is read is marked as used.
pub open spec fn looked_up(stats: StatsView, origin: Seq<char>, now: u64, timeout_ms: u64) -> (
    ServerFeedback,
    StatsView,
) {
    let next = ticked(stats);
    if timeout_ms == 0 {
        (no_feedback(), stats)
    } else {
        match stat_of(stats.entries, origin, 0) {
            None => (no_feedback(), next),
            Some(i) => if stale(stats.entries[i], now) {
                looked_up_kept(without_stat(next, i), origin, now, timeout_ms)
            } else {
                looked_up_kept(next, origin, now, timeout_ms)
            },
        }
    }
}

/// The feedback on an origin once stale entries were dropped.
pub open spec fn looked_up_kept(stats: StatsView, origin: Seq<char>, now: u64, timeout_ms: u64) -> (
    ServerFeedback,
    StatsView,
) {
    match stat_of(stats.entries, origin, 0) {
        None => (no_feedback(), stats),
        Some(i) => if since(now, stats.entries[i].updated_ms) < timeout_ms {
            (
                stats.entries[i].feedback,
                StatsView {
                    entries: stats.entries.update(i, StatView { used: stats.tick, ..stats.entries[i] }),
                    ..stats
                },
            )
        } else {
            (no_feedback(), stats)
        },
    }
}

/// Whether feedback may be kept under an origin: a short URI of a transfer
/// protocol with an authority, and no credentials, path or query.
pub open spec fn keepable(origin: Seq<char>, uri: Option<UriView>) -> bool {
    &&& byte_len(origin) <= 512
    &&& char_from(origin, '@', 0) is None
    &&& uri matches Some(uri) && {
        &&& uri.authority is Some
        &&& uri.scheme matches Some(scheme) && (scheme == "http"@ || scheme == "https"@ || scheme == "ftp"@
            || scheme == "ftps"@ || scheme == "sftp"@)
        &&& uri.path == ""@ || uri.path == "/"@
        &&& uri.query is None
    }
}

/// The entries that are not stale among the first `n`.
pub open spec fn fresh_entries(entries: Seq<StatView>, now: u64, n: int) -> Seq<StatView>
    decreases n,
{
    if n <= 0 {
        Seq::empty()
    } else if stale(entries[n - 1], now) {
        fresh_entries(entries, now, n - 1)
    } else {
        fresh_entries(entries, now, n - 1).push(entries[n - 1])
    }
}

/// Whether one entry was used before another; of two used at once, the one
/// whose origin stands first.
pub open spec fn older(a: StatView, b: StatView) -> bool {
    a.used < b.used || (a.used == b.used && text_before(a.origin, b.origin))
}

/// The entry used longest ago among the first `n`.
pub open spec fn oldest(entries: Seq<StatView>, n: int) -> Option<int>
    decreases n,
{
    if n <= 0 {
        None
    } else {
        match oldest(entries, n - 1) {
            Some(best) => if older(entries[n - 1], entries[best]) {
                Some(n - 1)
            } else {
                Some(best)
            },
            None => Some(0),
        }
    }
}

/// Statistics with room for one more entry, as far as age and number go.
pub open spec fn made_room(stats: StatsView, now: u64) -> StatsView {
    let entries = fresh_entries(stats.entries, now, stats.entries.len() as int);
    let kept = StatsView {
        bytes: ByteBudget {
            used: (stats.bytes.used - (stat_bytes(stats.entries) - stat_bytes(entries))) as usize,
            ..stats.bytes
        },
        entries,
        ..stats
    };
    if entries.len() >= stats.capacity && entries.len() > 0 {
        without_stat(kept, oldest(entries, entries.len() as int)->0)
    } else {
        kept
    }
}

/// What an entry takes of the byte budget.
pub open spec fn stat_charge(origin: Seq<char>) -> int {
    lesser(byte_len(origin) + 256, usize::MAX as int)
}

/// Statistics with an entry for an origin, if the budget allows one.
pub open spec fn with_stat(stats: StatsView, origin: Seq<char>, now: u64, timeout_ms: u64) -> (bool, StatsView) {
    match stat_of(stats.entries, origin, 0) {
        Some(_) => (true, stats),
        None => {
            let room = made_room(stats, now);
            if !room.bytes.spec_fits(stat_charge(origin)) {
                (false, room)
            } else {
                (
                    true,
                    StatsView {
                        bytes: ByteBudget {
                            used: (room.bytes.used + stat_charge(origin)) as usize,
                            ..room.bytes
                        },
                        entries: room.entries.push(
                            StatView {
                                origin,
                                feedback: no_feedback(),
                                updated_ms: now,
                                timeout_ms,
                                used: room.tick,
                                bytes: stat_charge(origin) as usize,
                            },
                        ),
                        ..room
                    },
                )
            }
        },
    }
}

/// An entry with one more sample; one that has outlived either timeout starts anew.
pub open spec fn resampled(
    entry: StatView,
    bytes: u64,
    elapsed: Span,
    succeeded: bool,
    now: u64,
    timeout_ms: u64,
    tick: u64,
) -> StatView {
    let expired = since(now, entry.updated_ms) >= lesser(entry.timeout_ms as int, timeout_ms as int);
    StatView {
        feedback: sampled(
            if expired {
                no_feedback()
            } else {
                entry.feedback
            },
            bytes,
            elapsed,
            succeeded,
        ),
        updated_ms: now,
        timeout_ms,
        used: tick,
        ..entry
    }
}

/// The feedback on an origin after one more sample, and the statistics with it.
pub open spec fn observed(
    stats: StatsView,
    origin: Seq<char>,
    uri: Option<UriView>,
    bytes: u64,
    elapsed: Span,
    succeeded: bool,
    now: u64,
    timeout_ms: u64,
) -> (ServerFeedback, StatsView) {
    if stats.capacity == 0 || timeout_ms == 0 || !keepable(origin, uri) {
        (no_feedback(), stats)
    } else {
        let (held, next) = with_stat(ticked(stats), origin, now, timeout_ms);
        if !held {
            (no_feedback(), next)
        } else {
            let i = stat_of(next.entries, origin, 0)->0;
            let entry = resampled(next.entries[i], bytes, elapsed, succeeded, now, timeout_ms, next.tick);
            (entry.feedback, StatsView { entries: next.entries.update(i, entry), ..next })
        }
    }
}

/// What an entry holds is part of what all hold.
proof fn lemma_stat_bytes_remove(entries: Seq<StatView>, i: int)
    requires
        0 <= i < entries.len(),
    ensures
        stat_bytes(entries.remove(i)) == stat_bytes(entries) - entries[i].bytes,
        entries[i].bytes <= stat_bytes(entries),
        stat_bytes(entries) >= 0,
    decreases entries.len(),
{
    lemma_stat_bytes_nonneg(entries.drop_last());
    if i == entries.len() - 1 {
        assert(entries.remove(i) =~= entries.drop_last());
    } else {
        lemma_stat_bytes_remove(entries.drop_last(), i);
        assert(entries.remove(i).drop_last() =~= entries.drop_last().remove(i));
        assert(entries.remove(i).last() == entries.last());
    }
}

/// What entries hold is not negative.
proof fn lemma_stat_bytes_nonneg(entries: Seq<StatView>)
    ensures
        stat_bytes(entries) >= 0,
    decreases entries.len(),
{
    if entries.len() > 0 {
        lemma_stat_bytes_nonneg(entries.drop_last());
    }
}

/// Changing anything of an entry but its bytes keeps what all hold.
proof fn lemma_stat_bytes_update(entries: Seq<StatView>, i: int, entry: StatView)
    requires
        0 <= i < entries.len(),
        entry.bytes == entries[i].bytes,
    ensures
        stat_bytes(entries.update(i, entry)) == stat_bytes(entries),
    decreases entries.len(),
{
    if i == entries.len() - 1 {
        assert(entries.update(i, entry).drop_last() =~= entries.drop_last());
    } else {
        lemma_stat_bytes_update(entries.drop_last(), i, entry);
        assert(entries.update(i, entry).drop_last() =~= entries.drop_last().update(i, entry));
    }
}

/// The fresh entries are no more, and hold no more, than all.
proof fn lemma_fresh_entries(entries: Seq<StatView>, now: u64, n: int)
    requires
        0 <= n <= entries.len(),
    ensures
        fresh_entries(entries, now, n).len() <= n,
        0 <= stat_bytes(fresh_entries(entries, now, n)) <= stat_bytes(entries.take(n)),
    decreases n,
{
    if n > 0 {
        lemma_fresh_entries(entries, now, n - 1);
        assert(entries.take(n).drop_last() =~= entries.take(n - 1));
        let before = fresh_entries(entries, now, n - 1);
        assert(before.push(entries[n - 1]).drop_last() =~= before);
    }
}

/// The fresh entries without an origin have none of it.
pub(crate) proof fn lemma_fresh_absent(entries: Seq<StatView>, origin: Seq<char>, now: u64, n: int)
    requires
        0 <= n <= entries.len(),
        forall|k: int| 0 <= k < n ==> (#[trigger] entries[k]).origin != origin,
    ensures
        forall|k: int|
            0 <= k < fresh_entries(entries, now, n).len() ==> (#[trigger] fresh_entries(entries, now, n)[k]).origin
                != origin,
    decreases n,
{
    if n > 0 {
        lemma_fresh_absent(entries, origin, now, n - 1);
        assert(entries[n - 1].origin != origin);
        let before = fresh_entries(entries, now, n - 1);
        let after = fresh_entries(entries, now, n);
        assert forall|k: int| 0 <= k < after.len() implies (#[trigger] after[k]).origin != origin by {
            if k < before.len() {
                assert(after[k] == before[k]);
            }
        }
    }
}

/// Where no origin stands twice, none does among the fresh entries.
proof fn lemma_fresh_distinct(entries: Seq<StatView>, now: u64, n: int)
    requires
        0 <= n <= entries.len(),
        origins_distinct(entries),
    ensures
        origins_distinct(fresh_entries(entries, now, n)),
    decreases n,
{
    if n > 0 {
        lemma_fresh_distinct(entries, now, n - 1);
        assert forall|k: int| 0 <= k < n - 1 implies (#[trigger] entries[k]).origin != entries[n - 1].origin by {
        }
        lemma_fresh_absent(entries, entries[n - 1].origin, now, n - 1);
    }
}

/// An entry found is the one asked for, and one not found is absent.
pub(crate) proof fn lemma_stat_of(entries: Seq<StatView>, origin: Seq<char>, from: int)
    requires
        0 <= from,
    ensures
        stat_of(entries, origin, from) matches Some(i) ==> from <= i < entries.len() && entries[i].origin
            == origin,
        stat_of(entries, origin, from) is None ==> forall|k: int|
            from <= k < entries.len() ==> (#[trigger] entries[k]).origin != origin,
    decreases entries.len() - from,
{
    if from < entries.len() && entries[from].origin != origin {
        lemma_stat_of(entries, origin, from + 1);
    }
}

/// An origin that stands at one place only is found there.
pub(crate) proof fn lemma_stat_at(entries: Seq<StatView>, origin: Seq<char>, from: int, at: int)
    requires
        0 <= from <= at < entries.len(),
        entries[at].origin == origin,
        forall|k: int| from <= k < at ==> (#[trigger] entries[k]).origin != origin,
    ensures
        stat_of(entries, origin, from) == Some(at),
    decreases at - from,
{
    if from < at {
        lemma_stat_at(entries, origin, from + 1, at);
    }
}

/// The oldest of some entries is one of them.
pub(crate) proof fn lemma_oldest(entries: Seq<StatView>, n: int)
    requires
        0 <= n <= entries.len(),
    ensures
        n > 0 ==> oldest(entries, n) is Some && 0 <= oldest(entries, n)->0 < n,
        n == 0 ==> oldest(entries, n) is None,
    decreases n,
{
    if n > 0 {
        lemma_oldest(entries, n - 1);
    }
}

fn is_keepable(origin: &str, uri: &Option<UriParts>) -> (r: bool)
    ensures
        r == keepable(origin@, uri_view(*uri)),
{
    if origin.len() > 512 || find_char(&chars_of(origin), '@', 0).is_some() {
        return false;
    }
    let uri = match uri {
        Some(uri) => uri,
        None => return false,
    };
    let known = match &uri.scheme {
        Some(scheme) => same_text(scheme.as_str(), "http") || same_text(scheme.as_str(), "https") || same_text(
            scheme.as_str(),
            "ftp",
        ) || same_text(scheme.as_str(), "ftps") || same_text(scheme.as_str(), "sftp"),
        None => false,
    };
    known && uri.authority.is_some() && (same_text(uri.path.as_str(), "") || same_text(uri.path.as_str(), "/"))
        && uri.query.is_none()
}

impl Default for ServerStatistics {
    fn default() -> (r: Self)
        ensures
            r@ == (StatsView {
                capacity: 4096,
                timeout_ms: 86_400_000,
                bytes: ByteBudget { limit: 4_194_304, used: 0 },
                tick: 0,
                entries: Seq::empty(),
            }),
            r@.valid(),
    {
        ServerStatistics::new(4096, Span::from_secs(86400), ByteBudget::new(4_194_304))
    }
}

impl ServerStatistics {
    pub fn new(capacity: usize, timeout: Span, bytes: ByteBudget) -> (r: Self)
        requires
            bytes.valid(),
        ensures
            r@ == (StatsView {
                capacity: lesser(capacity as int, 4096) as usize,
                timeout_ms: lesser(timeout.spec_millis(), u64::MAX as int) as u64,
                bytes,
                tick: 0,
                entries: Seq::empty(),
            }),
            r@.valid(),
    {
        let r = ServerStatistics {
            capacity: if capacity > 4096 {
                4096
            } else {
                capacity
            },
            timeout_ms: timeout.millis_u64(),
            bytes,
            tick: 0,
            entries: Vec::new(),
        };
        assert(r@.entries =~= Seq::empty());
        r
    }

    pub fn len(&self) -> (r: usize)
        ensures
            r == self@.entries.len(),
    {
        self.entries.len()
    }

    /// Gives up all entries: what they held is free again.
    pub fn close(self) -> (r: ByteBudget)
        requires
            self@.bounded(),
        ensures
            r == (ByteBudget { used: (self@.bytes.used - stat_bytes(self@.entries)) as usize, ..self@.bytes }),
    {
        let mut rest = self;
        while rest.entries.len() > 0
            invariant
                rest@.bounded(),
                rest@.bytes.limit == self@.bytes.limit,
                rest@.bytes.used - stat_bytes(rest@.entries) == self@.bytes.used - stat_bytes(self@.entries),
            decreases rest.entries.len(),
        {
            let last: usize = rest.entries.len() - 1;
            proof {
                lemma_stat_bytes_remove(rest@.entries, last as int);
            }
            rest.drop_entry(last);
        }
        assert(rest@.entries.len() == 0);
        rest.bytes
    }

    pub fn is_empty(&self) -> (r: bool)
        ensures
            r == (self@.entries.len() == 0),
    {
        self.entries.len() == 0
    }

    fn find(&self, origin: &str) -> (r: Option<usize>)
        ensures
            r is Some <==> stat_of(self@.entries, origin@, 0) is Some,
            r matches Some(i) ==> i < self.entries.len() && stat_of(self@.entries, origin@, 0) == Some(i as int),
    {
        let mut i: usize = 0;
        while i < self.entries.len()
            invariant
                i <= self.entries.len(),
                stat_of(self@.entries, origin@, 0) == stat_of(self@.entries, origin@, i as int),
            decreases self.entries.len() - i,
        {
            assert(self@.entries[i as int] == self.entries@[i as int]@);
            if same_text(self.entries[i].origin.as_str(), origin) {
                return Some(i);
            }
            i = i + 1;
        }
        None
    }

    fn drop_entry(&mut self, i: usize)
        requires
            old(self)@.bounded(),
            i < old(self)@.entries.len(),
        ensures
            final(self)@ == without_stat(old(self)@, i as int),
            final(self)@.bounded(),
            old(self)@.valid() ==> final(self)@.valid(),
    {
        proof {
            lemma_stat_bytes_remove(self@.entries, i as int);
            assert(self@.entries[i as int] == self.entries@[i as int]@);
        }
        let entry = self.entries.remove(i);
        self.bytes.release(entry.bytes);
        assert(stat_views(self.entries@) =~= old(self)@.entries.remove(i as int));
    }

    fn put_entry(&mut self, i: usize, feedback: ServerFeedback, updated_ms: u64, timeout_ms: u64, used: u64)
        requires
            old(self)@.bounded(),
            i < old(self)@.entries.len(),
        ensures
            final(self)@ == (StatsView {
                entries: old(self)@.entries.update(
                    i as int,
                    StatView { feedback, updated_ms, timeout_ms, used, ..old(self)@.entries[i as int] },
                ),
                ..old(self)@
            }),
            final(self)@.bounded(),
            old(self)@.valid() ==> final(self)@.valid(),
    {
        let ghost before = self@.entries;
        let bytes: usize = self.entries[i].bytes;
        let origin = self.entries[i].origin.clone();
        let entry = StatEntry { origin, feedback, updated_ms, timeout_ms, used, bytes };
        proof {
            assert(before[i as int] == self.entries@[i as int]@);
            lemma_stat_bytes_update(before, i as int, entry@);
        }
        self.entries.set(i, entry);
        assert(stat_views(self.entries@) =~= before.update(i as int, entry@));
    }

    /// The feedback on an origin at a time.
    pub fn feedback(&mut self, origin: &str, now: u64) -> (r: ServerFeedback)
        requires
            old(self)@.bounded(),
        ensures
            (r, final(self)@) == looked_up(old(self)@, origin@, now, old(self)@.timeout_ms),
            final(self)@.bounded(),
            old(self)@.valid() ==> final(self)@.valid(),
    {
        let timeout_ms = self.timeout_ms;
        self.feedback_at_with_timeout(origin, now, timeout_ms)
    }

    /// The feedback on an origin at a time, if it is younger than a timeout.
    pub fn feedback_with_timeout(&mut self, origin: &str, now: u64, timeout: Span) -> (r: ServerFeedback)
        requires
            old(self)@.bounded(),
        ensures
            (r, final(self)@) == looked_up(
                old(self)@,
                origin@,
                now,
                lesser(timeout.spec_millis(), u64::MAX as int) as u64,
            ),
            final(self)@.bounded(),
            old(self)@.valid() ==> final(self)@.valid(),
    {
        self.feedback_at_with_timeout(origin, now, timeout.millis_u64())
    }

    pub fn feedback_at_with_timeout(&mut self, origin: &str, now: u64, timeout_ms: u64) -> (r: ServerFeedback)
        requires
            old(self)@.bounded(),
        ensures
            (r, final(self)@) == looked_up(old(self)@, origin@, now, timeout_ms),
            final(self)@.bounded(),
            old(self)@.valid() ==> final(self)@.valid(),
    {
        if timeout_ms == 0 {
            return ServerFeedback::default();
        }
        self.tick = self.tick.saturating_add(1);
        assert(self@ =~= ticked(old(self)@));
        if let Some(i) = self.find(origin) {
            assert(self@.entries[i as int] == self.entries@[i as int]@);
            if now.saturating_sub(self.entries[i].updated_ms) >= self.entries[i].timeout_ms {
                self.drop_entry(i);
            }
        } else {
            return ServerFeedback::default();
        }
        match self.find(origin) {
            Some(i) => {
                assert(self@.entries[i as int] == self.entries@[i as int]@);
                if now.saturating_sub(self.entries[i].updated_ms) < timeout_ms {
                    let feedback = self.entries[i].feedback;
                    let tick = self.tick;
                    let updated_ms = self.entries[i].updated_ms;
                    let kept = self.entries[i].timeout_ms;
                    self.put_entry(i, feedback, updated_ms, kept, tick);
                    feedback
                } else {
                    ServerFeedback::default()
                }
            },
            None => ServerFeedback::default(),
        }
    }

    /// Adds one sample on an origin.
    pub fn observe(&mut self, origin: &str, bytes: u64, elapsed: Span, succeeded: bool, now: u64) -> (r: ServerFeedback)
        requires
            old(self)@.bounded(),
        ensures
            (r, final(self)@) == observed(
                old(self)@,
                origin@,
                parsed_uri(origin@),
                bytes,
                elapsed,
                succeeded,
                now,
                old(self)@.timeout_ms,
            ),
            final(self)@.bounded(),
            old(self)@.valid() ==> final(self)@.valid(),
    {
        let timeout_ms = self.timeout_ms;
        self.observe_at_with_timeout(origin, bytes, elapsed, succeeded, now, timeout_ms)
    }

    /// Adds one sample on an origin that is good for a timeout.
    pub fn observe_with_timeout(
        &mut self,
        origin: &str,
        bytes: u64,
        elapsed: Span,
        succeeded: bool,
        now: u64,
        timeout: Span,
    ) -> (r: ServerFeedback)
        requires
            old(self)@.bounded(),
        ensures
            (r, final(self)@) == observed(
                old(self)@,
                origin@,
                parsed_uri(origin@),
                bytes,
                elapsed,
                succeeded,
                now,
                lesser(timeout.spec_millis(), u64::MAX as int) as u64,
            ),
            final(self)@.bounded(),
            old(self)@.valid() ==> final(self)@.valid(),
    {
        self.observe_at_with_timeout(origin, bytes, elapsed, succeeded, now, timeout.millis_u64())
    }

    pub fn observe_at_with_timeout(
        &mut self,
        origin: &str,
        bytes: u64,
        elapsed: Span,
        succeeded: bool,
        now: u64,
        timeout_ms: u64,
    ) -> (r: ServerFeedback)
        requires
            old(self)@.bounded(),
        ensures
            (r, final(self)@) == observed(
                old(self)@,
                origin@,
                parsed_uri(origin@),
                bytes,
                elapsed,
                succeeded,
                now,
                timeout_ms,
            ),
            final(self)@.bounded(),
            old(self)@.valid() ==> final(self)@.valid(),
    {
        let uri = parse_uri(origin);
        self.observe_parsed(origin, &uri, bytes, elapsed, succeeded, now, timeout_ms)
    }

    /// Adds one sample on an origin whose parts as a URI are given, `None` where it
    /// is none.
    pub fn observe_parsed(
        &mut self,
        origin: &str,
        uri: &Option<UriParts>,
        bytes: u64,
        elapsed: Span,
        succeeded: bool,
        now: u64,
        timeout_ms: u64,
    ) -> (r: ServerFeedback)
        requires
            old(self)@.bounded(),
        ensures
            (r, final(self)@) == observed(
                old(self)@,
                origin@,
                uri_view(*uri),
                bytes,
                elapsed,
                succeeded,
                now,
                timeout_ms,
            ),
            final(self)@.bounded(),
            old(self)@.valid() && uri_view(*uri) == parsed_uri(origin@) ==> final(self)@.valid(),
    {
        if self.capacity == 0 || timeout_ms == 0 || !is_keepable(origin, uri) {
            return ServerFeedback::default();
        }
        self.tick = self.tick.saturating_add(1);
        assert(self@ =~= ticked(old(self)@));
        if !self.hold(origin, now, timeout_ms) {
            return ServerFeedback::default();
        }
        let i = match self.find(origin) {
            Some(i) => i,
            None => return ServerFeedback::default(),
        };
        assert(self@.entries[i as int] == self.entries@[i as int]@);
        let limit: u64 = if self.entries[i].timeout_ms <= timeout_ms {
            self.entries[i].timeout_ms
        } else {
            timeout_ms
        };
        let mut feedback = if now.saturating_sub(self.entries[i].updated_ms) >= limit {
            ServerFeedback::default()
        } else {
            self.entries[i].feedback
        };
        feedback.observe(bytes, elapsed, succeeded);
        let tick = self.tick;
        self.put_entry(i, feedback, now, timeout_ms, tick);
        feedback
    }

    /// Makes sure that there is an entry for an origin, and reports whether there is.
    fn hold(&mut self, origin: &str, now: u64, timeout_ms: u64) -> (r: bool)
        requires
            old(self)@.bounded(),
            old(self)@.capacity > 0,
        ensures
            (r, final(self)@) == with_stat(old(self)@, origin@, now, timeout_ms),
            final(self)@.bounded(),
            old(self)@.valid() && keepable(origin@, parsed_uri(origin@)) ==> final(self)@.valid(),
            r ==> stat_of(final(self)@.entries, origin@, 0) is Some,
    {
        if self.find(origin).is_some() {
            return true;
        }
        proof {
            lemma_stat_of(self@.entries, origin@, 0);
        }
        self.make_room(now);
        let ghost room = self@;
        let charge: usize = origin.len().saturating_add(256);
        if !self.bytes.try_acquire(charge) {
            assert(self@ =~= room);
            return false;
        }
        let tick = self.tick;
        let entry = StatEntry {
            origin: origin.to_owned(),
            feedback: ServerFeedback::default(),
            updated_ms: now,
            timeout_ms,
            used: tick,
            bytes: charge,
        };
        self.entries.push(entry);
        proof {
            assert(stat_views(self.entries@) =~= room.entries.push(entry@));
            assert(room.entries.push(entry@).drop_last() =~= room.entries);
            assert(forall|k: int| 0 <= k < room.entries.len() ==> (#[trigger] room.entries[k]).origin != origin@) by {
                lemma_made_room_absent(old(self)@, origin@, now);
            }
            lemma_stat_at(self@.entries, origin@, 0, room.entries.len() as int);
        }
        true
    }

    /// Drops what is stale, and what was used longest ago where the number is reached.
    fn make_room(&mut self, now: u64)
        requires
            old(self)@.bounded(),
            old(self)@.capacity > 0,
        ensures
            final(self)@ == made_room(old(self)@, now),
            final(self)@.bounded(),
            old(self)@.valid() ==> final(self)@.valid(),
            final(self)@.entries.len() < final(self)@.capacity,
    {
        let ghost all = self@.entries;
        proof {
            lemma_fresh_entries(all, now, all.len() as int);
            assert(all.take(all.len() as int) =~= all);
        }
        let mut i: usize = 0;
        let mut kept: Vec<StatEntry> = Vec::new();
        let mut held: usize = 0;
        let mut total: usize = 0;
        assert(stat_views(kept@) =~= fresh_entries(all, now, 0));
        while i < self.entries.len()
            invariant
                i <= self.entries.len(),
                *self == *old(self),
                all == self@.entries,
                self@.bounded(),
                stat_views(kept@) == fresh_entries(all, now, i as int),
                held == stat_bytes(stat_views(kept@)),
                total == stat_bytes(all.take(i as int)),
                held <= total,
                origins_keepable(all) ==> origins_keepable(stat_views(kept@)),
            decreases self.entries.len() - i,
        {
            let entry = &self.entries[i];
            assert(all[i as int] == self.entries@[i as int]@);
            assert(all.take(i as int + 1).drop_last() =~= all.take(i as int));
            proof {
                lemma_stat_bytes_prefix(all, i as int + 1);
            }
            total = total + entry.bytes;
            if now.saturating_sub(entry.updated_ms) < entry.timeout_ms {
                let copy = StatEntry {
                    origin: entry.origin.clone(),
                    feedback: entry.feedback,
                    updated_ms: entry.updated_ms,
                    timeout_ms: entry.timeout_ms,
                    used: entry.used,
                    bytes: entry.bytes,
                };
                let ghost before = stat_views(kept@);
                held = held + copy.bytes;
                kept.push(copy);
                assert(stat_views(kept@) =~= before.push(copy@));
                assert(before.push(copy@).drop_last() =~= before);
            }
            i = i + 1;
        }
        assert(all.take(all.len() as int) =~= all);
        let freed: usize = total - held;
        self.entries = kept;
        self.bytes.release(freed);
        let ghost fresh = self@;
        assert(fresh.bounded());
        proof {
            if origins_distinct(all) {
                lemma_fresh_distinct(all, now, all.len() as int);
            }
        }
        if self.entries.len() >= self.capacity {
            let mut best: usize = 0;
            let mut k: usize = 1;
            proof {
                assert(oldest(fresh.entries, 0) is None);
                assert(oldest(fresh.entries, 1) == Some(0int));
            }
            while k < self.entries.len()
                invariant
                    1 <= k <= self.entries.len(),
                    best < k,
                    self@ == fresh,
                    oldest(fresh.entries, k as int) == Some(best as int),
                decreases self.entries.len() - k,
            {
                assert(fresh.entries[k as int] == self.entries@[k as int]@);
                assert(fresh.entries[best as int] == self.entries@[best as int]@);
                let a = &self.entries[k];
                let b = &self.entries[best];
                if a.used < b.used || (a.used == b.used && stands_before(
                    &chars_of(a.origin.as_str()),
                    &chars_of(b.origin.as_str()),
                )) {
                    best = k;
                }
                k = k + 1;
            }
            self.drop_entry(best);
        }
    }
}

/// What the first entries hold is part of what all hold.
proof fn lemma_stat_bytes_prefix(entries: Seq<StatView>, n: int)
    requires
        0 <= n <= entries.len(),
    ensures
        0 <= stat_bytes(entries.take(n)) <= stat_bytes(entries),
    decreases entries.len() - n,
{
    lemma_stat_bytes_nonneg(entries.take(n));
    if n < entries.len() {
        lemma_stat_bytes_prefix(entries, n + 1);
        assert(entries.take(n + 1).drop_last() =~= entries.take(n));
    } else {
        assert(entries.take(n) =~= entries);
    }
}

/// Making room brings no origin in.
proof fn lemma_made_room_absent(stats: StatsView, origin: Seq<char>, now: u64)
    requires
        forall|k: int| 0 <= k < stats.entries.len() ==> (#[trigger] stats.entries[k]).origin != origin,
    ensures
        forall|k: int|
            0 <= k < made_room(stats, now).entries.len() ==> (#[trigger] made_room(stats, now).entries[k]).origin
                != origin,
{
    let n = stats.entries.len() as int;
    lemma_fresh_absent(stats.entries, origin, now, n);
    let fresh = fresh_entries(stats.entries, now, n);
    lemma_oldest(fresh, fresh.len() as int);
    let room = made_room(stats, now).entries;
    assert forall|k: int| 0 <= k < room.len() implies (#[trigger] room[k]).origin != origin by {
        if fresh.len() >= stats.capacity && fresh.len() > 0 {
            let i = oldest(fresh, fresh.len() as int)->0;
            let x = if k < i {
                k
            } else {
                k + 1
            };
            assert(room[k] == fresh[x]);
        } else {
            assert(room[k] == fresh[k]);
        }
    }
}

/// Feedback that was just given is what a read gives, as long as it has not outlived
/// the timeout; a refused origin is read as it was answered. Reading keeps the
/// number of entries.
pub proof fn law_a_read_gives_what_was_observed(
    stats: StatsView,
    origin: Seq<char>,
    bytes: u64,
    elapsed: Span,
    succeeded: bool,
    now: u64,
    later: u64,
)
    requires
        stats.valid(),
        stats.timeout_ms == 0 || since(later, now) < stats.timeout_ms,
    ensures
        ({
            let (feedback, after) = observed(
                stats,
                origin,
                parsed_uri(origin),
                bytes,
                elapsed,
                succeeded,
                now,
                stats.timeout_ms,
            );
            let (read, left) = looked_up(after, origin, later, after.timeout_ms);
            read == feedback && left.entries.len() == after.entries.len()
        }),
{
    let timeout_ms = stats.timeout_ms;
    lemma_stat_of(stats.entries, origin, 0);
    if stats.capacity > 0 && timeout_ms > 0 && keepable(origin, parsed_uri(origin)) {
        let (held, next) = with_stat(ticked(stats), origin, now, timeout_ms);
        if stat_of(stats.entries, origin, 0) is None {
            let room = made_room(ticked(stats), now);
            lemma_made_room_absent(ticked(stats), origin, now);
            if held {
                lemma_stat_at(next.entries, origin, 0, room.entries.len() as int);
            } else {
                lemma_stat_of(next.entries, origin, 0);
            }
        }
        if held {
            lemma_stat_of(next.entries, origin, 0);
            let i = stat_of(next.entries, origin, 0)->0;
            let entry = resampled(next.entries[i], bytes, elapsed, succeeded, now, timeout_ms, next.tick);
            let after = next.entries.update(i, entry);
            lemma_stat_first(next.entries, origin, 0, i);
            lemma_stat_at(after, origin, 0, i);
        }
    }
}

/// No entry before the first of an origin is of it.
proof fn lemma_stat_first(entries: Seq<StatView>, origin: Seq<char>, from: int, at: int)
    requires
        0 <= from,
        stat_of(entries, origin, from) == Some(at),
    ensures
        forall|k: int| from <= k < at ==> (#[trigger] entries[k]).origin != origin,
    decreases entries.len() - from,
{
    if from < entries.len() && entries[from].origin != origin {
        lemma_stat_first(entries, origin, from + 1, at);
    }
}

/// Failures never count beyond the point where they stop to matter.
pub proof fn law_failures_are_bounded(feedback: ServerFeedback, bytes: u64, elapsed: Span, succeeded: bool)
    requires
        feedback.failures <= 32,
    ensures
        sampled(feedback, bytes, elapsed, succeeded).failures <= 32,
{
}

/// A failed sample never raises a server's score, whether or not the server has been
/// sampled before. A server without samples carries no speed of its own.
pub proof fn law_failure_never_raises_the_score(feedback: ServerFeedback, bytes: u64, elapsed: Span, concurrent: nat)
    requires
        feedback.samples == 0 ==> feedback.bytes_per_second == 0,
        feedback.failures <= 32,
    ensures
        rated(sampled(feedback, bytes, elapsed, false), concurrent as int) <= rated(feedback, concurrent as int),
{
    let after = sampled(feedback, bytes, elapsed, false);
    let speed = feedback.bytes_per_second as int;
    let standing: int = if feedback.samples == 0 {
        1_048_576
    } else {
        speed
    };
    let a = feedback.failures as int + 1;
    let b = after.failures as int + 1;
    let c = concurrent as int + 1;
    assert(a <= b);
    assert(after.samples > 0);
    assert(speed / b <= standing / a) by (nonlinear_arith)
        requires
            0 <= speed <= standing,
            1 <= a <= b,
    ;
    assert((speed / b) / c <= (standing / a) / c) by (nonlinear_arith)
        requires
            0 <= speed / b <= standing / a,
            c >= 1,
    ;
}

/// The first sample of a server sets its speed: the whole bytes that went through in
/// a second, for every time that can be measured.
pub proof fn law_the_first_sample_sets_the_speed(feedback: ServerFeedback, bytes: u64, elapsed: Span)
    requires
        feedback.samples == 0,
    ensures
        ({
            let after = sampled(feedback, bytes, elapsed, true);
            let speed = after.bytes_per_second as int;
            let micros = elapsed.seconds * 1_000_000 + elapsed.nanos / 1000;
            &&& after.samples == 1
            &&& micros > 0 ==> speed * micros <= bytes * 1_000_000
            &&& micros == 0 ==> speed <= bytes * 1_000_000
            &&& speed < u64::MAX && micros > 0 ==> bytes * 1_000_000 < (speed + 1) * micros
            &&& speed < u64::MAX && micros == 0 ==> bytes * 1_000_000 < speed + 1
        }),
{
    let after = sampled(feedback, bytes, elapsed, true);
    let speed = after.bytes_per_second as int;
    let micros = elapsed.seconds * 1_000_000 + elapsed.nanos / 1000;
    let moved = bytes * 1_000_000;
    if micros > 0 {
        let whole = moved / micros;
        assert(whole * micros <= moved < (whole + 1) * micros && whole >= 0) by (nonlinear_arith)
            requires
                micros > 0,
                moved >= 0,
                whole == moved / micros,
        ;
        assert(speed * micros <= whole * micros) by (nonlinear_arith)
            requires
                micros > 0,
                speed <= whole,
        ;
    }
}

/// A successful sample moves the speed of a server by a quarter of the way to its own,
/// which is what a server without samples would hold after it: a faster sample raises
/// the speed, a slower one lowers it, and the speed stays between the two. Where three
/// times the speed and the sample's are beyond 64 bits, it is a quarter of what fits.
pub proof fn law_a_sample_moves_the_speed_toward_its_own(feedback: ServerFeedback, bytes: u64, elapsed: Span)
    requires
        feedback.samples > 0,
    ensures
        ({
            let held = feedback.bytes_per_second as int;
            let own = sampled(no_feedback(), bytes, elapsed, true).bytes_per_second as int;
            let speed = sampled(feedback, bytes, elapsed, true).bytes_per_second as int;
            &&& 3 * held + own <= u64::MAX ==> {
                &&& 4 * (speed - held) <= own - held < 4 * (speed - held) + 4
                &&& own >= held + 4 ==> held < speed <= own
                &&& own <= held - 4 ==> own <= speed < held
                &&& own == held ==> speed == held
            }
            &&& 3 * held + own > u64::MAX ==> 4 * speed <= u64::MAX < 4 * speed + 4
        }),
{
}

/// Every sample counts, a failed one leaves the speed as it was, and failures are what
/// a success makes good: each takes one back, down to none.
pub proof fn law_samples_and_failures_count(feedback: ServerFeedback, bytes: u64, elapsed: Span)
    ensures
        forall|succeeded: bool|
            feedback.samples < u32::MAX ==> (#[trigger] sampled(feedback, bytes, elapsed, succeeded)).samples
                == feedback.samples + 1,
        forall|succeeded: bool|
            feedback.samples == u32::MAX ==> (#[trigger] sampled(feedback, bytes, elapsed, succeeded)).samples
                == u32::MAX,
        sampled(feedback, bytes, elapsed, false).bytes_per_second == feedback.bytes_per_second,
        feedback.failures < 32 ==> sampled(feedback, bytes, elapsed, false).failures == feedback.failures + 1,
        feedback.failures > 0 ==> sampled(feedback, bytes, elapsed, true).failures + 1 == feedback.failures,
        feedback.failures == 0 ==> sampled(feedback, bytes, elapsed, true).failures == 0,
{
}

/// The score of a server is its speed shared by its failures and by the transfers
/// beside the new one, in whole bytes; a server without samples counts as one of a
/// mebibyte per second.
pub proof fn law_the_score_shares_the_speed(feedback: ServerFeedback, concurrent: nat)
    ensures
        ({
            let score = rated(feedback, concurrent as int);
            let shares = (feedback.failures + 1) * (concurrent + 1);
            let speed: int = if feedback.samples > 0 {
                feedback.bytes_per_second as int
            } else {
                1_048_576
            };
            0 <= score && score * shares <= speed < (score + 1) * shares
        }),
{
    let speed: int = if feedback.samples > 0 {
        feedback.bytes_per_second as int
    } else {
        1_048_576
    };
    let a = feedback.failures + 1;
    let b: int = concurrent as int + 1;
    let first = speed / a;
    let score = first / b;
    assert(first * a <= speed < (first + 1) * a && first >= 0) by (nonlinear_arith)
        requires
            a > 0,
            speed >= 0,
            first == speed / a,
    ;
    assert(score * b <= first < (score + 1) * b && score >= 0) by (nonlinear_arith)
        requires
            b > 0,
            first >= 0,
            score == first / b,
    ;
    assert(score * (a * b) <= speed) by (nonlinear_arith)
        requires
            score * b <= first,
            first * a <= speed,
            a > 0,
    ;
    assert(speed < (score + 1) * (a * b)) by (nonlinear_arith)
        requires
            first + 1 <= (score + 1) * b,
            speed < (first + 1) * a,
            a > 0,
    ;
}

/// Of two servers with as many failures and transfers, the faster scores no less; and
/// neither a failure more nor a transfer more raises a score.
pub proof fn law_scores_rank_servers(a: ServerFeedback, b: ServerFeedback, beside_a: nat, beside_b: nat)
    requires
        a.samples > 0,
        b.samples > 0,
        a.bytes_per_second >= b.bytes_per_second,
        a.failures <= b.failures,
        beside_a <= beside_b,
    ensures
        rated(a, beside_a as int) >= rated(b, beside_b as int),
{
    law_the_score_shares_the_speed(a, beside_a);
    law_the_score_shares_the_speed(b, beside_b);
    let (x, y) = (rated(a, beside_a as int), rated(b, beside_b as int));
    let (m, n) = ((a.failures + 1) * (beside_a + 1), (b.failures + 1) * (beside_b + 1));
    assert(m <= n) by (nonlinear_arith)
        requires
            m == (a.failures + 1) * (beside_a + 1),
            n == (b.failures + 1) * (beside_b + 1),
            a.failures <= b.failures,
            beside_a <= beside_b,
    ;
    if x < y {
        assert(y * m <= y * n) by (nonlinear_arith)
            requires
                y >= 0,
                m <= n,
        ;
        assert((x + 1) * m <= y * m) by (nonlinear_arith)
            requires
                x + 1 <= y,
                m >= 0,
        ;
        assert(m >= 0) by (nonlinear_arith)
            requires
                m == (a.failures + 1) * (beside_a + 1),
        ;
    }
}

/// Observing a transfer adds one sample to what a read would have given at that time,
/// as long as the timeout has not changed; where nothing was read, the sample is the
/// first.
pub proof fn law_observing_adds_to_what_was_read(
    stats: StatsView,
    origin: Seq<char>,
    bytes: u64,
    elapsed: Span,
    succeeded: bool,
    now: u64,
)
    requires
        stats.valid(),
        stats.timeout_ms > 0,
        stats.capacity > 0,
        keepable(origin, parsed_uri(origin)),
    ensures
        ({
            let read = looked_up(stats, origin, now, stats.timeout_ms).0;
            let (feedback, after) = observed(
                stats,
                origin,
                parsed_uri(origin),
                bytes,
                elapsed,
                succeeded,
                now,
                stats.timeout_ms,
            );
            (exists|i: int| 0 <= i < after.entries.len() && (#[trigger] after.entries[i]).origin == origin) ==> feedback
                == sampled(read, bytes, elapsed, succeeded)
        }),
{
    let timeout_ms = stats.timeout_ms;
    let next = ticked(stats);
    lemma_stat_of(stats.entries, origin, 0);
    match stat_of(stats.entries, origin, 0) {
        Some(i) => {
            if stale(stats.entries[i], now) {
                let left = without_stat(next, i);
                lemma_stat_of(left.entries, origin, 0);
                match stat_of(left.entries, origin, 0) {
                    Some(j) => {
                    },
                    None => {
                    },
                }
            }
        },
        None => {
            lemma_made_room_absent(next, origin, now);
            let room = made_room(next, now);
            let (held, with) = with_stat(next, origin, now, timeout_ms);
            if held {
                lemma_stat_at(with.entries, origin, 0, room.entries.len() as int);
            }
        },
    }
}

} // verus!
