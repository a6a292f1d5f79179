//! Laws of SFTP: which hosts a file speaks of, how much is read at once, and in which order a
//! server is asked.
use vstd::prelude::*;
use crate::connection_laws::bracketed;
use crate::known_hosts::{
    hosts_hold, known_line, known_name, line_end, line_key, line_taken, lines_taken, HostNamesView, KnownHostsView,
    KnownMarker,
};
use crate::sftp::{asks_password, fault_failure, read_limit, sftp_target_of, Prompt, SftpFault};
use crate::sftp_connect::{
    identity_from, sftp_run, sftp_step, AuthReply, SftpEvent, SftpOptions, SftpStage,
};
use crate::text::{decimal_digits, law_decimal_round_trip, lower, lower_text, same_but_case};
use crate::transport::ProtocolFailure;
use crate::urls::UrlPartsView;

verus! {

/// As much is read at once as all allow: the setting, the server where it states a limit, and
/// the room of a packet.
pub proof fn law_reads_are_as_large_as_all_allow(setting: usize, server: Option<u64>, packet: u32)
    ensures
        ({
            let most = read_limit(setting, server, packet);
            &&& 0 <= most <= setting
            &&& packet >= 13 ==> most + 13 <= packet
            &&& packet < 13 ==> most == 0
            &&& server matches Some(limit) ==> limit > 0 ==> most <= limit
            &&& most == setting || most + 13 == packet || (packet < 13 && most == 0) || (server matches Some(limit)
                && limit > 0 && most == limit)
        }),
{
}

/// Only a lone question for the password, whose answer is not shown, is answered with it.
pub proof fn law_the_password_answers_one_question(prompts: Seq<Prompt>)
    requires
        asks_password(prompts),
    ensures
        prompts.len() == 1,
        !prompts[0].echo,
{
}

/// Faults of the connection and of time can be tried again; those of rights and of the
/// protocol cannot.
pub proof fn law_faults_are_told_by_their_cause(fault: SftpFault)
    ensures
        fault is Timeout ==> fault_failure(fault) is Timeout,
        fault is SessionClosed || fault is Io || fault is Status ==> fault_failure(fault) is Data,
        fault is PermissionDenied ==> fault_failure(fault) is AuthFailure,
        fault is PacketTooLarge || fault is RequestLimit || fault is Limited ==> fault_failure(fault) is ResourceLimit,
        fault is Other ==> fault_failure(fault) is Malformed,
        fault_failure(fault).spec_retryable() <==> fault is Timeout || fault is SessionClosed || fault is Io
            || fault is Status,
{
}

/// A session goes to the host of its URL in small letters, at its port or port 22, for its
/// path.
pub proof fn law_sessions_go_where_urls_point(parts: UrlPartsView)
    ensures
        sftp_target_of(parts) is Some <==> parts.host is Some,
        sftp_target_of(parts) matches Some((host, port, path)) ==> {
            &&& path == parts.path
            &&& parts.port is Some ==> parts.port == Some(port)
            &&& parts.port is None ==> port == 22
            &&& !parts.host->0.contains('[') && !parts.host->0.contains(']') ==> same_but_case(host, parts.host->0)
                && host == lower_text(parts.host->0)
        },
{
    if let Some(host) = parts.host {
        if !host.contains('[') && !host.contains(']') {
            if host.len() > 0 {
                assert(host.contains(host[0]));
                assert(host.contains(host.last()));
            }
            assert forall|i: int| 0 <= i < host.len() implies lower(#[trigger] lower_text(host)[i]) == lower(host[i]) by {
            }
        }
    }
}

/// A host is looked up under the same name however its letters are written, and under another
/// name at another port.
pub proof fn law_hosts_are_looked_up_by_name_and_port(a: Seq<char>, b: Seq<char>, p: u16, q: u16)
    requires
        same_but_case(a, b),
    ensures
        p == q ==> known_name(a, p) == known_name(b, q),
        p != q && p != 22 && q != 22 ==> known_name(a, p) != known_name(b, q),
        p == 22 ==> known_name(a, p) == lower_text(a),
        p != 22 ==> known_name(a, p) == bracketed(lower_text(a)) + seq![':'] + decimal_digits(p as nat),
{
    assert(lower_text(a) =~= lower_text(b)) by {
        assert forall|i: int| 0 <= i < a.len() implies lower_text(a)[i] == lower_text(b)[i] by {
            assert(lower(a[i]) == lower(b[i]));
        }
    }
    reveal_strlit("[");
    reveal_strlit("]:");
    assert("["@ =~= seq!['[']);
    assert("]:"@ =~= seq![']', ':']);
    if p != 22 {
        assert(known_name(a, p) =~= bracketed(lower_text(a)) + seq![':'] + decimal_digits(p as nat));
    }
    if p != q && p != 22 && q != 22 && known_name(a, p) == known_name(b, q) {
        let head = "["@ + lower_text(a) + "]:"@;
        assert(known_name(a, p).skip(head.len() as int) =~= decimal_digits(p as nat));
        assert(known_name(b, q).skip(head.len() as int) =~= decimal_digits(q as nat));
        law_decimal_round_trip(p as nat, u16::MAX as int);
        law_decimal_round_trip(q as nat, u16::MAX as int);
    }
}

/// A line gives a key only where its names hold the host, and then the very key and mark that it
/// writes; a line that holds the host and cannot be read is not passed over.
pub proof fn law_lines_speak_for_the_hosts_they_name(
    names: HostNamesView,
    entry: Option<(Option<KnownMarker>, Option<Seq<u8>>)>,
    complete: bool,
    host: Seq<char>,
)
    ensures
        !hosts_hold(names, host) ==> line_key(Some(names), entry, complete, host) == Ok::<
            Option<(Option<KnownMarker>, Seq<u8>)>,
            ProtocolFailure,
        >(None),
        hosts_hold(names, host) && !complete ==> line_key(Some(names), entry, complete, host) is Err,
        hosts_hold(names, host) && complete ==> match entry {
            Some((marker, Some(key))) => line_key(Some(names), entry, complete, host) == Ok::<
                Option<(Option<KnownMarker>, Seq<u8>)>,
                ProtocolFailure,
            >(Some((marker, key))),
            _ => line_key(Some(names), entry, complete, host) is Err,
        },
        line_key(None, entry, complete, host) is Err,
{
}

/// Empty lines and comments say nothing.
pub proof fn law_comments_say_nothing(text: Seq<char>, host: Seq<char>)
    requires
        text.len() == 0 || text[0] == '#',
    ensures
        known_line(text, host) == Ok::<Option<(Option<KnownMarker>, Seq<u8>)>, ProtocolFailure>(None),
{
}

/// A list is accepted only by the first identity that is a key, and none once no key is
/// asked for.
pub proof fn law_the_agents_first_key_is_tried(keys: Seq<bool>, from: int, reply: AuthReply)
    requires
        0 <= from,
    ensures
        identity_from(keys, from, reply) matches Some(i) ==> from <= i < keys.len() && keys[i] && reply.offers_key()
            && forall|k: int| from <= k < i ==> !(#[trigger] keys[k]),
        identity_from(keys, from, reply) is None ==> !reply.offers_key() || forall|k: int|
            from <= k < keys.len() ==> !(#[trigger] keys[k]),
    decreases keys.len() - from,
{
    if from < keys.len() && reply.offers_key() && !keys[from] {
        law_the_agents_first_key_is_tried(keys, from + 1, reply);
    }
}

/// A channel is opened only right after the server has accepted who is asking.
pub proof fn law_channels_open_after_authentication(options: SftpOptions, events: Seq<SftpEvent>)
    requires
        sftp_run(options, events).1 is OpenChannel,
    ensures
        events.len() > 0,
        events.last() == SftpEvent::Answered(AuthReply::Success) || events.last() is KeyboardSuccess,
{
}

/// What the server does not offer is not tried, and neither is what there is none of: no key
/// without one in the settings, no agent, no password.
pub proof fn law_only_what_is_offered_is_tried(stage: SftpStage, options: SftpOptions, reply: AuthReply)
    ensures
        ({
            let next = sftp_step(stage, options, SftpEvent::Answered(reply)).1;
            &&& next is LoadKey ==> options.private_key && reply.offers_key()
            &&& next is AcquireAgent ==> options.agent && reply.offers_key()
            &&& next is AuthenticatePassword ==> reply.offers_password()
            &&& next is StartKeyboard ==> reply.offers_keyboard()
            &&& next is AuthenticatePassword || next is StartKeyboard ==> {
                ||| stage matches SftpStage::AuthNone { password } && password
                ||| stage matches SftpStage::PublicKey { password } && password
                ||| stage matches SftpStage::Agent { password } && password
                ||| stage matches SftpStage::Password { password } && password
            }
            &&& stage is AuthNone && reply.offers_key() && options.private_key ==> next is LoadKey
            &&& stage is AuthNone && reply.offers_key() && !options.private_key && options.agent ==> next is AcquireAgent
            &&& (stage matches SftpStage::AuthNone { password } && password) && !reply.offers_key()
                && reply.offers_password() ==> next is AuthenticatePassword
            &&& (stage matches SftpStage::Password { password } && password) && reply.offers_keyboard()
                ==> next is StartKeyboard
        }),
{
}

/// The end of a line stands in what comes before a break.
proof fn lemma_line_end(a: Seq<u8>, b: Seq<u8>, from: int)
    requires
        0 <= from < a.len(),
        a.last() == 0x0a,
    ensures
        line_end(a, from) == line_end(a + b, from),
        from < line_end(a, from) <= a.len(),
    decreases a.len() - from,
{
    assert((a + b)[from] == a[from]);
    if a[from] != 0x0a {
        assert(from + 1 < a.len());
        lemma_line_end(a, b, from + 1);
    }
}

proof fn lemma_line_end_after(a: Seq<u8>, b: Seq<u8>, from: int)
    requires
        0 <= from,
    ensures
        line_end(a + b, a.len() + from) == a.len() + line_end(b, from),
    decreases b.len() - from,
{
    if from < b.len() {
        assert((a + b)[a.len() + from] == b[from]);
        if b[from] != 0x0a {
            lemma_line_end_after(a, b, from + 1);
        }
    }
}

proof fn lemma_lines_after(
    state: KnownHostsView,
    a: Seq<u8>,
    b: Seq<u8>,
    from: int,
    host: Seq<char>,
    limit: usize,
    rooms: Seq<usize>,
)
    requires
        0 <= from,
    ensures
        lines_taken(state, a + b, a.len() + from, host, limit, rooms) == lines_taken(state, b, from, host, limit, rooms),
    decreases b.len() - from,
{
    lemma_line_end_after(a, b, from);
    if from < b.len() {
        let end = line_end(b, from);
        if from < end && end <= b.len() {
            assert((a + b).subrange(a.len() + from, a.len() + end) =~= b.subrange(from, end));
            if let Ok(next) = line_taken(state, b.subrange(from, end), host, limit, rooms[state.lines]) {
                lemma_lines_after(next, a, b, end, host, limit, rooms);
            }
        }
    }
}

proof fn lemma_lines_join(
    state: KnownHostsView,
    a: Seq<u8>,
    b: Seq<u8>,
    from: int,
    host: Seq<char>,
    limit: usize,
    rooms: Seq<usize>,
)
    requires
        0 <= from <= a.len(),
        a.len() > 0,
        a.last() == 0x0a,
    ensures
        lines_taken(state, a + b, from, host, limit, rooms) == match lines_taken(state, a, from, host, limit, rooms) {
            Ok(next) => lines_taken(next, b, 0, host, limit, rooms),
            Err(failure) => Err(failure),
        },
    decreases a.len() - from,
{
    if from < a.len() {
        lemma_line_end(a, b, from);
        let end = line_end(a, from);
        assert((a + b).subrange(from, end) =~= a.subrange(from, end));
        if let Ok(next) = line_taken(state, a.subrange(from, end), host, limit, rooms[state.lines]) {
            lemma_lines_join(next, a, b, end, host, limit, rooms);
        }
    } else {
        lemma_lines_after(state, a, b, 0, host, limit, rooms);
    }
}

/// A file is read line by line: its first lines and then the rest give what the whole
/// gives.
pub proof fn law_files_are_read_line_by_line(
    state: KnownHostsView,
    a: Seq<u8>,
    b: Seq<u8>,
    host: Seq<char>,
    limit: usize,
    rooms: Seq<usize>,
)
    requires
        a.len() > 0,
        a.last() == 0x0a,
    ensures
        lines_taken(state, a + b, 0, host, limit, rooms) == match lines_taken(state, a, 0, host, limit, rooms) {
            Ok(next) => lines_taken(next, b, 0, host, limit, rooms),
            Err(failure) => Err(failure),
        },
{
    lemma_lines_join(state, a, b, 0, host, limit, rooms);
}

} // verus!
