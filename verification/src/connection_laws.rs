//! Laws of connecting: what a failure is told as, where a connection goes, and which
//! host keys are trusted.
use vstd::prelude::*;
use vstd::utf8::encode_utf8;
use crate::bytes::{big_endian, byte_range, low_bytes, sha256_of};
use crate::host_trust::{challenge_material, digest_verdict, loaded, raised, verdict, HostTrustView};
use crate::known_hosts::KnownMarker;
use crate::protocols::ProtocolTable;
use crate::task_status::HostKeyChallenge;
use crate::text::{without_leading, without_trailing};
use crate::transport::{
    connect_run, target_of, ConnectAction, ConnectEvent, ConnectRoute, ConnectStage, ProtocolConnect, ProtocolFailure,
};
use crate::urls::UrlPartsView;

verus! {

/// A failure is tried again only where it lies in the network or in time; all that concerns
/// who the peer is, or what it may do, has a kind of its own.
pub proof fn law_failures_are_told_by_their_cause(failure: ProtocolFailure)
    ensures
        failure.spec_retryable() ==> failure.spec_kind() is Network || failure.spec_kind() is Timeout,
        failure.spec_kind() is Timeout <==> failure is Timeout,
        failure.spec_kind() is Cancelled <==> failure is Cancelled,
        failure.spec_kind() is NeedsCredentials <==> failure is AuthFailure,
        failure.spec_kind() is ResourceLimit <==> failure is ResourceLimit,
        failure.spec_kind() is StaleValidator <==> failure is StaleValidator,
        failure.spec_kind() is HostKeyApprovalRequired <==> failure is HostKeyApprovalRequired,
        failure.spec_kind() is Permission <==> failure is UnsafeDestination || failure is Tls
            || failure is HostKeyMismatch,
        failure is Connect || failure is Control || failure is Data ==> failure.spec_kind() is Network
            && failure.spec_retryable(),
        failure is Timeout ==> failure.spec_retryable(),
        failure is SizeUnsupported || failure is ResumeUnsupported || failure is Malformed ==> failure.spec_kind()
            is Network && !failure.spec_retryable(),
{
}

/// No two failures share a code.
pub proof fn law_failure_codes_differ(a: ProtocolFailure, b: ProtocolFailure)
    requires
        a.spec_code() == b.spec_code(),
    ensures
        a == b,
{
    reveal_strlit("UnsafeDestination");
    reveal_strlit("ProtocolConnect");
    reveal_strlit("ControlConnection");
    reveal_strlit("DataConnection");
    reveal_strlit("SizeUnsupported");
    reveal_strlit("ResumeUnsupported");
    reveal_strlit("AuthFailure");
    reveal_strlit("MalformedProtocol");
    reveal_strlit("ProtocolTls");
    reveal_strlit("HostKeyMismatch");
    reveal_strlit("HostKeyApprovalRequired");
    reveal_strlit("ResourceLimit");
    reveal_strlit("Cancelled");
    reveal_strlit("ProtocolTimeout");
    reveal_strlit("StaleValidator");
    assert("UnsafeDestination"@.len() == 17 && "UnsafeDestination"@[0] == 'U');
    assert("ControlConnection"@.len() == 17 && "ControlConnection"@[0] == 'C');
    assert("ResumeUnsupported"@.len() == 17 && "ResumeUnsupported"@[0] == 'R');
    assert("MalformedProtocol"@.len() == 17 && "MalformedProtocol"@[0] == 'M');
    assert("ProtocolConnect"@.len() == 15 && "ProtocolConnect"@[0] == 'P' && "ProtocolConnect"@[8] == 'C');
    assert("SizeUnsupported"@.len() == 15 && "SizeUnsupported"@[0] == 'S');
    assert("HostKeyMismatch"@.len() == 15 && "HostKeyMismatch"@[0] == 'H');
    assert("ProtocolTimeout"@.len() == 15 && "ProtocolTimeout"@[0] == 'P' && "ProtocolTimeout"@[8] == 'T');
    assert("DataConnection"@.len() == 14 && "DataConnection"@[0] == 'D');
    assert("StaleValidator"@.len() == 14 && "StaleValidator"@[0] == 'S');
    assert("AuthFailure"@.len() == 11 && "AuthFailure"@[0] == 'A');
    assert("ProtocolTls"@.len() == 11 && "ProtocolTls"@[0] == 'P');
    assert("HostKeyApprovalRequired"@.len() == 23);
    assert("ResourceLimit"@.len() == 13);
    assert("Cancelled"@.len() == 9);
}

/// A connection goes to the host and the port that a URL names; without a port, to that of
/// its protocol; and never to port 0.
pub proof fn law_targets_are_what_urls_name(parts: UrlPartsView, table: ProtocolTable)
    ensures
        target_of(parts, table) matches Some((host, port)) ==> {
            &&& port > 0
            &&& table.spec_parse(parts.scheme) is Some
            &&& parts.port is Some ==> parts.port == Some(port)
            &&& parts.port is None ==> port == table.spec_parse(parts.scheme)->0.default_port
            &&& parts.host is Some
            &&& !parts.host->0.contains('[') && !parts.host->0.contains(']') ==> host == parts.host->0
            &&& forall|name: Seq<char>|
                !name.contains('[') && !name.contains(']') && parts.host->0 == #[trigger] bracketed(name) ==> host == name
        },
        table.spec_parse(parts.scheme) is Some && parts.host is Some && parts.port is Some && parts.port != Some(0u16)
            ==> target_of(parts, table) is Some,
{
    if let Some(host) = parts.host {
        if !host.contains('[') && !host.contains(']') {
            lemma_no_brackets(host);
        }
        assert forall|name: Seq<char>|
            !name.contains('[') && !name.contains(']') && host == #[trigger] bracketed(name) implies without_trailing(
            without_leading(host, '['),
            ']',
        ) == name by {
            let rest = name.push(']');
            assert(host.drop_first() =~= rest);
            assert(host[0] == '[');
            assert(rest[0] != '[') by {
                if name.len() > 0 {
                    assert(rest[0] == name[0]);
                    assert(name.contains(name[0]));
                }
            }
            reveal_with_fuel(without_leading, 2);
            assert(without_leading(host, '[') == rest);
            assert(rest.drop_last() =~= name);
            lemma_no_brackets(name);
            reveal_with_fuel(without_trailing, 2);
        }
    }
}

/// A host in brackets.
pub open spec fn bracketed(name: Seq<char>) -> Seq<char> {
    seq!['['] + name + seq![']']
}

proof fn lemma_no_brackets(host: Seq<char>)
    requires
        !host.contains('['),
        !host.contains(']'),
    ensures
        without_leading(host, '[') == host,
        without_trailing(host, ']') == host,
{
    if host.len() > 0 {
        assert(host.contains(host[0]));
        assert(host.contains(host.last()));
    }
}

/// A connection stands only once it was connected to, through a proxy exactly where one was
/// chosen, and it keeps one of the places that were taken for it.
pub proof fn law_connections_stand_once_connected(events: Seq<ConnectEvent>)
    ensures
        connect_run(events).1 matches ConnectAction::Finish { proxied, kept } ==> {
            &&& kept == 1
            &&& events.last() is Connected
            &&& events.len() >= 3
            &&& proxied <==> events[1] == ConnectEvent::Routed(ConnectRoute::HttpConnect) || events[1]
                == ConnectEvent::Routed(ConnectRoute::Socks5)
            &&& !proxied <==> events[1] == ConnectEvent::Routed(ConnectRoute::Direct)
        },
        connect_run(events).0.stage is Ended ==> forall|next: ConnectEvent|
            (#[trigger] connect_run(events.push(next))).1 is Fail,
{
    lemma_course(events);
    if connect_run(events).0.stage is Ended {
        assert forall|next: ConnectEvent| (#[trigger] connect_run(events.push(next))).1 is Fail by {
            assert(events.push(next).drop_last() =~= events);
        }
    }
}

/// How far a run has come.
proof fn lemma_course(events: Seq<ConnectEvent>)
    ensures
        ({
            let run = connect_run(events);
            let direct = events.len() >= 2 && events[1] == ConnectEvent::Routed(ConnectRoute::Direct);
            let proxied = events.len() >= 2 && (events[1] == ConnectEvent::Routed(ConnectRoute::HttpConnect)
                || events[1] == ConnectEvent::Routed(ConnectRoute::Socks5));
            &&& run.0.stage is Resolving ==> events.len() == 0
            &&& run.0.stage is Routing ==> events.len() == 1
            &&& run.0.stage is Acquiring || run.0.stage is Connecting ==> direct
            &&& run.0.stage is ResolvingProxy || run.0.stage is ConnectingProxy ==> proxied
            &&& run.1 matches ConnectAction::Finish { proxied: through, kept } ==> kept == 1 && events.len() >= 3
                && events.last() is Connected && (through ==> proxied) && (!through ==> direct)
        }),
    decreases events.len(),
{
    if events.len() > 0 {
        let before = events.drop_last();
        lemma_course(before);
        if before.len() >= 2 {
            assert(before[1] == events[1]);
        }
        if events.len() == 2 {
            assert(events.last() == events[1]);
        }
    }
}

/// Two addresses take two places before any of them is tried; one takes one.
pub proof fn law_a_place_is_taken_for_each_attempt(addresses: usize, start: ProtocolConnect)
    requires
        start.stage == (ConnectStage::Routing { addresses }),
    ensures
        ({
            let (first, asked) = start.stepped(ConnectEvent::Routed(ConnectRoute::Direct));
            let (second, then_asked) = first.stepped(ConnectEvent::Acquired);
            let (third, at_last) = second.stepped(ConnectEvent::Acquired);
            &&& asked is Acquire
            &&& addresses > 1 ==> then_asked is Acquire && at_last is ConnectDirect
            &&& addresses <= 1 ==> then_asked is ConnectDirect
            &&& first.stepped(ConnectEvent::Failed).1 == ConnectAction::Fail(ProtocolFailure::ResourceLimit)
            &&& start.stepped(ConnectEvent::Routed(ConnectRoute::HttpForward)).1 == ConnectAction::Fail(
                ProtocolFailure::UnsafeDestination,
            )
        }),
{
}

/// A key is never refused and accepted at once: what accepts it is the pin, the files, the
/// checksum, or that keys are not checked, in this order, and the first of them that says
/// anything decides.
pub proof fn law_the_first_word_on_a_key_decides(trust: HostTrustView, blob: Seq<u8>, matches: bool)
    requires
        !trust.known.contains((Some(KnownMarker::Revoked), blob)),
    ensures
        trust.exact == Some(blob) && trust.fingerprint is None ==> verdict(trust, blob, matches) == Ok::<
            bool,
            ProtocolFailure,
        >(true),
        trust.exact is None && trust.fingerprint is Some ==> (verdict(trust, blob, matches) is Ok <==> trust.fingerprint
            == Some(sha256_of(blob))),
        trust.exact is None && trust.fingerprint is None && trust.known.len() > 0 ==> (verdict(
            trust,
            blob,
            matches,
        ) is Ok <==> trust.known.contains((None::<KnownMarker>, blob))),
        trust.exact is None && trust.fingerprint is None && trust.known.len() == 0 && trust.legacy ==> (verdict(
            trust,
            blob,
            matches,
        ) is Ok <==> matches),
        trust.exact is None && trust.fingerprint is None && trust.known.len() == 0 && !trust.legacy ==> (verdict(
            trust,
            blob,
            matches,
        ) == Ok::<bool, ProtocolFailure>(!trust.check)),
        verdict(trust, blob, matches) is Err ==> verdict(trust, blob, matches)->Err_0 is HostKeyMismatch,
{
}

/// A digest pins the keys that have it: two keys with the same digest get the same word,
/// unless a file revokes one of them.
pub proof fn law_a_fingerprint_pins_its_digest(
    trust: HostTrustView,
    a: Seq<u8>,
    b: Seq<u8>,
    digest: Seq<u8>,
    x: bool,
    y: bool,
)
    requires
        trust.exact is None,
        trust.fingerprint is Some,
        !trust.known.contains((Some(KnownMarker::Revoked), a)),
        !trust.known.contains((Some(KnownMarker::Revoked), b)),
    ensures
        digest_verdict(trust, a, digest, x) == digest_verdict(trust, b, digest, y),
        digest_verdict(trust, a, digest, x) is Ok <==> trust.fingerprint == Some(digest),
{
}

/// Settings that can be read become the trust as they stand; one that cannot be read fails, and
/// nothing is trusted in its place.
pub proof fn law_settings_become_the_trust(
    key: Option<Option<Option<Seq<u8>>>>,
    fingerprint: Option<Option<Seq<u8>>>,
    legacy: Option<bool>,
    known: Result<Seq<(Option<KnownMarker>, Seq<u8>)>, ProtocolFailure>,
    check: bool,
)
    ensures
        loaded(key, fingerprint, legacy, known, check) matches Ok(trust) ==> {
            &&& trust.check == check
            &&& known == Ok::<Seq<(Option<KnownMarker>, Seq<u8>)>, ProtocolFailure>(trust.known)
            &&& key is None <==> trust.exact is None
            &&& key is Some ==> key == Some(Some(trust.exact))
            &&& fingerprint is None <==> trust.fingerprint is None
            &&& fingerprint is Some ==> fingerprint == Some(trust.fingerprint)
            &&& trust.legacy <==> legacy is Some
            &&& legacy != Some(false)
        },
        loaded(key, fingerprint, legacy, known, check) is Err <==> known is Err || fingerprint == Some(None::<Seq<u8>>)
            || legacy == Some(false) || (key is Some && (key->0 is None || key->0->0 is None)),
{
    let trust = loaded(key, fingerprint, legacy, known, check);
    match key {
        Some(Some(Some(bytes))) => {
            assert(trust matches Ok(trust) ==> trust.exact == Some(bytes));
        },
        Some(Some(None)) => {
            assert(key == Some(Some(None::<Seq<u8>>)));
        },
        Some(None) => {
            assert(key == Some(None::<Option<Seq<u8>>>));
        },
        None => {},
    }
    match fingerprint {
        Some(Some(bytes)) => {
            assert(trust matches Ok(trust) ==> trust.fingerprint == Some(bytes));
        },
        Some(None) => {
            assert(fingerprint == Some(None::<Seq<u8>>));
        },
        None => {},
    }
}

/// The digits of a big-endian number come apart again.
proof fn lemma_big_endian_bound(bytes: Seq<u8>)
    ensures
        big_endian(bytes) < byte_range(bytes.len()),
    decreases bytes.len(),
{
    if bytes.len() > 0 {
        lemma_big_endian_bound(bytes.drop_last());
        let rest = big_endian(bytes.drop_last());
        let range = byte_range((bytes.len() - 1) as nat);
        assert(rest * 256 + bytes.last() < 256 * range) by (nonlinear_arith)
            requires
                rest < range,
                bytes.last() < 256,
        ;
    }
}

/// A challenge is of the host, the port and the kind of key that were met, and of no other. Two
/// of them that agree in what was met agree in everything.
pub proof fn law_challenges_are_of_what_was_met(
    a: HostKeyChallenge,
    b: HostKeyChallenge,
    gid: Seq<char>,
    generation: u64,
    host: Seq<char>,
    port: u16,
    algorithm: Seq<char>,
    blob: Seq<u8>,
)
    requires
        raised(a, gid, generation, host, port, algorithm, blob),
        raised(b, gid, generation, host, port, algorithm, blob),
    ensures
        a.canonical_host@ == host,
        a.port == port,
        a.algorithm@ == algorithm,
        a.id == b.id,
        a.fingerprint_sha256 == b.fingerprint_sha256,
        sha256_of(blob).len() == 32 ==> a.fingerprint_sha256.high == big_endian(sha256_of(blob).take(16))
            && a.fingerprint_sha256.low == big_endian(sha256_of(blob).skip(16)),
{
    let digest = sha256_of(blob);
    if digest.len() == 32 {
        lemma_big_endian_bound(digest.take(16));
        lemma_big_endian_bound(digest.skip(16));
        reveal_with_fuel(byte_range, 17);
        assert(byte_range(16) == 0x1_0000_0000_0000_0000_0000_0000_0000_0000nat);
        assert(digest.subrange(16, 32) =~= digest.skip(16));
    }
}

/// Whatever is met goes into the number of a challenge, in this order: the task, its attempt,
/// the host, the port and the key.
pub proof fn law_challenge_numbers_hold_everything(
    gid: Seq<char>,
    generation: u64,
    host: Seq<char>,
    port: u16,
    blob: Seq<u8>,
    other: Seq<u8>,
)
    ensures
        challenge_material(gid, generation, host, port, blob) == challenge_material(gid, generation, host, port, other)
            ==> blob == other,
        challenge_material(gid, generation, host, port, blob).len() >= encode_utf8(gid).len() + encode_utf8(host).len()
            + blob.len() + 10,
{
    let head = encode_utf8("ariax/sftp-challenge/v1"@).push(0) + encode_utf8(gid) + low_bytes(generation as nat, 8)
        + encode_utf8(host) + low_bytes(port as nat, 2);
    lemma_low_bytes_len(generation as nat, 8);
    lemma_low_bytes_len(port as nat, 2);
    assert(challenge_material(gid, generation, host, port, blob).skip(head.len() as int) =~= blob);
    assert(challenge_material(gid, generation, host, port, other).skip(head.len() as int) =~= other);
}

proof fn lemma_low_bytes_len(n: nat, count: nat)
    ensures
        low_bytes(n, count).len() == count,
    decreases count,
{
    if count > 0 {
        lemma_low_bytes_len(n / 256, (count - 1) as nat);
    }
}

} // verus!
