use ariax_engine::glob::wildcard;
use ariax_engine::host_trust::{challenge, digest_words, key_digest, HostTrust, PresentedHostKeyChallenge};
use ariax_engine::known_hosts::{
    entry_key, host_name, matches_host, parse_known_hosts, HostNames, KnownHosts, KnownKey, KnownMarker, MAX_LINE,
    MAX_RETAINED_KNOWN_HOSTS_BYTES,
};
use ariax_engine::session::JournalHash;
use ariax_engine::sftp::{
    check_unchanged, file_validator, kex_done, password_prompt, read_cap, sftp_error, sftp_target,
    subsystem_approved, AlgorithmKind, ChannelReply, FileFacts, KeyContext, NegotiatedNames, Prompt, SftpFault,
    TrustState,
};
use ariax_engine::sftp_connect::{
    finish, next_identity, read_private_key, AuthReply, EndingAction, EndingEvent, SftpAction, SftpCause, SftpConnect,
    SftpEnding, SftpEvent, SftpOptions, SftpRelease, SftpStage, MAX_PRIVATE_KEY_BYTES,
};
use ariax_engine::transport::ProtocolFailure;
use base64ct::Encoding;
use hmac::{Hmac, KeyInit, Mac};
use russh::keys::ssh_key::private::Ed25519Keypair;
use russh::keys::ssh_key::{LineEnding, PublicKey};
use russh::keys::PrivateKey;
use sha2::{Digest, Sha256};

const KEY: &str = "ssh-ed25519 AAAAC3NzaC1lZDI1NTE5AAAAIB9dG4kjRhQTtWTVzd2t27+t0DEHBPW7iOD23TUiYLio";
const OTHER: &str = "ssh-ed25519 AAAAC3NzaC1lZDI1NTE5AAAAILM+rvN+ot98qgEN796jTiQfZfG1KaT0PtFDJ/XFSqti";
const LIMIT: usize = 64 * 1024;

fn blob(text: &str) -> Vec<u8> {
    PublicKey::from_openssh(text).unwrap().to_bytes().unwrap()
}

fn parse(input: &str, host: &str, port: u16) -> Result<Vec<KnownKey>, ProtocolFailure> {
    parse_known_hosts(input.as_bytes(), host, port, LIMIT)
}

fn accept(_presented: &PresentedHostKeyChallenge) -> bool {
    true
}

#[test]
fn known_hosts_matches_patterns_hashes_revocation_and_bounds() {
    let blob = blob(KEY);
    let input = format!("*.example.test,!blocked.example.test {KEY}\n");
    assert_eq!(parse(&input, "good.example.test", 22).unwrap().len(), 1);
    assert!(parse(&input, "blocked.example.test", 22).unwrap().is_empty());
    let mut mac = Hmac::<sha1::Sha1>::new_from_slice(b"salt").unwrap();
    mac.update(b"[example.test]:2222");
    let input = format!(
        "|1|{}|{} {KEY}\n",
        base64ct::Base64::encode_string(b"salt"),
        base64ct::Base64::encode_string(&mac.finalize().into_bytes())
    );
    assert_eq!(parse(&input, "example.test", 2222).unwrap().len(), 1);
    assert!(parse(&input, "example.test", 22).unwrap().is_empty());
    let known = parse(&format!("@revoked example.test {KEY}\n"), "example.test", 22).unwrap();
    let trust = HostTrust { exact: Some(blob.clone()), fingerprint: None, known, legacy: false, check: true };
    assert_eq!(trust.accepts(&blob, false), Err(ProtocolFailure::HostKeyMismatch));
    assert!(parse("example.test ssh-ed25519 invalid\n", "example.test", 22).is_err());
    assert!(parse("other.test ssh-ed25519 invalid\n", "example.test", 22).unwrap().is_empty());
    assert!(parse_known_hosts(&vec![b'x'; MAX_LINE + 1], "example.test", 22, LIMIT).is_err());
}

#[test]
fn pins_are_exact_and_unknown_challenges_are_generation_bound() {
    let key = blob(KEY);
    let load = |fingerprint: Option<Option<Vec<u8>>>| {
        HostTrust::load(None, fingerprint, None, parse("", "example.test", 22), true)
    };
    assert_eq!(load(None).unwrap().accepts(&key, false), Ok(false));
    let raise = |generation: u64| {
        challenge(
            "0000000000000001",
            generation,
            "example.test".to_owned(),
            22,
            "ssh-ed25519".to_owned(),
            key.clone(),
            accept,
        )
        .unwrap()
    };
    let a = raise(1);
    let digest = Sha256::digest(&key).to_vec();
    let half = |bytes: &[u8]| bytes.iter().fold(0u128, |value, byte| value << 8 | u128::from(*byte));
    assert_eq!(
        a.summary.fingerprint_sha256,
        JournalHash { high: half(&digest[..16]), low: half(&digest[16..]) }
    );
    let b = raise(2);
    assert_ne!(a.summary.id, b.summary.id);
    assert_eq!(a.summary.id, raise(1).summary.id);
    assert_eq!(load(Some(Some(digest))).unwrap().accepts(&key, false), Ok(true));
    assert_eq!(
        load(Some(Some(vec![0; 32]))).unwrap().accepts(&key, false),
        Err(ProtocolFailure::HostKeyMismatch)
    );
}

#[test]
fn a_challenge_is_bound_to_all_that_it_names() {
    let raise = |gid: &str, host: &str, port: u16, key: &str| {
        challenge(gid, 1, host.to_owned(), port, "ssh-ed25519".to_owned(), blob(key), accept)
            .unwrap()
            .summary
            .id
    };
    let base = raise("0000000000000001", "example.test", 22, KEY);
    assert_ne!(base, raise("0000000000000002", "example.test", 22, KEY));
    assert_ne!(base, raise("0000000000000001", "other.test", 22, KEY));
    assert_ne!(base, raise("0000000000000001", "example.test", 23, KEY));
    assert_ne!(base, raise("0000000000000001", "example.test", 22, OTHER));
    let mut material = b"ariax/sftp-challenge/v1\0".to_vec();
    material.extend_from_slice(b"0000000000000001");
    material.extend_from_slice(&1u64.to_le_bytes());
    material.extend_from_slice(b"example.test");
    material.extend_from_slice(&22u16.to_le_bytes());
    material.extend_from_slice(&blob(KEY));
    let hash = Sha256::digest(&material);
    let expected = hash[..16].iter().fold(0u128, |value, byte| value << 8 | u128::from(*byte));
    assert_eq!(base.0, expected);
    assert!(matches!(
        challenge("1", 1, String::new(), 22, String::new(), Vec::new(), |_: &PresentedHostKeyChallenge| false),
        Err(ProtocolFailure::Malformed)
    ));
}

#[test]
fn settings_that_cannot_be_read_are_refused_in_order() {
    let none = || Ok(Vec::new());
    assert!(matches!(
        HostTrust::load(Some("nonsense"), None, None, none(), true),
        Err(ProtocolFailure::HostKeyMismatch)
    ));
    assert!(matches!(
        HostTrust::from_parsed(Some(Some(None)), Some(None), None, none(), true),
        Err(ProtocolFailure::Malformed)
    ));
    assert!(matches!(
        HostTrust::load(None, Some(None), None, none(), true),
        Err(ProtocolFailure::HostKeyMismatch)
    ));
    assert!(matches!(
        HostTrust::load(None, None, Some(false), none(), true),
        Err(ProtocolFailure::HostKeyMismatch)
    ));
    assert!(matches!(
        HostTrust::load(None, None, None, Err(ProtocolFailure::ResourceLimit), true),
        Err(ProtocolFailure::ResourceLimit)
    ));
    let trust = HostTrust::load(Some(KEY), None, None, none(), true).unwrap();
    assert_eq!(trust.accepts(&blob(KEY), false), Ok(true));
    assert_eq!(trust.accepts(&blob(OTHER), false), Err(ProtocolFailure::HostKeyMismatch));
}

#[test]
fn files_and_checksums_decide_without_a_pin() {
    let known = parse(&format!("example.test {KEY} a comment\n"), "Example.test", 22).unwrap();
    assert_eq!(known, vec![KnownKey { marker: None, key: blob(KEY) }]);
    let trust = HostTrust { exact: None, fingerprint: None, known, legacy: true, check: true };
    assert_eq!(trust.accepts(&blob(KEY), false), Ok(true));
    assert_eq!(trust.accepts(&blob(OTHER), true), Err(ProtocolFailure::HostKeyMismatch));
    let legacy = HostTrust { exact: None, fingerprint: None, known: Vec::new(), legacy: true, check: true };
    assert_eq!(legacy.accepts(&blob(KEY), true), Ok(true));
    assert_eq!(legacy.accepts(&blob(KEY), false), Err(ProtocolFailure::HostKeyMismatch));
    let open = HostTrust { exact: None, fingerprint: None, known: Vec::new(), legacy: false, check: false };
    assert_eq!(open.accepts(&blob(KEY), false), Ok(true));
}

#[test]
fn lines_of_known_hosts_state_their_errors() {
    assert_eq!(parse("@revoked\n", "example.test", 22), Err(ProtocolFailure::Malformed));
    assert_eq!(parse("example.test ssh-ed25519\n", "example.test", 22), Err(ProtocolFailure::HostKeyMismatch));
    assert_eq!(
        parse_known_hosts(&[0xff, b'\n'], "example.test", 22, LIMIT),
        Err(ProtocolFailure::Malformed)
    );
    assert_eq!(
        parse_known_hosts(format!("example.test {KEY}\n").as_bytes(), "example.test", 22, 4),
        Err(ProtocolFailure::ResourceLimit)
    );
    assert_eq!(parse("# comment\n\n   \n", "example.test", 22), Ok(Vec::new()));
    let authority = parse(&format!("@cert-authority *.test {KEY}"), "example.test", 22).unwrap();
    assert_eq!(authority[0].marker, Some(KnownMarker::CertAuthority));
    let mut read = KnownHosts::new();
    for _ in 0..3 {
        read.take_line(format!("example.test {KEY}\n").as_bytes(), "example.test", LIMIT).unwrap();
    }
    assert_eq!(read.lines, 3);
    assert_eq!(read.keys.len(), 3);
    assert_eq!(host_name("Example.TEST", 22), "example.test");
    assert_eq!(host_name("Example.TEST", 2222), "[example.test]:2222");
    assert_eq!(entry_key(None), Err(ProtocolFailure::HostKeyMismatch));
    let names = HostNames::Patterns(vec!["!a.test".to_owned(), "*.test".to_owned()]);
    assert!(!matches_host(&names, "a.test"));
    assert!(matches_host(&names, "b.test"));
}

#[test]
fn patterns_stand_for_names() {
    for (pattern, name, fits) in [
        ("", "", true),
        ("*", "", true),
        ("*", "anything", true),
        ("a*b*c", "aXbYc", true),
        ("a*b*c", "aXbYcZ", false),
        ("*.example.test", "Deep.EXAMPLE.test", true),
        ("h?st", "host", true),
        ("h?st", "hst", false),
        ("*ab", "aab", true),
        ("*aab", "aaab", true),
        ("a", "b", false),
    ] {
        assert_eq!(wildcard(pattern.as_bytes(), name.as_bytes()), fits, "{pattern} {name}");
    }
    assert!(!wildcard(b"*", b"*a"));
    assert!(wildcard(b"*", b"*"));
}

#[test]
fn subsystem_accepts_window_updates_but_requires_bounded_success() {
    let mut remaining = 64;
    assert_eq!(subsystem_approved(ChannelReply::WindowAdjusted, &mut remaining), Ok(false));
    assert_eq!(subsystem_approved(ChannelReply::Success, &mut remaining), Ok(true));
    for message in [ChannelReply::Failure, ChannelReply::Eof, ChannelReply::Ended, ChannelReply::Other] {
        assert!(subsystem_approved(message, &mut 64).is_err());
    }
    let mut remaining = 64;
    for _ in 0..64 {
        assert_eq!(subsystem_approved(ChannelReply::WindowAdjusted, &mut remaining), Ok(false));
    }
    assert!(subsystem_approved(ChannelReply::Success, &mut remaining).is_err());
}

fn context() -> KeyContext {
    KeyContext {
        gid: "0000000000000001".to_owned(),
        generation: 1,
        host: "example.test".to_owned(),
        port: 22,
        algorithm: "ssh-ed25519".to_owned(),
    }
}

#[test]
fn the_first_trusted_key_is_the_only_one() {
    let trust = HostTrust { exact: Some(blob(KEY)), fingerprint: None, known: Vec::new(), legacy: false, check: true };
    let mut state = TrustState::new();
    assert!(state.check_server_key(&trust, Some(blob(KEY)), LIMIT, false, context(), accept));
    assert!(state.check_server_key(&trust, Some(blob(KEY)), LIMIT, false, context(), accept));
    assert!(!state.check_server_key(&trust, Some(blob(OTHER)), LIMIT, false, context(), accept));
    assert_eq!(state.failure, Some(ProtocolFailure::HostKeyMismatch));
    let mut state = TrustState::new();
    assert!(!state.check_server_key(&trust, None, LIMIT, false, context(), accept));
    assert_eq!(state.failure, Some(ProtocolFailure::Malformed));
    assert!(!state.check_server_key(&trust, Some(blob(KEY)), 3, false, context(), accept));
    assert_eq!(state.failure, Some(ProtocolFailure::ResourceLimit));
    assert!(matches!(
        state.handshake_failure(ProtocolFailure::Connect),
        Err(ProtocolFailure::ResourceLimit)
    ));
    let unknown = HostTrust { exact: None, fingerprint: None, known: Vec::new(), legacy: false, check: true };
    let mut state = TrustState::new();
    assert!(!state.check_server_key(&unknown, Some(blob(KEY)), LIMIT, false, context(), accept));
    let presented = state.handshake_failure(ProtocolFailure::Connect).expect("challenge");
    assert_eq!(presented.key, blob(KEY));
    assert_eq!(presented.summary.canonical_host, "example.test");
    assert!(matches!(
        TrustState::new().handshake_failure(ProtocolFailure::Timeout),
        Err(ProtocolFailure::Timeout)
    ));
}

#[test]
fn only_offered_algorithms_are_reported() {
    let names = |kex: &str| NegotiatedNames {
        kex: kex.to_owned(),
        host_key: "ssh-ed25519".to_owned(),
        cipher: "aes256-ctr".to_owned(),
        client_mac: "none".to_owned(),
        server_mac: "hmac-sha2-256".to_owned(),
    };
    let report = kex_done(&names("curve25519-sha256"), 3, false, true).expect("offered");
    assert_eq!(report.kex, "curve25519-sha256");
    assert!(report.insecure_host_key && report.legacy_host_key_digest);
    assert!(kex_done(&names("diffie-hellman-group1-sha1"), 3, true, false).is_none());
    let defaults = vec!["aes128-cbc".to_owned(), "aes128-ctr".to_owned()];
    assert_eq!(AlgorithmKind::Cipher.preferred(&defaults), vec![false, true]);
}

#[test]
fn targets_limits_and_files_of_a_session() {
    let target = sftp_target(Some("sftp://user@Example.test/a%20b")).expect("target");
    assert_eq!((target.host.as_str(), target.port, target.path.as_str()), ("example.test", 22, "/a%20b"));
    let target = sftp_target(Some("sftp://[::1]:2222/x")).expect("target");
    assert_eq!((target.host.as_str(), target.port), ("::1", 2222));
    assert_eq!(sftp_target(None), Err(ProtocolFailure::AuthFailure));
    assert_eq!(sftp_target(Some("/relative")), Err(ProtocolFailure::UnsafeDestination));
    assert_eq!(read_cap(32_768, None, 65_536), Ok(32_768));
    assert_eq!(read_cap(32_768, Some(16), 65_536), Ok(16));
    assert_eq!(read_cap(32_768, Some(0), 1_013), Ok(1_000));
    assert_eq!(read_cap(32_768, None, 13), Err(ProtocolFailure::ResourceLimit));
    let source = Some(JournalHash { high: 1, low: 2 });
    let facts = FileFacts { size: Some(10), modified: Some(5) };
    let key = blob(KEY);
    let validator = file_validator(facts, Some(&key), source, true).expect("validator");
    assert_eq!(validator.total_length, 10);
    assert_eq!(check_unchanged(&validator, facts), Ok(()));
    assert_eq!(
        check_unchanged(&validator, FileFacts { size: Some(11), modified: Some(5) }),
        Err(ProtocolFailure::StaleValidator)
    );
    assert_eq!(
        file_validator(FileFacts { size: None, modified: None }, Some(&key), source, false),
        Err(ProtocolFailure::SizeUnsupported)
    );
    assert_eq!(file_validator(facts, None, source, false), Err(ProtocolFailure::HostKeyMismatch));
    assert_eq!(file_validator(facts, Some(&key), None, true), Err(ProtocolFailure::Malformed));
    assert_eq!(file_validator(facts, Some(&key), source, false), Err(ProtocolFailure::Malformed));
    let digest: Vec<u8> = Sha256::digest(&key).to_vec();
    assert_eq!(validator.host_key, Some(digest_words(&digest)));
    assert_eq!(key_digest(&key), digest_words(&digest));
    assert_eq!(sftp_error(SftpFault::PermissionDenied), ProtocolFailure::AuthFailure);
    assert_eq!(sftp_error(SftpFault::Timeout), ProtocolFailure::Timeout);
    let prompt = |text: &str, echo: bool| Prompt { prompt: text.to_owned(), echo };
    assert!(password_prompt(&vec![prompt(" PASSWORD: ", false)]));
    assert!(!password_prompt(&vec![prompt("Password:", true)]));
    assert!(!password_prompt(&vec![prompt("Code:", false)]));
}

fn options() -> SftpOptions {
    SftpOptions { private_key: true, agent: true, max_read: 32_768, max_packet: 65_536 }
}

fn left(public_key: bool, password: bool, keyboard: bool) -> SftpEvent {
    SftpEvent::Answered(AuthReply::Failure { public_key, password, keyboard })
}

#[test]
fn a_session_tries_its_methods_in_order() {
    let (mut session, first) = SftpConnect::connect(options());
    assert_eq!(first, SftpAction::AcquireMetadata { bytes: 4 * 1024 * 1024 });
    assert_eq!(session.step(SftpEvent::Done), SftpAction::LoadTrust { bytes: 1024 * 1024 + 256 * 1024 });
    assert_eq!(session.step(SftpEvent::Done), SftpAction::Connect);
    assert_eq!(session.step(SftpEvent::Done), SftpAction::Handshake);
    assert_eq!(session.step(SftpEvent::Done), SftpAction::LoadCredentials);
    assert_eq!(session.step(SftpEvent::Found { password: true }), SftpAction::AuthenticateNone);
    assert_eq!(
        session.step(left(true, true, true)),
        SftpAction::LoadKey { bytes: 1024 * 1024 + 64 * 1024 }
    );
    assert_eq!(session.step(SftpEvent::Done), SftpAction::AuthenticateKey);
    assert_eq!(session.step(left(true, true, true)), SftpAction::AcquireAgent);
    assert!(matches!(session.step(SftpEvent::Done), SftpAction::AuthenticateAgent(_)));
    assert_eq!(session.step(left(true, true, true)), SftpAction::AuthenticatePassword);
    assert_eq!(session.step(left(true, true, true)), SftpAction::StartKeyboard);
    assert_eq!(
        session.step(SftpEvent::KeyboardQuestion { password: true }),
        SftpAction::RespondKeyboard
    );
    assert_eq!(session.step(SftpEvent::KeyboardSuccess), SftpAction::OpenChannel);
    assert_eq!(session.step(SftpEvent::Done), SftpAction::RequestSubsystem);
    assert_eq!(session.step(SftpEvent::Done), SftpAction::Wait);
    assert_eq!(session.step(SftpEvent::Message(ChannelReply::WindowAdjusted)), SftpAction::Wait);
    assert_eq!(
        session.step(SftpEvent::Message(ChannelReply::Success)),
        SftpAction::AcquireIngress { bytes: 131_072 }
    );
    assert_eq!(session.step(SftpEvent::Done), SftpAction::Initialize);
    assert_eq!(
        session.step(SftpEvent::Version { version: 3, limits: true, packet: 65_536 }),
        SftpAction::ReadLimits
    );
    assert_eq!(
        session.step(SftpEvent::ServerLimits { max_read: 1_000, packet: 65_536 }),
        SftpAction::OpenFile
    );
    assert_eq!(session.step(SftpEvent::Opened { handle: 4 }), SftpAction::Stat);
    let key = blob(KEY);
    let validator = file_validator(
        FileFacts { size: Some(1), modified: None },
        Some(&key),
        Some(JournalHash { high: 1, low: 1 }),
        true,
    )
    .unwrap();
    assert_eq!(
        session.step(SftpEvent::Validated(validator)),
        SftpAction::Finish { validator, max_read: 1_000 }
    );
}

#[test]
fn a_session_that_fails_gives_up_what_it_holds() {
    let (mut session, _) = SftpConnect::connect(options());
    session.step(SftpEvent::Done);
    session.step(SftpEvent::Done);
    let mut before = session;
    assert_eq!(
        before.step(SftpEvent::Cancelled),
        SftpAction::Fail {
            cause: SftpCause::Cancelled,
            release: SftpRelease { requests: false, client: false, socket: false }
        }
    );
    session.step(SftpEvent::Done);
    let mut handshake = session;
    assert_eq!(
        handshake.step(SftpEvent::TimedOut),
        SftpAction::Fail {
            cause: SftpCause::Handshake(ProtocolFailure::Timeout),
            release: SftpRelease { requests: false, client: false, socket: true }
        }
    );
    session.step(SftpEvent::Done);
    session.step(SftpEvent::Found { password: false });
    assert_eq!(
        session.step(left(false, true, true)),
        SftpAction::Fail {
            cause: SftpCause::Protocol(ProtocolFailure::AuthFailure),
            release: SftpRelease { requests: false, client: true, socket: true }
        }
    );
}

#[test]
fn an_agent_offers_its_plain_keys_only() {
    let more = AuthReply::Failure { public_key: true, password: false, keyboard: false };
    assert_eq!(next_identity(&vec![false, true, true], 0, more), Ok(Some(1)));
    assert_eq!(next_identity(&vec![false, true, true], 2, more), Ok(Some(2)));
    assert_eq!(next_identity(&vec![false, true], 2, more), Ok(None));
    assert_eq!(next_identity(&vec![true], 0, AuthReply::Success), Ok(None));
    assert_eq!(next_identity(&vec![true; 65], 0, more), Err(ProtocolFailure::ResourceLimit));
}

#[test]
fn a_session_ends_well_only_with_an_unchanged_file() {
    let key = blob(KEY);
    let facts = FileFacts { size: Some(1), modified: Some(2) };
    let validator = file_validator(facts, Some(&key), Some(JournalHash { high: 1, low: 1 }), true).unwrap();
    let mut ending = SftpEnding::Stat;
    assert_eq!(finish(&mut ending, &validator, EndingEvent::Stated(facts)), EndingAction::Close);
    assert_eq!(finish(&mut ending, &validator, EndingEvent::Closed), EndingAction::Drain(None));
    let mut ending = SftpEnding::Stat;
    let changed = FileFacts { size: Some(1), modified: Some(3) };
    assert_eq!(
        finish(&mut ending, &validator, EndingEvent::Stated(changed)),
        EndingAction::Drain(Some(ProtocolFailure::StaleValidator))
    );
}

fn private_key() -> PrivateKey {
    PrivateKey::from(Ed25519Keypair::from_seed(&[7; 32]))
}

#[test]
fn private_keys_are_read_from_their_files() {
    let key = private_key();
    let text = key.to_openssh(LineEnding::LF).expect("key");
    let read = read_private_key(text.as_bytes(), None).expect("opens");
    assert_eq!(read.public_key().key_data(), key.public_key().key_data());

    let mut sealed: Vec<u8> = Vec::new();
    russh::keys::encode_pkcs8_pem_encrypted(&key, b"right", 10, &mut sealed).expect("sealed");
    let opened = read_private_key(&sealed, Some("right")).expect("opens");
    assert_eq!(opened.public_key().key_data(), key.public_key().key_data());
    for passphrase in [None, Some(""), Some("wrong")] {
        assert_eq!(read_private_key(&sealed, passphrase).err(), Some(ProtocolFailure::AuthFailure));
    }

    let mut broken = text.as_bytes().to_vec();
    broken.push(0xff);
    for bytes in [&broken[..], b"", b"no key"] {
        assert_eq!(read_private_key(bytes, None).err(), Some(ProtocolFailure::AuthFailure));
    }
    let mut long = text.as_bytes().to_vec();
    long.resize(MAX_PRIVATE_KEY_BYTES, b'\n');
    assert!(read_private_key(&long, None).is_ok());
    long.push(b'\n');
    assert_eq!(read_private_key(&long, None).err(), Some(ProtocolFailure::ResourceLimit));
}

#[test]
fn a_session_goes_on_with_a_key_that_opens() {
    let options = SftpOptions { private_key: true, agent: false, max_read: 65_536, max_packet: 65_536 };
    let opening = || SftpConnect { stage: SftpStage::LoadKey { password: true }, options };
    let text = private_key().to_openssh(LineEnding::LF).expect("key");
    let mut good = opening();
    let (action, key) = good.load_key(text.as_bytes(), None);
    assert_eq!(action, SftpAction::AuthenticateKey);
    assert!(key.is_some());
    assert_eq!(good.stage, SftpStage::PublicKey { password: true });
    let mut bad = opening();
    let (action, key) = bad.load_key(b"no key", None);
    assert!(key.is_none());
    assert!(matches!(action, SftpAction::Fail { cause: SftpCause::Protocol(ProtocolFailure::AuthFailure), .. }));
    assert_eq!(bad.stage, SftpStage::Ended);
}

#[test]
fn a_pinned_fingerprint_is_held_against_the_digest() {
    let pinned = HostTrust::load(None, Some(Some(vec![7; 32])), None, Ok(Vec::new()), true).expect("trust");
    assert_eq!(pinned.accepts_digest(b"key", &[7; 32], false), Ok(true));
    assert_eq!(pinned.accepts_digest(b"key", &[8; 32], true), Err(ProtocolFailure::HostKeyMismatch));
    let open = HostTrust::load(None, None, None, Ok(Vec::new()), true).expect("trust");
    assert_eq!(open.accepts_digest(b"key", &[], false), Ok(false));
    let digest: Vec<u8> = (1..=32).collect();
    let words = digest_words(&digest);
    assert_eq!(words.high, 0x0102_0304_0506_0708_090a_0b0c_0d0e_0f10);
    assert_eq!(words.low, 0x1112_1314_1516_1718_191a_1b1c_1d1e_1f20);
}

#[test]
fn keys_count_with_the_room_that_they_have() {
    let key = || KnownKey { marker: None, key: vec![1; 10] };
    let mut read = KnownHosts::new();
    read.keep(key(), 100, 10).expect("kept");
    let slots = read.retained - 100;
    read.keep(key(), 0, 10).expect("kept");
    assert_eq!(read.retained, 110 + 2 * slots);
    assert_eq!(read.keep(key(), 10, 9), Err(ProtocolFailure::ResourceLimit));
    assert_eq!(read.keep(key(), usize::MAX, 10), Err(ProtocolFailure::ResourceLimit));
    let left = MAX_RETAINED_KNOWN_HOSTS_BYTES - read.retained - slots;
    assert_eq!(read.keep(key(), left + 1, 10), Err(ProtocolFailure::ResourceLimit));
    assert_eq!(read.keep(key(), left, 10), Ok(()));
    assert_eq!(read.retained, MAX_RETAINED_KNOWN_HOSTS_BYTES);
    assert_eq!(read.keys.len(), 3);
}

#[test]
fn hashed_names_hold_one_host() {
    let mut mac = Hmac::<sha1::Sha1>::new_from_slice(b"salt").unwrap();
    mac.update(b"example.test");
    let hash = mac.finalize().into_bytes().to_vec();
    let names = |hash: Vec<u8>| HostNames::Hashed { salt: b"salt".to_vec(), hash };
    assert!(matches_host(&names(hash.clone()), "example.test"));
    assert!(!matches_host(&names(hash.clone()), "other.test"));
    assert!(!matches_host(&names(hash[..19].to_vec()), "example.test"));
    let mut long = hash;
    long.push(0);
    assert!(!matches_host(&names(long), "example.test"));
}
