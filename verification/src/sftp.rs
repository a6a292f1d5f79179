//! What a session over SSH does: which algorithms, keys and files it accepts.
use vstd::prelude::*;
use crate::bytes::sha256_of;
use crate::host_trust::{challenge, key_digest, raised, verdict, words_of, HostTrust, PresentedHostKeyChallenge};
use crate::known_hosts::same_bytes;
use crate::session::JournalHash;
use crate::text::{
    chars_of, chars_same_but_case, lower_chars, lower_text, same_but_case, same_text, strip_around, text_of,
    trim_text, trimmed,
};
use crate::transport::{bare_host, ProtocolFailure};
use crate::urls::{parse_url, parsed_url, UrlParts, UrlPartsView};

verus! {

/// The most bytes of a handle.
pub const MAX_HANDLE_BYTES: usize = 16_384;

/// The most messages that are taken until the subsystem is there.
pub const SUBSYSTEM_MESSAGES: usize = 64;

/// The most identities that an agent may offer.
pub const MAX_AGENT_IDENTITIES: usize = 64;

/// The key exchanges that are offered.
pub open spec fn key_exchanges() -> Seq<Seq<char>> {
    seq![
        "curve25519-sha256"@,
        "curve25519-sha256@libssh.org"@,
        "diffie-hellman-group-exchange-sha256"@,
        "diffie-hellman-group14-sha256"@,
        "ext-info-c"@,
        "kex-strict-c-v00@openssh.com"@,
    ]
}

/// The ciphers that are offered.
pub open spec fn ciphers() -> Seq<Seq<char>> {
    seq![
        "chacha20-poly1305@openssh.com"@,
        "aes256-gcm@openssh.com"@,
        "aes128-gcm@openssh.com"@,
        "aes256-ctr"@,
        "aes192-ctr"@,
        "aes128-ctr"@,
    ]
}

/// The authentication codes that are offered.
pub open spec fn macs() -> Seq<Seq<char>> {
    seq![
        "hmac-sha2-512-etm@openssh.com"@,
        "hmac-sha2-256-etm@openssh.com"@,
        "hmac-sha2-512"@,
        "hmac-sha2-256"@,
    ]
}

/// The authentication codes that a connection may report: those that are offered,
/// and none, for a cipher that brings its own.
pub open spec fn reported_macs() -> Seq<Seq<char>> {
    seq!["none"@] + macs()
}

/// The host keys that are offered.
pub open spec fn host_keys() -> Seq<Seq<char>> {
    seq![
        "ssh-ed25519"@,
        "ecdsa-sha2-nistp256"@,
        "ecdsa-sha2-nistp384"@,
        "ecdsa-sha2-nistp521"@,
        "rsa-sha2-512"@,
        "rsa-sha2-256"@,
        "ssh-ed25519-cert-v01@openssh.com"@,
        "ecdsa-sha2-nistp256-cert-v01@openssh.com"@,
        "ecdsa-sha2-nistp384-cert-v01@openssh.com"@,
        "ecdsa-sha2-nistp521-cert-v01@openssh.com"@,
        "rsa-sha2-512-cert-v01@openssh.com"@,
        "rsa-sha2-256-cert-v01@openssh.com"@,
    ]
}

/// What names say.
pub open spec fn names_view(names: Seq<&'static str>) -> Seq<Seq<char>> {
    names.map_values(|name: &'static str| name@)
}

/// A kind of algorithm.
#[derive(Clone, Copy, Debug, PartialEq, Eq, Structural)]
pub enum AlgorithmKind {
    KeyExchange,
    Cipher,
    Mac,
    ReportedMac,
    HostKey,
}

impl AlgorithmKind {
    /// The names of a kind.
    pub open spec fn names(self) -> Seq<Seq<char>> {
        match self {
            AlgorithmKind::KeyExchange => key_exchanges(),
            AlgorithmKind::Cipher => ciphers(),
            AlgorithmKind::Mac => macs(),
            AlgorithmKind::ReportedMac => reported_macs(),
            AlgorithmKind::HostKey => host_keys(),
        }
    }

    /// The names of a kind, in order of preference.
    pub fn listed(self) -> (r: Vec<&'static str>)
        ensures
            names_view(r@) == self.names(),
    {
        let r: Vec<&'static str> = match self {
            AlgorithmKind::KeyExchange => vec![
                "curve25519-sha256",
                "curve25519-sha256@libssh.org",
                "diffie-hellman-group-exchange-sha256",
                "diffie-hellman-group14-sha256",
                "ext-info-c",
                "kex-strict-c-v00@openssh.com",
            ],
            AlgorithmKind::Cipher => vec![
                "chacha20-poly1305@openssh.com",
                "aes256-gcm@openssh.com",
                "aes128-gcm@openssh.com",
                "aes256-ctr",
                "aes192-ctr",
                "aes128-ctr",
            ],
            AlgorithmKind::Mac => vec![
                "hmac-sha2-512-etm@openssh.com",
                "hmac-sha2-256-etm@openssh.com",
                "hmac-sha2-512",
                "hmac-sha2-256",
            ],
            AlgorithmKind::ReportedMac => vec![
                "none",
                "hmac-sha2-512-etm@openssh.com",
                "hmac-sha2-256-etm@openssh.com",
                "hmac-sha2-512",
                "hmac-sha2-256",
            ],
            AlgorithmKind::HostKey => vec![
                "ssh-ed25519",
                "ecdsa-sha2-nistp256",
                "ecdsa-sha2-nistp384",
                "ecdsa-sha2-nistp521",
                "rsa-sha2-512",
                "rsa-sha2-256",
                "ssh-ed25519-cert-v01@openssh.com",
                "ecdsa-sha2-nistp256-cert-v01@openssh.com",
                "ecdsa-sha2-nistp384-cert-v01@openssh.com",
                "ecdsa-sha2-nistp521-cert-v01@openssh.com",
                "rsa-sha2-512-cert-v01@openssh.com",
                "rsa-sha2-256-cert-v01@openssh.com",
            ],
        };
        assert(names_view(r@) =~= self.names());
        r
    }

    /// The name of a kind that a text is, if it is one.
    pub fn find(self, name: &str) -> (r: Option<&'static str>)
        ensures
            r is Some <==> self.names().contains(name@),
            r is Some ==> r->0@ == name@,
    {
        let names = self.listed();
        let ghost all = self.names();
        let mut i: usize = 0;
        while i < names.len()
            invariant
                i <= names.len(),
                all == names_view(names@),
                all == self.names(),
                forall|k: int| 0 <= k < i ==> all[k] != name@,
            decreases names.len() - i,
        {
            assert(all[i as int] == names@[i as int]@);
            if same_text(names[i], name) {
                assert(all.contains(name@));
                return Some(names[i]);
            }
            i = i + 1;
        }
        None
    }

    /// Which of some algorithms are offered, in their order.
    pub fn preferred(self, defaults: &Vec<String>) -> (r: Vec<bool>)
        ensures
            r@.len() == defaults@.len(),
            forall|i: int| 0 <= i < r@.len() ==> #[trigger] r@[i] == self.names().contains(defaults@[i]@),
    {
        let mut r: Vec<bool> = Vec::new();
        let mut i: usize = 0;
        while i < defaults.len()
            invariant
                i <= defaults.len(),
                r@.len() == i,
                forall|k: int| 0 <= k < i ==> #[trigger] r@[k] == self.names().contains(defaults@[k]@),
            decreases defaults.len() - i,
        {
            r.push(self.find(defaults[i].as_str()).is_some());
            i = i + 1;
        }
        r
    }
}

/// The algorithms that a connection agreed on.
#[derive(Debug)]
pub struct NegotiatedNames {
    pub kex: String,
    pub host_key: String,
    pub cipher: String,
    pub client_mac: String,
    pub server_mac: String,
}

/// What is reported of a connection.
#[derive(Clone, Copy, Debug, PartialEq, Eq)]
pub struct SshConnectionDiagnostic {
    pub source: u32,
    pub kex: &'static str,
    pub host_key: &'static str,
    pub cipher: &'static str,
    pub client_mac: &'static str,
    pub server_mac: &'static str,
    pub insecure_host_key: bool,
    pub legacy_host_key_digest: bool,
}

/// Whether a connection agreed on algorithms that were offered.
pub open spec fn names_allowed(names: NegotiatedNames) -> bool {
    &&& key_exchanges().contains(names.kex@)
    &&& host_keys().contains(names.host_key@)
    &&& ciphers().contains(names.cipher@)
    &&& reported_macs().contains(names.client_mac@)
    &&& reported_macs().contains(names.server_mac@)
}

/// What is reported of a connection; `None` where it agreed on an algorithm that
/// was not offered.
pub fn kex_done(names: &NegotiatedNames, source: u32, check_host_key: bool, legacy_digest: bool) -> (r: Option<
    SshConnectionDiagnostic,
>)
    ensures
        r is Some <==> names_allowed(*names),
        r is Some ==> r->0.source == source && r->0.kex@ == names.kex@ && r->0.host_key@ == names.host_key@
            && r->0.cipher@ == names.cipher@ && r->0.client_mac@ == names.client_mac@ && r->0.server_mac@
            == names.server_mac@ && r->0.insecure_host_key == !check_host_key && r->0.legacy_host_key_digest
            == legacy_digest,
{
    let kex = match AlgorithmKind::KeyExchange.find(names.kex.as_str()) {
        Some(name) => name,
        None => return None,
    };
    let host_key = match AlgorithmKind::HostKey.find(names.host_key.as_str()) {
        Some(name) => name,
        None => return None,
    };
    let cipher = match AlgorithmKind::Cipher.find(names.cipher.as_str()) {
        Some(name) => name,
        None => return None,
    };
    let client_mac = match AlgorithmKind::ReportedMac.find(names.client_mac.as_str()) {
        Some(name) => name,
        None => return None,
    };
    let server_mac = match AlgorithmKind::ReportedMac.find(names.server_mac.as_str()) {
        Some(name) => name,
        None => return None,
    };
    Some(
        SshConnectionDiagnostic {
            source,
            kex,
            host_key,
            cipher,
            client_mac,
            server_mac,
            insecure_host_key: !check_host_key,
            legacy_host_key_digest: legacy_digest,
        },
    )
}

/// Where a key is presented.
#[derive(Debug)]
pub struct KeyContext {
    pub gid: String,
    pub generation: u64,
    pub host: String,
    pub port: u16,
    pub algorithm: String,
}

/// What has become of the keys that a host presented.
#[derive(Debug)]
pub struct TrustState {
    pub key: Option<Vec<u8>>,
    pub challenge: Option<PresentedHostKeyChallenge>,
    pub failure: Option<ProtocolFailure>,
}

/// The failure of a key that is refused at once, before trust is asked: one that
/// cannot be encoded, is too long, or is not the one that was accepted before.
pub open spec fn key_refusal(state: TrustState, blob: Option<Vec<u8>>, limit: usize) -> Option<ProtocolFailure> {
    match blob {
        None => Some(ProtocolFailure::Malformed),
        Some(blob) => if blob@.len() > limit {
            Some(ProtocolFailure::ResourceLimit)
        } else if state.key is Some && state.key->0@ != blob@ {
            Some(ProtocolFailure::HostKeyMismatch)
        } else {
            None
        },
    }
}

/// Whether a challenge for a key was made, and accepted or refused.
pub open spec fn challenged<V: Fn(&PresentedHostKeyChallenge) -> bool>(
    before: TrustState,
    after: TrustState,
    blob: Vec<u8>,
    context: KeyContext,
    accept: V,
) -> bool {
    exists|presented: PresentedHostKeyChallenge, fits: bool|
        #![trigger accept.ensures((&presented,), fits)]
        accept.ensures((&presented,), fits) && presented.key == blob && raised(
            presented.summary,
            context.gid@,
            context.generation,
            context.host@,
            context.port,
            context.algorithm@,
            blob@,
        ) && after == (if fits {
            TrustState { challenge: Some(presented), ..before }
        } else {
            TrustState { failure: Some(ProtocolFailure::Malformed), ..before }
        })
}

impl TrustState {
    pub fn new() -> (r: Self)
        ensures
            r == (TrustState { key: None, challenge: None, failure: None }),
    {
        TrustState { key: None, challenge: None, failure: None }
    }

    /// Judges a key that a host presents. The first key that is trusted is kept,
    /// and is then the only one; an unknown key raises a challenge. `blob` is the
    /// key, if it can be encoded; `limit` is the most bytes of a key.
    pub fn check_server_key<V: Fn(&PresentedHostKeyChallenge) -> bool>(
        &mut self,
        trust: &HostTrust,
        blob: Option<Vec<u8>>,
        limit: usize,
        legacy_matches: bool,
        context: KeyContext,
        accept: V,
    ) -> (r: bool)
        requires
            forall|presented: &PresentedHostKeyChallenge| #[trigger] accept.requires((presented,)),
        ensures
            match key_refusal(*old(self), blob, limit) {
                Some(failure) => !r && *final(self) == (TrustState { failure: Some(failure), ..*old(self) }),
                None => if old(self).key is Some {
                    r && *final(self) == *old(self)
                } else {
                    match verdict(trust@, blob->0@, legacy_matches) {
                        Ok(known) => if known {
                            r && *final(self) == (TrustState { key: blob, ..*old(self) })
                        } else {
                            !r && challenged(*old(self), *final(self), blob->0, context, accept)
                        },
                        Err(failure) => !r && *final(self) == (TrustState {
                            failure: Some(failure),
                            ..*old(self)
                        }),
                    }
                },
            },
    {
        let blob = match blob {
            Some(blob) => blob,
            None => {
                self.failure = Some(ProtocolFailure::Malformed);
                return false;
            },
        };
        if blob.len() > limit {
            self.failure = Some(ProtocolFailure::ResourceLimit);
            return false;
        }
        let same = match &self.key {
            Some(previous) => Some(same_bytes(previous.as_slice(), blob.as_slice())),
            None => None,
        };
        match same {
            Some(same) => {
                if !same {
                    self.failure = Some(ProtocolFailure::HostKeyMismatch);
                }
                return same;
            },
            None => {},
        }
        match trust.accepts(blob.as_slice(), legacy_matches) {
            Ok(known) => {
                if known {
                    self.key = Some(blob);
                    return true;
                }
                match challenge(
                    context.gid.as_str(),
                    context.generation,
                    context.host,
                    context.port,
                    context.algorithm,
                    blob,
                    accept,
                ) {
                    Ok(presented) => {
                        self.challenge = Some(presented);
                    },
                    Err(failure) => {
                        self.failure = Some(failure);
                    },
                }
                false
            },
            Err(failure) => {
                self.failure = Some(failure);
                false
            },
        }
    }

    /// Why a handshake failed: a challenge that waits for an answer, what was
    /// found of the key, or else the failure itself.
    pub fn handshake_failure(self, error: ProtocolFailure) -> (r: Result<PresentedHostKeyChallenge, ProtocolFailure>)
        ensures
            r == (match self.challenge {
                Some(presented) => Ok::<PresentedHostKeyChallenge, ProtocolFailure>(presented),
                None => match self.failure {
                    Some(failure) => Err(failure),
                    None => Err(error),
                },
            }),
    {
        match self.challenge {
            Some(presented) => Ok(presented),
            None => match self.failure {
                Some(failure) => Err(failure),
                None => Err(error),
            },
        }
    }
}

/// Once a key has been accepted, no other key is accepted on the connection.
pub proof fn law_the_accepted_key_stays(state: TrustState, blob: Option<Vec<u8>>, limit: usize)
    requires
        state.key is Some,
        key_refusal(state, blob, limit) is None,
    ensures
        blob is Some && blob->0@ == state.key->0@,
{
}

/// Where a session connects to, and the file that it reads, still encoded.
#[derive(Debug, PartialEq, Eq)]
pub struct SftpTarget {
    pub host: String,
    pub port: u16,
    pub path: String,
}

/// The target of an address.
pub open spec fn sftp_target_of(parts: UrlPartsView) -> Option<(Seq<char>, u16, Seq<char>)> {
    match parts.host {
        Some(host) => Some(
            (
                lower_text(bare_host(host)),
                match parts.port {
                    Some(port) => port,
                    None => 22u16,
                },
                parts.path,
            ),
        ),
        None => None,
    }
}

/// What a target that may be there is.
pub open spec fn sftp_targeted(target: Option<(Seq<char>, u16, Seq<char>)>, r: Result<SftpTarget, ProtocolFailure>) -> bool {
    match target {
        Some((host, port, path)) => r is Ok && r->Ok_0.host@ == host && r->Ok_0.port == port && r->Ok_0.path@ == path,
        None => r == Err::<SftpTarget, ProtocolFailure>(ProtocolFailure::UnsafeDestination),
    }
}

/// The target of a parsed address.
pub fn sftp_parts_target(parts: UrlParts) -> (r: Result<SftpTarget, ProtocolFailure>)
    ensures
        sftp_targeted(sftp_target_of(parts@), r),
{
    match parts.host {
        Some(host) => {
            let bare = strip_around(&chars_of(host.as_str()), '[', ']');
            let port: u16 = match parts.port {
                Some(port) => port,
                None => 22,
            };
            Ok(SftpTarget { host: text_of(&lower_chars(&bare)), port, path: parts.path })
        },
        None => Err(ProtocolFailure::UnsafeDestination),
    }
}

/// The target of a source: a source without an address lacks credentials.
pub fn sftp_target(uri: Option<&str>) -> (r: Result<SftpTarget, ProtocolFailure>)
    ensures
        match uri {
            None => r == Err::<SftpTarget, ProtocolFailure>(ProtocolFailure::AuthFailure),
            Some(uri) => sftp_targeted(
                match parsed_url(uri@) {
                    Ok(parts) => sftp_target_of(parts),
                    Err(_) => None,
                },
                r,
            ),
        },
{
    match uri {
        None => Err(ProtocolFailure::AuthFailure),
        Some(uri) => match parse_url(uri) {
            Ok(parts) => sftp_parts_target(parts),
            Err(_) => Err(ProtocolFailure::UnsafeDestination),
        },
    }
}

/// A message on a channel.
#[derive(Clone, Copy, Debug, PartialEq, Eq, Structural)]
pub enum ChannelReply {
    Success,
    WindowAdjusted,
    Failure,
    Eof,
    /// Any other message.
    Other,
    /// The channel ended without one.
    Ended,
}

/// Whether the subsystem is there: so many messages may still adjust the window
/// before it is.
pub fn subsystem_approved(message: ChannelReply, remaining: &mut usize) -> (r: Result<bool, ProtocolFailure>)
    ensures
        *final(remaining) == (if *old(remaining) == 0 {
            0
        } else {
            *old(remaining) - 1
        }),
        r == (if *old(remaining) == 0 {
            Err::<bool, ProtocolFailure>(ProtocolFailure::Control)
        } else {
            match message {
                ChannelReply::Success => Ok(true),
                ChannelReply::WindowAdjusted => Ok(false),
                _ => Err(ProtocolFailure::Control),
            }
        }),
{
    if *remaining == 0 {
        return Err(ProtocolFailure::Control);
    }
    *remaining = *remaining - 1;
    match message {
        ChannelReply::Success => Ok(true),
        ChannelReply::WindowAdjusted => Ok(false),
        _ => Err(ProtocolFailure::Control),
    }
}

/// Why a request to the server failed.
#[derive(Clone, Copy, Debug, PartialEq, Eq, Structural)]
pub enum SftpFault {
    PacketTooLarge,
    RequestLimit,
    Limited,
    Timeout,
    SessionClosed,
    Io,
    PermissionDenied,
    Status,
    Other,
}

/// The failure that a fault of a request is.
pub open spec fn fault_failure(fault: SftpFault) -> ProtocolFailure {
    match fault {
        SftpFault::PacketTooLarge | SftpFault::RequestLimit | SftpFault::Limited => ProtocolFailure::ResourceLimit,
        SftpFault::Timeout => ProtocolFailure::Timeout,
        SftpFault::SessionClosed | SftpFault::Io | SftpFault::Status => ProtocolFailure::Data,
        SftpFault::PermissionDenied => ProtocolFailure::AuthFailure,
        SftpFault::Other => ProtocolFailure::Malformed,
    }
}

pub fn sftp_error(fault: SftpFault) -> (r: ProtocolFailure)
    ensures
        r == fault_failure(fault),
{
    match fault {
        SftpFault::PacketTooLarge | SftpFault::RequestLimit | SftpFault::Limited => ProtocolFailure::ResourceLimit,
        SftpFault::Timeout => ProtocolFailure::Timeout,
        SftpFault::SessionClosed | SftpFault::Io | SftpFault::Status => ProtocolFailure::Data,
        SftpFault::PermissionDenied => ProtocolFailure::AuthFailure,
        SftpFault::Other => ProtocolFailure::Malformed,
    }
}

/// A question of a server.
#[derive(Debug)]
pub struct Prompt {
    pub prompt: String,
    pub echo: bool,
}

/// Whether a server asks for the password alone, without showing it.
pub open spec fn asks_password(prompts: Seq<Prompt>) -> bool {
    prompts.len() == 1 && !prompts[0].echo && same_but_case(trimmed(prompts[0].prompt@), "password:"@)
}

pub fn password_prompt(prompts: &Vec<Prompt>) -> (r: bool)
    ensures
        r == asks_password(prompts@),
{
    prompts.len() == 1 && !prompts[0].echo && chars_same_but_case(
        &trim_text(prompts[0].prompt.as_str()),
        &chars_of("password:"),
    )
}

/// What identifies the file that a transfer reads.
#[derive(Clone, Copy, Debug, PartialEq, Eq, Structural)]
pub struct ProtocolValidator {
    pub protocol: u8,
    pub source: JournalHash,
    pub total_length: u64,
    pub modified_unix_seconds: Option<u64>,
    pub host_key: Option<JournalHash>,
}

/// A modification time as it is kept.
pub open spec fn kept_time(modified: Option<u32>) -> Option<u64> {
    match modified {
        Some(seconds) => Some(seconds as u64),
        None => None,
    }
}

fn kept(modified: Option<u32>) -> (r: Option<u64>)
    ensures
        r == kept_time(modified),
{
    match modified {
        Some(seconds) => Some(seconds as u64),
        None => None,
    }
}

/// The most bytes that are read at once: as the settings say, as the server says
/// if it says so, and what fits into a packet beside its head.
pub open spec fn read_limit(setting: usize, server: Option<u64>, packet: u32) -> int {
    let asked = match server {
        Some(most) => if most > 0 && most < setting {
            most as int
        } else {
            setting as int
        },
        None => setting as int,
    };
    let room = if packet >= 13 {
        packet - 13
    } else {
        0
    };
    if room < asked {
        room
    } else {
        asked
    }
}

/// The most bytes that are read at once.
pub fn read_cap(setting: usize, server: Option<u64>, packet: u32) -> (r: Result<usize, ProtocolFailure>)
    ensures
        r == (if read_limit(setting, server, packet) == 0 {
            Err::<usize, ProtocolFailure>(ProtocolFailure::ResourceLimit)
        } else {
            Ok(read_limit(setting, server, packet) as usize)
        }),
{
    let mut cap: usize = setting;
    match server {
        Some(most) => {
            if most > 0 && most < setting as u64 {
                cap = most as usize;
            }
        },
        None => {},
    }
    let room: u32 = if packet >= 13 {
        packet - 13
    } else {
        0
    };
    if (room as u64) < (cap as u64) {
        cap = room as usize;
    }
    if cap == 0 {
        return Err(ProtocolFailure::ResourceLimit);
    }
    Ok(cap)
}

/// What is known of a file that was opened.
#[derive(Clone, Copy, Debug, PartialEq, Eq, Structural)]
pub struct FileFacts {
    pub size: Option<u64>,
    pub modified: Option<u32>,
}

/// What identifies an opened file: its size has to be known, and the key of its
/// host to have been accepted. `source` is the fingerprint of the source, if that is a
/// hash, and `key_hash` whether the digest of the key is one.
pub fn file_validator(facts: FileFacts, key: Option<&Vec<u8>>, source: Option<JournalHash>, key_hash: bool) -> (r:
    Result<ProtocolValidator, ProtocolFailure>)
    ensures
        r == (match (facts.size, key, source) {
            (None, _, _) => Err::<ProtocolValidator, ProtocolFailure>(ProtocolFailure::SizeUnsupported),
            (_, None, _) => Err(ProtocolFailure::HostKeyMismatch),
            (_, _, None) => Err(ProtocolFailure::Malformed),
            (Some(size), Some(key), Some(source)) => if key_hash {
                Ok(
                    ProtocolValidator {
                        protocol: 3,
                        source,
                        total_length: size,
                        modified_unix_seconds: kept_time(facts.modified),
                        host_key: Some(words_of(sha256_of(key@))),
                    },
                )
            } else {
                Err(ProtocolFailure::Malformed)
            },
        }),
{
    let size = match facts.size {
        Some(size) => size,
        None => return Err(ProtocolFailure::SizeUnsupported),
    };
    let key = match key {
        Some(key) => key,
        None => return Err(ProtocolFailure::HostKeyMismatch),
    };
    let source = match source {
        Some(source) => source,
        None => return Err(ProtocolFailure::Malformed),
    };
    if !key_hash {
        return Err(ProtocolFailure::Malformed);
    }
    Ok(
        ProtocolValidator {
            protocol: 3,
            source,
            total_length: size,
            modified_unix_seconds: kept(facts.modified),
            host_key: Some(key_digest(key.as_slice())),
        },
    )
}

/// Whether a file is still the one that was opened.
pub open spec fn unchanged(validator: ProtocolValidator, facts: FileFacts) -> bool {
    facts.size == Some(validator.total_length) && kept_time(facts.modified) == validator.modified_unix_seconds
}

/// Fails where a file is no longer the one that was opened.
pub fn check_unchanged(validator: &ProtocolValidator, facts: FileFacts) -> (r: Result<(), ProtocolFailure>)
    ensures
        r == (if unchanged(*validator, facts) {
            Ok::<(), ProtocolFailure>(())
        } else {
            Err(ProtocolFailure::StaleValidator)
        }),
{
    let same_size = match facts.size {
        Some(size) => size == validator.total_length,
        None => false,
    };
    let same_time = match (facts.modified, validator.modified_unix_seconds) {
        (Some(now), Some(seconds)) => now as u64 == seconds,
        (None, None) => true,
        _ => false,
    };
    if same_size && same_time {
        Ok(())
    } else {
        Err(ProtocolFailure::StaleValidator)
    }
}

/// A file that has just been opened is unchanged.
pub proof fn law_an_opened_file_is_unchanged(facts: FileFacts, validator: ProtocolValidator)
    requires
        facts.size is Some,
        validator.total_length == facts.size->0,
        validator.modified_unix_seconds == kept_time(facts.modified),
    ensures
        unchanged(validator, facts),
{
}

} // verus!
