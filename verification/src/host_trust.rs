//! Which host keys are trusted, and the challenge that an unknown one raises.
use vstd::prelude::*;
use vstd::utf8::encode_utf8;
use crate::bytes::{big_endian, low_bytes, push_bytes, push_u64, read_u128, sha256, sha256_of};
use crate::known_hosts::{bytes_view, key_views, same_bytes, KnownKey, KnownMarker};
use crate::session::{HostKeyChallengeId, JournalHash};
use crate::task_status::HostKeyChallenge;
use crate::transport::ProtocolFailure;

verus! {

/// A key in the format of OpenSSH as bytes: `None` where `PublicKey::from_openssh`
/// of `ssh_key` cannot read it, `Some(None)` where it cannot be encoded.
pub uninterp spec fn openssh_key(text: Seq<char>) -> Option<Option<Seq<u8>>>;

/// Reads a key with `PublicKey::from_openssh` of `ssh_key`, and encodes it with
/// `PublicKey::to_bytes`. Nothing is said of which texts can be read.
#[verifier::external_body]
fn read_openssh_key(text: &str) -> (r: Option<Option<Vec<u8>>>)
    ensures
        (match r {
            Some(key) => Some(bytes_view(key)),
            None => None,
        }) == openssh_key(text@),
{
    russh::keys::ssh_key::PublicKey::from_openssh(text).ok().map(|key| key.to_bytes().ok())
}

/// The keys that are trusted for a host.
#[derive(Debug)]
pub struct HostTrust {
    /// The one key that is accepted.
    pub exact: Option<Vec<u8>>,
    /// The SHA-256 digest of the one key that is accepted.
    pub fingerprint: Option<Vec<u8>>,
    /// The keys that files name for the host.
    pub known: Vec<KnownKey>,
    /// Whether a checksum of the key is given.
    pub legacy: bool,
    /// Whether an unknown key has to be approved.
    pub check: bool,
}

/// What a trust holds.
#[verifier::ext_equal]
pub struct HostTrustView {
    pub exact: Option<Seq<u8>>,
    pub fingerprint: Option<Seq<u8>>,
    pub known: Seq<(Option<KnownMarker>, Seq<u8>)>,
    pub legacy: bool,
    pub check: bool,
}

impl View for HostTrust {
    type V = HostTrustView;

    open spec fn view(&self) -> HostTrustView {
        HostTrustView {
            exact: bytes_view(self.exact),
            fingerprint: bytes_view(self.fingerprint),
            known: key_views(self.known@),
            legacy: self.legacy,
            check: self.check,
        }
    }
}

/// Whether a file revokes a key.
pub open spec fn is_revoked(trust: HostTrustView, blob: Seq<u8>) -> bool {
    trust.known.contains((Some(KnownMarker::Revoked), blob))
}

/// Whether a file names a key as the host's.
pub open spec fn is_known(trust: HostTrustView, blob: Seq<u8>) -> bool {
    trust.known.contains((None, blob))
}

/// The verdict on a key and its digest. A revoked key is refused whatever else is said of it. A
/// pin decides alone; without one the files do, if they name a key for the host;
/// then the checksum, if one is given. Else the key is unknown: it is accepted
/// where keys are not checked, and must be approved otherwise.
pub open spec fn digest_verdict(trust: HostTrustView, blob: Seq<u8>, digest: Seq<u8>, legacy_matches: bool) -> Result<
    bool,
    ProtocolFailure,
> {
    if is_revoked(trust, blob) {
        Err(ProtocolFailure::HostKeyMismatch)
    } else if trust.exact is Some && trust.exact != Some(blob) {
        Err(ProtocolFailure::HostKeyMismatch)
    } else if trust.fingerprint is Some && trust.fingerprint != Some(digest) {
        Err(ProtocolFailure::HostKeyMismatch)
    } else if trust.exact is Some || trust.fingerprint is Some {
        Ok(true)
    } else if trust.known.len() > 0 {
        if is_known(trust, blob) {
            Ok(true)
        } else {
            Err(ProtocolFailure::HostKeyMismatch)
        }
    } else if trust.legacy {
        if legacy_matches {
            Ok(true)
        } else {
            Err(ProtocolFailure::HostKeyMismatch)
        }
    } else {
        Ok(!trust.check)
    }
}

/// The verdict on a key.
pub open spec fn verdict(trust: HostTrustView, blob: Seq<u8>, legacy_matches: bool) -> Result<bool, ProtocolFailure> {
    digest_verdict(trust, blob, sha256_of(blob), legacy_matches)
}

/// Whether a list holds a key under a marker.
fn lists_key(known: &Vec<KnownKey>, revoked: bool, blob: &[u8]) -> (r: bool)
    ensures
        r == key_views(known@).contains(
            (
                if revoked {
                    Some(KnownMarker::Revoked)
                } else {
                    None
                },
                blob@,
            ),
        ),
{
    let ghost wanted: (Option<KnownMarker>, Seq<u8>) = (
        if revoked {
            Some(KnownMarker::Revoked)
        } else {
            None
        },
        blob@,
    );
    let ghost all = key_views(known@);
    let mut i: usize = 0;
    while i < known.len()
        invariant
            i <= known.len(),
            all == key_views(known@),
            wanted == (
                if revoked {
                    Some(KnownMarker::Revoked)
                } else {
                    None::<KnownMarker>
                },
                blob@,
            ),
            forall|k: int| 0 <= k < i ==> all[k] != wanted,
        decreases known.len() - i,
    {
        let marked = match known[i].marker {
            Some(KnownMarker::Revoked) => revoked,
            None => !revoked,
            _ => false,
        };
        assert(all[i as int] == (known@[i as int].marker, known@[i as int].key@));
        if marked && same_bytes(known[i].key.as_slice(), blob) {
            assert(all[i as int] == wanted);
            return true;
        }
        i = i + 1;
    }
    false
}

/// What settings say of the key that is accepted: `Some(None)` where they cannot
/// be read.
pub open spec fn loaded(
    key: Option<Option<Option<Seq<u8>>>>,
    fingerprint: Option<Option<Seq<u8>>>,
    legacy: Option<bool>,
    known: Result<Seq<(Option<KnownMarker>, Seq<u8>)>, ProtocolFailure>,
    check: bool,
) -> Result<HostTrustView, ProtocolFailure> {
    if key == Some(None::<Option<Seq<u8>>>) {
        Err(ProtocolFailure::HostKeyMismatch)
    } else if key == Some(Some(None::<Seq<u8>>)) {
        Err(ProtocolFailure::Malformed)
    } else if fingerprint == Some(None::<Seq<u8>>) || legacy == Some(false) {
        Err(ProtocolFailure::HostKeyMismatch)
    } else {
        match known {
            Err(failure) => Err(failure),
            Ok(known) => Ok(
                HostTrustView {
                    exact: match key {
                        Some(Some(Some(bytes))) => Some(bytes),
                        _ => None,
                    },
                    fingerprint: match fingerprint {
                        Some(Some(bytes)) => Some(bytes),
                        _ => None,
                    },
                    known,
                    legacy: legacy is Some,
                    check,
                },
            ),
        }
    }
}

/// What reading known hosts gave.
pub open spec fn known_view(known: Result<Vec<KnownKey>, ProtocolFailure>) -> Result<
    Seq<(Option<KnownMarker>, Seq<u8>)>,
    ProtocolFailure,
> {
    match known {
        Ok(keys) => Ok(key_views(keys@)),
        Err(failure) => Err(failure),
    }
}

/// What a trust that may have been made holds.
pub open spec fn trust_view(r: Result<HostTrust, ProtocolFailure>) -> Result<HostTrustView, ProtocolFailure> {
    match r {
        Ok(trust) => Ok(trust@),
        Err(failure) => Err(failure),
    }
}

/// What a fingerprint that may have been given is.
pub open spec fn pin_view(pin: Option<Option<Vec<u8>>>) -> Option<Option<Seq<u8>>> {
    match pin {
        Some(bytes) => Some(bytes_view(bytes)),
        None => None,
    }
}

impl HostTrust {
    /// The trust that settings give: a key in the format of OpenSSH, a
    /// fingerprint and a checksum, where those are given, each `Some` of what
    /// reading it gave; and the keys that were read from files.
    pub fn load(
        host_key: Option<&str>,
        fingerprint: Option<Option<Vec<u8>>>,
        legacy: Option<bool>,
        known: Result<Vec<KnownKey>, ProtocolFailure>,
        check: bool,
    ) -> (r: Result<Self, ProtocolFailure>)
        ensures
            trust_view(r) == loaded(
                match host_key {
                    Some(text) => Some(openssh_key(text@)),
                    None => None,
                },
                pin_view(fingerprint),
                legacy,
                known_view(known),
                check,
            ),
    {
        let key = match host_key {
            Some(text) => Some(read_openssh_key(text)),
            None => None,
        };
        HostTrust::from_parsed(key, fingerprint, legacy, known, check)
    }

    /// The trust that settings give once the key has been read.
    pub fn from_parsed(
        key: Option<Option<Option<Vec<u8>>>>,
        fingerprint: Option<Option<Vec<u8>>>,
        legacy: Option<bool>,
        known: Result<Vec<KnownKey>, ProtocolFailure>,
        check: bool,
    ) -> (r: Result<Self, ProtocolFailure>)
        ensures
            trust_view(r) == loaded(
                match key {
                    Some(read) => Some(pin_view(read)),
                    None => None,
                },
                pin_view(fingerprint),
                legacy,
                known_view(known),
                check,
            ),
    {
        let exact = match key {
            Some(None) => return Err(ProtocolFailure::HostKeyMismatch),
            Some(Some(None)) => return Err(ProtocolFailure::Malformed),
            Some(Some(Some(bytes))) => Some(bytes),
            None => None,
        };
        let pin = match fingerprint {
            Some(None) => return Err(ProtocolFailure::HostKeyMismatch),
            Some(Some(bytes)) => Some(bytes),
            None => None,
        };
        let checksum = match legacy {
            Some(valid) => {
                if !valid {
                    return Err(ProtocolFailure::HostKeyMismatch);
                }
                true
            },
            None => false,
        };
        match known {
            Ok(known) => Ok(HostTrust { exact, fingerprint: pin, known, legacy: checksum, check }),
            Err(failure) => Err(failure),
        }
    }

    /// Whether a key is accepted without approval; `legacy_matches` is whether
    /// the checksum, if one is given, is that of the key.
    pub fn accepts(&self, blob: &[u8], legacy_matches: bool) -> (r: Result<bool, ProtocolFailure>)
        ensures
            r == verdict(self@, blob@, legacy_matches),
    {
        let digest = if self.fingerprint.is_some() {
            sha256(blob)
        } else {
            Vec::new()
        };
        self.accepts_digest(blob, digest.as_slice(), legacy_matches)
    }

    /// Whether a key whose digest is given is accepted without approval.
    pub fn accepts_digest(&self, blob: &[u8], digest: &[u8], legacy_matches: bool) -> (r: Result<
        bool,
        ProtocolFailure,
    >)
        ensures
            r == digest_verdict(self@, blob@, digest@, legacy_matches),
    {
        if lists_key(&self.known, true, blob) {
            return Err(ProtocolFailure::HostKeyMismatch);
        }
        match &self.exact {
            Some(key) => {
                if !same_bytes(key.as_slice(), blob) {
                    return Err(ProtocolFailure::HostKeyMismatch);
                }
            },
            None => {},
        }
        match &self.fingerprint {
            Some(pin) => {
                if !same_bytes(pin.as_slice(), digest) {
                    return Err(ProtocolFailure::HostKeyMismatch);
                }
            },
            None => {},
        }
        if self.exact.is_some() || self.fingerprint.is_some() {
            return Ok(true);
        }
        if self.known.len() > 0 {
            if lists_key(&self.known, false, blob) {
                return Ok(true);
            }
            return Err(ProtocolFailure::HostKeyMismatch);
        }
        if self.legacy {
            if legacy_matches {
                return Ok(true);
            }
            return Err(ProtocolFailure::HostKeyMismatch);
        }
        Ok(!self.check)
    }
}

/// A revoked key is refused, whatever pins, other lines and checksums say.
pub proof fn law_revocation_overrides_everything(trust: HostTrustView, blob: Seq<u8>, legacy_matches: bool)
    requires
        is_revoked(trust, blob),
    ensures
        verdict(trust, blob, legacy_matches) == Err::<bool, ProtocolFailure>(ProtocolFailure::HostKeyMismatch),
{
}

/// A pinned key is the only one that is accepted.
pub proof fn law_a_pin_accepts_one_key(trust: HostTrustView, a: Seq<u8>, b: Seq<u8>, x: bool, y: bool)
    requires
        trust.exact is Some,
        verdict(trust, a, x) is Ok,
        verdict(trust, b, y) is Ok,
    ensures
        a == b,
{
}

/// Where keys are checked and nothing is said of a host's key, it has to be
/// approved; and only then.
pub proof fn law_approval_is_asked_of_unknown_keys_only(trust: HostTrustView, blob: Seq<u8>, legacy_matches: bool)
    ensures
        verdict(trust, blob, legacy_matches) == Ok::<bool, ProtocolFailure>(false) <==> trust.check
            && trust.exact is None && trust.fingerprint is None && trust.known.len() == 0 && !trust.legacy,
{
    if trust.known.len() == 0 {
        assert(!is_revoked(trust, blob));
    }
}

/// A digest of thirty-two bytes as two words.
pub open spec fn words_of(digest: Seq<u8>) -> JournalHash {
    JournalHash {
        high: big_endian(digest.take(16)) as u128,
        low: big_endian(digest.subrange(16, 32)) as u128,
    }
}

/// Takes a digest of thirty-two bytes as two words.
pub fn digest_words(digest: &Vec<u8>) -> (r: JournalHash)
    requires
        digest@.len() == 32,
    ensures
        r == words_of(digest@),
{
    let mut tail: Vec<u8> = Vec::new();
    push_bytes(&mut tail, vstd::slice::slice_subrange(digest.as_slice(), 16, 32));
    assert(tail@ =~= digest@.subrange(16, 32));
    assert(tail@.take(16) =~= tail@);
    JournalHash { high: read_u128(digest, 16), low: read_u128(&tail, 16) }
}

/// The digest of a key as two words.
pub fn key_digest(key: &[u8]) -> (r: JournalHash)
    ensures
        r == words_of(sha256_of(key@)),
{
    digest_words(&sha256(key))
}

/// What the identity of a challenge is made from.
pub open spec fn challenge_material(gid: Seq<char>, generation: u64, host: Seq<char>, port: u16, blob: Seq<u8>) -> Seq<
    u8,
> {
    encode_utf8("ariax/sftp-challenge/v1"@).push(0) + encode_utf8(gid) + low_bytes(generation as nat, 8) + encode_utf8(
        host,
    ) + low_bytes(port as nat, 2) + blob
}

/// The challenge that a key raises.
pub open spec fn raised(
    challenge: HostKeyChallenge,
    gid: Seq<char>,
    generation: u64,
    host: Seq<char>,
    port: u16,
    algorithm: Seq<char>,
    blob: Seq<u8>,
) -> bool {
    &&& challenge.id.0 == big_endian(sha256_of(challenge_material(gid, generation, host, port, blob)).take(16))
    &&& challenge.canonical_host@ == host
    &&& challenge.port == port
    &&& challenge.algorithm@ == algorithm
    &&& challenge.fingerprint_sha256 == words_of(sha256_of(blob))
}

/// A challenge together with the key that was presented.
#[derive(Debug)]
pub struct PresentedHostKeyChallenge {
    pub summary: HostKeyChallenge,
    pub key: Vec<u8>,
}

/// The challenge that an unknown key raises, bound to the generation of the task
/// under which the key was presented; `Malformed` where `accept` refuses it.
pub fn challenge<V: Fn(&PresentedHostKeyChallenge) -> bool>(
    gid: &str,
    generation: u64,
    host: String,
    port: u16,
    algorithm: String,
    blob: Vec<u8>,
    accept: V,
) -> (r: Result<PresentedHostKeyChallenge, ProtocolFailure>)
    requires
        forall|presented: &PresentedHostKeyChallenge| #[trigger] accept.requires((presented,)),
    ensures
        exists|presented: PresentedHostKeyChallenge, verdict: bool|
            #![trigger accept.ensures((&presented,), verdict)]
            accept.ensures((&presented,), verdict) && presented.key == blob && raised(
                presented.summary,
                gid@,
                generation,
                host@,
                port,
                algorithm@,
                blob@,
            ) && r == (if verdict {
                Ok::<PresentedHostKeyChallenge, ProtocolFailure>(presented)
            } else {
                Err::<PresentedHostKeyChallenge, ProtocolFailure>(ProtocolFailure::Malformed)
            }),
{
    let mut material: Vec<u8> = Vec::new();
    push_bytes(&mut material, "ariax/sftp-challenge/v1".as_bytes());
    material.push(0);
    push_bytes(&mut material, gid.as_bytes());
    push_u64(&mut material, generation);
    push_bytes(&mut material, host.as_str().as_bytes());
    let ghost before = material@;
    let low: u8 = (port % 256) as u8;
    let high: u8 = (port / 256) as u8;
    material.push(low);
    material.push(high);
    proof {
        reveal_with_fuel(low_bytes, 3);
        assert(material@ =~= before + low_bytes(port as nat, 2));
    }
    push_bytes(&mut material, blob.as_slice());
    assert(material@ =~= challenge_material(gid@, generation, host@, port, blob@));
    let hash = sha256(material.as_slice());
    let id = HostKeyChallengeId(read_u128(&hash, 16));
    let fingerprint_sha256 = key_digest(blob.as_slice());
    let summary = HostKeyChallenge { id, canonical_host: host, port, algorithm, fingerprint_sha256 };
    let presented = PresentedHostKeyChallenge { summary, key: blob };
    let verdict = accept(&presented);
    if verdict {
        Ok(presented)
    } else {
        Err(ProtocolFailure::Malformed)
    }
}

} // verus!
