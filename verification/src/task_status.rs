//! What the control plane reports of tasks.
use vstd::prelude::*;
use crate::json::{field_text, json_field, json_gid, json_items, json_text, Json};
use crate::native_error::NativeApiError;
use crate::session::{Aria2Status, Gid, HostKeyChallengeId, JournalHash};
use crate::text::{all_hex, chars_all_hex, chars_of, parse_unsigned, parsed_unsigned, same_text};

verus! {

/// What a torrent does.
#[derive(Debug)]
pub struct BitTorrentStatus {
    pub info_hash: String,
    pub info_hash_v2: Option<String>,
    pub seeder: bool,
    pub peers: u64,
    pub seeders: u64,
    pub downloaded: u64,
    pub uploaded: u64,
    pub download_speed: u64,
    pub upload_speed: u64,
    pub seed_seconds: u64,
    pub checkpoint_dirty: bool,
}

/// What a status says of a torrent.
#[verifier::ext_equal]
pub struct BitTorrentView {
    pub info_hash: Seq<char>,
    pub info_hash_v2: Option<Seq<char>>,
    pub seeder: bool,
    pub peers: u64,
    pub seeders: u64,
    pub downloaded: u64,
    pub uploaded: u64,
    pub download_speed: u64,
    pub upload_speed: u64,
    pub seed_seconds: u64,
    pub checkpoint_dirty: bool,
}

impl View for BitTorrentStatus {
    type V = BitTorrentView;

    open spec fn view(&self) -> BitTorrentView {
        BitTorrentView {
            info_hash: self.info_hash@,
            info_hash_v2: match self.info_hash_v2 {
                Some(hash) => Some(hash@),
                None => None,
            },
            seeder: self.seeder,
            peers: self.peers,
            seeders: self.seeders,
            downloaded: self.downloaded,
            uploaded: self.uploaded,
            download_speed: self.download_speed,
            upload_speed: self.upload_speed,
            seed_seconds: self.seed_seconds,
            checkpoint_dirty: self.checkpoint_dirty,
        }
    }
}

/// A connection over SSH, as it was negotiated.
#[derive(Debug)]
pub struct SshConnectionStatus {
    pub source: u32,
    pub kex: String,
    pub host_key: String,
    pub cipher: String,
    pub client_mac: String,
    pub server_mac: String,
    pub insecure_host_key: bool,
    pub legacy_host_key_digest: bool,
}

/// A host key that waits for approval.
#[derive(Debug)]
pub struct HostKeyChallenge {
    pub id: HostKeyChallengeId,
    pub canonical_host: String,
    pub port: u16,
    pub algorithm: String,
    pub fingerprint_sha256: JournalHash,
}

/// What a challenge says.
#[verifier::ext_equal]
pub struct ChallengeView {
    pub id: HostKeyChallengeId,
    pub canonical_host: Seq<char>,
    pub port: u16,
    pub algorithm: Seq<char>,
    pub fingerprint_sha256: JournalHash,
}

impl View for HostKeyChallenge {
    type V = ChallengeView;

    open spec fn view(&self) -> ChallengeView {
        ChallengeView {
            id: self.id,
            canonical_host: self.canonical_host@,
            port: self.port,
            algorithm: self.algorithm@,
            fingerprint_sha256: self.fingerprint_sha256,
        }
    }
}

/// What the control plane reports of a task.
#[derive(Debug)]
pub struct TaskStatus {
    pub gid: Gid,
    pub status: Aria2Status,
    pub total_length: u64,
    pub completed_length: u64,
    pub bittorrent: Option<BitTorrentStatus>,
    pub host_key_challenge: Option<HostKeyChallenge>,
    pub followed_by: Vec<Gid>,
    pub ssh_connection: Option<SshConnectionStatus>,
}

/// What a status says.
#[verifier::ext_equal]
pub struct TaskStatusView {
    pub gid: Gid,
    pub status: Aria2Status,
    pub total_length: u64,
    pub completed_length: u64,
    pub bittorrent: Option<BitTorrentView>,
    pub host_key_challenge: Option<ChallengeView>,
    pub followed_by: Seq<Gid>,
    pub ssh_connection: Option<SshConnectionStatus>,
}

impl View for TaskStatus {
    type V = TaskStatusView;

    open spec fn view(&self) -> TaskStatusView {
        TaskStatusView {
            gid: self.gid,
            status: self.status,
            total_length: self.total_length,
            completed_length: self.completed_length,
            bittorrent: torrent_view(self.bittorrent),
            host_key_challenge: match self.host_key_challenge {
                Some(challenge) => Some(challenge@),
                None => None,
            },
            followed_by: self.followed_by@,
            ssh_connection: self.ssh_connection,
        }
    }
}

/// What is said of a torrent, if anything is.
pub open spec fn torrent_view(status: Option<BitTorrentStatus>) -> Option<BitTorrentView> {
    match status {
        Some(status) => Some(status@),
        None => None,
    }
}

/// Whether a source is in use.
#[derive(Clone, Copy, Debug, PartialEq, Eq, Structural)]
pub enum UriUsage {
    Used,
    Waiting,
}

/// A source of a task.
#[derive(Debug)]
pub struct DownloadUri {
    pub uri: String,
    pub status: UriUsage,
}

/// A file of a task.
#[derive(Debug)]
pub struct DownloadFile {
    pub index: u64,
    pub path: String,
    pub length: u64,
    pub completed_length: u64,
    pub selected: bool,
    pub uris: Vec<DownloadUri>,
}

/// A server that a file comes from.
#[derive(Debug)]
pub struct DownloadServer {
    pub uri: String,
    pub current_uri: String,
    pub download_speed: u64,
}

/// The servers that a file comes from.
#[derive(Debug)]
pub struct DownloadServers {
    pub index: u64,
    pub servers: Vec<DownloadServer>,
}

/// What all tasks do together.
#[derive(Clone, Copy, Debug, PartialEq, Eq, Structural)]
pub struct GlobalStatistics {
    pub download_speed: u64,
    pub upload_speed: u64,
    pub num_active: u64,
    pub num_waiting: u64,
    pub num_stopped: u64,
    pub completed_length: u64,
}

#[derive(Debug)]
pub struct EngineVersion {
    pub version: String,
    pub enabled_features: Vec<String>,
}

#[derive(Debug)]
pub struct EngineSession {
    pub session_id: String,
}

/// A number of 64 bits as text.
pub fn decimal_u64(text: &str) -> (r: Option<u64>)
    ensures
        (match r {
            Some(n) => Some(n as int),
            None => None,
        }) == parsed_unsigned(text@, u64::MAX as int),
{
    parse_unsigned(&chars_of(text), u64::MAX)
}

/// A flag as text.
pub fn text_bool(text: &str) -> (r: Option<bool>)
    ensures
        r == (if text@ == "true"@ {
            Some(true)
        } else if text@ == "false"@ {
            Some(false)
        } else {
            None
        }),
{
    if same_text(text, "true") {
        Some(true)
    } else if same_text(text, "false") {
        Some(false)
    } else {
        None
    }
}

/// The number that a field spells.
pub open spec fn decimal_of(value: Json, name: Seq<char>) -> Option<int> {
    match field_text(value, name) {
        Some(text) => parsed_unsigned(text, u64::MAX as int),
        None => None,
    }
}

/// The number that a field spells; the error is its name.
pub fn decimal_field(value: &Json, name: &'static str) -> (r: Result<u64, NativeApiError>)
    ensures
        match decimal_of(*value, name@) {
            Some(n) => r is Ok && r->Ok_0 == n,
            None => r == Err::<u64, NativeApiError>(NativeApiError::InvalidResponse(name)),
        },
{
    match value.get_text(name) {
        Some(text) => match decimal_u64(text) {
            Some(n) => Ok(n),
            None => Err(NativeApiError::InvalidResponse(name)),
        },
        None => Err(NativeApiError::InvalidResponse(name)),
    }
}

/// The identity of a torrent, if a text is one.
pub open spec fn torrent_hash(value: Json, lengths: Set<int>) -> Option<Seq<char>> {
    match json_text(value) {
        Some(text) => if lengths.contains(text.len() as int) && all_hex(text) {
            Some(text)
        } else {
            None
        },
        None => None,
    }
}

fn torrent_text(value: &Json, short: bool) -> (r: Option<String>)
    ensures
        (match r {
            Some(text) => Some(text@),
            None => None,
        }) == torrent_hash(*value, if short {
            set![40, 64]
        } else {
            set![64]
        }),
{
    match value.as_text() {
        Some(text) => {
            let chars = chars_of(text);
            if ((short && chars.len() == 40) || chars.len() == 64) && chars_all_hex(&chars) {
                Some(text.to_owned())
            } else {
                None
            }
        },
        None => None,
    }
}

/// The flag that a field spells.
pub open spec fn flag_of(value: Json, name: Seq<char>) -> Option<bool> {
    match field_text(value, name) {
        Some(text) => if text == "true"@ {
            Some(true)
        } else if text == "false"@ {
            Some(false)
        } else {
            None
        },
        None => None,
    }
}

/// The number of a field that is one.
pub open spec fn number_of(value: Json, name: Seq<char>) -> Option<u64> {
    match json_field(value, name) {
        Some(Json::Unsigned(n)) => Some(n),
        _ => None,
    }
}

/// The truth of a field that is one.
pub open spec fn truth_of(value: Json, name: Seq<char>) -> Option<bool> {
    match json_field(value, name) {
        Some(Json::Bool(b)) => Some(b),
        _ => None,
    }
}

fn get_number(value: &Json, name: &str) -> (r: Option<u64>)
    ensures
        r == number_of(*value, name@),
{
    match value.get(name) {
        Some(Json::Unsigned(n)) => Some(*n),
        _ => None,
    }
}

fn get_truth(value: &Json, name: &str) -> (r: Option<bool>)
    ensures
        r == truth_of(*value, name@),
{
    match value.get(name) {
        Some(Json::Bool(b)) => Some(*b),
        _ => None,
    }
}

/// The first of a torrent's fields that is wrong.
pub open spec fn torrent_fault(value: Json) -> Option<&'static str> {
    if torrent_hash(json_field(value, "infoHash"@)->0, set![40, 64]) is None {
        Some("invalid torrent identity")
    } else if json_field(value, "infoHashV2"@) is Some && torrent_hash(
        json_field(value, "infoHashV2"@)->0,
        set![64],
    ) is None {
        Some("invalid v2 torrent identity")
    } else if flag_of(value, "seeder"@) is None {
        Some("invalid seeder flag")
    } else if decimal_of(value, "connections"@) is None {
        Some("connections")
    } else if decimal_of(value, "numSeeders"@) is None {
        Some("numSeeders")
    } else if decimal_of(value, "btDownloadedLength"@) is None {
        Some("btDownloadedLength")
    } else if decimal_of(value, "uploadLength"@) is None {
        Some("uploadLength")
    } else if decimal_of(value, "downloadSpeed"@) is None {
        Some("downloadSpeed")
    } else if decimal_of(value, "uploadSpeed"@) is None {
        Some("uploadSpeed")
    } else if number_of(value, "btSeedTime"@) is None {
        Some("invalid seed time")
    } else if truth_of(value, "btCheckpointDirty"@) is None {
        Some("invalid checkpoint state")
    } else {
        None
    }
}

/// What a status says of a torrent: nothing where it names none.
pub open spec fn torrent_of(value: Json) -> Result<Option<BitTorrentView>, NativeApiError> {
    if json_field(value, "infoHash"@) is None {
        Ok(None)
    } else {
        match torrent_fault(value) {
            Some(fault) => Err(NativeApiError::InvalidResponse(fault)),
            None => Ok(
                Some(
                    BitTorrentView {
                        info_hash: torrent_hash(json_field(value, "infoHash"@)->0, set![40, 64])->0,
                        info_hash_v2: match json_field(value, "infoHashV2"@) {
                            Some(hash) => torrent_hash(hash, set![64]),
                            None => None,
                        },
                        seeder: flag_of(value, "seeder"@)->0,
                        peers: decimal_of(value, "connections"@)->0 as u64,
                        seeders: decimal_of(value, "numSeeders"@)->0 as u64,
                        downloaded: decimal_of(value, "btDownloadedLength"@)->0 as u64,
                        uploaded: decimal_of(value, "uploadLength"@)->0 as u64,
                        download_speed: decimal_of(value, "downloadSpeed"@)->0 as u64,
                        upload_speed: decimal_of(value, "uploadSpeed"@)->0 as u64,
                        seed_seconds: number_of(value, "btSeedTime"@)->0,
                        checkpoint_dirty: truth_of(value, "btCheckpointDirty"@)->0,
                    },
                ),
            ),
        }
    }
}

impl BitTorrentStatus {
    /// What a status says of a torrent.
    pub fn from_status(value: &Json) -> (r: Result<Option<Self>, NativeApiError>)
        ensures
            match torrent_of(*value) {
                Ok(torrent) => r is Ok && torrent_view(r->Ok_0) == torrent,
                Err(error) => r == Err::<Option<Self>, NativeApiError>(error),
            },
    {
        let hash = match value.get("infoHash") {
            Some(hash) => hash,
            None => return Ok(None),
        };
        let info_hash = match torrent_text(hash, true) {
            Some(hash) => hash,
            None => return Err(NativeApiError::InvalidResponse("invalid torrent identity")),
        };
        let info_hash_v2 = match value.get("infoHashV2") {
            Some(hash) => match torrent_text(hash, false) {
                Some(hash) => Some(hash),
                None => return Err(NativeApiError::InvalidResponse("invalid v2 torrent identity")),
            },
            None => None,
        };
        let seeder = match value.get_text("seeder") {
            Some(text) => match text_bool(text) {
                Some(seeder) => seeder,
                None => return Err(NativeApiError::InvalidResponse("invalid seeder flag")),
            },
            None => return Err(NativeApiError::InvalidResponse("invalid seeder flag")),
        };
        let peers: u64 = match decimal_field(value, "connections") {
            Ok(n) => n,
            Err(error) => return Err(error),
        };
        let seeders: u64 = match decimal_field(value, "numSeeders") {
            Ok(n) => n,
            Err(error) => return Err(error),
        };
        let downloaded: u64 = match decimal_field(value, "btDownloadedLength") {
            Ok(n) => n,
            Err(error) => return Err(error),
        };
        let uploaded: u64 = match decimal_field(value, "uploadLength") {
            Ok(n) => n,
            Err(error) => return Err(error),
        };
        let download_speed: u64 = match decimal_field(value, "downloadSpeed") {
            Ok(n) => n,
            Err(error) => return Err(error),
        };
        let upload_speed: u64 = match decimal_field(value, "uploadSpeed") {
            Ok(n) => n,
            Err(error) => return Err(error),
        };
        let seed_seconds: u64 = match get_number(value, "btSeedTime") {
            Some(n) => n,
            None => return Err(NativeApiError::InvalidResponse("invalid seed time")),
        };
        let checkpoint_dirty = match get_truth(value, "btCheckpointDirty") {
            Some(dirty) => dirty,
            None => return Err(NativeApiError::InvalidResponse("invalid checkpoint state")),
        };
        Ok(
            Some(
                BitTorrentStatus {
                    info_hash,
                    info_hash_v2,
                    seeder,
                    peers,
                    seeders,
                    downloaded,
                    uploaded,
                    download_speed,
                    upload_speed,
                    seed_seconds,
                    checkpoint_dirty,
                },
            ),
        )
    }
}

/// The GIDs that values spell, if each of the first `n` does.
pub open spec fn gids_of(items: Seq<Json>, n: int) -> Option<Seq<Gid>>
    decreases n,
{
    if n <= 0 {
        Some(Seq::empty())
    } else {
        match (gids_of(items, n - 1), json_gid(items[n - 1])) {
            (Some(gids), Some(gid)) => Some(gids.push(gid)),
            _ => None,
        }
    }
}

proof fn lemma_gid_missing(items: Seq<Json>, a: int, b: int)
    requires
        a <= b,
        gids_of(items, a) is None,
    ensures
        gids_of(items, b) is None,
    decreases b - a,
{
    if a < b {
        lemma_gid_missing(items, a, b - 1);
    }
}

/// The GIDs that values spell.
pub fn read_gids(items: &Vec<Json>) -> (r: Option<Vec<Gid>>)
    ensures
        (match r {
            Some(gids) => Some(gids@),
            None => None,
        }) == gids_of(items@, items@.len() as int),
{
    let mut gids: Vec<Gid> = Vec::new();
    let mut i: usize = 0;
    while i < items.len()
        invariant
            i <= items.len(),
            gids_of(items@, i as int) == Some(gids@),
        decreases items.len() - i,
    {
        match items[i].as_gid() {
            Some(gid) => gids.push(gid),
            None => {
                proof {
                    lemma_gid_missing(items@, i as int + 1, items@.len() as int);
                }
                return None;
            },
        }
        i = i + 1;
    }
    Some(gids)
}

/// The state of a task by its name.
pub open spec fn status_named(name: Seq<char>) -> Option<Aria2Status> {
    if name == "active"@ {
        Some(Aria2Status::Active)
    } else if name == "waiting"@ {
        Some(Aria2Status::Waiting)
    } else if name == "paused"@ {
        Some(Aria2Status::Paused)
    } else if name == "complete"@ {
        Some(Aria2Status::Complete)
    } else if name == "error"@ {
        Some(Aria2Status::Error)
    } else if name == "removed"@ {
        Some(Aria2Status::Removed)
    } else {
        None
    }
}

fn read_status(name: &str) -> (r: Option<Aria2Status>)
    ensures
        r == status_named(name@),
{
    if same_text(name, "active") {
        Some(Aria2Status::Active)
    } else if same_text(name, "waiting") {
        Some(Aria2Status::Waiting)
    } else if same_text(name, "paused") {
        Some(Aria2Status::Paused)
    } else if same_text(name, "complete") {
        Some(Aria2Status::Complete)
    } else if same_text(name, "error") {
        Some(Aria2Status::Error)
    } else if same_text(name, "removed") {
        Some(Aria2Status::Removed)
    } else {
        None
    }
}

/// The state that a status names.
pub open spec fn status_of(value: Json) -> Option<Aria2Status> {
    match field_text(value, "status"@) {
        Some(name) => status_named(name),
        None => None,
    }
}

/// The GID of a field.
pub open spec fn field_gid(value: Json, name: Seq<char>) -> Option<Gid> {
    match json_field(value, name) {
        Some(field) => json_gid(field),
        None => None,
    }
}

/// The challenge identity that a value spells.
pub open spec fn json_challenge(value: Option<Json>) -> Option<HostKeyChallengeId> {
    match value {
        Some(Json::Text(text)) => text.challenge,
        _ => None,
    }
}

/// The fingerprint that a value spells.
pub open spec fn json_fingerprint(value: Option<Json>) -> Option<JournalHash> {
    match value {
        Some(Json::Text(text)) => text.fingerprint,
        _ => None,
    }
}

/// The challenge that a value describes, if it does so fully.
pub open spec fn challenge_of(value: Json) -> Option<ChallengeView> {
    let id = json_challenge(json_field(value, "id"@));
    let host = field_text(value, "host"@);
    let port = number_of(value, "port"@);
    let algorithm = field_text(value, "algorithm"@);
    let fingerprint = json_fingerprint(json_field(value, "fingerprintSha256"@));
    if id is Some && host is Some && port is Some && 0 < port->0 <= u16::MAX && algorithm is Some
        && fingerprint is Some {
        Some(
            ChallengeView {
                id: id->0,
                canonical_host: host->0,
                port: port->0 as u16,
                algorithm: algorithm->0,
                fingerprint_sha256: fingerprint->0,
            },
        )
    } else {
        None
    }
}

fn read_challenge(value: &Json) -> (r: Option<HostKeyChallenge>)
    ensures
        (match r {
            Some(challenge) => Some(challenge@),
            None => None,
        }) == challenge_of(*value),
{
    let id = match value.get("id") {
        Some(Json::Text(text)) => match text.challenge {
            Some(id) => id,
            None => return None,
        },
        _ => return None,
    };
    let canonical_host = match value.get_text("host") {
        Some(host) => host.to_owned(),
        None => return None,
    };
    let port: u16 = match get_number(value, "port") {
        Some(port) => {
            if port == 0 || port > u16::MAX as u64 {
                return None;
            }
            port as u16
        },
        None => return None,
    };
    let algorithm = match value.get_text("algorithm") {
        Some(algorithm) => algorithm.to_owned(),
        None => return None,
    };
    let fingerprint_sha256 = match value.get("fingerprintSha256") {
        Some(Json::Text(text)) => match text.fingerprint {
            Some(fingerprint) => fingerprint,
            None => return None,
        },
        _ => return None,
    };
    Some(HostKeyChallenge { id, canonical_host, port, algorithm, fingerprint_sha256 })
}

/// The tasks that follow one, as a status names them.
pub open spec fn followers_of(value: Json) -> Result<Seq<Gid>, NativeApiError> {
    match json_field(value, "followedBy"@) {
        None => Ok(Seq::empty()),
        Some(list) => match json_items(list) {
            Some(items) => if items.len() > 1000 {
                Err(NativeApiError::InvalidResponse("invalid followedBy"))
            } else {
                match gids_of(items, items.len() as int) {
                    Some(gids) => Ok(gids),
                    None => Err(NativeApiError::InvalidResponse("invalid child GID")),
                }
            },
            None => Err(NativeApiError::InvalidResponse("invalid followedBy")),
        },
    }
}

fn read_followers(value: &Json) -> (r: Result<Vec<Gid>, NativeApiError>)
    ensures
        match followers_of(*value) {
            Ok(gids) => r is Ok && r->Ok_0@ == gids,
            Err(error) => r == Err::<Vec<Gid>, NativeApiError>(error),
        },
{
    match value.get("followedBy") {
        None => Ok(Vec::new()),
        Some(Json::Array(items)) => {
            if items.len() > 1000 {
                return Err(NativeApiError::InvalidResponse("invalid followedBy"));
            }
            match read_gids(items) {
                Some(gids) => Ok(gids),
                None => Err(NativeApiError::InvalidResponse("invalid child GID")),
            }
        },
        Some(_) => Err(NativeApiError::InvalidResponse("invalid followedBy")),
    }
}

/// What a status says, read from its first field to its last; `ssh` is what the
/// field about the connection decodes to, if it does.
pub open spec fn status_view(value: Json, ssh: Option<SshConnectionStatus>) -> Result<TaskStatusView, NativeApiError> {
    if field_gid(value, "gid"@) is None {
        Err(NativeApiError::InvalidResponse("invalid GID"))
    } else if status_of(value) is None {
        Err(NativeApiError::InvalidResponse("unknown task status"))
    } else if decimal_of(value, "totalLength"@) is None {
        Err(NativeApiError::InvalidResponse("totalLength"))
    } else if decimal_of(value, "completedLength"@) is None {
        Err(NativeApiError::InvalidResponse("completedLength"))
    } else if torrent_of(value) is Err {
        Err(torrent_of(value)->Err_0)
    } else if json_field(value, "sshConnection"@) is Some && ssh is None {
        Err(NativeApiError::InvalidResponse("invalid SSH diagnostics"))
    } else if followers_of(value) is Err {
        Err(followers_of(value)->Err_0)
    } else if json_field(value, "hostKeyChallenge"@) is Some && challenge_of(
        json_field(value, "hostKeyChallenge"@)->0,
    ) is None {
        Err(NativeApiError::InvalidResponse("invalid host-key challenge"))
    } else {
        Ok(
            TaskStatusView {
                gid: field_gid(value, "gid"@)->0,
                status: status_of(value)->0,
                total_length: decimal_of(value, "totalLength"@)->0 as u64,
                completed_length: decimal_of(value, "completedLength"@)->0 as u64,
                bittorrent: torrent_of(value)->Ok_0,
                host_key_challenge: match json_field(value, "hostKeyChallenge"@) {
                    Some(challenge) => challenge_of(challenge),
                    None => None,
                },
                followed_by: followers_of(value)->Ok_0,
                ssh_connection: if json_field(value, "sshConnection"@) is Some {
                    ssh
                } else {
                    None
                },
            },
        )
    }
}

/// Reads a status.
pub fn task_status(value: &Json, ssh: Option<SshConnectionStatus>) -> (r: Result<TaskStatus, NativeApiError>)
    ensures
        match status_view(*value, ssh) {
            Ok(status) => r is Ok && r->Ok_0@ == status,
            Err(error) => r == Err::<TaskStatus, NativeApiError>(error),
        },
{
    let gid = match value.get("gid") {
        Some(field) => match field.as_gid() {
            Some(gid) => gid,
            None => return Err(NativeApiError::InvalidResponse("invalid GID")),
        },
        None => return Err(NativeApiError::InvalidResponse("invalid GID")),
    };
    let status = match value.get_text("status") {
        Some(name) => match read_status(name) {
            Some(status) => status,
            None => return Err(NativeApiError::InvalidResponse("unknown task status")),
        },
        None => return Err(NativeApiError::InvalidResponse("unknown task status")),
    };
    let total_length: u64 = match decimal_field(value, "totalLength") {
        Ok(n) => n,
        Err(error) => return Err(error),
    };
    let completed_length: u64 = match decimal_field(value, "completedLength") {
        Ok(n) => n,
        Err(error) => return Err(error),
    };
    let bittorrent = match BitTorrentStatus::from_status(value) {
        Ok(torrent) => torrent,
        Err(error) => return Err(error),
    };
    let ssh_connection = match value.get("sshConnection") {
        Some(_) => {
            if ssh.is_none() {
                return Err(NativeApiError::InvalidResponse("invalid SSH diagnostics"));
            }
            ssh
        },
        None => None,
    };
    let followed_by = match read_followers(value) {
        Ok(gids) => gids,
        Err(error) => return Err(error),
    };
    let host_key_challenge = match value.get("hostKeyChallenge") {
        Some(challenge) => match read_challenge(challenge) {
            Some(challenge) => Some(challenge),
            None => return Err(NativeApiError::InvalidResponse("invalid host-key challenge")),
        },
        None => None,
    };
    Ok(
        TaskStatus {
            gid,
            status,
            total_length,
            completed_length,
            bittorrent,
            host_key_challenge,
            followed_by,
            ssh_connection,
        },
    )
}

/// The GID of a torrent that was admitted.
pub fn admitted_gid(value: &Json) -> (r: Result<Gid, NativeApiError>)
    ensures
        r == (match json_gid(*value) {
            Some(gid) => Ok::<Gid, NativeApiError>(gid),
            None => Err::<Gid, NativeApiError>(NativeApiError::InvalidResponse("invalid admitted torrent GID")),
        }),
{
    match value.as_gid() {
        Some(gid) => Ok(gid),
        None => Err(NativeApiError::InvalidResponse("invalid admitted torrent GID")),
    }
}

/// A status that can be read names a task and never more than a thousand that
/// follow it.
pub proof fn law_read_status_is_bounded(value: Json, ssh: Option<SshConnectionStatus>)
    ensures
        status_view(value, ssh) matches Ok(status) ==> status.followed_by.len() <= 1000 && Some(status.gid)
            == field_gid(value, "gid"@),
{
    match json_field(value, "followedBy"@) {
        Some(list) => match json_items(list) {
            Some(items) => lemma_gid_count(items, items.len() as int),
            None => {},
        },
        None => {},
    }
}

proof fn lemma_gid_count(items: Seq<Json>, n: int)
    requires
        0 <= n,
    ensures
        gids_of(items, n) matches Some(gids) ==> gids.len() == n,
    decreases n,
{
    if n > 0 {
        lemma_gid_count(items, n - 1);
    }
}

} // verus!
