//! Torrents in sessions.
use vstd::prelude::*;
use crate::control::HttpControlError;
use crate::encoding::{base64_bytes, base64_decode};
use crate::json::{field_text, json_field, json_fields, Json};
use crate::known_hosts::bytes_view;
use crate::session_file::{all_known, fault, reject_unknown, SessionObject};
use crate::session_format::invalid;
use crate::text::byte_len;

verus! {

/// What only the BitTorrent engine and the store can say of a torrent.
#[derive(Debug)]
pub struct TorrentFindings {
    /// The part of the metainfo that identifies the torrent, if there is one.
    pub info: Option<Vec<u8>>,
    /// The identity, by its number, if it can be read.
    pub identity: Option<u64>,
    /// The files that are listed, by their numbers, as far as they can be read.
    pub files: Vec<Option<u64>>,
    /// Whether identity, metainfo, magnet link and files go together.
    pub binding: bool,
    /// Whether the data to go on with belong to the torrent.
    pub resume: bool,
}

/// A torrent of a session.
pub struct ImportedBt {
    pub identity: u64,
    pub metainfo: Vec<u8>,
    pub info: Vec<u8>,
    pub magnet: Option<String>,
    /// The file mapping, by the numbers of its files.
    pub files: Vec<u64>,
    pub resume_data: Vec<u8>,
}

/// What a torrent of a session holds.
#[verifier::ext_equal]
pub struct TorrentView {
    pub identity: u64,
    pub metainfo: Seq<u8>,
    pub info: Seq<u8>,
    pub magnet: Option<Seq<char>>,
    pub files: Seq<u64>,
    pub resume_data: Seq<u8>,
}

impl View for ImportedBt {
    type V = TorrentView;

    open spec fn view(&self) -> TorrentView {
        TorrentView {
            identity: self.identity,
            metainfo: self.metainfo@,
            info: self.info@,
            magnet: match self.magnet {
                Some(magnet) => Some(magnet@),
                None => None,
            },
            files: self.files@,
            resume_data: self.resume_data@,
        }
    }
}

/// The most metainfo that a session may hold of a torrent.
pub const MAX_METAINFO_BYTES: usize = 16_777_216;

/// How long so many bytes are in base64.
pub open spec fn encoded_length(limit: int) -> int {
    (limit + 2) / 3 * 4
}

/// The bytes that a text was decoded to, where it could be and they are not too many.
pub open spec fn decoded_blob(decoded: Option<Seq<u8>>, limit: int) -> Result<Seq<u8>, HttpControlError> {
    match decoded {
        None => Err(fault("invalid BitTorrent session base64")),
        Some(bytes) => if bytes.len() > limit {
            Err(fault("BitTorrent session blob exceeds its limit"))
        } else {
            Ok(bytes)
        },
    }
}

/// The bytes of a field, where they are not too many.
pub open spec fn blob(value: Json, name: Seq<char>, limit: int) -> Result<Seq<u8>, HttpControlError> {
    match field_text(value, name) {
        None => Err(fault("invalid BitTorrent session blob")),
        Some(text) => if byte_len(text) > encoded_length(limit) {
            Err(fault("invalid BitTorrent session blob"))
        } else {
            decoded_blob(base64_bytes(text), limit)
        },
    }
}

fn read_blob(value: &Json, name: &str, limit: usize) -> (r: Result<Vec<u8>, HttpControlError>)
    ensures
        match blob(*value, name@, limit as int) {
            Ok(bytes) => r is Ok && r->Ok_0@ == bytes,
            Err(error) => r == Err::<Vec<u8>, HttpControlError>(error),
        },
{
    let text = match value.get_text(name) {
        Some(text) => text,
        None => return Err(invalid("invalid BitTorrent session blob")),
    };
    let groups: usize = limit / 3 + if limit % 3 == 0 {
        0
    } else {
        1
    };
    assert(groups == (limit + 2) / 3);
    let most: usize = match groups.checked_mul(4) {
        Some(product) => product,
        None => usize::MAX,
    };
    if text.len() > most {
        return Err(invalid("invalid BitTorrent session blob"));
    }
    check_blob(base64_decode(text), limit)
}

/// Takes the bytes that a text was decoded to, where it could be and they are not too
/// many.
pub fn check_blob(decoded: Option<Vec<u8>>, limit: usize) -> (r: Result<Vec<u8>, HttpControlError>)
    ensures
        match decoded_blob(bytes_view(decoded), limit as int) {
            Ok(bytes) => r is Ok && r->Ok_0@ == bytes,
            Err(error) => r == Err::<Vec<u8>, HttpControlError>(error),
        },
{
    match decoded {
        None => Err(invalid("invalid BitTorrent session base64")),
        Some(bytes) => {
            if bytes.len() > limit {
                Err(invalid("BitTorrent session blob exceeds its limit"))
            } else {
                Ok(bytes)
            }
        },
    }
}

/// The magnet link of a torrent, if it has one that can be read.
pub open spec fn magnet_of(value: Json) -> Option<Option<Seq<char>>> {
    match json_field(value, "magnet"@) {
        None => Some(None),
        Some(Json::Null) => Some(None),
        Some(Json::Text(text)) => if byte_len(text.text@) <= 65536 {
            Some(Some(text.text@))
        } else {
            None
        },
        Some(_) => None,
    }
}

/// The number of the file at a place of the list, if it can be read.
pub open spec fn file_number(numbers: Seq<Option<u64>>, i: int) -> Option<u64> {
    if 0 <= i < numbers.len() {
        numbers[i]
    } else {
        None
    }
}

/// The numbers of the first `n` files, if each of them can be read.
pub open spec fn first_files(numbers: Seq<Option<u64>>, n: int) -> Option<Seq<u64>>
    decreases n,
{
    if n <= 0 {
        Some(Seq::empty())
    } else {
        match (first_files(numbers, n - 1), file_number(numbers, n - 1)) {
            (Some(before), Some(number)) => Some(before.push(number)),
            _ => None,
        }
    }
}

/// The file mapping of a torrent: a list that is not too long, each file of which
/// can be read.
pub open spec fn files_of(value: Json, numbers: Seq<Option<u64>>) -> Option<Seq<u64>> {
    match json_field(value, "files"@) {
        Some(Json::Array(files)) => if files@.len() <= 10_000 {
            first_files(numbers, files@.len() as int)
        } else {
            None
        },
        _ => None,
    }
}

/// Once a file cannot be read, the mapping cannot.
proof fn lemma_unread_stays(numbers: Seq<Option<u64>>, a: int, b: int)
    requires
        a <= b,
        first_files(numbers, a) is None,
    ensures
        first_files(numbers, b) is None,
    decreases b - a,
{
    if a < b {
        lemma_unread_stays(numbers, a, b - 1);
        assert(b > 0);
    }
}

fn read_files(value: &Json, numbers: &Vec<Option<u64>>) -> (r: Option<Vec<u64>>)
    ensures
        match files_of(*value, numbers@) {
            Some(files) => r is Some && r->0@ == files,
            None => r is None,
        },
{
    let count: usize = match value.get("files") {
        Some(Json::Array(files)) => files.len(),
        _ => return None,
    };
    if count > 10_000 {
        return None;
    }
    let mut files: Vec<u64> = Vec::new();
    assert(files@ =~= Seq::empty());
    let mut i: usize = 0;
    while i < count
        invariant
            i <= count,
            files_of(*value, numbers@) == first_files(numbers@, count as int),
            first_files(numbers@, i as int) == Some(files@),
        decreases count - i,
    {
        let number: Option<u64> = if i < numbers.len() {
            numbers[i]
        } else {
            None
        };
        assert(number == file_number(numbers@, i as int));
        match number {
            Some(number) => files.push(number),
            None => {
                proof {
                    assert(first_files(numbers@, i as int + 1) is None);
                    lemma_unread_stays(numbers@, i as int + 1, count as int);
                }
                return None;
            },
        }
        i = i + 1;
    }
    Some(files)
}

/// The bytes that findings hold of the metainfo.
pub open spec fn info_of(metainfo: Seq<u8>, findings: TorrentFindings) -> Option<Seq<u8>> {
    if metainfo.len() == 0 {
        Some(Seq::empty())
    } else {
        match findings.info {
            Some(info) => Some(info@),
            None => None,
        }
    }
}

/// A torrent of a session, or its first error.
pub open spec fn torrent_view(value: Json, findings: TorrentFindings, resume_limit: int) -> Result<
    TorrentView,
    HttpControlError,
> {
    let metainfo = blob(value, "metainfo"@, MAX_METAINFO_BYTES as int);
    let resume = blob(value, "resumeData"@, resume_limit);
    if !(value is Object) {
        Err(fault("invalid BitTorrent session metadata"))
    } else if !all_known(SessionObject::Torrent, json_fields(value)->0) {
        Err(fault("unknown session field"))
    } else if metainfo is Err {
        Err(metainfo->Err_0)
    } else if info_of(metainfo->Ok_0, findings) is None {
        Err(fault("invalid BitTorrent session metainfo"))
    } else if json_field(value, "identity"@) is None {
        Err(fault("missing BitTorrent identity"))
    } else if findings.identity is None {
        Err(fault("invalid BitTorrent identity"))
    } else if files_of(value, findings.files@) is None {
        Err(fault("invalid BitTorrent file mapping"))
    } else if magnet_of(value) is None {
        Err(fault("invalid BitTorrent magnet"))
    } else if !findings.binding {
        Err(fault("invalid BitTorrent session binding"))
    } else if resume is Err {
        Err(resume->Err_0)
    } else if resume->Ok_0.len() > 0 && !findings.resume {
        Err(fault("invalid BitTorrent resume data"))
    } else {
        Ok(
            TorrentView {
                identity: findings.identity->0,
                metainfo: metainfo->Ok_0,
                info: info_of(metainfo->Ok_0, findings)->0,
                magnet: magnet_of(value)->0,
                files: files_of(value, findings.files@)->0,
                resume_data: resume->Ok_0,
            },
        )
    }
}

/// Reads a torrent of a session.
pub fn parse_bittorrent(value: &Json, findings: &TorrentFindings, resume_limit: usize) -> (r: Result<
    ImportedBt,
    HttpControlError,
>)
    ensures
        match torrent_view(*value, *findings, resume_limit as int) {
            Ok(view) => r is Ok && r->Ok_0@ == view,
            Err(error) => r == Err::<ImportedBt, HttpControlError>(error),
        },
{
    match value {
        Json::Object(fields) => match reject_unknown(fields, SessionObject::Torrent) {
            Ok(_) => {},
            Err(error) => return Err(error),
        },
        _ => return Err(invalid("invalid BitTorrent session metadata")),
    }
    let metainfo = match read_blob(value, "metainfo", MAX_METAINFO_BYTES) {
        Ok(metainfo) => metainfo,
        Err(error) => return Err(error),
    };
    let info = if metainfo.len() == 0 {
        let none: Vec<u8> = Vec::new();
        assert(none@ =~= Seq::empty());
        none
    } else {
        match &findings.info {
            Some(info) => {
                let copy = info.clone();
                assert(copy@ =~= info@);
                copy
            },
            None => return Err(invalid("invalid BitTorrent session metainfo")),
        }
    };
    if value.get("identity").is_none() {
        return Err(invalid("missing BitTorrent identity"));
    }
    let identity: u64 = match findings.identity {
        Some(identity) => identity,
        None => return Err(invalid("invalid BitTorrent identity")),
    };
    let files = match read_files(value, &findings.files) {
        Some(files) => files,
        None => return Err(invalid("invalid BitTorrent file mapping")),
    };
    let magnet = match value.get("magnet") {
        None => None,
        Some(Json::Null) => None,
        Some(Json::Text(text)) => {
            if text.text.as_str().len() > 65536 {
                return Err(invalid("invalid BitTorrent magnet"));
            }
            Some(text.text.clone())
        },
        Some(_) => return Err(invalid("invalid BitTorrent magnet")),
    };
    if !findings.binding {
        return Err(invalid("invalid BitTorrent session binding"));
    }
    let resume_data = match read_blob(value, "resumeData", resume_limit) {
        Ok(resume) => resume,
        Err(error) => return Err(error),
    };
    if resume_data.len() > 0 && !findings.resume {
        return Err(invalid("invalid BitTorrent resume data"));
    }
    Ok(ImportedBt { identity, metainfo, info, magnet, files, resume_data })
}

} // verus!
