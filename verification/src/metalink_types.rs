//! The records of a Metalink document.
use vstd::prelude::*;
use crate::protocols::{ProtocolTable, TransferProtocol};
use crate::text::same_text;
use crate::xml::text_view;

verus! {

pub const METALINK_DOCUMENT_BYTES: usize = 67_108_864;

pub const MAX_METALINK_FILES: usize = 262_144;

pub const MAX_METALINK_SOURCES: usize = 1024;

pub const MAX_XML_DEPTH: usize = 64;

pub const MAX_XML_ATTRIBUTES: usize = 128;

pub const MAX_XML_ATTRIBUTE_BYTES: usize = 65_536;

pub const MAX_XML_TEXT_BYTES: usize = 8_388_608;

#[derive(Clone, Copy, Debug, PartialEq, Eq, Structural)]
pub enum MetalinkError {
    Limit,
    Xml,
    Encoding,
    Entity,
    Schema,
    UnsafePath,
    PathCollision,
    InvalidSize,
    InvalidChecksum,
    UnsupportedChecksum,
    InvalidSource,
    NoUsableSource,
    Selection,
    UnsupportedMetaurl,
}

impl MetalinkError {
    pub open spec fn spec_message(self) -> Seq<char> {
        match self {
            MetalinkError::Limit => "Metalink Limit"@,
            MetalinkError::Xml => "Metalink Xml"@,
            MetalinkError::Encoding => "Metalink Encoding"@,
            MetalinkError::Entity => "Metalink Entity"@,
            MetalinkError::Schema => "Metalink Schema"@,
            MetalinkError::UnsafePath => "Metalink UnsafePath"@,
            MetalinkError::PathCollision => "Metalink PathCollision"@,
            MetalinkError::InvalidSize => "Metalink InvalidSize"@,
            MetalinkError::InvalidChecksum => "Metalink InvalidChecksum"@,
            MetalinkError::UnsupportedChecksum => "Metalink UnsupportedChecksum"@,
            MetalinkError::InvalidSource => "Metalink InvalidSource"@,
            MetalinkError::NoUsableSource => "Metalink NoUsableSource"@,
            MetalinkError::Selection => "Metalink Selection"@,
            MetalinkError::UnsupportedMetaurl => "Metalink UnsupportedMetaurl"@,
        }
    }

    /// The readable form of the error.
    pub fn message(self) -> (r: &'static str)
        ensures
            r@ == self.spec_message(),
    {
        match self {
            MetalinkError::Limit => "Metalink Limit",
            MetalinkError::Xml => "Metalink Xml",
            MetalinkError::Encoding => "Metalink Encoding",
            MetalinkError::Entity => "Metalink Entity",
            MetalinkError::Schema => "Metalink Schema",
            MetalinkError::UnsafePath => "Metalink UnsafePath",
            MetalinkError::PathCollision => "Metalink PathCollision",
            MetalinkError::InvalidSize => "Metalink InvalidSize",
            MetalinkError::InvalidChecksum => "Metalink InvalidChecksum",
            MetalinkError::UnsupportedChecksum => "Metalink UnsupportedChecksum",
            MetalinkError::InvalidSource => "Metalink InvalidSource",
            MetalinkError::NoUsableSource => "Metalink NoUsableSource",
            MetalinkError::Selection => "Metalink Selection",
            MetalinkError::UnsupportedMetaurl => "Metalink UnsupportedMetaurl",
        }
    }
}

/// A digest algorithm.
#[derive(Clone, Copy, Debug, PartialEq, Eq, Structural)]
pub enum DigestAlgorithm {
    Md5,
    Sha1,
    Sha256,
    Sha512,
}

/// The strength of an algorithm.
pub open spec fn strength(algorithm: DigestAlgorithm) -> u8 {
    match algorithm {
        DigestAlgorithm::Md5 => 1,
        DigestAlgorithm::Sha1 => 2,
        DigestAlgorithm::Sha256 => 3,
        DigestAlgorithm::Sha512 => 4,
    }
}

pub fn rank(algorithm: DigestAlgorithm) -> (r: u8)
    ensures
        r == strength(algorithm),
{
    match algorithm {
        DigestAlgorithm::Md5 => 1,
        DigestAlgorithm::Sha1 => 2,
        DigestAlgorithm::Sha256 => 3,
        DigestAlgorithm::Sha512 => 4,
    }
}

/// The algorithm of a name, if it is a supported one.
pub open spec fn algorithm_named(name: Seq<char>) -> Option<DigestAlgorithm> {
    if name == "sha-512"@ || name == "sha512"@ {
        Some(DigestAlgorithm::Sha512)
    } else if name == "sha-256"@ || name == "sha256"@ {
        Some(DigestAlgorithm::Sha256)
    } else if name == "sha-1"@ || name == "sha1"@ {
        Some(DigestAlgorithm::Sha1)
    } else if name == "md5"@ {
        Some(DigestAlgorithm::Md5)
    } else {
        None
    }
}

pub fn algorithm(name: &str) -> (r: Option<DigestAlgorithm>)
    ensures
        r == algorithm_named(name@),
{
    if same_text(name, "sha-512") || same_text(name, "sha512") {
        Some(DigestAlgorithm::Sha512)
    } else if same_text(name, "sha-256") || same_text(name, "sha256") {
        Some(DigestAlgorithm::Sha256)
    } else if same_text(name, "sha-1") || same_text(name, "sha1") {
        Some(DigestAlgorithm::Sha1)
    } else if same_text(name, "md5") {
        Some(DigestAlgorithm::Md5)
    } else {
        None
    }
}

/// A digest of at most 64 bytes, the unused ones zero.
#[derive(Clone, Copy, Debug, PartialEq, Eq, Structural)]
pub struct Digest {
    pub algorithm: DigestAlgorithm,
    pub words: DigestWords,
}

/// The bytes of a digest, big-endian.
#[derive(Clone, Copy, Debug, PartialEq, Eq, Structural)]
pub struct DigestWords {
    pub first: u128,
    pub second: u128,
    pub third: u128,
    pub fourth: u128,
}

/// A path that is safe on every platform, in its canonical spelling.
#[derive(Debug, PartialEq, Eq)]
pub struct SafeRelativePath {
    pub canonical: String,
    pub encoded_len: usize,
}

/// What a downloaded file is checked against.
#[derive(Debug, PartialEq, Eq)]
pub struct VerificationManifest {
    pub total: u64,
    pub length: u64,
    pub chunks: Vec<Digest>,
    pub whole: Vec<Digest>,
}

/// What a manifest holds.
#[verifier::ext_equal]
pub struct ManifestView {
    pub total: u64,
    pub length: u64,
    pub chunks: Seq<Digest>,
    pub whole: Seq<Digest>,
}

impl View for VerificationManifest {
    type V = ManifestView;

    open spec fn view(&self) -> ManifestView {
        ManifestView { total: self.total, length: self.length, chunks: self.chunks@, whole: self.whole@ }
    }
}

#[derive(PartialEq, Eq)]
pub struct MetalinkSource {
    pub uri: String,
    pub protocol: TransferProtocol,
    pub priority: i64,
    pub location: Option<String>,
}

/// What a source holds.
#[verifier::ext_equal]
pub struct SourceView {
    pub uri: Seq<char>,
    pub protocol: TransferProtocol,
    pub priority: i64,
    pub location: Option<Seq<char>>,
}

impl View for MetalinkSource {
    type V = SourceView;

    open spec fn view(&self) -> SourceView {
        SourceView {
            uri: self.uri@,
            protocol: self.protocol,
            priority: self.priority,
            location: text_view(self.location),
        }
    }
}

/// What each of several sources holds.
pub open spec fn source_views(sources: Seq<MetalinkSource>) -> Seq<SourceView> {
    sources.map_values(|s: MetalinkSource| s@)
}

#[derive(PartialEq, Eq)]
pub struct MetalinkFile {
    pub index: u32,
    pub name: SafeRelativePath,
    pub sources: Vec<MetalinkSource>,
    pub verification: VerificationManifest,
}

/// What a file holds.
#[verifier::ext_equal]
pub struct MetalinkFileView {
    pub index: u32,
    pub name: SafeRelativePath,
    pub sources: Seq<SourceView>,
    pub verification: ManifestView,
}

impl View for MetalinkFile {
    type V = MetalinkFileView;

    open spec fn view(&self) -> MetalinkFileView {
        MetalinkFileView {
            index: self.index,
            name: self.name,
            sources: source_views(self.sources@),
            verification: self.verification@,
        }
    }
}

/// What each of several files holds.
pub open spec fn file_views(files: Seq<MetalinkFile>) -> Seq<MetalinkFileView> {
    files.map_values(|f: MetalinkFile| f@)
}

#[derive(PartialEq, Eq)]
pub struct MetalinkDocument {
    pub version: u8,
    pub files: Vec<MetalinkFile>,
    pub retained_bytes: usize,
}

#[derive(Debug, PartialEq, Eq)]
pub struct MetalinkOptions {
    pub max_document_bytes: usize,
    pub max_files: usize,
    pub max_sources: usize,
    pub metadata_bytes: usize,
    pub base_uri: Option<String>,
    pub select_file: Option<String>,
    pub language: Option<String>,
    pub os: Option<String>,
    pub version: Option<String>,
    pub location: Option<String>,
    pub preferred_protocol: Option<TransferProtocol>,
    pub unique_protocol: bool,
    pub user_checksum: Option<Digest>,
    pub default_chunk_length: u64,
}

impl MetalinkOptions {
    /// The default options, for a default chunk length.
    pub fn new(default_chunk_length: u64) -> (r: Self)
        ensures
            r == (MetalinkOptions {
                max_document_bytes: METALINK_DOCUMENT_BYTES,
                max_files: MAX_METALINK_FILES,
                max_sources: MAX_METALINK_SOURCES,
                metadata_bytes: METALINK_DOCUMENT_BYTES,
                base_uri: None,
                select_file: None,
                language: None,
                os: None,
                version: None,
                location: None,
                preferred_protocol: None,
                unique_protocol: true,
                user_checksum: None,
                default_chunk_length,
            }),
    {
        MetalinkOptions {
            max_document_bytes: METALINK_DOCUMENT_BYTES,
            max_files: MAX_METALINK_FILES,
            max_sources: MAX_METALINK_SOURCES,
            metadata_bytes: METALINK_DOCUMENT_BYTES,
            base_uri: None,
            select_file: None,
            language: None,
            os: None,
            version: None,
            location: None,
            preferred_protocol: None,
            unique_protocol: true,
            user_checksum: None,
            default_chunk_length,
        }
    }
}

/// What the rest of the engine fixes for Metalink documents.
#[derive(Debug, PartialEq, Eq)]
pub struct MetalinkLimits {
    pub max_document_bytes: usize,
    pub max_piece_length: u64,
    pub max_chunks: usize,
    pub protocols: ProtocolTable,
}

} // verus!
