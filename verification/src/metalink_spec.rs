//! What a Metalink document means, event by event.
use vstd::prelude::*;
use crate::metalink_files::{finished_file, manifest_of, FileView, PiecesView, WholeDigest};
use crate::metalink_types::{
    algorithm_named, Digest, DigestAlgorithm, ManifestView, MetalinkError, MetalinkFileView, MetalinkLimits,
    MetalinkOptions, SafeRelativePath, SourceView, MAX_METALINK_FILES, MAX_METALINK_SOURCES, MAX_XML_ATTRIBUTES,
    MAX_XML_ATTRIBUTE_BYTES, MAX_XML_DEPTH, MAX_XML_TEXT_BYTES,
};
use crate::order::OrderKey;
use crate::text::{
    byte_len, char_from, has_prefix, lowercased, parsed_signed, parsed_unsigned, same_but_case, text_before, trimmed,
};
use crate::urls::{joined_url, parsed_url, UrlFault, UrlPartsView};
use crate::xml::{declared, tag_attributes, text_view, unescaped, XmlAttributeView, XmlEventView};

verus! {

/// What an element of a Metalink document is.
#[derive(Clone, Copy, Debug, PartialEq, Eq, Structural)]
pub enum Kind {
    Root,
    Files,
    File,
    Resources,
    Verification,
    Url,
    Size,
    Hash,
    Pieces,
    Language,
    Os,
    Version,
    Metaurl,
    Extension,
}

impl Kind {
    /// Whether the element is there for its text.
    pub open spec fn spec_text(self) -> bool {
        match self {
            Kind::Url
            | Kind::Size
            | Kind::Hash
            | Kind::Language
            | Kind::Os
            | Kind::Version
            | Kind::Metaurl => true,
            _ => false,
        }
    }

    /// Whether the element is there for its text.
    pub fn text(self) -> (r: bool)
        ensures
            r == self.spec_text(),
    {
        match self {
            Kind::Url
            | Kind::Size
            | Kind::Hash
            | Kind::Language
            | Kind::Os
            | Kind::Version
            | Kind::Metaurl => true,
            _ => false,
        }
    }
}

/// The namespace of Metalink 3.
pub open spec fn namespace_v3() -> Seq<char> {
    "http://www.metalinker.org/"@
}

/// The namespace of Metalink 4.
pub open spec fn namespace_v4() -> Seq<char> {
    "urn:ietf:params:xml:ns:metalink"@
}

/// An attribute as a key and a value.
pub type Pair = (Seq<char>, Seq<char>);

/// An open element.
#[verifier::ext_equal]
pub struct FrameView {
    pub attrs: Seq<Pair>,
    pub kind: Kind,
    pub text: Seq<char>,
}

/// The state of a parse.
#[verifier::ext_equal]
pub struct ParserView {
    pub version: u8,
    pub closed: bool,
    pub declared: bool,
    pub stack: Seq<FrameView>,
    pub current: Option<FileView>,
    pub files: Seq<MetalinkFileView>,
    pub count: u32,
    pub retained: usize,
    pub paths: Seq<Seq<char>>,
}

impl ParserView {
    /// The counters are within their limits, and the open file is valid.
    pub open spec fn valid(self, options: MetalinkOptions) -> bool {
        &&& options.max_files <= MAX_METALINK_FILES
        &&& options.max_sources <= MAX_METALINK_SOURCES
        &&& self.count <= options.max_files
        &&& self.retained <= options.metadata_bytes
        &&& self.stack.len() <= MAX_XML_DEPTH
        &&& self.current matches Some(file) ==> file.valid() && file.source_count <= options.max_sources
    }
}

/// A parse that has read nothing.
pub open spec fn fresh_parser() -> ParserView {
    ParserView {
        version: 0,
        closed: false,
        declared: false,
        stack: Seq::empty(),
        current: None,
        files: Seq::empty(),
        count: 0,
        retained: 0,
        paths: Seq::empty(),
    }
}

/// The result of one step.
pub type Step = Result<ParserView, MetalinkError>;

/// The first value of a key from `from` on.
pub open spec fn attr_from(attrs: Seq<Pair>, key: Seq<char>, from: int) -> Option<Seq<char>>
    decreases attrs.len() - from,
{
    if from < 0 || from >= attrs.len() {
        None
    } else if attrs[from].0 == key {
        Some(attrs[from].1)
    } else {
        attr_from(attrs, key, from + 1)
    }
}

/// The value of a key.
pub open spec fn attr(attrs: Seq<Pair>, key: Seq<char>) -> Option<Seq<char>> {
    attr_from(attrs, key, 0)
}

/// The first `n` attributes of a tag, or the first fault among them.
pub open spec fn collected(raw: Seq<Option<XmlAttributeView>>, n: int) -> Result<Seq<Pair>, MetalinkError>
    decreases n,
{
    if n <= 0 {
        Ok(Seq::empty())
    } else {
        match (collected(raw, n - 1), raw[n - 1]) {
            (Err(error), _) => Err(error),
            (Ok(before), found) => if n - 1 == MAX_XML_ATTRIBUTES {
                Err(MetalinkError::Limit)
            } else {
                match found {
                    None => Err(MetalinkError::Xml),
                    Some(found) => if found.raw_bytes > MAX_XML_ATTRIBUTE_BYTES || byte_len(found.key)
                        > MAX_XML_ATTRIBUTE_BYTES {
                        Err(MetalinkError::Limit)
                    } else {
                        match found.value {
                            None => Err(MetalinkError::Entity),
                            Some(value) => if attr(before, found.key) is Some {
                                Err(MetalinkError::Xml)
                            } else {
                                Ok(before.push((found.key, value)))
                            },
                        }
                    },
                }
            },
        }
    }
}

/// The attributes of a tag, or the first fault among them.
pub open spec fn attributes_of(raw: Seq<char>) -> Result<Seq<Pair>, MetalinkError> {
    collected(tag_attributes(raw), tag_attributes(raw).len() as int)
}

/// What a key is bound to in the innermost of the first `n` open elements.
pub open spec fn inherited(stack: Seq<FrameView>, key: Seq<char>, n: int) -> Option<Seq<char>>
    decreases n,
{
    if n <= 0 {
        None
    } else {
        match attr(stack[n - 1].attrs, key) {
            Some(value) => Some(value),
            None => inherited(stack, key, n - 1),
        }
    }
}

/// What a key is bound to, in a tag or around it.
pub open spec fn binding(attrs: Seq<Pair>, stack: Seq<FrameView>, key: Seq<char>) -> Option<Seq<char>> {
    match attr(attrs, key) {
        Some(value) => Some(value),
        None => inherited(stack, key, stack.len() as int),
    }
}

/// The part of a name before its first colon.
pub open spec fn prefix_of(name: Seq<char>) -> Option<Seq<char>> {
    match char_from(name, ':', 0) {
        Some(i) => Some(name.subrange(0, i)),
        None => None,
    }
}

/// The part of a name behind its first colon, or all of it.
pub open spec fn local_of(name: Seq<char>) -> Seq<char> {
    match char_from(name, ':', 0) {
        Some(i) => name.subrange(i + 1, name.len() as int),
        None => name,
    }
}

/// The attribute that declares the namespace of a prefix.
pub open spec fn namespace_key(prefix: Option<Seq<char>>) -> Seq<char> {
    match prefix {
        Some(prefix) => "xmlns:"@ + prefix,
        None => "xmlns"@,
    }
}

/// What an element of the document's own namespace is, inside another.
pub open spec fn child_kind(version: u8, parent: Kind, local: Seq<char>) -> Kind {
    if parent == Kind::Root && local == "files"@ && version == 3 {
        Kind::Files
    } else if parent == Kind::Root && local == "file"@ && version == 4 {
        Kind::File
    } else if parent == Kind::Files && local == "file"@ && version == 3 {
        Kind::File
    } else if parent == Kind::File && local == "resources"@ && version == 3 {
        Kind::Resources
    } else if parent == Kind::File && local == "verification"@ && version == 3 {
        Kind::Verification
    } else if parent == Kind::File && local == "size"@ {
        Kind::Size
    } else if parent == Kind::File && local == "language"@ {
        Kind::Language
    } else if parent == Kind::File && local == "os"@ {
        Kind::Os
    } else if parent == Kind::File && local == "version"@ {
        Kind::Version
    } else if parent == Kind::File && local == "url"@ && version == 4 {
        Kind::Url
    } else if parent == Kind::Resources && local == "url"@ {
        Kind::Url
    } else if parent == Kind::File && local == "hash"@ && version == 4 {
        Kind::Hash
    } else if parent == Kind::File && local == "pieces"@ && version == 4 {
        Kind::Pieces
    } else if parent == Kind::Verification && local == "hash"@ {
        Kind::Hash
    } else if parent == Kind::Verification && local == "pieces"@ {
        Kind::Pieces
    } else if parent == Kind::Pieces && local == "hash"@ {
        Kind::Hash
    } else if parent == Kind::File && local == "metaurl"@ {
        Kind::Metaurl
    } else {
        Kind::Extension
    }
}

/// The version that a root element declares, if it is one.
pub open spec fn root_version(local: Seq<char>, namespace: Seq<char>, attrs: Seq<Pair>) -> Option<u8> {
    if local != "metalink"@ {
        None
    } else if namespace == namespace_v3() {
        if attr(attrs, "version"@) is Some && attr(attrs, "version"@) != Some("3.0"@) {
            None
        } else {
            Some(3)
        }
    } else if namespace == namespace_v4() {
        Some(4)
    } else {
        None
    }
}

/// What a tag opens, and the document's version with it.
pub open spec fn tag_kind(
    parser: ParserView,
    name: Seq<char>,
    attrs: Seq<Pair>,
) -> Result<(u8, Kind), MetalinkError> {
    let prefix = prefix_of(name);
    let local = local_of(name);
    let bound = binding(attrs, parser.stack, namespace_key(prefix));
    let namespace = match bound {
        Some(namespace) => namespace,
        None => ""@,
    };
    if char_from(local, ':', 0) is Some {
        Err(MetalinkError::Xml)
    } else if prefix is Some && bound is None {
        Err(MetalinkError::Schema)
    } else if parser.stack.len() == 0 {
        match root_version(local, namespace, attrs) {
            Some(version) => Ok((version, Kind::Root)),
            None => Err(MetalinkError::Schema),
        }
    } else if namespace != (if parser.version == 3 {
        namespace_v3()
    } else {
        namespace_v4()
    }) {
        Ok((parser.version, Kind::Extension))
    } else {
        Ok((parser.version, child_kind(parser.version, parser.stack.last().kind, local)))
    }
}

/// The metadata charged once more, unless that is over the budget.
pub open spec fn charged(retained: usize, bytes: int, options: MetalinkOptions) -> Option<usize> {
    if retained + bytes > options.metadata_bytes {
        None
    } else {
        Some((retained + bytes) as usize)
    }
}

/// A size held within what the machine can count.
pub open spec fn saturated(n: int) -> int {
    if n > usize::MAX {
        usize::MAX as int
    } else {
        n
    }
}

/// The first of the first `n` paths that does not stand before a key.
pub open spec fn next_path(paths: Seq<Seq<char>>, key: Seq<char>, n: int) -> Option<Seq<char>>
    decreases n,
{
    if n <= 0 {
        None
    } else {
        let before = next_path(paths, key, n - 1);
        if text_before(paths[n - 1], key) {
            before
        } else {
            match before {
                Some(best) => if text_before(paths[n - 1], best) {
                    Some(paths[n - 1])
                } else {
                    Some(best)
                },
                None => Some(paths[n - 1]),
            }
        }
    }
}

/// Whether a path collides with those before it: it is one of them, the path
/// that follows it in order lies below it, or it lies below one of them.
pub open spec fn collides(paths: Seq<Seq<char>>, key: Seq<char>) -> bool {
    ||| paths.contains(key)
    ||| match next_path(paths, key, paths.len() as int) {
        Some(next) => has_prefix(next, key + "/"@),
        None => false,
    }
    ||| exists|i: int| 0 <= i < key.len() && #[trigger] key[i] == '/' && paths.contains(key.subrange(0, i))
}

/// A file that holds nothing but its name.
pub open spec fn empty_file(index: u32, name: SafeRelativePath) -> FileView {
    FileView {
        index,
        name,
        size: None,
        sources: Seq::empty(),
        source_count: 0,
        whole: Seq::empty(),
        pieces: Seq::empty(),
        current_pieces: None,
        had_checksum: false,
        had_pieces: false,
        had_metaurl: false,
        language: Seq::empty(),
        os: Seq::empty(),
        version: None,
    }
}

/// A file opened. `path` is its name made safe, if it can be.
pub open spec fn opened_file(
    parser: ParserView,
    attrs: Seq<Pair>,
    path: Option<SafeRelativePath>,
    options: MetalinkOptions,
) -> Step {
    if parser.current is Some {
        Err(MetalinkError::Schema)
    } else if parser.count + 1 > options.max_files {
        Err(MetalinkError::Limit)
    } else if attr(attrs, "name"@) is None {
        Err(MetalinkError::UnsafePath)
    } else {
        match path {
            None => Err(MetalinkError::UnsafePath),
            Some(name) => {
                let key = lowercased(name.canonical@);
                let bytes = saturated(saturated(name.encoded_len * 3) + 512);
                if collides(parser.paths, key) {
                    Err(MetalinkError::PathCollision)
                } else {
                    match charged(parser.retained, bytes, options) {
                        None => Err(MetalinkError::Limit),
                        Some(retained) => Ok(
                            ParserView {
                                count: (parser.count + 1) as u32,
                                retained,
                                paths: parser.paths.push(key),
                                current: Some(empty_file((parser.count + 1) as u32, name)),
                                ..parser
                            },
                        ),
                    }
                }
            },
        }
    }
}

/// The piece length that a tag gives, if it is one.
pub open spec fn piece_length(attrs: Seq<Pair>, limits: MetalinkLimits) -> Option<u64> {
    match attr(attrs, "length"@) {
        Some(text) => match parsed_unsigned(text, u64::MAX as int) {
            Some(length) => if 0 < length <= limits.max_piece_length {
                Some(length as u64)
            } else {
                None
            },
            None => None,
        },
        None => None,
    }
}

/// Piece hashes opened in a file.
pub open spec fn opened_pieces(parser: ParserView, attrs: Seq<Pair>, limits: MetalinkLimits) -> Step {
    match parser.current {
        None => Err(MetalinkError::Schema),
        Some(file) => if file.current_pieces is Some || file.pieces.len() == 16 {
            Err(MetalinkError::Limit)
        } else {
            match (piece_length(attrs, limits), attr(attrs, "type"@)) {
                (Some(length), Some(name)) => Ok(
                    ParserView {
                        current: Some(
                            FileView {
                                had_pieces: true,
                                had_checksum: true,
                                current_pieces: Some(
                                    PiecesView {
                                        algorithm: algorithm_named(name),
                                        length,
                                        digests: Seq::empty(),
                                        slots: Map::empty(),
                                    },
                                ),
                                ..file
                            },
                        ),
                        ..parser
                    },
                ),
                _ => Err(MetalinkError::InvalidChecksum),
            }
        },
    }
}

/// What a start tag opens besides its element.
pub open spec fn opened(
    parser: ParserView,
    kind: Kind,
    attrs: Seq<Pair>,
    path: Option<SafeRelativePath>,
    options: MetalinkOptions,
    limits: MetalinkLimits,
) -> Step {
    if kind == Kind::File {
        opened_file(parser, attrs, path, options)
    } else if kind == Kind::Pieces {
        opened_pieces(parser, attrs, limits)
    } else {
        Ok(parser)
    }
}

/// A start tag with the attributes that were found in it, or the fault among them.
pub open spec fn started(
    parser: ParserView,
    name: Seq<char>,
    found: Result<Seq<Pair>, MetalinkError>,
    path: Option<SafeRelativePath>,
    options: MetalinkOptions,
    limits: MetalinkLimits,
) -> Step {
    if parser.closed || parser.stack.len() == MAX_XML_DEPTH || byte_len(name) > MAX_XML_ATTRIBUTE_BYTES {
        Err(MetalinkError::Limit)
    } else {
        match found {
            Err(error) => Err(error),
            Ok(attrs) => match tag_kind(parser, name, attrs) {
                Err(error) => Err(error),
                Ok((version, kind)) => if parser.stack.len() > 0 && parser.stack.last().kind.spec_text() {
                    Err(MetalinkError::Schema)
                } else {
                    match opened(ParserView { version, ..parser }, kind, attrs, path, options, limits) {
                        Err(error) => Err(error),
                        Ok(next) => Ok(
                            ParserView {
                                stack: next.stack.push(FrameView { attrs, kind, text: Seq::empty() }),
                                ..next
                            },
                        ),
                    }
                },
            },
        }
    }
}

/// Character data.
pub open spec fn texted(parser: ParserView, value: Seq<char>) -> Step {
    if parser.stack.len() == 0 {
        if trimmed(value).len() == 0 {
            Ok(parser)
        } else {
            Err(MetalinkError::Xml)
        }
    } else {
        let frame = parser.stack.last();
        if byte_len(frame.text) + byte_len(value) > MAX_XML_TEXT_BYTES {
            Err(MetalinkError::Limit)
        } else if frame.kind.spec_text() {
            Ok(
                ParserView {
                    stack: parser.stack.drop_last().push(FrameView { text: frame.text + value, ..frame }),
                    ..parser
                },
            )
        } else if frame.kind != Kind::Extension && trimmed(value).len() > 0 {
            Err(MetalinkError::Schema)
        } else {
            Ok(parser)
        }
    }
}

/// The size of a file.
pub open spec fn sized(parser: ParserView, text: Seq<char>) -> Step {
    match (parsed_unsigned(text, u64::MAX as int), parser.current) {
        (None, _) => Err(MetalinkError::InvalidSize),
        (Some(_), None) => Err(MetalinkError::Schema),
        (Some(size), Some(file)) => if file.size is Some {
            Err(MetalinkError::InvalidSize)
        } else {
            Ok(ParserView { current: Some(FileView { size: Some(size as u64), ..file }), ..parser })
        },
    }
}

/// A language, a system or a version of a file.
pub open spec fn described(parser: ParserView, kind: Kind, text: Seq<char>, options: MetalinkOptions) -> Step {
    if text.len() == 0 || byte_len(text) > 1024 {
        Err(MetalinkError::Limit)
    } else {
        match (charged(parser.retained, byte_len(text) + 64, options), parser.current) {
            (None, _) => Err(MetalinkError::Limit),
            (Some(_), None) => Err(MetalinkError::Schema),
            (Some(retained), Some(file)) => if kind == Kind::Language {
                Ok(
                    ParserView {
                        retained,
                        current: Some(FileView { language: file.language.push(text), ..file }),
                        ..parser
                    },
                )
            } else if kind == Kind::Os {
                Ok(
                    ParserView {
                        retained,
                        current: Some(FileView { os: file.os.push(text), ..file }),
                        ..parser
                    },
                )
            } else if file.version is Some {
                Err(MetalinkError::Schema)
            } else {
                Ok(
                    ParserView {
                        retained,
                        current: Some(FileView { version: Some(text), ..file }),
                        ..parser
                    },
                )
            },
        }
    }
}

/// The algorithm of a hash: that of the open piece hashes, or the one it names.
pub open spec fn hash_algorithm(file: FileView, attrs: Seq<Pair>) -> Result<Option<DigestAlgorithm>, MetalinkError> {
    match file.current_pieces {
        Some(pieces) => Ok(pieces.algorithm),
        None => match attr(attrs, "type"@) {
            Some(name) => Ok(algorithm_named(name)),
            None => Err(MetalinkError::InvalidChecksum),
        },
    }
}

/// Which piece a hash is for.
pub open spec fn piece_index(version: u8, attrs: Seq<Pair>, held: nat) -> Option<int> {
    if version == 3 {
        match attr(attrs, "piece"@) {
            Some(text) => parsed_unsigned(text, u64::MAX as int),
            None => None,
        }
    } else {
        Some(held as int)
    }
}

/// A piece hash added.
pub open spec fn with_piece(
    pieces: PiecesView,
    version: u8,
    attrs: Seq<Pair>,
    digest: Digest,
    limits: MetalinkLimits,
) -> Result<PiecesView, MetalinkError> {
    if pieces.digests.len() == limits.max_chunks {
        Err(MetalinkError::Limit)
    } else {
        match piece_index(version, attrs, pieces.digests.len()) {
            None => Err(MetalinkError::InvalidChecksum),
            Some(index) => if index >= limits.max_chunks || pieces.slots.contains_key(index as u128) {
                Err(MetalinkError::InvalidChecksum)
            } else {
                Ok(
                    PiecesView {
                        digests: pieces.digests.push(digest),
                        slots: pieces.slots.insert(index as u128, pieces.digests.len() as usize),
                        ..pieces
                    },
                )
            },
        }
    }
}

/// The first whole-file digest from `from` on of an algorithm.
pub open spec fn whole_of(whole: Seq<WholeDigest>, algorithm: DigestAlgorithm, from: int) -> Option<int>
    decreases whole.len() - from,
{
    if from < 0 || from >= whole.len() {
        None
    } else if whole[from].algorithm == algorithm {
        Some(from)
    } else {
        whole_of(whole, algorithm, from + 1)
    }
}

/// A whole-file digest added: once for each algorithm.
pub open spec fn with_whole(
    whole: Seq<WholeDigest>,
    algorithm: DigestAlgorithm,
    digest: Digest,
) -> Result<Seq<WholeDigest>, MetalinkError> {
    match whole_of(whole, algorithm, 0) {
        Some(i) => if whole[i].digest == digest {
            Ok(whole)
        } else {
            Err(MetalinkError::InvalidChecksum)
        },
        None => Ok(whole.push(WholeDigest { algorithm, digest })),
    }
}

/// A hash added to a file. `digest` is what its text spells, if it is one.
pub open spec fn with_hash(
    file: FileView,
    version: u8,
    attrs: Seq<Pair>,
    digest: Option<Digest>,
    limits: MetalinkLimits,
) -> Result<FileView, MetalinkError> {
    match hash_algorithm(file, attrs) {
        Err(error) => Err(error),
        Ok(None) => Ok(FileView { had_checksum: true, ..file }),
        Ok(Some(algorithm)) => match (digest, file.current_pieces) {
            (None, _) => Err(MetalinkError::InvalidChecksum),
            (Some(digest), Some(pieces)) => match with_piece(pieces, version, attrs, digest, limits) {
                Ok(pieces) => Ok(FileView { had_checksum: true, current_pieces: Some(pieces), ..file }),
                Err(error) => Err(error),
            },
            (Some(digest), None) => match with_whole(file.whole, algorithm, digest) {
                Ok(whole) => Ok(FileView { had_checksum: true, whole, ..file }),
                Err(error) => Err(error),
            },
        },
    }
}

/// A hash.
pub open spec fn hashed(
    parser: ParserView,
    attrs: Seq<Pair>,
    digest: Option<Digest>,
    options: MetalinkOptions,
    limits: MetalinkLimits,
) -> Step {
    match (charged(parser.retained, 128, options), parser.current) {
        (None, _) => Err(MetalinkError::Limit),
        (Some(_), None) => Err(MetalinkError::Schema),
        (Some(retained), Some(file)) => match with_hash(file, parser.version, attrs, digest, limits) {
            Ok(file) => Ok(ParserView { retained, current: Some(file), ..parser }),
            Err(error) => Err(error),
        },
    }
}

/// The end of piece hashes.
pub open spec fn closed_pieces(parser: ParserView) -> Step {
    match parser.current {
        None => Err(MetalinkError::Schema),
        Some(file) => match file.current_pieces {
            None => Err(MetalinkError::Schema),
            Some(pieces) => Ok(
                ParserView {
                    current: Some(FileView { pieces: file.pieces.push(pieces), current_pieces: None, ..file }),
                    ..parser
                },
            ),
        },
    }
}

/// The URL that a text spells, by itself or against the base.
pub open spec fn resolved(text: Seq<char>, options: MetalinkOptions) -> Option<UrlPartsView> {
    match parsed_url(text) {
        Ok(parts) => Some(parts),
        Err(UrlFault::Relative) => match text_view(options.base_uri) {
            Some(base) => joined_url(base, text),
            None => None,
        },
        Err(UrlFault::Other) => None,
    }
}

/// Whether a URL may be used as a source: it has a host and no fragment, and an
/// HTTP one no credentials.
pub open spec fn usable_source(url: UrlPartsView, http: bool) -> bool {
    &&& url.host is Some
    &&& url.fragment is None
    &&& http ==> url.username.len() == 0 && url.password is None
}

/// A bounded number that an attribute gives, or a default; `None` where it
/// gives another.
pub open spec fn bounded_attr(attrs: Seq<Pair>, key: Seq<char>, max: int, default: int) -> Option<int> {
    match attr(attrs, key) {
        None => Some(default),
        Some(text) => match parsed_signed(text, i64::MIN as int, i64::MAX as int) {
            Some(v) => if 1 <= v <= max {
                Some(v)
            } else {
                None
            },
            None => None,
        },
    }
}

/// The priority of a source: lower is better in either version.
pub open spec fn source_priority(version: u8, attrs: Seq<Pair>) -> Option<int> {
    if version == 3 {
        match bounded_attr(attrs, "preference"@, 100, 50) {
            Some(preference) => Some(100 - preference),
            None => None,
        }
    } else {
        bounded_attr(attrs, "priority"@, 999999, 999999)
    }
}

/// Whether one of the sources has a URI.
pub open spec fn has_uri(sources: Seq<SourceView>, uri: Seq<char>) -> bool {
    exists|i: int| 0 <= i < sources.len() && (#[trigger] sources[i]).uri == uri
}

/// A source added to a file that counts it already. `accepted` says whether its
/// path can be decoded.
pub open spec fn with_source(
    parser: ParserView,
    file: FileView,
    url: UrlPartsView,
    attrs: Seq<Pair>,
    accepted: bool,
    options: MetalinkOptions,
    limits: MetalinkLimits,
) -> Step {
    let location = attr(attrs, "location"@);
    let bytes = saturated(saturated(byte_len(url.text) * 2) + 256);
    match limits.protocols.spec_parse(url.scheme) {
        None => Ok(ParserView { current: Some(file), ..parser }),
        Some(protocol) => if !protocol.enabled {
            Ok(ParserView { current: Some(file), ..parser })
        } else if !usable_source(url, protocol.http) || !accepted {
            Err(MetalinkError::InvalidSource)
        } else if attr(attrs, "type"@) is Some && attr(attrs, "type"@) != Some(url.scheme) {
            Err(MetalinkError::InvalidSource)
        } else {
            match source_priority(parser.version, attrs) {
                None => Err(MetalinkError::InvalidSource),
                Some(priority) => if location is Some && byte_len(location->0) > 64 {
                    Err(MetalinkError::InvalidSource)
                } else {
                    match charged(parser.retained, bytes, options) {
                        None => Err(MetalinkError::Limit),
                        Some(retained) => if has_uri(file.sources, url.text) {
                            Err(MetalinkError::InvalidSource)
                        } else {
                            Ok(
                                ParserView {
                                    retained,
                                    current: Some(
                                        FileView {
                                            sources: file.sources.push(
                                                SourceView {
                                                    uri: url.text,
                                                    protocol,
                                                    priority: priority as i64,
                                                    location,
                                                },
                                            ),
                                            ..file
                                        },
                                    ),
                                    ..parser
                                },
                            )
                        },
                    }
                },
            }
        },
    }
}

/// How long the text of a source may be.
pub open spec fn source_text_fits(text: Seq<char>) -> bool {
    text.len() > 0 && byte_len(text) <= 16384
}

/// A source, and the URL that its text was found to spell.
pub open spec fn sourced(
    parser: ParserView,
    text: Seq<char>,
    url: Option<UrlPartsView>,
    attrs: Seq<Pair>,
    accepted: bool,
    options: MetalinkOptions,
    limits: MetalinkLimits,
) -> Step {
    if !source_text_fits(text) {
        Err(MetalinkError::InvalidSource)
    } else {
        match parser.current {
            None => Err(MetalinkError::Schema),
            Some(file) => if file.source_count + 1 > options.max_sources {
                Err(MetalinkError::Limit)
            } else {
                match url {
                    None => Err(MetalinkError::InvalidSource),
                    Some(url) => with_source(
                        parser,
                        FileView { source_count: (file.source_count + 1) as usize, ..file },
                        url,
                        attrs,
                        accepted,
                        options,
                        limits,
                    ),
                }
            },
        }
    }
}

/// The end of a file.
pub open spec fn closed_file(
    parser: ParserView,
    accepted: bool,
    options: MetalinkOptions,
    ranges: Seq<OrderKey>,
) -> Step {
    match parser.current {
        None => Err(MetalinkError::Schema),
        Some(file) => match finished_file(file, options, ranges, accepted) {
            Err(error) => Err(error),
            Ok(None) => Ok(ParserView { current: None, ..parser }),
            Ok(Some(done)) => Ok(ParserView { current: None, files: parser.files.push(done), ..parser }),
        },
    }
}

/// What a caller is asked to check.
pub enum MetalinkQuestion {
    /// Is this name, in parts between slashes, a path that is safe everywhere?
    Path(String),
    /// Which digest does this text spell?
    Digest { algorithm: DigestAlgorithm, text: String },
    /// Can this URI path be decoded?
    UriPath(String),
    /// Is this a valid manifest?
    Manifest(crate::metalink_types::VerificationManifest),
}

/// What a question holds.
#[verifier::ext_equal]
pub enum QuestionView {
    Path(Seq<char>),
    Digest { algorithm: DigestAlgorithm, text: Seq<char> },
    UriPath(Seq<char>),
    Manifest(ManifestView),
}

impl View for MetalinkQuestion {
    type V = QuestionView;

    open spec fn view(&self) -> QuestionView {
        match self {
            MetalinkQuestion::Path(text) => QuestionView::Path(text@),
            MetalinkQuestion::Digest { algorithm, text } => QuestionView::Digest {
                algorithm: *algorithm,
                text: text@,
            },
            MetalinkQuestion::UriPath(text) => QuestionView::UriPath(text@),
            MetalinkQuestion::Manifest(manifest) => QuestionView::Manifest(manifest@),
        }
    }
}

/// The answer to a question.
#[derive(Debug, PartialEq, Eq)]
pub enum MetalinkAnswer {
    Nothing,
    Path(Option<SafeRelativePath>),
    Digest(Option<Digest>),
    Accepted(bool),
}

impl MetalinkAnswer {
    pub open spec fn path(self) -> Option<SafeRelativePath> {
        match self {
            MetalinkAnswer::Path(path) => path,
            _ => None,
        }
    }

    pub open spec fn digest(self) -> Option<Digest> {
        match self {
            MetalinkAnswer::Digest(digest) => digest,
            _ => None,
        }
    }

    pub open spec fn accepted(self) -> bool {
        self == MetalinkAnswer::Accepted(true)
    }
}

/// The URL that the innermost element names, if it is one of a source.
pub open spec fn end_url(parser: ParserView, options: MetalinkOptions) -> Option<UrlPartsView> {
    if parser.stack.len() > 0 && parser.stack.last().kind == Kind::Url {
        resolved(trimmed(parser.stack.last().text), options)
    } else {
        None
    }
}

/// An end tag, and the URL that its element was found to name.
pub open spec fn ended(
    parser: ParserView,
    url: Option<UrlPartsView>,
    answer: MetalinkAnswer,
    options: MetalinkOptions,
    limits: MetalinkLimits,
    ranges: Seq<OrderKey>,
) -> Step {
    if parser.stack.len() == 0 {
        Err(MetalinkError::Xml)
    } else {
        let frame = parser.stack.last();
        let rest = ParserView { stack: parser.stack.drop_last(), ..parser };
        let text = trimmed(frame.text);
        match frame.kind {
            Kind::Root => Ok(ParserView { closed: true, ..rest }),
            Kind::Size => sized(rest, text),
            Kind::Language | Kind::Os | Kind::Version => described(rest, frame.kind, text, options),
            Kind::Hash => hashed(rest, frame.attrs, answer.digest(), options, limits),
            Kind::Pieces => closed_pieces(rest),
            Kind::Url => sourced(rest, text, url, frame.attrs, answer.accepted(), options, limits),
            Kind::Metaurl => match rest.current {
                None => Err(MetalinkError::Schema),
                Some(file) => Ok(ParserView { current: Some(FileView { had_metaurl: true, ..file }), ..rest }),
            },
            Kind::File => closed_file(rest, answer.accepted(), options, ranges),
            _ => Ok(rest),
        }
    }
}

/// What an XML declaration says behind its name, which has three characters.
pub open spec fn behind_name(text: Seq<char>) -> Seq<char> {
    if text.len() < 3 {
        Seq::empty()
    } else {
        text.skip(3)
    }
}

/// An XML declaration, with the version and the encoding that were found in it.
pub open spec fn declaration_read(
    parser: ParserView,
    version: Option<Seq<char>>,
    encoding: Option<Option<Seq<char>>>,
) -> Step {
    if parser.declared || parser.version != 0 || parser.stack.len() > 0 {
        Err(MetalinkError::Xml)
    } else if version is None {
        Err(MetalinkError::Xml)
    } else if version != Some("1.0"@) {
        Err(MetalinkError::Encoding)
    } else {
        match encoding {
            None => Ok(ParserView { declared: true, ..parser }),
            Some(None) => Err(MetalinkError::Encoding),
            Some(Some(name)) => if same_but_case(name, "UTF-8"@) {
                Ok(ParserView { declared: true, ..parser })
            } else {
                Err(MetalinkError::Encoding)
            },
        }
    }
}

/// A reference in character data, and the text that it was found to stand for.
pub open spec fn reference_read(parser: ParserView, name: Seq<char>, value: Option<Seq<char>>) -> Step {
    if byte_len(name) > 32 {
        Err(MetalinkError::Entity)
    } else {
        match value {
            Some(value) => texted(parser, value),
            None => Err(MetalinkError::Entity),
        }
    }
}

/// What was found in an event and for it.
#[verifier::ext_equal]
pub struct FindingsView {
    pub attributes: Seq<Option<XmlAttributeView>>,
    pub url: Option<UrlPartsView>,
    pub value: Option<Seq<char>>,
    pub version: Option<Seq<char>>,
    pub encoding: Option<Option<Seq<char>>>,
}

/// What is found in an event: the attributes of a start tag, the URL that a source
/// names, the text that a reference stands for, and what a declaration says.
pub open spec fn found_in(parser: ParserView, event: XmlEventView, options: MetalinkOptions) -> FindingsView {
    let none = FindingsView { attributes: Seq::empty(), url: None, value: None, version: None, encoding: None };
    match event {
        XmlEventView::Start { attributes, .. } => FindingsView { attributes: tag_attributes(attributes), ..none },
        XmlEventView::End => FindingsView { url: end_url(parser, options), ..none },
        XmlEventView::Reference(name) => FindingsView { value: unescaped("&"@ + name + ";"@), ..none },
        XmlEventView::Declaration(text) => {
            let (version, encoding) = declared(behind_name(text));
            FindingsView { version, encoding, ..none }
        },
        _ => none,
    }
}

/// One event with what was found for it.
pub open spec fn applied_with(
    parser: ParserView,
    event: XmlEventView,
    found: FindingsView,
    answer: MetalinkAnswer,
    options: MetalinkOptions,
    limits: MetalinkLimits,
    ranges: Seq<OrderKey>,
) -> Step {
    match event {
        XmlEventView::Start { name, .. } => started(
            parser,
            name,
            collected(found.attributes, found.attributes.len() as int),
            answer.path(),
            options,
            limits,
        ),
        XmlEventView::End => ended(parser, found.url, answer, options, limits, ranges),
        XmlEventView::Text(text) | XmlEventView::CData(text) => if byte_len(text) > MAX_XML_TEXT_BYTES {
            Err(MetalinkError::Limit)
        } else {
            texted(parser, text)
        },
        XmlEventView::Reference(name) => reference_read(parser, name, found.value),
        XmlEventView::DocType => Err(MetalinkError::Entity),
        XmlEventView::Declaration(_) => declaration_read(parser, found.version, found.encoding),
        XmlEventView::Instruction => Err(MetalinkError::Xml),
        XmlEventView::Comment(bytes) => if bytes > MAX_XML_TEXT_BYTES {
            Err(MetalinkError::Limit)
        } else {
            Ok(parser)
        },
        XmlEventView::Eof | XmlEventView::Malformed => Err(MetalinkError::Xml),
    }
}

/// One event.
pub open spec fn applied(
    parser: ParserView,
    event: XmlEventView,
    answer: MetalinkAnswer,
    options: MetalinkOptions,
    limits: MetalinkLimits,
    ranges: Seq<OrderKey>,
) -> Step {
    applied_with(parser, event, found_in(parser, event, options), answer, options, limits, ranges)
}

/// What a caller is asked before an end tag is read.
pub open spec fn end_question(
    parser: ParserView,
    options: MetalinkOptions,
    limits: MetalinkLimits,
) -> Option<QuestionView> {
    let frame = parser.stack.last();
    let text = trimmed(frame.text);
    match parser.current {
        None => None,
        Some(file) => match frame.kind {
            Kind::Hash => match hash_algorithm(file, frame.attrs) {
                Ok(Some(algorithm)) => Some(QuestionView::Digest { algorithm, text }),
                _ => None,
            },
            Kind::Url => if !source_text_fits(text) {
                None
            } else {
                match resolved(text, options) {
                    None => None,
                    Some(url) => match limits.protocols.spec_parse(url.scheme) {
                        Some(protocol) => if protocol.enabled {
                            Some(QuestionView::UriPath(url.path))
                        } else {
                            None
                        },
                        None => None,
                    },
                }
            },
            Kind::File => match manifest_of(file, options) {
                Ok(manifest) => Some(QuestionView::Manifest(manifest)),
                Err(_) => None,
            },
            _ => None,
        },
    }
}

/// What a caller is asked before an event is read.
pub open spec fn question(
    parser: ParserView,
    event: XmlEventView,
    options: MetalinkOptions,
    limits: MetalinkLimits,
) -> Option<QuestionView> {
    match event {
        XmlEventView::Start { name, attributes } => match attributes_of(attributes) {
            Err(_) => None,
            Ok(attrs) => match (tag_kind(parser, name, attrs), attr(attrs, "name"@)) {
                (Ok((_, Kind::File)), Some(path)) => Some(QuestionView::Path(path)),
                _ => None,
            },
        },
        XmlEventView::End => if parser.stack.len() == 0 {
            None
        } else {
            end_question(parser, options, limits)
        },
        _ => None,
    }
}

/// What a document holds when it ends, or why it is refused.
pub open spec fn concluded(parser: ParserView, ranges: Seq<OrderKey>) -> Result<ParserView, MetalinkError> {
    if !parser.closed || parser.stack.len() > 0 || parser.current is Some {
        Err(MetalinkError::Xml)
    } else if exists|i: int| 0 <= i < ranges.len() && (#[trigger] ranges[i]).position > parser.count {
        Err(MetalinkError::Selection)
    } else if parser.files.len() == 0 {
        Err(MetalinkError::Selection)
    } else {
        Ok(parser)
    }
}

/// How a parse goes on.
#[verifier::ext_equal]
pub enum Course {
    /// It waits for an answer before the first of the events left.
    Asks { parser: ParserView, events: Seq<XmlEventView>, question: QuestionView },
    /// The document was read.
    Done { parser: ParserView },
    Fault { error: MetalinkError },
}

/// How a parse goes on over the events left.
pub open spec fn course(
    parser: ParserView,
    events: Seq<XmlEventView>,
    options: MetalinkOptions,
    limits: MetalinkLimits,
    ranges: Seq<OrderKey>,
) -> Course
    decreases events.len(),
{
    if events.len() == 0 || events[0] == XmlEventView::Malformed {
        Course::Fault { error: MetalinkError::Xml }
    } else if events[0] == XmlEventView::Eof {
        match concluded(parser, ranges) {
            Ok(parser) => Course::Done { parser },
            Err(error) => Course::Fault { error },
        }
    } else {
        match question(parser, events[0], options, limits) {
            Some(question) => Course::Asks { parser, events, question },
            None => match applied(parser, events[0], MetalinkAnswer::Nothing, options, limits, ranges) {
                Err(error) => Course::Fault { error },
                Ok(next) => course(next, events.drop_first(), options, limits, ranges),
            },
        }
    }
}

/// How a parse goes on once a question before the first event was answered.
pub open spec fn resumed(
    parser: ParserView,
    events: Seq<XmlEventView>,
    answer: MetalinkAnswer,
    options: MetalinkOptions,
    limits: MetalinkLimits,
    ranges: Seq<OrderKey>,
) -> Course {
    match applied(parser, events[0], answer, options, limits, ranges) {
        Err(error) => Course::Fault { error },
        Ok(next) => course(next, events.drop_first(), options, limits, ranges),
    }
}

/// Whether XML allows a character.
pub open spec fn xml_char(c: char) -> bool {
    &&& c != '\0'
    &&& c < ' ' ==> c == '\t' || c == '\r' || c == '\n'
    &&& c != '\u{fffe}'
    &&& c != '\u{ffff}'
}

/// Whether the options are within the limits of the engine.
pub open spec fn options_fit(options: MetalinkOptions, limits: MetalinkLimits) -> bool {
    &&& 0 < options.max_document_bytes <= limits.max_document_bytes
    &&& 0 < options.max_files <= MAX_METALINK_FILES
    &&& 0 < options.max_sources <= MAX_METALINK_SOURCES
    &&& 0 < options.metadata_bytes <= crate::metalink_types::METALINK_DOCUMENT_BYTES
    &&& 0 < options.default_chunk_length <= limits.max_piece_length
}

/// Whether a base URI can be resolved against: there is none, or it is an HTTP URL.
pub open spec fn base_usable(base: Option<Seq<char>>, limits: MetalinkLimits) -> bool {
    match base {
        None => true,
        Some(base) => match parsed_url(base) {
            Ok(url) => match limits.protocols.spec_parse(url.scheme) {
                Some(protocol) => protocol.http,
                None => false,
            },
            Err(_) => false,
        },
    }
}

} // verus!
