//! Bounded Metalink v3/v4 pull parsing. Only the current element and file and
//! the charged results are retained; no tree and no external entity is loaded.
use vstd::prelude::*;
use crate::index::KeyMap;
use crate::metalink_files::{
    file_manifest, finish_file, piece_views, FileBuilder, FileView, Pieces, PiecesView, WholeDigest,
};
use crate::metalink_selection::{parse_selection, selection};
use crate::metalink_spec::{
    applied, applied_with, attr, attr_from, attributes_of, base_usable, behind_name, bounded_attr, charged,
    child_kind, closed_file, closed_pieces, collected, collides, concluded, course, declaration_read, described,
    empty_file, end_question, ended, found_in, fresh_parser, has_uri, hash_algorithm, hashed, inherited, local_of,
    namespace_key, next_path, opened, opened_file, opened_pieces, options_fit, prefix_of, question, reference_read,
    resolved, resumed, saturated, sized, source_priority, sourced, started, tag_kind, texted, whole_of, with_hash,
    with_piece, with_source, with_whole, xml_char, Course, FindingsView, FrameView, Kind, MetalinkAnswer,
    MetalinkQuestion, Pair, ParserView, QuestionView,
};
use crate::metalink_types::{
    algorithm, file_views, source_views, Digest, DigestAlgorithm, MetalinkDocument, MetalinkError, MetalinkFile,
    MetalinkLimits, MetalinkOptions, MetalinkSource, SafeRelativePath, MAX_METALINK_FILES, MAX_METALINK_SOURCES,
    MAX_XML_ATTRIBUTES, MAX_XML_ATTRIBUTE_BYTES, MAX_XML_DEPTH, MAX_XML_TEXT_BYTES, METALINK_DOCUMENT_BYTES,
};
use crate::order::OrderKey;
use crate::text::{
    byte_len, char_lists, chars_of, find_char, is_at, lowercase, parse_i64, parse_unsigned, parsed_unsigned,
    same_chars, same_text, slice_chars, stands_before, text_of, text_same_but_case, trim_text, utf8_text,
};
use crate::urls::{join_url, parse_url, UrlFault, UrlParts, UrlPartsView};
use crate::xml::{
    attribute_at, document_events, next_event, open_document, pending_events, read_declaration, tag_attributes,
    text_view, unescape, XmlAttribute, XmlAttributeView, XmlEvent, XmlEventView,
};
use vstd::utf8::{decode_utf8, valid_utf8};

verus! {

/// An attribute of an open element.
struct Attribute {
    key: String,
    value: String,
}

/// What is found in an event and for it: the attributes of a start tag, the URL that
/// a source names, the text that a reference stands for, and the version and the
/// encoding that a declaration gives.
pub struct XmlFindings {
    pub attributes: Vec<Option<XmlAttribute>>,
    pub url: Option<UrlParts>,
    pub value: Option<String>,
    pub version: Option<String>,
    pub encoding: Option<Option<String>>,
}

/// What the parts of a URL hold, where there are any.
pub open spec fn url_view(url: Option<UrlParts>) -> Option<UrlPartsView> {
    match url {
        Some(url) => Some(url@),
        None => None,
    }
}

/// What attributes hold.
pub open spec fn attribute_views(list: Seq<Option<XmlAttribute>>) -> Seq<Option<XmlAttributeView>> {
    list.map_values(
        |found: Option<XmlAttribute>|
            match found {
                Some(found) => Some(found@),
                None => None,
            },
    )
}

impl View for XmlFindings {
    type V = FindingsView;

    open spec fn view(&self) -> FindingsView {
        FindingsView {
            attributes: attribute_views(self.attributes@),
            url: url_view(self.url),
            value: text_view(self.value),
            version: text_view(self.version),
            encoding: match self.encoding {
                Some(encoding) => Some(text_view(encoding)),
                None => None,
            },
        }
    }
}

/// The keys and values of attributes.
spec fn pairs(attrs: Seq<Attribute>) -> Seq<Pair> {
    attrs.map_values(|a: Attribute| (a.key@, a.value@))
}

/// An open element.
struct Frame {
    attrs: Vec<Attribute>,
    kind: Kind,
    text: String,
}

spec fn frame_view(frame: Frame) -> FrameView {
    FrameView { attrs: pairs(frame.attrs@), kind: frame.kind, text: frame.text@ }
}

spec fn frame_views(stack: Seq<Frame>) -> Seq<FrameView> {
    stack.map_values(|f: Frame| frame_view(f))
}

/// The state of a parse.
pub struct Parser {
    version: u8,
    closed: bool,
    declared: bool,
    stack: Vec<Frame>,
    current: Option<FileBuilder>,
    files: Vec<MetalinkFile>,
    count: u32,
    retained: usize,
    paths: Vec<Vec<char>>,
}

spec fn file_view(file: Option<FileBuilder>) -> Option<FileView> {
    match file {
        Some(file) => Some(file@),
        None => None,
    }
}

impl View for Parser {
    type V = ParserView;

    closed spec fn view(&self) -> ParserView {
        ParserView {
            version: self.version,
            closed: self.closed,
            declared: self.declared,
            stack: frame_views(self.stack@),
            current: file_view(self.current),
            files: file_views(self.files@),
            count: self.count,
            retained: self.retained,
            paths: char_lists(self.paths@),
        }
    }
}

fn find_attr<'a>(attrs: &'a Vec<Attribute>, key: &str) -> (r: Option<&'a String>)
    ensures
        (match r {
            Some(value) => Some(value@),
            None => None,
        }) == attr(pairs(attrs@), key@),
{
    let mut i: usize = 0;
    while i < attrs.len()
        invariant
            i <= attrs.len(),
            attr(pairs(attrs@), key@) == attr_from(pairs(attrs@), key@, i as int),
        decreases attrs.len() - i,
    {
        assert(pairs(attrs@)[i as int] == (attrs@[i as int].key@, attrs@[i as int].value@));
        if same_text(attrs[i].key.as_str(), key) {
            return Some(&attrs[i].value);
        }
        i = i + 1;
    }
    None
}

/// A fault among the first attributes is the fault of them all.
proof fn lemma_collected_fault(raw: Seq<Option<XmlAttributeView>>, n: int, m: int)
    requires
        0 <= n <= m,
        collected(raw, n) is Err,
    ensures
        collected(raw, m) == collected(raw, n),
    decreases m - n,
{
    if n < m {
        lemma_collected_fault(raw, n, m - 1);
    }
}

/// The attributes that come first are collected the same without those behind them.
proof fn lemma_collected_prefix(all: Seq<Option<XmlAttributeView>>, m: int, n: int)
    requires
        0 <= n <= m <= all.len(),
    ensures
        collected(all.take(m), n) == collected(all, n),
    decreases n,
{
    if n > 0 {
        lemma_collected_prefix(all, m, n - 1);
    }
}

/// The attributes of a tag, and no more of them than are refused for their number.
fn find_attributes(raw: &str) -> (r: Vec<Option<XmlAttribute>>)
    ensures
        collected(attribute_views(r@), r@.len() as int) == attributes_of(raw@),
{
    let ghost all = tag_attributes(raw@);
    let mut found: Vec<Option<XmlAttribute>> = Vec::new();
    assert(attribute_views(found@) =~= all.take(0));
    while found.len() <= MAX_XML_ATTRIBUTES
        invariant
            all == tag_attributes(raw@),
            found.len() <= all.len(),
            found.len() <= MAX_XML_ATTRIBUTES + 1,
            attribute_views(found@) == all.take(found@.len() as int),
        decreases MAX_XML_ATTRIBUTES + 1 - found.len(),
    {
        match attribute_at(raw, found.len()) {
            None => {
                assert(all.take(found@.len() as int) =~= all);
                return found;
            },
            Some(next) => {
                let ghost before = found@;
                found.push(next);
                assert(attribute_views(found@) =~= all.take(before.len() as int + 1));
            },
        }
    }
    proof {
        let n = found@.len() as int;
        lemma_collected_prefix(all, n, n);
        assert(collected(all, n) is Err);
        lemma_collected_fault(all, n, all.len() as int);
    }
    found
}

/// Collects the attributes that were found in a tag.
fn collect_attributes(found: &Vec<Option<XmlAttribute>>) -> (r: Result<Vec<Attribute>, MetalinkError>)
    ensures
        (match r {
            Ok(attrs) => Ok::<Seq<Pair>, MetalinkError>(pairs(attrs@)),
            Err(error) => Err::<Seq<Pair>, MetalinkError>(error),
        }) == collected(attribute_views(found@), found@.len() as int),
{
    let ghost all = attribute_views(found@);
    let mut attrs: Vec<Attribute> = Vec::new();
    let mut index: usize = 0;
    assert(pairs(attrs@) =~= Seq::empty());
    while index < found.len()
        invariant
            all == attribute_views(found@),
            index <= found.len(),
            index <= MAX_XML_ATTRIBUTES,
            collected(all, index as int) == Ok::<Seq<Pair>, MetalinkError>(pairs(attrs@)),
        decreases found.len() - index,
    {
        proof {
            if collected(all, index + 1) is Err {
                lemma_collected_fault(all, index + 1, all.len() as int);
            }
        }
        if index == MAX_XML_ATTRIBUTES {
            return Err(MetalinkError::Limit);
        }
        let found = match &found[index] {
            Some(found) => found,
            None => return Err(MetalinkError::Xml),
        };
        assert(all[index as int] == Some(found@));
        if found.raw_bytes > MAX_XML_ATTRIBUTE_BYTES || found.key.as_str().len() > MAX_XML_ATTRIBUTE_BYTES {
            return Err(MetalinkError::Limit);
        }
        let value = match &found.value {
            Some(value) => value,
            None => return Err(MetalinkError::Entity),
        };
        if find_attr(&attrs, found.key.as_str()).is_some() {
            return Err(MetalinkError::Xml);
        }
        let ghost before = pairs(attrs@);
        attrs.push(Attribute { key: found.key.clone(), value: value.clone() });
        assert(pairs(attrs@) =~= before.push((attrs@.last().key@, attrs@.last().value@)));
        index = index + 1;
    }
    Ok(attrs)
}

fn same_option(found: Option<&String>, text: &str) -> (r: bool)
    ensures
        r == (match found {
            Some(found) => found@ == text@,
            None => false,
        }),
{
    match found {
        Some(found) => same_text(found.as_str(), text),
        None => false,
    }
}

fn kind_of_child(version: u8, parent: Kind, local: &str) -> (r: Kind)
    ensures
        r == child_kind(version, parent, local@),
{
    match parent {
        Kind::Root => {
            if same_text(local, "files") && version == 3 {
                Kind::Files
            } else if same_text(local, "file") && version == 4 {
                Kind::File
            } else {
                Kind::Extension
            }
        },
        Kind::Files => {
            if same_text(local, "file") && version == 3 {
                Kind::File
            } else {
                Kind::Extension
            }
        },
        Kind::File => kind_in_file(version, local),
        Kind::Resources => {
            if same_text(local, "url") {
                Kind::Url
            } else {
                Kind::Extension
            }
        },
        Kind::Verification => {
            if same_text(local, "hash") {
                Kind::Hash
            } else if same_text(local, "pieces") {
                Kind::Pieces
            } else {
                Kind::Extension
            }
        },
        Kind::Pieces => {
            if same_text(local, "hash") {
                Kind::Hash
            } else {
                Kind::Extension
            }
        },
        _ => Kind::Extension,
    }
}

fn kind_in_file(version: u8, local: &str) -> (r: Kind)
    ensures
        r == child_kind(version, Kind::File, local@),
{
    if same_text(local, "resources") && version == 3 {
        Kind::Resources
    } else if same_text(local, "verification") && version == 3 {
        Kind::Verification
    } else if same_text(local, "size") {
        Kind::Size
    } else if same_text(local, "language") {
        Kind::Language
    } else if same_text(local, "os") {
        Kind::Os
    } else if same_text(local, "version") {
        Kind::Version
    } else if same_text(local, "url") && version == 4 {
        Kind::Url
    } else if same_text(local, "hash") && version == 4 {
        Kind::Hash
    } else if same_text(local, "pieces") && version == 4 {
        Kind::Pieces
    } else if same_text(local, "metaurl") {
        Kind::Metaurl
    } else {
        Kind::Extension
    }
}

fn holds_path(paths: &Vec<Vec<char>>, key: &Vec<char>) -> (r: bool)
    ensures
        r == char_lists(paths@).contains(key@),
{
    let mut i: usize = 0;
    while i < paths.len()
        invariant
            i <= paths.len(),
            forall|k: int| 0 <= k < i ==> #[trigger] char_lists(paths@)[k] != key@,
        decreases paths.len() - i,
    {
        assert(char_lists(paths@)[i as int] == paths@[i as int]@);
        if same_chars(&paths[i], key) {
            return true;
        }
        i = i + 1;
    }
    false
}

fn find_next_path(paths: &Vec<Vec<char>>, key: &Vec<char>) -> (r: Option<usize>)
    ensures
        r matches Some(i) ==> i < paths.len(),
        (match r {
            Some(i) => Some(paths@[i as int]@),
            None => None,
        }) == next_path(char_lists(paths@), key@, paths.len() as int),
{
    let mut best: Option<usize> = None;
    let mut i: usize = 0;
    while i < paths.len()
        invariant
            i <= paths.len(),
            best matches Some(b) ==> b < i,
            (match best {
                Some(b) => Some(paths@[b as int]@),
                None => None,
            }) == next_path(char_lists(paths@), key@, i as int),
        decreases paths.len() - i,
    {
        assert(char_lists(paths@)[i as int] == paths@[i as int]@);
        if !stands_before(&paths[i], key) {
            best = match best {
                Some(b) => if stands_before(&paths[i], &paths[b]) {
                    Some(i)
                } else {
                    Some(b)
                },
                None => Some(i),
            };
        }
        i = i + 1;
    }
    best
}

fn path_collides(paths: &Vec<Vec<char>>, key: &Vec<char>) -> (r: bool)
    ensures
        r == collides(char_lists(paths@), key@),
{
    if holds_path(paths, key) {
        return true;
    }
    let mut below = slice_chars(key, 0, key.len());
    below.push('/');
    proof {
        reveal_strlit("/");
        assert(key@.subrange(0, key@.len() as int) =~= key@);
        assert(below@ =~= key@ + "/"@);
    }
    if let Some(next) = find_next_path(paths, key) {
        if is_at(&paths[next], &below, 0) {
            return true;
        }
    }
    let mut i: usize = 0;
    while i < key.len()
        invariant
            i <= key.len(),
            forall|k: int| 0 <= k < i && #[trigger] key@[k] == '/' ==> !char_lists(paths@).contains(
                key@.subrange(0, k),
            ),
        decreases key.len() - i,
    {
        if key[i] == '/' && holds_path(paths, &slice_chars(key, 0, i)) {
            return true;
        }
        i = i + 1;
    }
    false
}

fn times(n: usize, factor: usize) -> (r: usize)
    ensures
        r == saturated(n * factor),
{
    match n.checked_mul(factor) {
        Some(product) => product,
        None => usize::MAX,
    }
}

/// What a text spells as an unsigned number of 64 bits.
fn unsigned_attr(found: Option<&String>) -> (r: Option<u64>)
    ensures
        (match r {
            Some(v) => Some(v as int),
            None => None,
        }) == (match found {
            Some(text) => parsed_unsigned(text@, u64::MAX as int),
            None => None,
        }),
{
    match found {
        Some(text) => parse_unsigned(&chars_of(text.as_str()), u64::MAX),
        None => None,
    }
}

fn numbered_attr(attrs: &Vec<Attribute>, key: &str, max: i64, default: i64) -> (r: Option<i64>)
    ensures
        (match r {
            Some(v) => Some(v as int),
            None => None,
        }) == bounded_attr(pairs(attrs@), key@, max as int, default as int),
{
    match find_attr(attrs, key) {
        None => Some(default),
        Some(text) => match parse_i64(&chars_of(text.as_str())) {
            Some(v) => if 1 <= v && v <= max {
                Some(v)
            } else {
                None
            },
            None => None,
        },
    }
}

fn priority_of(version: u8, attrs: &Vec<Attribute>) -> (r: Option<i64>)
    ensures
        (match r {
            Some(v) => Some(v as int),
            None => None,
        }) == source_priority(version, pairs(attrs@)),
{
    if version == 3 {
        match numbered_attr(attrs, "preference", 100, 50) {
            Some(preference) => Some(100 - preference),
            None => None,
        }
    } else {
        numbered_attr(attrs, "priority", 999999, 999999)
    }
}

fn resolve(text: &str, options: &MetalinkOptions) -> (r: Option<UrlParts>)
    ensures
        url_view(r) == resolved(text@, *options),
{
    match parse_url(text) {
        Ok(parts) => Some(parts),
        Err(UrlFault::Relative) => match &options.base_uri {
            Some(base) => join_url(base.as_str(), text),
            None => None,
        },
        Err(UrlFault::Other) => None,
    }
}

/// The outcome of a step that left a parser in some state.
spec fn outcome(r: Result<(), MetalinkError>, after: Parser) -> Result<ParserView, MetalinkError> {
    match r {
        Ok(_) => Ok(after@),
        Err(error) => Err(error),
    }
}

/// The innermost of an extended stack is what was put on it.
proof fn lemma_frames_push(stack: Seq<Frame>, frame: Frame)
    ensures
        frame_views(stack.push(frame)) == frame_views(stack).push(frame_view(frame)),
{
    assert(frame_views(stack.push(frame)) =~= frame_views(stack).push(frame_view(frame)));
}

impl Parser {
    /// A parse that has read nothing.
    pub fn new() -> (r: Self)
        ensures
            r@ == fresh_parser(),
    {
        let r = Parser {
            version: 0,
            closed: false,
            declared: false,
            stack: Vec::new(),
            current: None,
            files: Vec::new(),
            count: 0,
            retained: 0,
            paths: Vec::new(),
        };
        assert(r@ =~= fresh_parser());
        r
    }

    fn charge(&mut self, bytes: usize, options: &MetalinkOptions) -> (r: Result<(), MetalinkError>)
        ensures
            outcome(r, *final(self)) == (match charged(old(self)@.retained, bytes as int, *options) {
                Some(retained) => Ok::<ParserView, MetalinkError>(ParserView { retained, ..old(self)@ }),
                None => Err::<ParserView, MetalinkError>(MetalinkError::Limit),
            }),
            r is Ok ==> final(self).current == old(self).current,
    {
        match self.retained.checked_add(bytes) {
            Some(sum) => {
                if sum > options.metadata_bytes {
                    return Err(MetalinkError::Limit);
                }
                self.retained = sum;
                Ok(())
            },
            None => Err(MetalinkError::Limit),
        }
    }

    fn find_inherited(&self, key: &str) -> (r: Option<&String>)
        ensures
            (match r {
                Some(value) => Some(value@),
                None => None,
            }) == inherited(self@.stack, key@, self@.stack.len() as int),
    {
        let mut n: usize = self.stack.len();
        while n > 0
            invariant
                n <= self.stack.len(),
                inherited(self@.stack, key@, self@.stack.len() as int) == inherited(
                    self@.stack,
                    key@,
                    n as int,
                ),
            decreases n,
        {
            assert(self@.stack[n - 1] == frame_view(self.stack@[n - 1]));
            if let Some(value) = find_attr(&self.stack[n - 1].attrs, key) {
                return Some(value);
            }
            n = n - 1;
        }
        None
    }

    fn kind_of_tag(&self, name: &str, attrs: &Vec<Attribute>) -> (r: Result<(u8, Kind), MetalinkError>)
        ensures
            r == tag_kind(self@, name@, pairs(attrs@)),
    {
        let chars = chars_of(name);
        let colon = find_char(&chars, ':', 0);
        let local_chars = match colon {
            Some(i) => slice_chars(&chars, i + 1, chars.len()),
            None => slice_chars(&chars, 0, chars.len()),
        };
        assert(chars@.subrange(0, chars@.len() as int) =~= chars@);
        assert(local_chars@ == local_of(name@));
        if find_char(&local_chars, ':', 0).is_some() {
            return Err(MetalinkError::Xml);
        }
        let mut key = "xmlns".to_owned();
        if let Some(i) = colon {
            key = "xmlns:".to_owned();
            key.append(text_of(&slice_chars(&chars, 0, i)).as_str());
        }
        assert(key@ == namespace_key(prefix_of(name@)));
        let bound = match find_attr(attrs, key.as_str()) {
            Some(value) => Some(value),
            None => self.find_inherited(key.as_str()),
        };
        if colon.is_some() && bound.is_none() {
            return Err(MetalinkError::Schema);
        }
        let namespace = match bound {
            Some(value) => value.as_str(),
            None => "",
        };
        let local = text_of(&local_chars);
        let is_v3 = same_text(namespace, "http://www.metalinker.org/");
        let is_v4 = same_text(namespace, "urn:ietf:params:xml:ns:metalink");
        if self.stack.len() == 0 {
            if !same_text(local.as_str(), "metalink") {
                return Err(MetalinkError::Schema);
            }
            if is_v3 {
                let version = find_attr(attrs, "version");
                if version.is_some() && !same_option(version, "3.0") {
                    return Err(MetalinkError::Schema);
                }
                return Ok((3, Kind::Root));
            }
            if is_v4 {
                return Ok((4, Kind::Root));
            }
            return Err(MetalinkError::Schema);
        }
        let own = if self.version == 3 {
            is_v3
        } else {
            is_v4
        };
        if !own {
            return Ok((self.version, Kind::Extension));
        }
        let parent = self.stack[self.stack.len() - 1].kind;
        assert(self@.stack.last() == frame_view(self.stack@.last()));
        Ok((self.version, kind_of_child(self.version, parent, local.as_str())))
    }

    fn open_file(&mut self, named: bool, path: Option<SafeRelativePath>, options: &MetalinkOptions, attrs: Ghost<
        Seq<Pair>,
    >) -> (r: Result<(), MetalinkError>)
        requires
            old(self)@.valid(*options),
            named == (attr(attrs@, "name"@) is Some),
        ensures
            outcome(r, *final(self)) == opened_file(old(self)@, attrs@, path, *options),
            r is Ok ==> final(self)@.valid(*options),
    {
        if self.current.is_some() {
            return Err(MetalinkError::Schema);
        }
        let count: u32 = self.count + 1;
        if count as usize > options.max_files {
            return Err(MetalinkError::Limit);
        }
        if !named {
            return Err(MetalinkError::UnsafePath);
        }
        let name = match path {
            Some(name) => name,
            None => return Err(MetalinkError::UnsafePath),
        };
        let key = chars_of(lowercase(name.canonical.as_str()).as_str());
        if path_collides(&self.paths, &key) {
            return Err(MetalinkError::PathCollision);
        }
        match self.charge(times(name.encoded_len, 3).saturating_add(512), options) {
            Ok(_) => {},
            Err(error) => return Err(error),
        }
        self.count = count;
        let ghost before = self.paths@;
        self.paths.push(key);
        assert(char_lists(self.paths@) =~= char_lists(before).push(key@));
        let file = FileBuilder {
            index: count,
            name,
            size: None,
            sources: Vec::new(),
            source_count: 0,
            whole: Vec::new(),
            pieces: Vec::new(),
            current_pieces: None,
            had_checksum: false,
            had_pieces: false,
            had_metaurl: false,
            language: Vec::new(),
            os: Vec::new(),
            version: None,
        };
        assert(file@ =~= empty_file(count, name));
        self.current = Some(file);
        Ok(())
    }

    fn open_pieces(&mut self, attrs: &Vec<Attribute>, options: &MetalinkOptions, limits: &MetalinkLimits) -> (r: Result<
        (),
        MetalinkError,
    >)
        requires
            old(self)@.valid(*options),
        ensures
            outcome(r, *final(self)) == opened_pieces(old(self)@, pairs(attrs@), *limits),
            r is Ok ==> final(self)@.valid(*options),
    {
        let mut file = match self.current.take() {
            Some(file) => file,
            None => return Err(MetalinkError::Schema),
        };
        if file.current_pieces.is_some() || file.pieces.len() == 16 {
            return Err(MetalinkError::Limit);
        }
        let length = match unsigned_attr(find_attr(attrs, "length")) {
            Some(length) => length,
            None => return Err(MetalinkError::InvalidChecksum),
        };
        if length == 0 || length > limits.max_piece_length {
            return Err(MetalinkError::InvalidChecksum);
        }
        let named = match find_attr(attrs, "type") {
            Some(name) => algorithm(name.as_str()),
            None => return Err(MetalinkError::InvalidChecksum),
        };
        let ghost before = file@;
        let pieces = Pieces { algorithm: named, length, digests: Vec::new(), slots: KeyMap::new() };
        assert(pieces@.digests =~= Seq::empty());
        file.had_pieces = true;
        file.had_checksum = true;
        file.current_pieces = Some(pieces);
        assert(file@ =~= (FileView {
            had_pieces: true,
            had_checksum: true,
            current_pieces: Some(pieces@),
            ..before
        }));
        self.current = Some(file);
        Ok(())
    }

    fn start(
        &mut self,
        name: &str,
        found: &Vec<Option<XmlAttribute>>,
        path: Option<SafeRelativePath>,
        options: &MetalinkOptions,
        limits: &MetalinkLimits,
    ) -> (r: Result<(), MetalinkError>)
        requires
            old(self)@.valid(*options),
        ensures
            outcome(r, *final(self)) == started(
                old(self)@,
                name@,
                collected(attribute_views(found@), found@.len() as int),
                path,
                *options,
                *limits,
            ),
            old(self)@.closed || old(self)@.stack.len() == MAX_XML_DEPTH ==> final(self)@ == old(self)@,
            r is Ok ==> final(self)@.valid(*options),
            r is Ok ==> final(self)@.stack.len() == old(self)@.stack.len() + 1,
    {
        if self.closed || self.stack.len() == MAX_XML_DEPTH || name.len() > MAX_XML_ATTRIBUTE_BYTES {
            return Err(MetalinkError::Limit);
        }
        let attrs = match collect_attributes(found) {
            Ok(attrs) => attrs,
            Err(error) => return Err(error),
        };
        let (version, kind) = match self.kind_of_tag(name, &attrs) {
            Ok(found) => found,
            Err(error) => return Err(error),
        };
        if self.stack.len() > 0 {
            assert(self@.stack.last() == frame_view(self.stack@.last()));
            if self.stack[self.stack.len() - 1].kind.text() {
                return Err(MetalinkError::Schema);
            }
        }
        self.version = version;
        assert(self@ =~= (ParserView { version, ..old(self)@ }));
        if kind == Kind::File {
            let named = find_attr(&attrs, "name").is_some();
            match self.open_file(named, path, options, Ghost(pairs(attrs@))) {
                Ok(_) => {},
                Err(error) => return Err(error),
            }
        } else if kind == Kind::Pieces {
            match self.open_pieces(&attrs, options, limits) {
                Ok(_) => {},
                Err(error) => return Err(error),
            }
        }
        let ghost next = self@;
        let ghost stack = self.stack@;
        let frame = Frame { attrs, kind, text: String::new() };
        proof {
            lemma_frames_push(stack, frame);
            assert(frame.text@ =~= Seq::empty());
        }
        self.stack.push(frame);
        assert(self@ =~= (ParserView { stack: next.stack.push(frame_view(frame)), ..next }));
        Ok(())
    }

    fn text(&mut self, value: &str, options: &MetalinkOptions) -> (r: Result<(), MetalinkError>)
        requires
            old(self)@.valid(*options),
        ensures
            outcome(r, *final(self)) == texted(old(self)@, value@),
            r is Ok ==> final(self)@.valid(*options),
    {
        let mut frame = match self.stack.pop() {
            Some(frame) => frame,
            None => {
                assert(self@ =~= old(self)@);
                return if trim_text(value).len() == 0 {
                    Ok(())
                } else {
                    Err(MetalinkError::Xml)
                };
            },
        };
        let ghost rest = self.stack@;
        let ghost top = frame;
        proof {
            lemma_frames_push(rest, frame);
            assert(rest.push(frame) =~= old(self).stack@);
            assert(old(self)@.stack.last() == frame_view(frame));
            assert(old(self)@.stack.drop_last() =~= frame_views(rest));
        }
        if frame.text.as_str().len().saturating_add(value.len()) > MAX_XML_TEXT_BYTES {
            return Err(MetalinkError::Limit);
        }
        if frame.kind.text() {
            frame.text.append(value);
        } else if frame.kind != Kind::Extension && trim_text(value).len() > 0 {
            return Err(MetalinkError::Schema);
        }
        proof {
            lemma_frames_push(rest, frame);
        }
        self.stack.push(frame);
        assert(self@ =~= (ParserView { stack: frame_views(rest).push(frame_view(frame)), ..old(self)@ }));
        Ok(())
    }

    fn size(&mut self, text: &Vec<char>) -> (r: Result<(), MetalinkError>)
        ensures
            outcome(r, *final(self)) == sized(old(self)@, text@),
    {
        let size = match parse_unsigned(text, u64::MAX) {
            Some(size) => size,
            None => return Err(MetalinkError::InvalidSize),
        };
        let mut file = match self.current.take() {
            Some(file) => file,
            None => return Err(MetalinkError::Schema),
        };
        if file.size.is_some() {
            return Err(MetalinkError::InvalidSize);
        }
        let ghost before = file@;
        file.size = Some(size);
        assert(file@ =~= (FileView { size: Some(size), ..before }));
        self.current = Some(file);
        Ok(())
    }

    fn describe(&mut self, kind: Kind, text: Vec<char>, options: &MetalinkOptions) -> (r: Result<(), MetalinkError>)
        ensures
            outcome(r, *final(self)) == described(old(self)@, kind, text@, *options),
    {
        let bytes: usize = text_of(&text).as_str().len();
        if text.len() == 0 || bytes > 1024 {
            return Err(MetalinkError::Limit);
        }
        match self.charge(bytes + 64, options) {
            Ok(_) => {},
            Err(error) => return Err(error),
        }
        let mut file = match self.current.take() {
            Some(file) => file,
            None => return Err(MetalinkError::Schema),
        };
        let ghost before = file@;
        let ghost spelled = text@;
        if kind == Kind::Language {
            let ghost held = file.language@;
            file.language.push(text);
            assert(char_lists(file.language@) =~= char_lists(held).push(spelled));
            assert(file@ =~= (FileView { language: before.language.push(spelled), ..before }));
        } else if kind == Kind::Os {
            let ghost held = file.os@;
            file.os.push(text);
            assert(char_lists(file.os@) =~= char_lists(held).push(spelled));
            assert(file@ =~= (FileView { os: before.os.push(spelled), ..before }));
        } else {
            if file.version.is_some() {
                return Err(MetalinkError::Schema);
            }
            file.version = Some(text);
            assert(file@ =~= (FileView { version: Some(spelled), ..before }));
        }
        self.current = Some(file);
        Ok(())
    }

    fn close_pieces(&mut self) -> (r: Result<(), MetalinkError>)
        ensures
            outcome(r, *final(self)) == closed_pieces(old(self)@),
    {
        let mut file = match self.current.take() {
            Some(file) => file,
            None => return Err(MetalinkError::Schema),
        };
        let ghost before = file@;
        let pieces = match file.current_pieces.take() {
            Some(pieces) => pieces,
            None => return Err(MetalinkError::Schema),
        };
        let ghost held = file.pieces@;
        file.pieces.push(pieces);
        assert(piece_views(file.pieces@) =~= piece_views(held).push(pieces@));
        assert(file@ =~= (FileView {
            pieces: before.pieces.push(pieces@),
            current_pieces: None,
            ..before
        }));
        self.current = Some(file);
        Ok(())
    }

    fn close_file(&mut self, accepted: bool, options: &MetalinkOptions, ranges: &Vec<OrderKey>) -> (r: Result<
        (),
        MetalinkError,
    >)
        requires
            old(self)@.valid(*options),
        ensures
            outcome(r, *final(self)) == closed_file(old(self)@, accepted, *options, ranges@),
    {
        let file = match self.current.take() {
            Some(file) => file,
            None => return Err(MetalinkError::Schema),
        };
        match finish_file(file, options, ranges, accepted) {
            Err(error) => Err(error),
            Ok(None) => {
                assert(self@ =~= (ParserView { current: None, ..old(self)@ }));
                Ok(())
            },
            Ok(Some(done)) => {
                let ghost held = self.files@;
                self.files.push(done);
                assert(file_views(self.files@) =~= file_views(held).push(done@));
                assert(self@ =~= (ParserView {
                    current: None,
                    files: old(self)@.files.push(done@),
                    ..old(self)@
                }));
                Ok(())
            },
        }
    }
}

/// Adds a piece hash.
fn add_piece(
    pieces: &mut Pieces,
    version: u8,
    attrs: &Vec<Attribute>,
    digest: Digest,
    limits: &MetalinkLimits,
) -> (r: Result<(), MetalinkError>)
    ensures
        (match r {
            Ok(_) => Ok::<PiecesView, MetalinkError>(final(pieces)@),
            Err(error) => Err::<PiecesView, MetalinkError>(error),
        }) == with_piece(old(pieces)@, version, pairs(attrs@), digest, *limits),
{
    if pieces.digests.len() == limits.max_chunks {
        return Err(MetalinkError::Limit);
    }
    let index: u64 = if version == 3 {
        match unsigned_attr(find_attr(attrs, "piece")) {
            Some(index) => index,
            None => return Err(MetalinkError::InvalidChecksum),
        }
    } else {
        pieces.digests.len() as u64
    };
    if index >= limits.max_chunks as u64 || pieces.slots.get(index as u128).is_some() {
        return Err(MetalinkError::InvalidChecksum);
    }
    let slot: usize = pieces.digests.len();
    pieces.slots.insert(index as u128, slot);
    pieces.digests.push(digest);
    Ok(())
}

/// Adds a whole-file digest.
fn add_whole(whole: &mut Vec<WholeDigest>, algorithm: DigestAlgorithm, digest: Digest) -> (r: Result<
    (),
    MetalinkError,
>)
    ensures
        (match r {
            Ok(_) => Ok::<Seq<WholeDigest>, MetalinkError>(final(whole)@),
            Err(error) => Err::<Seq<WholeDigest>, MetalinkError>(error),
        }) == with_whole(old(whole)@, algorithm, digest),
{
    let mut i: usize = 0;
    while i < whole.len()
        invariant
            i <= whole.len(),
            whole@ == old(whole)@,
            whole_of(whole@, algorithm, 0) == whole_of(whole@, algorithm, i as int),
        decreases whole.len() - i,
    {
        if whole[i].algorithm == algorithm {
            return if whole[i].digest == digest {
                Ok(())
            } else {
                Err(MetalinkError::InvalidChecksum)
            };
        }
        i = i + 1;
    }
    whole.push(WholeDigest { algorithm, digest });
    Ok(())
}

/// The algorithm of a hash.
fn algorithm_of_hash(file: &FileBuilder, attrs: &Vec<Attribute>) -> (r: Result<
    Option<DigestAlgorithm>,
    MetalinkError,
>)
    ensures
        r == hash_algorithm(file@, pairs(attrs@)),
{
    match &file.current_pieces {
        Some(pieces) => Ok(pieces.algorithm),
        None => match find_attr(attrs, "type") {
            Some(name) => Ok(algorithm(name.as_str())),
            None => Err(MetalinkError::InvalidChecksum),
        },
    }
}

/// Adds a hash to a file.
fn add_hash(
    file: FileBuilder,
    version: u8,
    attrs: &Vec<Attribute>,
    digest: Option<Digest>,
    limits: &MetalinkLimits,
) -> (r: Result<FileBuilder, MetalinkError>)
    ensures
        (match r {
            Ok(file) => Ok::<FileView, MetalinkError>(file@),
            Err(error) => Err::<FileView, MetalinkError>(error),
        }) == with_hash(file@, version, pairs(attrs@), digest, *limits),
{
    let ghost before = file@;
    let found = match algorithm_of_hash(&file, attrs) {
        Ok(found) => found,
        Err(error) => return Err(error),
    };
    let mut file = file;
    file.had_checksum = true;
    let algorithm = match found {
        Some(algorithm) => algorithm,
        None => {
            assert(file@ =~= (FileView { had_checksum: true, ..before }));
            return Ok(file);
        },
    };
    let digest = match digest {
        Some(digest) => digest,
        None => return Err(MetalinkError::InvalidChecksum),
    };
    match file.current_pieces.take() {
        Some(pieces) => {
            let mut pieces = pieces;
            match add_piece(&mut pieces, version, attrs, digest, limits) {
                Ok(_) => {},
                Err(error) => return Err(error),
            }
            file.current_pieces = Some(pieces);
            assert(file@ =~= (FileView { had_checksum: true, current_pieces: Some(pieces@), ..before }));
        },
        None => {
            match add_whole(&mut file.whole, algorithm, digest) {
                Ok(_) => {},
                Err(error) => return Err(error),
            }
            assert(file@ =~= (FileView { had_checksum: true, whole: file.whole@, ..before }));
        },
    }
    Ok(file)
}

fn holds_uri(sources: &Vec<MetalinkSource>, uri: &str) -> (r: bool)
    ensures
        r == has_uri(source_views(sources@), uri@),
{
    let mut i: usize = 0;
    while i < sources.len()
        invariant
            i <= sources.len(),
            forall|k: int| 0 <= k < i ==> (#[trigger] source_views(sources@)[k]).uri != uri@,
        decreases sources.len() - i,
    {
        assert(source_views(sources@)[i as int] == sources@[i as int]@);
        if same_text(sources[i].uri.as_str(), uri) {
            return true;
        }
        i = i + 1;
    }
    false
}

impl Parser {
    fn hash(
        &mut self,
        attrs: &Vec<Attribute>,
        digest: Option<Digest>,
        options: &MetalinkOptions,
        limits: &MetalinkLimits,
    ) -> (r: Result<(), MetalinkError>)
        ensures
            outcome(r, *final(self)) == hashed(old(self)@, pairs(attrs@), digest, *options, *limits),
    {
        match self.charge(128, options) {
            Ok(_) => {},
            Err(error) => return Err(error),
        }
        let file = match self.current.take() {
            Some(file) => file,
            None => return Err(MetalinkError::Schema),
        };
        match add_hash(file, self.version, attrs, digest, limits) {
            Ok(file) => {
                self.current = Some(file);
                Ok(())
            },
            Err(error) => Err(error),
        }
    }

    fn add_source(
        &mut self,
        file: FileBuilder,
        url: UrlParts,
        attrs: &Vec<Attribute>,
        accepted: bool,
        options: &MetalinkOptions,
        limits: &MetalinkLimits,
    ) -> (r: Result<(), MetalinkError>)
        ensures
            outcome(r, *final(self)) == with_source(
                old(self)@,
                file@,
                url@,
                pairs(attrs@),
                accepted,
                *options,
                *limits,
            ),
    {
        let protocol = match limits.protocols.parse(url.scheme.as_str()) {
            Some(protocol) => protocol,
            None => {
                self.current = Some(file);
                return Ok(());
            },
        };
        if !protocol.enabled {
            self.current = Some(file);
            return Ok(());
        }
        if url.host.is_none() || url.fragment.is_some() || (protocol.http && (!url.username.as_str().is_empty()
            || url.password.is_some())) {
            return Err(MetalinkError::InvalidSource);
        }
        if !accepted {
            return Err(MetalinkError::InvalidSource);
        }
        if let Some(kind) = find_attr(attrs, "type") {
            if !same_text(kind.as_str(), url.scheme.as_str()) {
                return Err(MetalinkError::InvalidSource);
            }
        }
        let priority = match priority_of(self.version, attrs) {
            Some(priority) => priority,
            None => return Err(MetalinkError::InvalidSource),
        };
        let location = match find_attr(attrs, "location") {
            Some(location) => {
                if location.as_str().len() > 64 {
                    return Err(MetalinkError::InvalidSource);
                }
                Some(location.clone())
            },
            None => None,
        };
        match self.charge(times(url.text.as_str().len(), 2).saturating_add(256), options) {
            Ok(_) => {},
            Err(error) => return Err(error),
        }
        if holds_uri(&file.sources, url.text.as_str()) {
            return Err(MetalinkError::InvalidSource);
        }
        let mut file = file;
        let ghost before = file@;
        let ghost held = file.sources@;
        let source = MetalinkSource { uri: url.text, protocol, priority, location };
        file.sources.push(source);
        assert(source_views(file.sources@) =~= source_views(held).push(source@));
        assert(file@ =~= (FileView { sources: before.sources.push(source@), ..before }));
        self.current = Some(file);
        Ok(())
    }

    fn source(
        &mut self,
        text: &Vec<char>,
        url: Option<UrlParts>,
        attrs: &Vec<Attribute>,
        accepted: bool,
        options: &MetalinkOptions,
        limits: &MetalinkLimits,
    ) -> (r: Result<(), MetalinkError>)
        requires
            old(self)@.valid(*options),
        ensures
            outcome(r, *final(self)) == sourced(
                old(self)@,
                text@,
                url_view(url),
                pairs(attrs@),
                accepted,
                *options,
                *limits,
            ),
    {
        let spelled = text_of(text);
        if text.len() == 0 || spelled.as_str().len() > 16384 {
            return Err(MetalinkError::InvalidSource);
        }
        let mut file = match self.current.take() {
            Some(file) => file,
            None => return Err(MetalinkError::Schema),
        };
        let ghost before = file@;
        file.source_count = file.source_count + 1;
        assert(file@ =~= (FileView { source_count: (before.source_count + 1) as usize, ..before }));
        if file.source_count > options.max_sources {
            return Err(MetalinkError::Limit);
        }
        let url = match url {
            Some(url) => url,
            None => return Err(MetalinkError::InvalidSource),
        };
        let r = self.add_source(file, url, attrs, accepted, options, limits);
        r
    }

    fn end(
        &mut self,
        url: Option<UrlParts>,
        answer: MetalinkAnswer,
        options: &MetalinkOptions,
        limits: &MetalinkLimits,
        ranges: &Vec<OrderKey>,
    ) -> (r: Result<(), MetalinkError>)
        requires
            old(self)@.valid(*options),
        ensures
            outcome(r, *final(self)) == ended(old(self)@, url_view(url), answer, *options, *limits, ranges@),
    {
        let frame = match self.stack.pop() {
            Some(frame) => frame,
            None => return Err(MetalinkError::Xml),
        };
        let ghost rest = self@;
        proof {
            lemma_frames_push(self.stack@, frame);
            assert(self.stack@.push(frame) =~= old(self).stack@);
            assert(old(self)@.stack.last() == frame_view(frame));
            assert(old(self)@.stack.drop_last() =~= rest.stack);
            assert(rest =~= (ParserView { stack: old(self)@.stack.drop_last(), ..old(self)@ }));
        }
        let accepted = match &answer {
            MetalinkAnswer::Accepted(accepted) => *accepted,
            _ => false,
        };
        let text = trim_text(frame.text.as_str());
        match frame.kind {
            Kind::Root => {
                self.closed = true;
                assert(self@ =~= (ParserView { closed: true, ..rest }));
                Ok(())
            },
            Kind::Size => self.size(&text),
            Kind::Language | Kind::Os | Kind::Version => self.describe(frame.kind, text, options),
            Kind::Hash => {
                let digest = match answer {
                    MetalinkAnswer::Digest(digest) => digest,
                    _ => None,
                };
                self.hash(&frame.attrs, digest, options, limits)
            },
            Kind::Pieces => self.close_pieces(),
            Kind::Url => self.source(&text, url, &frame.attrs, accepted, options, limits),
            Kind::Metaurl => {
                let mut file = match self.current.take() {
                    Some(file) => file,
                    None => return Err(MetalinkError::Schema),
                };
                let ghost before = file@;
                file.had_metaurl = true;
                assert(file@ =~= (FileView { had_metaurl: true, ..before }));
                self.current = Some(file);
                Ok(())
            },
            Kind::File => self.close_file(accepted, options, ranges),
            Kind::Files | Kind::Resources | Kind::Verification | Kind::Extension => Ok(()),
        }
    }

    fn declaration(&mut self, version: Option<String>, encoding: Option<Option<String>>) -> (r: Result<
        (),
        MetalinkError,
    >)
        ensures
            outcome(r, *final(self)) == declaration_read(
                old(self)@,
                text_view(version),
                match encoding {
                    Some(encoding) => Some(text_view(encoding)),
                    None => None,
                },
            ),
    {
        if self.declared || self.version != 0 || self.stack.len() > 0 {
            return Err(MetalinkError::Xml);
        }
        self.declared = true;
        match version {
            None => return Err(MetalinkError::Xml),
            Some(version) => {
                if !same_text(version.as_str(), "1.0") {
                    return Err(MetalinkError::Encoding);
                }
            },
        }
        match encoding {
            None => {},
            Some(None) => return Err(MetalinkError::Encoding),
            Some(Some(name)) => {
                if !text_same_but_case(name.as_str(), "UTF-8") {
                    return Err(MetalinkError::Encoding);
                }
            },
        }
        assert(self@ =~= (ParserView { declared: true, ..old(self)@ }));
        Ok(())
    }

    fn reference(&mut self, name: &str, value: Option<String>, options: &MetalinkOptions) -> (r: Result<
        (),
        MetalinkError,
    >)
        requires
            old(self)@.valid(*options),
        ensures
            outcome(r, *final(self)) == reference_read(old(self)@, name@, text_view(value)),
    {
        if name.len() > 32 {
            return Err(MetalinkError::Entity);
        }
        match value {
            Some(value) => self.text(value.as_str(), options),
            None => Err(MetalinkError::Entity),
        }
    }

    /// Finds what an event needs.
    fn find(&self, event: &XmlEvent, options: &MetalinkOptions) -> (r: XmlFindings)
        ensures
            collected(r@.attributes, r@.attributes.len() as int) == collected(
                found_in(self@, event@, *options).attributes,
                found_in(self@, event@, *options).attributes.len() as int,
            ),
            (FindingsView { attributes: found_in(self@, event@, *options).attributes, ..r@ }) == found_in(
                self@,
                event@,
                *options,
            ),
    {
        let none = XmlFindings { attributes: Vec::new(), url: None, value: None, version: None, encoding: None };
        assert(none@.attributes =~= Seq::empty());
        match event {
            XmlEvent::Start { attributes, .. } => {
                XmlFindings { attributes: find_attributes(attributes.as_str()), ..none }
            },
            XmlEvent::End => {
                if self.stack.len() == 0 {
                    return none;
                }
                let frame = &self.stack[self.stack.len() - 1];
                assert(self@.stack.last() == frame_view(self.stack@.last()));
                if frame.kind != Kind::Url {
                    return none;
                }
                XmlFindings { url: resolve(text_of(&trim_text(frame.text.as_str())).as_str(), options), ..none }
            },
            XmlEvent::Reference(name) => {
                let mut escaped = "&".to_owned();
                escaped.append(name.as_str());
                escaped.append(";");
                XmlFindings { value: unescape(escaped.as_str()), ..none }
            },
            XmlEvent::Declaration(text) => {
                let chars = chars_of(text.as_str());
                let said = if chars.len() < 3 {
                    String::new()
                } else {
                    text_of(&slice_chars(&chars, 3, chars.len()))
                };
                assert(said@ =~= behind_name(text@));
                let (version, encoding) = read_declaration(said.as_str());
                XmlFindings { version, encoding, ..none }
            },
            _ => none,
        }
    }

    /// Reads one event with what was found for it and what was answered.
    pub fn read(
        self,
        event: XmlEvent,
        found: XmlFindings,
        answer: MetalinkAnswer,
        options: &MetalinkOptions,
        limits: &MetalinkLimits,
        ranges: &Vec<OrderKey>,
    ) -> (r: Result<Self, MetalinkError>)
        requires
            self@.valid(*options),
        ensures
            match applied_with(self@, event@, found@, answer, *options, *limits, ranges@) {
                Ok(next) => r matches Ok(parser) && parser@ == next && next.valid(*options),
                Err(error) => r == Err::<Self, MetalinkError>(error),
            },
    {
        proof {
            lemma_applied_valid(self@, event@, found@, answer, *options, *limits, ranges@);
        }
        let mut parser = self;
        match parser.apply_found(event, found, answer, options, limits, ranges) {
            Ok(_) => Ok(parser),
            Err(error) => Err(error),
        }
    }

    /// Reads one event.
    fn apply(
        &mut self,
        event: XmlEvent,
        answer: MetalinkAnswer,
        options: &MetalinkOptions,
        limits: &MetalinkLimits,
        ranges: &Vec<OrderKey>,
    ) -> (r: Result<(), MetalinkError>)
        requires
            old(self)@.valid(*options),
        ensures
            outcome(r, *final(self)) == applied(old(self)@, event@, answer, *options, *limits, ranges@),
    {
        let found = self.find(&event, options);
        self.apply_found(event, found, answer, options, limits, ranges)
    }

    fn apply_found(
        &mut self,
        event: XmlEvent,
        found: XmlFindings,
        answer: MetalinkAnswer,
        options: &MetalinkOptions,
        limits: &MetalinkLimits,
        ranges: &Vec<OrderKey>,
    ) -> (r: Result<(), MetalinkError>)
        requires
            old(self)@.valid(*options),
        ensures
            outcome(r, *final(self)) == applied_with(
                old(self)@,
                event@,
                found@,
                answer,
                *options,
                *limits,
                ranges@,
            ),
    {
        match event {
            XmlEvent::Start { name, .. } => {
                let path = match answer {
                    MetalinkAnswer::Path(path) => path,
                    _ => None,
                };
                self.start(name.as_str(), &found.attributes, path, options, limits)
            },
            XmlEvent::End => self.end(found.url, answer, options, limits, ranges),
            XmlEvent::Text(text) | XmlEvent::CData(text) => {
                if text.as_str().len() > MAX_XML_TEXT_BYTES {
                    return Err(MetalinkError::Limit);
                }
                self.text(text.as_str(), options)
            },
            XmlEvent::Reference(name) => self.reference(name.as_str(), found.value, options),
            XmlEvent::DocType => Err(MetalinkError::Entity),
            XmlEvent::Declaration(_) => self.declaration(found.version, found.encoding),
            XmlEvent::Instruction => Err(MetalinkError::Xml),
            XmlEvent::Comment(bytes) => {
                if bytes > MAX_XML_TEXT_BYTES {
                    Err(MetalinkError::Limit)
                } else {
                    Ok(())
                }
            },
            XmlEvent::Eof | XmlEvent::Malformed => Err(MetalinkError::Xml),
        }
    }
}

/// Whether an attribute is one that a tag may hold.
pub open spec fn sound_attribute(found: Option<XmlAttributeView>) -> bool {
    found matches Some(found) && found.raw_bytes <= MAX_XML_ATTRIBUTE_BYTES && byte_len(found.key)
        <= MAX_XML_ATTRIBUTE_BYTES && found.value is Some
}

/// Whether the first `n` attributes of a tag may stand in one tag, their number aside.
pub open spec fn sound_attributes(found: Seq<Option<XmlAttributeView>>, n: int) -> bool {
    &&& forall|i: int| 0 <= i < n ==> sound_attribute(#[trigger] found[i])
    &&& forall|i: int, k: int|
        0 <= i < k < n ==> (#[trigger] found[i])->0.key != (#[trigger] found[k])->0.key
}

/// Sound attributes are all collected, as far as their number allows.
proof fn lemma_collected(found: Seq<Option<XmlAttributeView>>, n: int)
    requires
        0 <= n <= MAX_XML_ATTRIBUTES,
        sound_attributes(found, n),
    ensures
        collected(found, n) matches Ok(attrs) && attrs.len() == n && forall|i: int|
            0 <= i < n ==> (#[trigger] attrs[i]).0 == found[i]->0.key,
    decreases n,
{
    if n > 0 {
        lemma_collected(found, n - 1);
        let before = collected(found, n - 1)->Ok_0;
        assert(sound_attribute(found[n - 1]));
        let key = found[n - 1]->0.key;
        assert forall|i: int| 0 <= i < before.len() implies (#[trigger] before[i]).0 != key by {
            assert(found[i]->0.key != found[n - 1]->0.key);
        }
        lemma_attr_absent(before, key, 0);
    }
}

/// A key that no attribute has is bound to nothing.
proof fn lemma_attr_absent(attrs: Seq<Pair>, key: Seq<char>, from: int)
    requires
        0 <= from,
        forall|i: int| from <= i < attrs.len() ==> (#[trigger] attrs[i]).0 != key,
    ensures
        attr_from(attrs, key, from) is None,
    decreases attrs.len() - from,
{
    if from < attrs.len() {
        lemma_attr_absent(attrs, key, from + 1);
    }
}

/// A start tag goes one element deeper, and never beyond the deepest. A closed
/// document, or the deepest element, takes no more of them, and a tag with too many
/// attributes is refused wherever it stands, one of another namespace as well.
pub proof fn law_start_tags_keep_the_bounds(
    parser: ParserView,
    name: Seq<char>,
    found: Seq<Option<XmlAttributeView>>,
    path: Option<SafeRelativePath>,
    options: MetalinkOptions,
    limits: MetalinkLimits,
)
    requires
        parser.valid(options),
    ensures
        ({
            let step = started(parser, name, collected(found, found.len() as int), path, options, limits);
            let refused = Err::<ParserView, MetalinkError>(MetalinkError::Limit);
            &&& parser.closed || parser.stack.len() == MAX_XML_DEPTH ==> step == refused
            &&& found.len() > MAX_XML_ATTRIBUTES && sound_attributes(found, MAX_XML_ATTRIBUTES as int) ==> step
                == refused
            &&& step matches Ok(next) ==> next.stack.len() == parser.stack.len() + 1 && next.stack.len()
                <= MAX_XML_DEPTH
        }),
{
    if found.len() > MAX_XML_ATTRIBUTES && sound_attributes(found, MAX_XML_ATTRIBUTES as int) {
        lemma_collected(found, MAX_XML_ATTRIBUTES as int);
        lemma_collected_fault(found, MAX_XML_ATTRIBUTES + 1, found.len() as int);
    }
}

/// A parse within its limits stays within them: whatever is read and found, the
/// metadata it retains never exceeds its budget, nor its files and sources their
/// counts.
pub proof fn law_parse_keeps_its_limits(
    parser: ParserView,
    event: XmlEventView,
    found: FindingsView,
    answer: MetalinkAnswer,
    options: MetalinkOptions,
    limits: MetalinkLimits,
    ranges: Seq<OrderKey>,
)
    requires
        parser.valid(options),
    ensures
        applied_with(parser, event, found, answer, options, limits, ranges) matches Ok(next) ==> next.valid(options),
        applied(parser, event, answer, options, limits, ranges) matches Ok(next) ==> next.valid(options),
{
    lemma_applied_valid(parser, event, found, answer, options, limits, ranges);
    lemma_applied_valid(parser, event, found_in(parser, event, options), answer, options, limits, ranges);
}

/// An event keeps a parse valid.
proof fn lemma_applied_valid(
    parser: ParserView,
    event: XmlEventView,
    found: FindingsView,
    answer: MetalinkAnswer,
    options: MetalinkOptions,
    limits: MetalinkLimits,
    ranges: Seq<OrderKey>,
)
    requires
        parser.valid(options),
    ensures
        applied_with(parser, event, found, answer, options, limits, ranges) matches Ok(next) ==> next.valid(options),
{
    match event {
        XmlEventView::Start { name, .. } => {
            if let Ok(attrs) = collected(found.attributes, found.attributes.len() as int) {
                if let Ok((version, kind)) = tag_kind(parser, name, attrs) {
                    let base = ParserView { version, ..parser };
                    if let Ok(next) = opened(base, kind, attrs, answer.path(), options, limits) {
                        if let Some(file) = next.current {
                            assert(file.valid());
                        }
                        assert(next.valid(options));
                    }
                }
            }
        },
        XmlEventView::End => {
            lemma_ended_valid(parser, found.url, answer, options, limits, ranges);
        },
        _ => {},
    }
}

/// An end tag keeps a parse valid.
proof fn lemma_ended_valid(
    parser: ParserView,
    url: Option<UrlPartsView>,
    answer: MetalinkAnswer,
    options: MetalinkOptions,
    limits: MetalinkLimits,
    ranges: Seq<OrderKey>,
)
    requires
        parser.valid(options),
    ensures
        ended(parser, url, answer, options, limits, ranges) matches Ok(next) ==> next.valid(options),
{
    if parser.stack.len() > 0 {
        let frame = parser.stack.last();
        let rest = ParserView { stack: parser.stack.drop_last(), ..parser };
        assert(rest.valid(options));
        match (frame.kind, rest.current) {
            (Kind::Hash, Some(file)) => {
                if let Some(pieces) = file.current_pieces {
                    if let Some(digest) = answer.digest() {
                        if let Ok(grown) = with_piece(pieces, rest.version, frame.attrs, digest, limits) {
                            assert forall|k: u128| #[trigger]
                                grown.slots.contains_key(k) implies grown.slots[k] < grown.digests.len() by {
                                if pieces.slots.contains_key(k) {
                                    assert(pieces.slots[k] < pieces.digests.len());
                                }
                            }
                            assert(grown.valid());
                        }
                    }
                }
            },
            (Kind::Pieces, Some(file)) => {
                if let Some(pieces) = file.current_pieces {
                    assert(pieces.valid());
                    let grown = file.pieces.push(pieces);
                    assert forall|i: int| 0 <= i < grown.len() implies (#[trigger] grown[i]).valid() by {
                        if i < file.pieces.len() {
                            assert(file.pieces[i].valid());
                        }
                    }
                }
            },
            _ => {},
        }
    }
}

fn copy_manifest_question(file: &FileBuilder, options: &MetalinkOptions) -> (r: Option<MetalinkQuestion>)
    requires
        file@.valid(),
    ensures
        (match r {
            Some(q) => Some(q@),
            None => None,
        }) == (match crate::metalink_files::manifest_of(file@, *options) {
            Ok(manifest) => Some(QuestionView::Manifest(manifest)),
            Err(_) => None,
        }),
{
    match file_manifest(file, options) {
        Ok(manifest) => Some(MetalinkQuestion::Manifest(manifest)),
        Err(_) => None,
    }
}

impl Parser {
    /// What has to be answered before an end tag is read.
    fn ask_end(&self, options: &MetalinkOptions, limits: &MetalinkLimits) -> (r: Option<MetalinkQuestion>)
        requires
            self@.valid(*options),
            self@.stack.len() > 0,
        ensures
            (match r {
                Some(q) => Some(q@),
                None => None,
            }) == end_question(self@, *options, *limits),
    {
        let frame = &self.stack[self.stack.len() - 1];
        assert(self@.stack.last() == frame_view(self.stack@.last()));
        let file = match &self.current {
            Some(file) => file,
            None => return None,
        };
        match frame.kind {
            Kind::Hash => match algorithm_of_hash(file, &frame.attrs) {
                Ok(Some(algorithm)) => Some(
                    MetalinkQuestion::Digest { algorithm, text: text_of(&trim_text(frame.text.as_str())) },
                ),
                _ => None,
            },
            Kind::Url => {
                let text = text_of(&trim_text(frame.text.as_str()));
                if text.as_str().is_empty() || text.as_str().len() > 16384 {
                    return None;
                }
                match resolve(text.as_str(), options) {
                    Some(url) => match limits.protocols.parse(url.scheme.as_str()) {
                        Some(protocol) => {
                            if protocol.enabled {
                                Some(MetalinkQuestion::UriPath(url.path))
                            } else {
                                None
                            }
                        },
                        None => None,
                    },
                    None => None,
                }
            },
            Kind::File => copy_manifest_question(file, options),
            _ => None,
        }
    }

    /// What has to be answered before an event is read.
    fn ask(&self, event: &XmlEvent, options: &MetalinkOptions, limits: &MetalinkLimits) -> (r: Option<
        MetalinkQuestion,
    >)
        requires
            self@.valid(*options),
        ensures
            (match r {
                Some(q) => Some(q@),
                None => None,
            }) == question(self@, event@, *options, *limits),
    {
        match event {
            XmlEvent::Start { name, attributes } => {
                let attrs = match collect_attributes(&find_attributes(attributes.as_str())) {
                    Ok(attrs) => attrs,
                    Err(_) => return None,
                };
                match self.kind_of_tag(name.as_str(), &attrs) {
                    Ok((_, Kind::File)) => match find_attr(&attrs, "name") {
                        Some(path) => Some(MetalinkQuestion::Path(path.clone())),
                        None => None,
                    },
                    _ => None,
                }
            },
            XmlEvent::End => {
                if self.stack.len() == 0 {
                    None
                } else {
                    self.ask_end(options, limits)
                }
            },
            _ => None,
        }
    }

    /// What the document holds when it ends.
    pub fn conclude(self, ranges: &Vec<OrderKey>) -> (r: Result<MetalinkDocument, MetalinkError>)
        ensures
            match concluded(self@, ranges@) {
                Ok(parser) => r matches Ok(document) && document.holds(parser),
                Err(error) => r == Err::<MetalinkDocument, MetalinkError>(error),
            },
    {
        if !self.closed || self.stack.len() > 0 || self.current.is_some() {
            return Err(MetalinkError::Xml);
        }
        let mut i: usize = 0;
        while i < ranges.len()
            invariant
                i <= ranges.len(),
                self@.closed,
                self@.stack.len() == 0,
                self@.current is None,
                forall|k: int| 0 <= k < i ==> (#[trigger] ranges@[k]).position <= self@.count,
            decreases ranges.len() - i,
        {
            if ranges[i].position > self.count as u64 {
                return Err(MetalinkError::Selection);
            }
            i = i + 1;
        }
        if self.files.len() == 0 {
            return Err(MetalinkError::Selection);
        }
        Ok(MetalinkDocument { version: self.version, files: self.files, retained_bytes: self.retained })
    }
}

impl MetalinkDocument {
    /// Whether a document holds what a parse has read.
    pub open spec fn holds(self, parser: ParserView) -> bool {
        &&& self.version == parser.version
        &&& file_views(self.files@) == parser.files
        &&& self.retained_bytes == parser.retained
    }
}

/// A parse that waits for an answer.
pub struct MetalinkParser<'a> {
    options: &'a MetalinkOptions,
    limits: &'a MetalinkLimits,
    ranges: Vec<OrderKey>,
    reader: quick_xml::Reader<&'a [u8]>,
    pending: XmlEvent,
    parser: Parser,
}

/// What a parse came to: an open question, or the document.
pub enum MetalinkProgress<'a> {
    Asks(MetalinkParser<'a>, MetalinkQuestion),
    Done(MetalinkDocument),
}

impl<'a> MetalinkParser<'a> {
    pub closed spec fn spec_options(self) -> MetalinkOptions {
        *self.options
    }

    pub closed spec fn spec_limits(self) -> MetalinkLimits {
        *self.limits
    }

    pub closed spec fn spec_ranges(self) -> Seq<OrderKey> {
        self.ranges@
    }

    /// What the parse has read.
    pub closed spec fn state(self) -> ParserView {
        self.parser@
    }

    /// The events left, from the one that waits for the answer on.
    pub closed spec fn events(self) -> Seq<XmlEventView> {
        seq![self.pending@] + pending_events(self.reader)
    }

    /// The parse is valid, and an event waits.
    pub closed spec fn waits(self) -> bool {
        &&& self.parser@.valid(*self.options)
        &&& pending_events(self.reader).len() > 0
        &&& !(self.pending is Eof) && !(self.pending is Malformed)
    }

    /// Answers the open question and reads on.
    pub fn answer(self, answer: MetalinkAnswer) -> (r: Result<MetalinkProgress<'a>, MetalinkError>)
        requires
            self.waits(),
        ensures
            follows(
                r,
                resumed(
                    self.state(),
                    self.events(),
                    answer,
                    self.spec_options(),
                    self.spec_limits(),
                    self.spec_ranges(),
                ),
                self.spec_options(),
                self.spec_limits(),
                self.spec_ranges(),
            ),
    {
        let ghost events = self.events();
        let ghost before = self.parser@;
        let mut parser = self.parser;
        let ghost event = self.pending@;
        assert(events.drop_first() =~= pending_events(self.reader));
        assert(events[0] == event);
        match parser.apply(self.pending, answer, self.options, self.limits, &self.ranges) {
            Ok(_) => {},
            Err(error) => return Err(error),
        }
        proof {
            let found = found_in(before, event, *self.options);
            lemma_applied_valid(before, event, found, answer, *self.options, *self.limits, self.ranges@);
        }
        drive(self.options, self.limits, self.ranges, self.reader, parser)
    }
}

/// Whether a result is the one that a course leads to.
pub open spec fn follows<'a>(
    r: Result<MetalinkProgress<'a>, MetalinkError>,
    course: Course,
    options: MetalinkOptions,
    limits: MetalinkLimits,
    ranges: Seq<OrderKey>,
) -> bool {
    match (course, r) {
        (Course::Fault { error }, Err(found)) => found == error,
        (Course::Done { parser }, Ok(MetalinkProgress::Done(document))) => document.holds(parser),
        (Course::Asks { parser, events, question }, Ok(MetalinkProgress::Asks(waiting, asked))) => {
            &&& asked@ == question
            &&& waiting.waits()
            &&& waiting.state() == parser
            &&& waiting.events() == events
            &&& waiting.spec_options() == options
            &&& waiting.spec_limits() == limits
            &&& waiting.spec_ranges() == ranges
        },
        _ => false,
    }
}

/// Reads events until one needs an answer or the document ends.
fn drive<'a>(
    options: &'a MetalinkOptions,
    limits: &'a MetalinkLimits,
    ranges: Vec<OrderKey>,
    reader: quick_xml::Reader<&'a [u8]>,
    parser: Parser,
) -> (r: Result<MetalinkProgress<'a>, MetalinkError>)
    requires
        parser@.valid(*options),
        pending_events(reader).len() > 0,
    ensures
        follows(
            r,
            course(parser@, pending_events(reader), *options, *limits, ranges@),
            *options,
            *limits,
            ranges@,
        ),
{
    let ghost goal = course(parser@, pending_events(reader), *options, *limits, ranges@);
    let mut now = parser;
    let mut source = reader;
    loop
        invariant
            now@.valid(*options),
            pending_events(source).len() > 0,
            goal == course(parser@, pending_events(reader), *options, *limits, ranges@),
            goal == course(now@, pending_events(source), *options, *limits, ranges@),
        decreases pending_events(source).len(),
    {
        let ghost events = pending_events(source);
        let event = next_event(&mut source);
        match &event {
            XmlEvent::Malformed => return Err(MetalinkError::Xml),
            XmlEvent::Eof => {
                return match now.conclude(&ranges) {
                    Ok(document) => Ok(MetalinkProgress::Done(document)),
                    Err(error) => Err(error),
                };
            },
            _ => {},
        }
        if let Some(asked) = now.ask(&event, options, limits) {
            let waiting = MetalinkParser {
                options,
                limits,
                ranges,
                reader: source,
                pending: event,
                parser: now,
            };
            assert(waiting.events() =~= events);
            return Ok(MetalinkProgress::Asks(waiting, asked));
        }
        let ghost before = now@;
        let ghost read = event@;
        match now.apply(event, MetalinkAnswer::Nothing, options, limits, &ranges) {
            Ok(_) => {},
            Err(error) => return Err(error),
        }
        proof {
            let found = found_in(before, read, *options);
            lemma_applied_valid(before, read, found, MetalinkAnswer::Nothing, *options, *limits, ranges@);
        }
    }
}

/// Why a document is refused before any of it is read.
pub open spec fn opening_fault(
    bytes: Seq<u8>,
    options: MetalinkOptions,
    limits: MetalinkLimits,
) -> Option<MetalinkError> {
    let text = decode_utf8(bytes);
    if !options_fit(options, limits) || bytes.len() > options.max_document_bytes {
        Some(MetalinkError::Limit)
    } else if !valid_utf8(bytes) {
        Some(MetalinkError::Encoding)
    } else if exists|i: int| 0 <= i < text.len() && !xml_char(#[trigger] text[i]) {
        Some(MetalinkError::Xml)
    } else if !base_usable(text_view(options.base_uri), limits) {
        Some(MetalinkError::InvalidSource)
    } else {
        match selection(text_view(options.select_file)) {
            Err(error) => Some(error),
            Ok(_) => None,
        }
    }
}

fn allowed_in_xml(c: char) -> (r: bool)
    ensures
        r == xml_char(c),
{
    c != '\0' && (c >= ' ' || c == '\t' || c == '\r' || c == '\n') && c != '\u{fffe}' && c != '\u{ffff}'
}

fn is_base_usable(options: &MetalinkOptions, limits: &MetalinkLimits) -> (r: bool)
    ensures
        r == base_usable(text_view(options.base_uri), *limits),
{
    let base = match &options.base_uri {
        Some(base) => base,
        None => return true,
    };
    match parse_url(base.as_str()) {
        Ok(url) => match limits.protocols.parse(url.scheme.as_str()) {
            Some(protocol) => protocol.http,
            None => false,
        },
        Err(_) => false,
    }
}

/// Opens a Metalink document and reads it up to the first question.
pub fn parse_metalink<'a>(bytes: &'a [u8], options: &'a MetalinkOptions, limits: &'a MetalinkLimits) -> (r: Result<
    MetalinkProgress<'a>,
    MetalinkError,
>)
    ensures
        match opening_fault(bytes@, *options, *limits) {
            Some(error) => r is Err && r->Err_0 == error,
            None => follows(
                r,
                course(
                    fresh_parser(),
                    document_events(decode_utf8(bytes@)),
                    *options,
                    *limits,
                    selection(text_view(options.select_file))->Ok_0,
                ),
                *options,
                *limits,
                selection(text_view(options.select_file))->Ok_0,
            ),
        },
{
    if options.max_document_bytes == 0 || options.max_document_bytes > limits.max_document_bytes
        || options.max_files == 0 || options.max_files > MAX_METALINK_FILES || options.max_sources == 0
        || options.max_sources > MAX_METALINK_SOURCES || options.metadata_bytes == 0 || options.metadata_bytes
        > METALINK_DOCUMENT_BYTES || options.default_chunk_length == 0 || options.default_chunk_length
        > limits.max_piece_length || bytes.len() > options.max_document_bytes {
        return Err(MetalinkError::Limit);
    }
    let text = match utf8_text(bytes) {
        Some(text) => text,
        None => return Err(MetalinkError::Encoding),
    };
    let ghost chars = decode_utf8(bytes@);
    for c in iter: text.chars()
        invariant
            chars == decode_utf8(bytes@),
            text@ == chars,
            iter.seq() == chars,
            valid_utf8(bytes@),
            options_fit(*options, *limits),
            bytes@.len() <= options.max_document_bytes,
            forall|k: int| 0 <= k < iter.index() ==> xml_char(#[trigger] chars[k]),
    {
        if !allowed_in_xml(c) {
            assert(!xml_char(chars[iter.index() as int]));
            return Err(MetalinkError::Xml);
        }
    }
    if !is_base_usable(options, limits) {
        return Err(MetalinkError::InvalidSource);
    }
    let selected = match &options.select_file {
        Some(selected) => Some(selected.as_str()),
        None => None,
    };
    let ranges = match parse_selection(selected) {
        Ok(ranges) => ranges,
        Err(error) => return Err(error),
    };
    let reader = open_document(text);
    drive(options, limits, ranges, reader, Parser::new())
}

} // verus!
