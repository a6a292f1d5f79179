//! Laws of Metalink documents: what their elements are, and what their texts and attributes
//! say of a file.
use vstd::prelude::*;
use crate::metalink_files::{finished_file, FileView};
use crate::metalink_spec::{
    attr, attr_from, binding, child_kind, collected, collides, ended, local_of, namespace_key, next_path, opened_file,
    opened_pieces, prefix_of, root_version, tag_kind, texted, Kind, MetalinkAnswer, Pair, ParserView,
};
use crate::metalink_types::{
    DigestAlgorithm, MetalinkError, MetalinkLimits, MetalinkOptions, SafeRelativePath,
};
use crate::order::OrderKey;
use crate::text::{decimal_digits, has_prefix, law_decimal_round_trip, lowercased, trimmed};
use crate::xml::XmlAttributeView;

verus! {

/// An element is what its name makes it at the place where it stands: of version 3 the files
/// stand together, and so do a file's mirrors and its checksums; of version 4 each stands in its
/// file. All else is an extension.
pub proof fn law_elements_are_known_by_name_and_place(version: u8, parent: Kind, local: Seq<char>)
    requires
        version == 3 || version == 4,
    ensures
        ({
            let kind = child_kind(version, parent, local);
            &&& kind is Files <==> version == 3 && parent is Root && local == "files"@
            &&& kind is File <==> local == "file"@ && (if version == 3 {
                parent is Files
            } else {
                parent is Root
            })
            &&& kind is Resources <==> version == 3 && parent is File && local == "resources"@
            &&& kind is Verification <==> version == 3 && parent is File && local == "verification"@
            &&& kind is Size <==> parent is File && local == "size"@
            &&& kind is Language <==> parent is File && local == "language"@
            &&& kind is Os <==> parent is File && local == "os"@
            &&& kind is Version <==> parent is File && local == "version"@
            &&& kind is Metaurl <==> parent is File && local == "metaurl"@
            &&& kind is Url <==> local == "url"@ && (parent is Resources || (version == 4 && parent is File))
            &&& kind is Hash <==> local == "hash"@ && (parent is Verification || parent is Pieces || (version == 4
                && parent is File))
            &&& kind is Pieces <==> local == "pieces"@ && (parent is Verification || (version == 4 && parent is File))
            &&& !(kind is Root)
        }),
{
    reveal_strlit("files");
    reveal_strlit("file");
    reveal_strlit("resources");
    reveal_strlit("verification");
    reveal_strlit("size");
    reveal_strlit("language");
    reveal_strlit("os");
    reveal_strlit("version");
    reveal_strlit("url");
    reveal_strlit("hash");
    reveal_strlit("pieces");
    reveal_strlit("metaurl");
    assert("files"@.len() == 5);
    assert("file"@.len() == 4 && "file"@[0] == 'f');
    assert("resources"@.len() == 9);
    assert("verification"@.len() == 12);
    assert("size"@.len() == 4 && "size"@[0] == 's');
    assert("language"@.len() == 8);
    assert("os"@.len() == 2);
    assert("version"@.len() == 7 && "version"@[0] == 'v');
    assert("url"@.len() == 3);
    assert("hash"@.len() == 4 && "hash"@[0] == 'h');
    assert("pieces"@.len() == 6);
    assert("metaurl"@.len() == 7 && "metaurl"@[0] == 'm');
}

/// The version of a document goes by the namespace of its root.
pub proof fn law_the_namespace_tells_the_version(local: Seq<char>, namespace: Seq<char>, attrs: Seq<Pair>)
    ensures
        root_version(local, namespace, attrs) == Some(4u8) <==> local == "metalink"@ && namespace
            == "urn:ietf:params:xml:ns:metalink"@,
        root_version(local, namespace, attrs) == Some(3u8) <==> local == "metalink"@ && namespace
            == "http://www.metalinker.org/"@ && (attr(attrs, "version"@) is None || attr(attrs, "version"@) == Some(
            "3.0"@,
        )),
        root_version(local, namespace, attrs) matches Some(version) ==> version == 3 || version == 4,
{
    reveal_strlit("urn:ietf:params:xml:ns:metalink");
    reveal_strlit("http://www.metalinker.org/");
    assert("urn:ietf:params:xml:ns:metalink"@.len() == 31);
    assert("http://www.metalinker.org/"@.len() == 26);
}

/// What prefix an element has does not matter, only the namespace that the prefix stands
/// for.
pub proof fn law_prefixes_stand_for_their_namespaces(
    parser: ParserView,
    name: Seq<char>,
    attrs: Seq<Pair>,
    other: Seq<char>,
    others: Seq<Pair>,
)
    requires
        parser.stack.len() > 0,
        local_of(name) == local_of(other),
        binding(attrs, parser.stack, namespace_key(prefix_of(name))) is Some,
        binding(attrs, parser.stack, namespace_key(prefix_of(name))) == binding(
            others,
            parser.stack,
            namespace_key(prefix_of(other)),
        ),
    ensures
        tag_kind(parser, name, attrs) == tag_kind(parser, other, others),
{
}

/// An element of another namespace is an extension, whatever its name.
pub proof fn law_other_namespaces_are_extensions(parser: ParserView, name: Seq<char>, attrs: Seq<Pair>)
    requires
        parser.stack.len() > 0,
        parser.version == 3 || parser.version == 4,
        tag_kind(parser, name, attrs) is Ok,
        binding(attrs, parser.stack, namespace_key(prefix_of(name))) != Some(
            if parser.version == 3 {
                "http://www.metalinker.org/"@
            } else {
                "urn:ietf:params:xml:ns:metalink"@
            },
        ),
    ensures
        tag_kind(parser, name, attrs) == Ok::<(u8, Kind), MetalinkError>((parser.version, Kind::Extension)),
{
    reveal_strlit("");
    reveal_strlit("urn:ietf:params:xml:ns:metalink");
    reveal_strlit("http://www.metalinker.org/");
    assert(""@.len() == 0);
    assert("urn:ietf:params:xml:ns:metalink"@.len() == 31);
    assert("http://www.metalinker.org/"@.len() == 26);
}

/// What a file says of its languages, its systems and its version is kept under that very head, in
/// the order in which it is said.
pub proof fn law_descriptions_are_kept_as_given(
    parser: ParserView,
    options: MetalinkOptions,
    limits: MetalinkLimits,
    ranges: Seq<OrderKey>,
    next: ParserView,
)
    requires
        parser.stack.len() > 0,
        parser.current is Some,
        ended(parser, None, MetalinkAnswer::Nothing, options, limits, ranges) == Ok::<ParserView, MetalinkError>(next),
    ensures
        ({
            let kind = parser.stack.last().kind;
            let text = trimmed(parser.stack.last().text);
            let before = parser.current->0;
            &&& kind is Language ==> next.current == Some(FileView { language: before.language.push(text), ..before })
            &&& kind is Os ==> next.current == Some(FileView { os: before.os.push(text), ..before })
            &&& kind is Version ==> next.current == Some(FileView { version: Some(text), ..before }) && before.version
                is None
            &&& kind is Metaurl ==> next.current == Some(FileView { had_metaurl: true, ..before })
            &&& kind is Pieces ==> before.current_pieces is Some && next.current == Some(
                FileView {
                    pieces: before.pieces.push(before.current_pieces->0),
                    current_pieces: None,
                    ..before
                },
            )
            &&& kind is Root ==> next.closed
            &&& kind is Extension || kind is Files || kind is Resources || kind is Verification ==> next.current
                == parser.current && next.files == parser.files
            &&& next.stack == parser.stack.drop_last()
        }),
{
    if parser.stack.last().kind is File {
        lemma_closed_stack(parser, options, limits, ranges, next);
    }
}

proof fn lemma_closed_stack(
    parser: ParserView,
    options: MetalinkOptions,
    limits: MetalinkLimits,
    ranges: Seq<OrderKey>,
    next: ParserView,
)
    requires
        parser.stack.len() > 0,
        parser.stack.last().kind is File,
        ended(parser, None, MetalinkAnswer::Nothing, options, limits, ranges) == Ok::<ParserView, MetalinkError>(next),
    ensures
        next.stack == parser.stack.drop_last(),
{
}

/// A file that ends joins the files behind those before it, unless it is left out; then
/// no file is open.
pub proof fn law_ended_files_join_the_others(
    parser: ParserView,
    accepted: bool,
    options: MetalinkOptions,
    limits: MetalinkLimits,
    ranges: Seq<OrderKey>,
    next: ParserView,
)
    requires
        parser.stack.len() > 0,
        parser.stack.last().kind is File,
        ended(parser, None, MetalinkAnswer::Accepted(accepted), options, limits, ranges) == Ok::<
            ParserView,
            MetalinkError,
        >(next),
    ensures
        parser.current is Some,
        next.current is None,
        ({
            let done = finished_file(parser.current->0, options, ranges, accepted);
            &&& done is Ok
            &&& done->Ok_0 matches Some(file) ==> next.files == parser.files.push(file)
            &&& done->Ok_0 is None ==> next.files == parser.files
        }),
{
}

/// Text that comes in parts is kept whole, in its order.
pub proof fn law_texts_add_up(parser: ParserView, a: Seq<char>, b: Seq<char>, middle: ParserView, last: ParserView)
    requires
        parser.stack.len() > 0,
        parser.stack.last().kind.spec_text(),
        texted(parser, a) == Ok::<ParserView, MetalinkError>(middle),
        texted(middle, b) == Ok::<ParserView, MetalinkError>(last),
    ensures
        last.stack.len() == parser.stack.len(),
        last.stack.last().text == parser.stack.last().text + a + b,
        last.stack.last().kind == parser.stack.last().kind,
        last.stack.last().attrs == parser.stack.last().attrs,
        last.current == parser.current,
        last.files == parser.files,
{
}

/// Files are numbered from one on as they stand, each begins empty under the name that it is given, and
/// none has a name that was given before.
pub proof fn law_files_are_numbered_as_they_stand(
    parser: ParserView,
    attrs: Seq<Pair>,
    path: Option<SafeRelativePath>,
    options: MetalinkOptions,
    next: ParserView,
)
    requires
        opened_file(parser, attrs, path, options) == Ok::<ParserView, MetalinkError>(next),
        parser.count < u32::MAX,
    ensures
        parser.current is None,
        next.count == parser.count + 1,
        next.count <= options.max_files,
        path is Some,
        next.current matches Some(file) && file.index == next.count && Some(file.name) == path && file.size is None
            && file.sources.len() == 0 && file.whole.len() == 0 && file.pieces.len() == 0 && file.language.len() == 0
            && file.os.len() == 0 && file.version is None && file.current_pieces is None && !file.had_checksum,
        next.files == parser.files,
        next.retained <= options.metadata_bytes,
        !parser.paths.contains(lowercased(path->0.canonical@)),
        next.paths == parser.paths.push(lowercased(path->0.canonical@)),
{
}

/// The path that follows a key is one of them.
proof fn lemma_next_path(paths: Seq<Seq<char>>, key: Seq<char>, n: int)
    requires
        0 <= n <= paths.len(),
    ensures
        next_path(paths, key, n) matches Some(next) ==> exists|i: int| 0 <= i < n && paths[i] == next,
    decreases n,
{
    if n > 0 {
        lemma_next_path(paths, key, n - 1);
        if let Some(next) = next_path(paths, key, n) {
            if next_path(paths, key, n - 1) == Some(next) {
                let i = choose|i: int| 0 <= i < n - 1 && paths[i] == next;
                assert(0 <= i < n && paths[i] == next);
            } else {
                assert(paths[n - 1] == next);
            }
        }
    }
}

/// A name collides only where it was given before, or where one of the two names a directory of the
/// other; and always where it was given before, or names a file in what was given as a
/// file.
pub proof fn law_names_collide_where_one_holds_the_other(paths: Seq<Seq<char>>, key: Seq<char>)
    ensures
        collides(paths, key) ==> exists|k: int|
            0 <= k < paths.len() && {
                ||| #[trigger] paths[k] == key
                ||| has_prefix(paths[k], key + "/"@)
                ||| has_prefix(key, paths[k] + "/"@)
            },
        forall|k: int|
            0 <= k < paths.len() && (#[trigger] paths[k] == key || has_prefix(key, paths[k] + "/"@)) ==> collides(
                paths,
                key,
            ),
{
    reveal_strlit("/");
    assert("/"@ =~= seq!['/']);
    lemma_next_path(paths, key, paths.len() as int);
    if collides(paths, key) {
        if paths.contains(key) {
            let k = paths.index_of(key);
            assert(paths[k] == key);
        } else if exists|i: int| 0 <= i < key.len() && #[trigger] key[i] == '/' && paths.contains(key.subrange(0, i)) {
            let i = choose|i: int| 0 <= i < key.len() && #[trigger] key[i] == '/' && paths.contains(key.subrange(0, i));
            let k = paths.index_of(key.subrange(0, i));
            assert(paths[k] == key.subrange(0, i));
            assert(key.subrange(0, i + 1) =~= paths[k] + "/"@);
            assert(has_prefix(key, paths[k] + "/"@));
        } else {
            let next = next_path(paths, key, paths.len() as int)->0;
            let k = choose|k: int| 0 <= k < paths.len() && paths[k] == next;
            assert(has_prefix(paths[k], key + "/"@));
        }
    }
    assert forall|k: int|
        0 <= k < paths.len() && (#[trigger] paths[k] == key || has_prefix(key, paths[k] + "/"@)) implies collides(
        paths,
        key,
    ) by {
        if paths[k] == key {
            assert(paths.contains(key));
        } else {
            let i = paths[k].len() as int;
            let whole = paths[k] + "/"@;
            assert(key.subrange(0, whole.len() as int) == whole);
            assert(key.subrange(0, whole.len() as int)[i] == '/');
            assert(key[i] == '/');
            assert(key.subrange(0, i) =~= paths[k]) by {
                assert forall|j: int| 0 <= j < i implies key[j] == paths[k][j] by {
                    assert(key.subrange(0, whole.len() as int)[j] == whole[j]);
                }
            }
            assert(paths.contains(key.subrange(0, i)));
        }
    }
}

/// Pieces have the length and the algorithm that the document gives for them.
pub proof fn law_pieces_begin_as_given(
    parser: ParserView,
    attrs: Seq<Pair>,
    limits: MetalinkLimits,
    length: u64,
    next: ParserView,
)
    requires
        opened_pieces(parser, attrs, limits) == Ok::<ParserView, MetalinkError>(next),
        attr(attrs, "length"@) == Some(decimal_digits(length as nat)),
    ensures
        0 < length <= limits.max_piece_length,
        attr(attrs, "type"@) is Some,
        next.current is Some,
        next.current->0.current_pieces matches Some(pieces) && pieces.length == length && pieces.digests.len() == 0
            && pieces.slots == Map::<u128, usize>::empty() && ({
            let name = attr(attrs, "type"@)->0;
            &&& name == "sha-256"@ || name == "sha256"@ ==> pieces.algorithm == Some(DigestAlgorithm::Sha256)
            &&& name == "sha-512"@ || name == "sha512"@ ==> pieces.algorithm == Some(DigestAlgorithm::Sha512)
            &&& name == "sha-1"@ || name == "sha1"@ ==> pieces.algorithm == Some(DigestAlgorithm::Sha1)
            &&& name == "md5"@ ==> pieces.algorithm == Some(DigestAlgorithm::Md5)
        }),
        next.current->0.had_pieces,
{
    law_decimal_round_trip(length as nat, u64::MAX as int);
    reveal_strlit("sha-512");
    reveal_strlit("sha512");
    reveal_strlit("sha-256");
    reveal_strlit("sha256");
    reveal_strlit("sha-1");
    reveal_strlit("sha1");
    reveal_strlit("md5");
    assert("sha-512"@.len() == 7 && "sha-512"@[4] == '5');
    assert("sha512"@.len() == 6 && "sha512"@[3] == '5');
    assert("sha-256"@.len() == 7 && "sha-256"@[4] == '2');
    assert("sha256"@.len() == 6 && "sha256"@[3] == '2');
    assert("sha-1"@.len() == 5);
    assert("sha1"@.len() == 4);
    assert("md5"@.len() == 3);
}

/// Whether an attribute is read as it stands.
pub open spec fn reads(raw: Option<XmlAttributeView>, pair: Pair) -> bool {
    raw matches Some(found) && found.key == pair.0 && found.value == Some(pair.1)
}

/// Attributes are read in their order, each under its own name, and none twice.
pub proof fn law_attributes_are_read_once(raw: Seq<Option<XmlAttributeView>>, n: int, pairs: Seq<Pair>)
    requires
        0 <= n <= raw.len(),
        collected(raw, n) == Ok::<Seq<Pair>, MetalinkError>(pairs),
    ensures
        pairs.len() == n,
        forall|i: int| 0 <= i < n ==> reads(raw[i], #[trigger] pairs[i]),
        forall|i: int| 0 <= i < n ==> attr(pairs, (#[trigger] pairs[i]).0) == Some(pairs[i].1),
    decreases n,
{
    if n > 0 {
        let before = collected(raw, n - 1)->Ok_0;
        law_attributes_are_read_once(raw, n - 1, before);
        assert(pairs == before.push((raw[n - 1]->0.key, raw[n - 1]->0.value->0)));
        assert forall|i: int| 0 <= i < n implies reads(raw[i], #[trigger] pairs[i]) by {
            if i < n - 1 {
                assert(pairs[i] == before[i]);
            } else {
                assert(pairs[i] == (raw[i]->0.key, raw[i]->0.value->0));
            }
        }
        assert forall|i: int| 0 <= i < n implies attr(pairs, (#[trigger] pairs[i]).0) == Some(pairs[i].1) by {
            if i < n - 1 {
                assert(pairs[i] == before[i]);
                lemma_attr_kept(before, pairs[n - 1], pairs[i].0, 0);
            } else {
                lemma_attr_new(before, pairs[n - 1], 0);
            }
        }
    }
}

proof fn lemma_attr_kept(attrs: Seq<Pair>, pair: Pair, key: Seq<char>, from: int)
    requires
        0 <= from <= attrs.len(),
        attr_from(attrs, key, from) is Some,
    ensures
        attr_from(attrs.push(pair), key, from) == attr_from(attrs, key, from),
    decreases attrs.len() - from,
{
    if from < attrs.len() {
        assert(attrs.push(pair)[from] == attrs[from]);
        if attrs[from].0 != key {
            lemma_attr_kept(attrs, pair, key, from + 1);
        }
    }
}

proof fn lemma_attr_new(attrs: Seq<Pair>, pair: Pair, from: int)
    requires
        0 <= from <= attrs.len(),
        attr_from(attrs, pair.0, from) is None,
    ensures
        attr_from(attrs.push(pair), pair.0, from) == Some(pair.1),
    decreases attrs.len() - from,
{
    if from < attrs.len() {
        assert(attrs.push(pair)[from] == attrs[from]);
        lemma_attr_new(attrs, pair, from + 1);
    } else {
        assert(attrs.push(pair)[from] == pair);
    }
}

} // verus!
