//! Laws of Metalink documents: what becomes of the digests and the sources of a file.
use vstd::prelude::*;
use crate::metalink_files::{
    finished_file, kept_sources, manifest_of, numbered, ranked_sources, source_key, source_keys, strongest,
    strongest_whole, FileView, PiecesView, WholeDigest,
};
use crate::metalink_selection::{range_of, ranges_of, selection, wanted};
use crate::metalink_spec::{attr, ended, whole_of, MetalinkAnswer, ParserView};
use crate::metalink_types::{
    Digest, DigestAlgorithm, MetalinkError, MetalinkFileView, MetalinkLimits, MetalinkOptions, SourceView,
    MAX_METALINK_FILES,
};
use crate::order::{key_le, key_order, lemma_sorted_keys, sorted_keys, OrderKey};
use crate::protocols::row_of;
use crate::text::{
    char_from, decimal_digits, law_decimal_round_trip, lemma_decimal_digits, parsed_signed, parsed_unsigned, parts,
    same_but_case, trimmed,
};
use crate::urls::UrlPartsView;
use crate::xml::text_view;

verus! {

/// Whether an algorithm is no weaker than another, from MD5 over SHA-1 and SHA-256 to
/// SHA-512.
pub open spec fn no_weaker(a: DigestAlgorithm, b: DigestAlgorithm) -> bool {
    match b {
        DigestAlgorithm::Md5 => true,
        DigestAlgorithm::Sha1 => !(a is Md5),
        DigestAlgorithm::Sha256 => a is Sha256 || a is Sha512,
        DigestAlgorithm::Sha512 => a is Sha512,
    }
}

/// The strongest whole-file digest is one of them, and no weaker than any.
proof fn lemma_strongest_whole(whole: Seq<WholeDigest>, n: int)
    requires
        0 <= n <= whole.len(),
    ensures
        n > 0 <==> strongest_whole(whole, n) is Some,
        strongest_whole(whole, n) matches Some(best) ==> (exists|i: int| 0 <= i < n && #[trigger] whole[i] == best) && (
        forall|i: int| 0 <= i < n ==> no_weaker(best.algorithm, (#[trigger] whole[i]).algorithm)),
    decreases n,
{
    if n > 0 {
        lemma_strongest_whole(whole, n - 1);
        let best = strongest_whole(whole, n)->0;
        if n - 1 > 0 && best == strongest_whole(whole, n - 1)->0 {
            let i = choose|i: int| 0 <= i < n - 1 && #[trigger] whole[i] == best;
            assert(whole[i] == best);
        } else {
            assert(whole[n - 1] == best);
        }
    }
}

/// The strongest complete piece hashes are complete, and no weaker than any complete
/// ones; where there are none, none are complete.
proof fn lemma_strongest_pieces(pieces: Seq<PiecesView>, total: u64, n: int)
    requires
        0 <= n <= pieces.len(),
    ensures
        strongest(pieces, total, n) matches Ok(Some(b)) ==> 0 <= b < n && pieces[b].algorithm is Some
            && pieces[b].complete(total) && forall|i: int|
            0 <= i < n && (#[trigger] pieces[i]).algorithm is Some && pieces[i].complete(total) ==> no_weaker(
                pieces[b].algorithm->0,
                pieces[i].algorithm->0,
            ),
        strongest(pieces, total, n) == Ok::<Option<int>, MetalinkError>(None) ==> forall|i: int|
            0 <= i < n && (#[trigger] pieces[i]).algorithm is Some ==> !pieces[i].complete(total),
        strongest(pieces, total, n) is Ok ==> forall|i: int, j: int|
            0 <= i < j < n && (#[trigger] pieces[i]).algorithm is Some ==> pieces[i].algorithm != (
            #[trigger] pieces[j]).algorithm,
    decreases n,
{
    if n > 0 {
        lemma_strongest_pieces(pieces, total, n - 1);
        if strongest(pieces, total, n) is Ok {
            assert forall|i: int, j: int| 0 <= i < j < n && (#[trigger] pieces[i]).algorithm is Some implies pieces[i].algorithm
                != (#[trigger] pieces[j]).algorithm by {
                if j == n - 1 && pieces[i].algorithm == pieces[j].algorithm {
                    assert(crate::metalink_files::has_algorithm(pieces, pieces[j].algorithm->0, n - 1));
                }
            }
        }
    }
}

/// A file is checked against the strongest of what the document gives for it. The
/// whole-file digest is of an algorithm no weaker than that of any other that was
/// given, and the caller's own digest is added to it; nothing else is. The chunks are
/// those of the strongest complete piece hashes, each at the place of its piece, and
/// they cover the file.
pub proof fn law_the_strongest_digests_are_kept(file: FileView, options: MetalinkOptions)
    requires
        file.valid(),
        manifest_of(file, options) is Ok,
    ensures
        ({
            let manifest = manifest_of(file, options)->Ok_0;
            let given = file.whole.len() > 0;
            &&& file.size == Some(manifest.total)
            // The digests of the whole file.
            &&& given ==> manifest.whole.len() > 0 && exists|i: int|
                0 <= i < file.whole.len() && (#[trigger] file.whole[i]).digest == manifest.whole[0] && forall|j: int|
                    0 <= j < file.whole.len() ==> no_weaker(file.whole[i].algorithm, (#[trigger] file.whole[j]).algorithm)
            &&& options.user_checksum matches Some(user) ==> manifest.whole.contains(user)
            &&& forall|k: int|
                0 <= k < manifest.whole.len() && (k > 0 || !given) ==> options.user_checksum == Some(
                    #[trigger] manifest.whole[k],
                )
            &&& manifest.whole.no_duplicates()
        }),
        ({
            let manifest = manifest_of(file, options)->Ok_0;
            // The digests of the pieces.
            ||| {
                &&& manifest.chunks.len() == 0
                &&& manifest.length == options.default_chunk_length
                &&& !file.had_pieces
                &&& forall|i: int|
                    0 <= i < file.pieces.len() && (#[trigger] file.pieces[i]).algorithm is Some
                        ==> !file.pieces[i].complete(manifest.total)
            }
            ||| exists|b: int|
                {
                    &&& 0 <= b < file.pieces.len()
                    &&& (#[trigger] file.pieces[b]).algorithm is Some
                    &&& manifest.length == file.pieces[b].length
                    &&& manifest.chunks.len() == file.pieces[b].digests.len()
                    &&& manifest.chunks.len() * manifest.length >= manifest.total
                    &&& manifest.chunks.len() > 0 ==> (manifest.chunks.len() - 1) * manifest.length < manifest.total
                    &&& forall|i: int|
                        0 <= i < manifest.chunks.len() ==> file.pieces[b].slots.contains_key(i as u128)
                            && #[trigger] manifest.chunks[i] == file.pieces[b].digests[file.pieces[b].slots[i as u128] as int]
                    &&& forall|i: int|
                        0 <= i < file.pieces.len() && (#[trigger] file.pieces[i]).algorithm is Some
                            && file.pieces[i].complete(manifest.total) ==> no_weaker(
                            file.pieces[b].algorithm->0,
                            file.pieces[i].algorithm->0,
                        )
                }
        }),
{
    let manifest = manifest_of(file, options)->Ok_0;
    let total = file.size->0;
    let n = file.pieces.len() as int;
    lemma_strongest_whole(file.whole, file.whole.len() as int);
    lemma_strongest_pieces(file.pieces, total, n);
    if file.whole.len() > 0 {
        let best = strongest_whole(file.whole, file.whole.len() as int)->0;
        let i = choose|i: int| 0 <= i < file.whole.len() && #[trigger] file.whole[i] == best;
        assert(file.whole[i].digest == manifest.whole[0]);
    }
    if let Some(user) = options.user_checksum {
        if file.whole.len() > 0 {
            assert(manifest.whole[0] == strongest_whole(file.whole, file.whole.len() as int)->0.digest);
            if manifest.whole.len() == 2 {
                assert(manifest.whole[1] == user);
                assert(seq![manifest.whole[0]].contains(manifest.whole[0]));
            } else {
                assert(manifest.whole[0] == user);
            }
        } else {
            assert(manifest.whole[0] == user);
        }
    }
    match strongest(file.pieces, total, n) {
        Ok(Some(b)) => {
            let pieces = file.pieces[b];
            assert(pieces.valid());
            assert(pieces.complete(total));
            assert forall|i: int| 0 <= i < manifest.chunks.len() implies pieces.slots.contains_key(i as u128)
                && #[trigger] manifest.chunks[i] == pieces.digests[pieces.slots[i as u128] as int] by {
                lemma_chunks_counted(total, pieces.length);
                assert(pieces.slots.contains_key((i as u64) as u128));
            }
            lemma_chunks_counted(total, pieces.length);
        },
        _ => {
        },
    }
}

/// As many pieces as are counted cover a file, and one less does not.
proof fn lemma_chunks_counted(total: u64, length: u64)
    requires
        length > 0,
    ensures
        ({
            let count = crate::metalink_files::piece_count(total, length);
            &&& 0 <= count <= u64::MAX
            &&& count * length >= total
            &&& count > 0 ==> (count - 1) * length < total
        }),
{
    let (t, l) = (total as int, length as int);
    assert(t == l * (t / l) + t % l && 0 <= t % l < l && 0 <= t / l <= t) by (nonlinear_arith)
        requires
            t >= 0,
            l > 0,
    ;
    let q = t / l;
    assert(q * l == l * q) by (nonlinear_arith);
    assert((q + 1) * l == q * l + l) by (nonlinear_arith);
    assert((q - 1) * l == q * l - l) by (nonlinear_arith);
    if t % l != 0 && q == u64::MAX {
        assert(l == 1) by (nonlinear_arith)
            requires
                q * l <= t,
                t <= u64::MAX,
                q == u64::MAX,
                l > 0,
        ;
    }
}

/// Whether a source is of another protocol than the one that is preferred.
pub open spec fn other_protocol(source: SourceView, options: MetalinkOptions) -> bool {
    options.preferred_protocol is Some && options.preferred_protocol->0 != source.protocol
}

/// The preferred locations: those between the commas.
pub open spec fn preferred_locations(options: MetalinkOptions) -> Seq<Seq<char>> {
    match options.location {
        Some(list) => parts(list@, ','),
        None => seq![Seq::<char>::empty()],
    }
}

/// Whether a source is at a preferred location, in some case.
pub open spec fn well_placed(source: SourceView, options: MetalinkOptions) -> bool {
    source.location is Some && exists|i: int|
        0 <= i < preferred_locations(options).len() && same_but_case(
            #[trigger] preferred_locations(options)[i],
            source.location->0,
        )
}

/// Whether a source that stands at `i` in the document is to be used before the one at
/// `j`: the preferred protocol first, then a preferred location, then the lower
/// priority, then the earlier in the document.
pub open spec fn used_before(a: SourceView, i: int, b: SourceView, j: int, options: MetalinkOptions) -> bool {
    if other_protocol(a, options) != other_protocol(b, options) {
        other_protocol(b, options)
    } else if well_placed(a, options) != well_placed(b, options) {
        well_placed(a, options)
    } else if a.priority != b.priority {
        a.priority < b.priority
    } else {
        i < j
    }
}

/// Where the `k`-th source in the order of use stands in the document.
pub open spec fn place_in_document(sources: Seq<SourceView>, options: MetalinkOptions, k: int) -> int {
    sorted_keys(source_keys(sources, options))[k].id as int
}

/// Whether the source at `i` in the document has a place in the order of use.
spec fn ranked_somewhere(sources: Seq<SourceView>, options: MetalinkOptions, i: int) -> bool {
    exists|k: int| 0 <= k < sources.len() && #[trigger] place_in_document(sources, options, k) == i
}

/// Sources are ranked by the order of use, each of them once.
proof fn lemma_ranked(sources: Seq<SourceView>, options: MetalinkOptions)
    requires
        sources.len() <= u64::MAX,
        forall|i: int| 0 <= i < sources.len() ==> (#[trigger] sources[i]).priority >= 0,
    ensures
        ranked_sources(sources, options).len() == sources.len(),
        forall|k: int|
            0 <= k < sources.len() ==> 0 <= #[trigger] place_in_document(sources, options, k) < sources.len()
                && ranked_sources(sources, options)[k] == sources[place_in_document(sources, options, k)],
        forall|a: int, b: int|
            0 <= a < b < sources.len() ==> used_before(
                sources[#[trigger] place_in_document(sources, options, a)],
                place_in_document(sources, options, a),
                sources[#[trigger] place_in_document(sources, options, b)],
                place_in_document(sources, options, b),
                options,
            ),
        forall|i: int| 0 <= i < sources.len() ==> #[trigger] ranked_somewhere(sources, options, i),
{
    let keys = source_keys(sources, options);
    let sorted = sorted_keys(keys);
    lemma_sorted_keys(keys);
    assert forall|k: int| 0 <= k < sources.len() implies 0 <= #[trigger] place_in_document(sources, options, k)
        < sources.len() && ranked_sources(sources, options)[k] == sources[place_in_document(sources, options, k)]
        && sorted[k] == source_key(sources[sorted[k].id as int], sorted[k].id as int, options) by {
        assert(sorted.contains(sorted[k]));
        assert(keys.contains(sorted[k]));
        let i = keys.index_of(sorted[k]);
        assert(keys[i] == source_key(sources[i], i, options));
    }
    assert forall|a: int, b: int| 0 <= a < b < sorted.len() implies (#[trigger] sorted[a]).id != (#[trigger] sorted[b]).id by {
        crate::queues::lemma_sorted_ids_distinct(keys);
    }
    assert forall|a: int, b: int| 0 <= a < b < sources.len() implies used_before(
        sources[#[trigger] place_in_document(sources, options, a)],
        place_in_document(sources, options, a),
        sources[#[trigger] place_in_document(sources, options, b)],
        place_in_document(sources, options, b),
        options,
    ) by {
        assert(key_order()(sorted[a], sorted[b]));
        assert(key_le(sorted[a], sorted[b]));
        assert(sorted[a].id != sorted[b].id);
        let (i, j) = (place_in_document(sources, options, a), place_in_document(sources, options, b));
        lemma_placement(sources[i], options);
        lemma_placement(sources[j], options);
    }
    assert forall|i: int| 0 <= i < sources.len() implies #[trigger] ranked_somewhere(sources, options, i) by {
        assert(keys[i] == source_key(sources[i], i, options));
        assert(keys.contains(keys[i]));
        assert(sorted.contains(keys[i]));
        let k = sorted.index_of(keys[i]);
        assert(place_in_document(sources, options, k) == i);
    }
}

/// A source is well placed exactly where its location is among those preferred.
proof fn lemma_placement(source: SourceView, options: MetalinkOptions)
    ensures
        well_placed(source, options) == crate::metalink_files::preferred_location(
            text_view(options.location),
            source.location,
        ),
{
    let none = Seq::<char>::empty();
    assert(parts(none, ',') =~= seq![none]);
    assert(crate::metalink_files::location_list(text_view(options.location)) == preferred_locations(options));
}

/// Whether mirrors are given ones in the order of use, the `k`-th the one that stands at
/// `at(k)` in the document: all of them, or all of the first one's protocol.
pub open spec fn arranges(
    at: spec_fn(int) -> int,
    given: Seq<SourceView>,
    done: Seq<SourceView>,
    options: MetalinkOptions,
) -> bool {
    &&& forall|k: int|
        0 <= k < done.len() ==> {
            &&& 0 <= #[trigger] at(k) < given.len()
            &&& done[k].uri == given[at(k)].uri
            &&& done[k].protocol == given[at(k)].protocol
            &&& done[k].location == given[at(k)].location
        }
    &&& forall|a: int, b: int|
        0 <= a < b < done.len() ==> used_before(given[#[trigger] at(a)], at(a), given[#[trigger] at(b)], at(b), options)
    &&& forall|i: int|
        #![trigger given[i]]
        0 <= i < given.len() && (options.unique_protocol ==> given[i].protocol == done[0].protocol) ==> exists|k: int|
            0 <= k < done.len() && #[trigger] at(k) == i
    &&& options.unique_protocol ==> forall|i: int|
        0 <= i < given.len() && given[i].protocol != done[0].protocol ==> used_before(
            given[at(0)],
            at(0),
            #[trigger] given[i],
            i,
            options,
        )
}

/// A file's mirrors are used in order: those of the preferred protocol first, then those
/// at a preferred location, then by priority, then as they stand in the document. They
/// are numbered from zero on. All of them are kept, or all of the first one's protocol
/// where only one is wanted; nothing else about them changes.
pub proof fn law_sources_are_in_the_order_of_use(
    file: FileView,
    options: MetalinkOptions,
    ranges: Seq<OrderKey>,
    accepted: bool,
    done: MetalinkFileView,
)
    requires
        finished_file(file, options, ranges, accepted) == Ok::<Option<MetalinkFileView>, MetalinkError>(Some(done)),
        file.sources.len() <= i64::MAX,
        forall|i: int| 0 <= i < file.sources.len() ==> (#[trigger] file.sources[i]).priority >= 0,
    ensures
        done.index == file.index,
        done.name == file.name,
        forall|k: int| 0 <= k < done.sources.len() ==> (#[trigger] done.sources[k]).priority == k,
        exists|at: spec_fn(int) -> int| #[trigger] arranges(at, file.sources, done.sources, options),
        options.unique_protocol ==> forall|k: int|
            0 <= k < done.sources.len() ==> (#[trigger] done.sources[k]).protocol == done.sources[0].protocol,
        done.sources.len() > 0,
{
    let sources = file.sources;
    let ranked = ranked_sources(sources, options);
    let kept = kept_sources(ranked, options.unique_protocol);
    lemma_ranked(sources, options);
    assert(done.sources == numbered(kept));
    let at = if options.unique_protocol {
        let first = ranked[0].protocol;
        lemma_filter_places(ranked, first);
        |k: int| place_in_document(sources, options, kept_place(ranked, first, k))
    } else {
        |k: int| place_in_document(sources, options, k)
    };
    if options.unique_protocol {
        let first = ranked[0].protocol;
        lemma_filter_places(ranked, first);
        assert(kept_place(ranked, first, 0) == 0) by {
            let k = choose|k: int| 0 <= k < kept.len() && #[trigger] kept_place(ranked, first, k) == 0;
            if k > 0 {
                assert(kept_place(ranked, first, 0) < kept_place(ranked, first, k));
            }
        }
        assert(done.sources[0].protocol == kept[0].protocol);
        assert(kept[0] == ranked[kept_place(ranked, first, 0)]);
        assert forall|k: int| 0 <= k < done.sources.len() implies 0 <= #[trigger] at(k) < sources.len()
            && done.sources[k].uri == sources[at(k)].uri && done.sources[k].protocol == sources[at(k)].protocol
            && done.sources[k].location == sources[at(k)].location by {
            assert(kept[k] == ranked[kept_place(ranked, first, k)]);
        }
        assert forall|k: int| 0 <= k < done.sources.len() implies (#[trigger] done.sources[k]).protocol
            == done.sources[0].protocol by {
            assert(kept[k] == ranked[kept_place(ranked, first, k)]);
        }
        assert forall|a: int, b: int| 0 <= a < b < done.sources.len() implies used_before(
            sources[#[trigger] at(a)],
            at(a),
            sources[#[trigger] at(b)],
            at(b),
            options,
        ) by {
            assert(kept_place(ranked, first, a) < kept_place(ranked, first, b));
        }
        assert forall|i: int| #![trigger sources[i]] 0 <= i < sources.len() && sources[i].protocol
            == done.sources[0].protocol implies exists|k: int| 0 <= k < done.sources.len() && #[trigger] at(k) == i by {
            assert(ranked_somewhere(sources, options, i));
            let p = choose|p: int| 0 <= p < sources.len() && #[trigger] place_in_document(sources, options, p) == i;
            assert(ranked[p] == sources[i]);
            let k = choose|k: int| 0 <= k < kept.len() && #[trigger] kept_place(ranked, first, k) == p;
            assert(at(k) == i);
        }
        assert forall|i: int| 0 <= i < sources.len() && sources[i].protocol != done.sources[0].protocol implies used_before(
            sources[at(0)],
            at(0),
            #[trigger] sources[i],
            i,
            options,
        ) by {
            assert(ranked_somewhere(sources, options, i));
            let p = choose|p: int| 0 <= p < sources.len() && #[trigger] place_in_document(sources, options, p) == i;
            assert(ranked[p] == sources[i]);
            assert(p > 0);
            assert(at(0) == place_in_document(sources, options, 0));
        }
    } else {
        assert forall|k: int| 0 <= k < done.sources.len() implies 0 <= #[trigger] at(k) < sources.len()
            && done.sources[k].uri == sources[at(k)].uri && done.sources[k].protocol == sources[at(k)].protocol
            && done.sources[k].location == sources[at(k)].location by {
            assert(kept[k] == ranked[k]);
        }
        assert forall|i: int| #![trigger sources[i]] 0 <= i < sources.len() implies exists|k: int|
            0 <= k < done.sources.len() && #[trigger] at(k) == i by {
            assert(ranked_somewhere(sources, options, i));
            let p = choose|p: int| 0 <= p < sources.len() && #[trigger] place_in_document(sources, options, p) == i;
            assert(at(p) == i);
        }
    }
    assert(arranges(at, file.sources, done.sources, options));
}

/// Where the `k`-th of the sources of a protocol stands.
pub open spec fn kept_place(sources: Seq<SourceView>, protocol: crate::protocols::TransferProtocol, k: int) -> int
    decreases sources.len(),
{
    if sources.len() == 0 {
        0
    } else {
        let before = sources.drop_last().filter(|s: SourceView| s.protocol == protocol);
        if k < before.len() {
            kept_place(sources.drop_last(), protocol, k)
        } else {
            sources.len() - 1
        }
    }
}

/// The sources of a protocol keep their order, and none of them is lost.
proof fn lemma_filter_places(sources: Seq<SourceView>, protocol: crate::protocols::TransferProtocol)
    ensures
        ({
            let kept = sources.filter(|s: SourceView| s.protocol == protocol);
            &&& kept.len() <= sources.len()
            &&& forall|k: int|
                0 <= k < kept.len() ==> 0 <= #[trigger] kept_place(sources, protocol, k) < sources.len() && kept[k]
                    == sources[kept_place(sources, protocol, k)] && kept[k].protocol == protocol
            &&& forall|a: int, b: int|
                0 <= a < b < kept.len() ==> #[trigger] kept_place(sources, protocol, a) < #[trigger] kept_place(
                    sources,
                    protocol,
                    b,
                )
            &&& forall|p: int|
                #![trigger sources[p]]
                0 <= p < sources.len() && sources[p].protocol == protocol ==> exists|k: int|
                    0 <= k < kept.len() && #[trigger] kept_place(sources, protocol, k) == p
        }),
    decreases sources.len(),
{
    reveal(Seq::filter);
    let keep = |s: SourceView| s.protocol == protocol;
    let kept = sources.filter(keep);
    if sources.len() > 0 {
        let rest = sources.drop_last();
        let before = rest.filter(keep);
        lemma_filter_places(rest, protocol);
        assert forall|k: int| 0 <= k < kept.len() implies 0 <= #[trigger] kept_place(sources, protocol, k) < sources.len()
            && kept[k] == sources[kept_place(sources, protocol, k)] && kept[k].protocol == protocol by {
            if k < before.len() {
                assert(kept[k] == before[k]);
                assert(kept_place(sources, protocol, k) == kept_place(rest, protocol, k));
                assert(rest[kept_place(rest, protocol, k)] == sources[kept_place(rest, protocol, k)]);
            }
        }
        assert forall|a: int, b: int| 0 <= a < b < kept.len() implies #[trigger] kept_place(sources, protocol, a)
            < #[trigger] kept_place(sources, protocol, b) by {
            assert(kept_place(sources, protocol, a) == kept_place(rest, protocol, a));
            if b < before.len() {
                assert(kept_place(sources, protocol, b) == kept_place(rest, protocol, b));
            }
        }
        assert forall|p: int| #![trigger sources[p]] 0 <= p < sources.len() && sources[p].protocol == protocol implies exists|
            k: int,
        | 0 <= k < kept.len() && #[trigger] kept_place(sources, protocol, k) == p by {
            if p < rest.len() {
                assert(rest[p] == sources[p]);
                let k = choose|k: int| 0 <= k < before.len() && #[trigger] kept_place(rest, protocol, k) == p;
                assert(kept_place(sources, protocol, k) == p);
            } else {
                assert(kept_place(sources, protocol, before.len() as int) == p);
            }
        }
    }
}

/// A file of a document is left out exactly where it was not asked for: its number is in
/// no selected range, or what it says of its language, its system or its version is not
/// what the caller wants. A file that says nothing of them is never left out for them.
pub proof fn law_files_are_left_out_only_if_not_asked_for(
    file: FileView,
    options: MetalinkOptions,
    ranges: Seq<OrderKey>,
    accepted: bool,
)
    requires
        finished_file(file, options, ranges, accepted) is Ok,
    ensures
        ({
            let selected = ranges.len() == 0 || exists|i: int|
                0 <= i < ranges.len() && (#[trigger] ranges[i]).rank <= file.index <= ranges[i].position;
            let speaks = |asked: Option<String>, values: Seq<Seq<char>>| asked is None || values.len() == 0 || exists|
                i: int,
            | 0 <= i < values.len() && same_but_case(#[trigger] values[i], asked->0@);
            let version = options.version is None || file.version is None || options.version->0@ == file.version->0;
            finished_file(file, options, ranges, accepted)->Ok_0 is Some <==> selected && speaks(
                options.language,
                file.language,
            ) && speaks(options.os, file.os) && version
        }),
{
}

/// A digest of the whole file that the document gives is kept under the algorithm that
/// it names, and those that were given before stay as they were; a second one of the
/// same algorithm has to be the same.
pub proof fn law_whole_digests_are_kept_as_given(
    parser: ParserView,
    digest: Digest,
    options: MetalinkOptions,
    limits: MetalinkLimits,
    ranges: Seq<OrderKey>,
    name: Seq<char>,
    algorithm: DigestAlgorithm,
    next: ParserView,
)
    requires
        parser.stack.len() > 0,
        parser.stack.last().kind is Hash,
        parser.current is Some,
        parser.current->0.current_pieces is None,
        attr(parser.stack.last().attrs, "type"@) == Some(name),
        algorithm is Md5 <==> name == "md5"@,
        algorithm is Sha1 <==> name == "sha-1"@ || name == "sha1"@,
        algorithm is Sha256 <==> name == "sha-256"@ || name == "sha256"@,
        algorithm is Sha512 <==> name == "sha-512"@ || name == "sha512"@,
        ended(parser, None, MetalinkAnswer::Digest(Some(digest)), options, limits, ranges) == Ok::<
            ParserView,
            MetalinkError,
        >(next),
    ensures
        next.current is Some,
        ({
            let before = parser.current->0;
            let after = next.current->0;
            &&& after == (FileView { whole: after.whole, had_checksum: true, ..before })
            &&& before.whole.len() <= after.whole.len() <= before.whole.len() + 1
            &&& forall|i: int| 0 <= i < before.whole.len() ==> #[trigger] after.whole[i] == before.whole[i]
            &&& exists|i: int|
                0 <= i < after.whole.len() && #[trigger] after.whole[i] == (WholeDigest { algorithm, digest })
            &&& forall|i: int|
                0 <= i < before.whole.len() && (#[trigger] before.whole[i]).algorithm == algorithm && (forall|k: int|
                    0 <= k < i ==> (#[trigger] before.whole[k]).algorithm != algorithm) ==> before.whole[i].digest
                    == digest
        }),
        next.files == parser.files,
        next.stack == parser.stack.drop_last(),
{
    reveal_strlit("md5");
    reveal_strlit("sha-1");
    reveal_strlit("sha1");
    reveal_strlit("sha-256");
    reveal_strlit("sha256");
    reveal_strlit("sha-512");
    reveal_strlit("sha512");
    let before = parser.current->0;
    let after = next.current->0;
    lemma_whole_of(before.whole, algorithm, 0);
    match whole_of(before.whole, algorithm, 0) {
        Some(i) => {
            assert(after.whole[i] == before.whole[i]);
        },
        None => {
            assert(after.whole[before.whole.len() as int] == (WholeDigest { algorithm, digest }));
        },
    }
}

proof fn lemma_whole_of(whole: Seq<WholeDigest>, algorithm: DigestAlgorithm, from: int)
    requires
        0 <= from <= whole.len(),
    ensures
        match whole_of(whole, algorithm, from) {
            Some(i) => from <= i < whole.len() && whole[i].algorithm == algorithm && forall|k: int|
                from <= k < i ==> (#[trigger] whole[k]).algorithm != algorithm,
            None => forall|k: int| from <= k < whole.len() ==> (#[trigger] whole[k]).algorithm != algorithm,
        },
    decreases whole.len() - from,
{
    if from < whole.len() {
        lemma_whole_of(whole, algorithm, from + 1);
    }
}

/// A mirror that the document gives, of a protocol that is known and enabled, is added
/// behind those given before, with the address that it resolves to, its location, and a
/// priority that is lower the better it is: in version 4 the one given, else the worst; in
/// version 3 what its preference leaves of a hundred, the middle where there is none.
pub proof fn law_mirrors_are_kept_as_given(
    parser: ParserView,
    url: UrlPartsView,
    options: MetalinkOptions,
    limits: MetalinkLimits,
    ranges: Seq<OrderKey>,
    row: int,
    next: ParserView,
)
    requires
        parser.stack.len() > 0,
        parser.stack.last().kind is Url,
        parser.current is Some,
        parser.current->0.source_count < usize::MAX,
        0 <= row < limits.protocols.rows@.len(),
        limits.protocols.rows@[row].code@ == url.scheme,
        forall|k: int| 0 <= k < row ==> (#[trigger] limits.protocols.rows@[k]).code@ != url.scheme,
        limits.protocols.rows@[row].protocol.enabled,
        ended(parser, Some(url), MetalinkAnswer::Accepted(true), options, limits, ranges) == Ok::<
            ParserView,
            MetalinkError,
        >(next),
    ensures
        next.current is Some,
        ({
            let attrs = parser.stack.last().attrs;
            let before = parser.current->0;
            let after = next.current->0;
            let added = after.sources.last();
            &&& after.sources == before.sources.push(added)
            &&& after == (FileView { sources: after.sources, source_count: after.source_count, ..before })
            &&& after.source_count == before.source_count + 1
            &&& after.source_count <= options.max_sources
            &&& added.uri == url.text
            &&& added.protocol == limits.protocols.rows@[row].protocol
            &&& added.location == attr(attrs, "location"@)
            &&& parser.version == 3 ==> match attr(attrs, "preference"@) {
                Some(text) => parsed_signed(text, i64::MIN as int, i64::MAX as int) == Some(100 - added.priority)
                    && 0 <= added.priority < 100,
                None => added.priority == 50,
            }
            &&& parser.version != 3 ==> match attr(attrs, "priority"@) {
                Some(text) => parsed_signed(text, i64::MIN as int, i64::MAX as int) == Some(added.priority as int)
                    && 1 <= added.priority <= 999999,
                None => added.priority == 999999,
            }
            &&& forall|k: int| 0 <= k < before.sources.len() ==> (#[trigger] before.sources[k]).uri != url.text
        }),
        next.files == parser.files,
        url.host is Some,
        url.fragment is None,
        limits.protocols.rows@[row].protocol.http ==> url.username.len() == 0 && url.password is None,
{
    lemma_row(limits.protocols.rows@, url.scheme, 0, row);
    let before = parser.current->0;
    let after = next.current->0;
    assert forall|k: int| 0 <= k < before.sources.len() implies (#[trigger] before.sources[k]).uri != url.text by {
    }
}

proof fn lemma_row(rows: Seq<crate::protocols::ProtocolRow>, scheme: Seq<char>, from: int, row: int)
    requires
        0 <= from <= row < rows.len(),
        rows[row].code@ == scheme,
        forall|k: int| from <= k < row ==> (#[trigger] rows[k]).code@ != scheme,
    ensures
        row_of(rows, scheme, from) == Some(row),
    decreases row - from,
{
    if from < row {
        lemma_row(rows, scheme, from + 1, row);
    }
}

/// The digest of a piece is kept at the place of its piece: in version 3 the one that it
/// names, else the next.
pub proof fn law_piece_digests_are_kept_in_place(
    parser: ParserView,
    digest: Digest,
    options: MetalinkOptions,
    limits: MetalinkLimits,
    ranges: Seq<OrderKey>,
    next: ParserView,
)
    requires
        parser.stack.len() > 0,
        parser.stack.last().kind is Hash,
        parser.current is Some,
        parser.current->0.current_pieces is Some,
        parser.current->0.current_pieces->0.valid(),
        parser.current->0.current_pieces->0.algorithm is Some,
        parser.current->0.current_pieces->0.digests.len() <= usize::MAX,
        ended(parser, None, MetalinkAnswer::Digest(Some(digest)), options, limits, ranges) == Ok::<
            ParserView,
            MetalinkError,
        >(next),
    ensures
        next.current is Some,
        next.current->0.current_pieces is Some,
        ({
            let before = parser.current->0.current_pieces->0;
            let after = next.current->0.current_pieces->0;
            let place = if parser.version == 3 {
                parsed_unsigned(attr(parser.stack.last().attrs, "piece"@)->0, u64::MAX as int)->0
            } else {
                before.digests.len() as int
            };
            &&& !before.slots.contains_key(place as u128)
            &&& after.slots.contains_key(place as u128)
            &&& after.digests[after.slots[place as u128] as int] == digest
            &&& forall|p: u128|
                before.slots.contains_key(p) ==> after.slots.contains_key(p) && after.digests[after.slots[p] as int]
                    == #[trigger] before.digests[before.slots[p] as int]
            &&& after.slots.dom() == before.slots.dom().insert(place as u128)
            &&& after.length == before.length
            &&& after.algorithm == before.algorithm
        }),
{
}

/// The size of a file is the number that the document spells.
pub proof fn law_sizes_are_kept_as_given(
    parser: ParserView,
    size: u64,
    options: MetalinkOptions,
    limits: MetalinkLimits,
    ranges: Seq<OrderKey>,
    next: ParserView,
)
    requires
        parser.stack.len() > 0,
        parser.stack.last().kind is Size,
        trimmed(parser.stack.last().text) == decimal_digits(size as nat),
        parser.current is Some,
        ended(parser, None, MetalinkAnswer::Nothing, options, limits, ranges) == Ok::<ParserView, MetalinkError>(next),
    ensures
        next.current == Some(FileView { size: Some(size), ..parser.current->0 }),
        next.files == parser.files,
{
    law_decimal_round_trip(size as nat, u64::MAX as int);
}

/// A range of a selection reads as it is written: a number alone is that file, two
/// numbers around a dash are the files from the first to the second.
pub proof fn law_ranges_read_as_written(first: nat, last: nat)
    requires
        0 < first <= last <= MAX_METALINK_FILES,
    ensures
        range_of(decimal_digits(first)) == Some((first as int, first as int)),
        range_of(decimal_digits(first) + seq!['-'] + decimal_digits(last)) == Some((first as int, last as int)),
{
    law_decimal_round_trip(first, u32::MAX as int);
    law_decimal_round_trip(last, u32::MAX as int);
    lemma_decimal_digits(first);
    lemma_decimal_digits(last);
    let a = decimal_digits(first);
    let b = decimal_digits(last);
    let text = a + seq!['-'] + b;
    assert forall|i: int| 0 <= i < a.len() implies #[trigger] a[i] != '-' by {
        assert(crate::text::is_digit(a[i]));
    }
    lemma_no_char(a, '-', 0);
    assert forall|i: int| 0 <= i < a.len() implies #[trigger] text[i] != '-' by {
        assert(text[i] == a[i]);
    }
    assert(text[a.len() as int] == '-');
    lemma_first_char(text, '-', 0, a.len() as int);
    assert(text.subrange(0, a.len() as int) =~= a);
    assert(text.subrange(a.len() as int + 1, text.len() as int) =~= b);
}

proof fn lemma_no_char(s: Seq<char>, c: char, from: int)
    requires
        0 <= from <= s.len(),
        forall|i: int| from <= i < s.len() ==> #[trigger] s[i] != c,
    ensures
        char_from(s, c, from) is None,
    decreases s.len() - from,
{
    if from < s.len() {
        lemma_no_char(s, c, from + 1);
    }
}

proof fn lemma_first_char(s: Seq<char>, c: char, from: int, at: int)
    requires
        0 <= from <= at < s.len(),
        s[at] == c,
        forall|i: int| from <= i < at ==> #[trigger] s[i] != c,
    ensures
        char_from(s, c, from) == Some(at),
    decreases at - from,
{
    if from < at {
        lemma_first_char(s, c, from + 1, at);
    }
}

/// Whether a part of a selection names a file.
pub open spec fn names(part: Seq<char>, index: u32) -> bool {
    range_of(part) matches Some((first, last)) && first <= index <= last
}

/// A selection wants exactly the files that one of its parts between commas names, and no
/// two of its ranges share a file.
pub proof fn law_a_selection_wants_what_it_names(text: Seq<char>, ranges: Seq<OrderKey>, index: u32)
    requires
        selection(Some(text)) == Ok::<Seq<OrderKey>, MetalinkError>(ranges),
    ensures
        wanted(ranges, index) <==> exists|k: int|
            0 <= k < parts(text, ',').len() && names(#[trigger] parts(text, ',')[k], index),
        forall|i: int, j: int|
            0 <= i < j < ranges.len() ==> (#[trigger] ranges[i]).position < (#[trigger] ranges[j]).rank,
{
    let all = parts(text, ',');
    let n = all.len() as int;
    let read = ranges_of(all, n)->Ok_0;
    lemma_ranges(all, n);
    lemma_sorted_keys(read);
    if wanted(ranges, index) {
        let i = choose|i: int| 0 <= i < ranges.len() && (#[trigger] ranges[i]).rank <= index <= ranges[i].position;
        assert(ranges.contains(ranges[i]));
        assert(read.contains(ranges[i]));
        let k = read.index_of(ranges[i]);
        assert(read[k] == ranges[i]);
        assert(range_of(all[k]) == Some((read[k].rank as int, read[k].position as int)));
    }
    if exists|k: int| 0 <= k < all.len() && names(#[trigger] all[k], index) {
        let k = choose|k: int| 0 <= k < all.len() && names(#[trigger] all[k], index);
        assert(range_of(all[k]) == Some((read[k].rank as int, read[k].position as int)));
        assert(read.contains(read[k]));
        assert(ranges.contains(read[k]));
        let i = ranges.index_of(read[k]);
        assert(ranges[i] == read[k]);
    }
    assert forall|i: int, j: int| 0 <= i < j < ranges.len() implies (#[trigger] ranges[i]).position < (
    #[trigger] ranges[j]).rank by {
        lemma_apart(ranges, read, i, j);
    }
}

/// Every part of a selection that was read is a range.
proof fn lemma_ranges(all: Seq<Seq<char>>, n: int)
    requires
        0 <= n <= all.len(),
        ranges_of(all, n) is Ok,
    ensures
        ranges_of(all, n)->Ok_0.len() == n,
        forall|k: int|
            0 <= k < n ==> range_of(#[trigger] all[k]) == Some(
                (ranges_of(all, n)->Ok_0[k].rank as int, ranges_of(all, n)->Ok_0[k].position as int),
            ),
        forall|k: int|
            0 <= k < n ==> (#[trigger] ranges_of(all, n)->Ok_0[k]).rank <= ranges_of(all, n)->Ok_0[k].position,
    decreases n,
{
    if n > 0 {
        lemma_ranges(all, n - 1);
        let before = ranges_of(all, n - 1)->Ok_0;
        let after = ranges_of(all, n)->Ok_0;
        let (start, end) = crate::metalink_selection::range_ends(all[n - 1]);
        crate::text::lemma_decimal_nonnegative(crate::text::unsigned_digits(start));
        assert forall|k: int| 0 <= k < n implies range_of(#[trigger] all[k]) == Some(
            (after[k].rank as int, after[k].position as int),
        ) by {
            if k < n - 1 {
                assert(after[k] == before[k]);
            }
        }
        assert forall|k: int| 0 <= k < n implies (#[trigger] after[k]).rank <= after[k].position by {
            if k < n - 1 {
                assert(after[k] == before[k]);
            } else {
                assert(range_of(all[k]) is Some);
            }
        }
    }
}

/// Ranges that each end before the next do so before every later one.
proof fn lemma_apart(ranges: Seq<OrderKey>, read: Seq<OrderKey>, i: int, j: int)
    requires
        0 <= i < j < ranges.len(),
        crate::metalink_selection::apart(ranges),
        forall|k: int| 0 <= k < read.len() ==> (#[trigger] read[k]).rank <= read[k].position,
        forall|key: OrderKey| ranges.contains(key) <==> read.contains(key),
    ensures
        ranges[i].position < ranges[j].rank,
    decreases j - i,
{
    assert(crate::metalink_selection::ends_before_next(ranges, j - 1));
    if i < j - 1 {
        lemma_apart(ranges, read, i, j - 1);
        assert(ranges.contains(ranges[j - 1]));
        assert(read.contains(ranges[j - 1]));
        let k = read.index_of(ranges[j - 1]);
        assert(read[k].rank <= read[k].position);
    }
}

} // verus!
