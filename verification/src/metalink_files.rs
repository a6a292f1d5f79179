//! What becomes of one file of a Metalink document.
use vstd::prelude::*;
use crate::index::KeyMap;
use crate::metalink_selection::{is_wanted, wanted};
use crate::metalink_types::{
    rank, source_views, strength, Digest, DigestAlgorithm, ManifestView, MetalinkError, MetalinkFile,
    MetalinkFileView, MetalinkOptions, MetalinkSource, SafeRelativePath, SourceView, VerificationManifest,
};
use crate::order::{lemma_sorted_keys, sort_keys, sorted_keys, OrderKey};
use crate::text::{char_lists, chars_of, chars_same_but_case, parts, same_but_case, same_chars, split_chars};
use crate::xml::text_view;
use vstd::seq_lib::group_to_multiset_ensures;

verus! {

/// The piece hashes of one algorithm.
pub struct Pieces {
    pub algorithm: Option<DigestAlgorithm>,
    pub length: u64,
    pub digests: Vec<Digest>,
    /// Where the digest of a piece stands.
    pub slots: KeyMap,
}

/// What piece hashes hold.
#[verifier::ext_equal]
pub struct PiecesView {
    pub algorithm: Option<DigestAlgorithm>,
    pub length: u64,
    pub digests: Seq<Digest>,
    pub slots: Map<u128, usize>,
}

impl View for Pieces {
    type V = PiecesView;

    open spec fn view(&self) -> PiecesView {
        PiecesView {
            algorithm: self.algorithm,
            length: self.length,
            digests: self.digests@,
            slots: self.slots@,
        }
    }
}

impl PiecesView {
    /// The pieces have a length, and every slot leads to a digest.
    pub open spec fn valid(self) -> bool {
        &&& self.length > 0
        &&& forall|k: u128| #[trigger] self.slots.contains_key(k) ==> self.slots[k] < self.digests.len()
    }

    /// Whether every piece of a file, and no other, has a digest.
    pub open spec fn complete(self, total: u64) -> bool {
        &&& self.digests.len() == piece_count(total, self.length)
        &&& forall|i: u64| i < self.digests.len() ==> #[trigger] self.slots.contains_key(i as u128)
    }

    /// The digests in the order of the pieces.
    pub open spec fn in_order(self) -> Seq<Digest> {
        Seq::new(self.digests.len(), |i: int| self.digests[self.slots[i as u128] as int])
    }
}

/// How many pieces of a length a file has.
pub open spec fn piece_count(total: u64, length: u64) -> int {
    if total as int % length as int == 0 {
        total as int / length as int
    } else {
        total as int / length as int + 1
    }
}

/// A whole-file digest and the algorithm it was given for.
#[derive(Clone, Copy, Debug, PartialEq, Eq, Structural)]
pub struct WholeDigest {
    pub algorithm: DigestAlgorithm,
    pub digest: Digest,
}

/// One file while it is read.
pub struct FileBuilder {
    pub index: u32,
    pub name: SafeRelativePath,
    pub size: Option<u64>,
    pub sources: Vec<MetalinkSource>,
    pub source_count: usize,
    pub whole: Vec<WholeDigest>,
    pub pieces: Vec<Pieces>,
    pub current_pieces: Option<Pieces>,
    pub had_checksum: bool,
    pub had_pieces: bool,
    pub had_metaurl: bool,
    pub language: Vec<Vec<char>>,
    pub os: Vec<Vec<char>>,
    pub version: Option<Vec<char>>,
}

/// What a file that is read holds.
#[verifier::ext_equal]
pub struct FileView {
    pub index: u32,
    pub name: SafeRelativePath,
    pub size: Option<u64>,
    pub sources: Seq<SourceView>,
    pub source_count: usize,
    pub whole: Seq<WholeDigest>,
    pub pieces: Seq<PiecesView>,
    pub current_pieces: Option<PiecesView>,
    pub had_checksum: bool,
    pub had_pieces: bool,
    pub had_metaurl: bool,
    pub language: Seq<Seq<char>>,
    pub os: Seq<Seq<char>>,
    pub version: Option<Seq<char>>,
}

/// What each of several piece hashes holds.
pub open spec fn piece_views(pieces: Seq<Pieces>) -> Seq<PiecesView> {
    pieces.map_values(|p: Pieces| p@)
}

impl View for FileBuilder {
    type V = FileView;

    open spec fn view(&self) -> FileView {
        FileView {
            index: self.index,
            name: self.name,
            size: self.size,
            sources: source_views(self.sources@),
            source_count: self.source_count,
            whole: self.whole@,
            pieces: piece_views(self.pieces@),
            current_pieces: match self.current_pieces {
                Some(pieces) => Some(pieces@),
                None => None,
            },
            had_checksum: self.had_checksum,
            had_pieces: self.had_pieces,
            had_metaurl: self.had_metaurl,
            language: char_lists(self.language@),
            os: char_lists(self.os@),
            version: match self.version {
                Some(version) => Some(version@),
                None => None,
            },
        }
    }
}

impl FileView {
    /// The piece hashes are valid, and there are no more sources than were counted.
    pub open spec fn valid(self) -> bool {
        &&& forall|i: int| 0 <= i < self.pieces.len() ==> (#[trigger] self.pieces[i]).valid()
        &&& self.current_pieces matches Some(pieces) ==> pieces.valid()
    }
}

/// Whether one of the first `n` piece hashes has an algorithm.
pub open spec fn has_algorithm(pieces: Seq<PiecesView>, algorithm: DigestAlgorithm, n: int) -> bool {
    exists|i: int| 0 <= i < n && (#[trigger] pieces[i]).algorithm == Some(algorithm)
}

/// The strongest complete piece hashes among the first `n`, the first of equals.
/// Two of the same algorithm are a fault.
pub open spec fn strongest(pieces: Seq<PiecesView>, total: u64, n: int) -> Result<Option<int>, MetalinkError>
    decreases n,
{
    if n <= 0 {
        Ok(None)
    } else {
        match (strongest(pieces, total, n - 1), pieces[n - 1].algorithm) {
            (Err(error), _) => Err(error),
            (Ok(best), None) => Ok(best),
            (Ok(best), Some(algorithm)) => if has_algorithm(pieces, algorithm, n - 1) {
                Err(MetalinkError::InvalidChecksum)
            } else if !pieces[n - 1].complete(total) {
                Ok(best)
            } else {
                match best {
                    Some(b) => if strength(algorithm) > strength(pieces[b].algorithm->0) {
                        Ok(Some(n - 1))
                    } else {
                        Ok(best)
                    },
                    None => Ok(Some(n - 1)),
                }
            },
        }
    }
}

/// The whole-file digest of the strongest algorithm among the first `n`.
pub open spec fn strongest_whole(whole: Seq<WholeDigest>, n: int) -> Option<WholeDigest>
    decreases n,
{
    if n <= 0 {
        None
    } else {
        match strongest_whole(whole, n - 1) {
            Some(best) => if strength(whole[n - 1].algorithm) > strength(best.algorithm) {
                Some(whole[n - 1])
            } else {
                Some(best)
            },
            None => Some(whole[n - 1]),
        }
    }
}

/// The whole-file digests that a file is checked against: its strongest one,
/// and the one the user gave, once each.
pub open spec fn whole_digests(own: Option<WholeDigest>, user: Option<Digest>) -> Seq<Digest> {
    let mine = match own {
        Some(whole) => seq![whole.digest],
        None => Seq::empty(),
    };
    match user {
        Some(user) => if mine.contains(user) {
            mine
        } else {
            mine.push(user)
        },
        None => mine,
    }
}

/// What a file is checked against, or why it cannot be.
pub open spec fn manifest_of(file: FileView, options: MetalinkOptions) -> Result<ManifestView, MetalinkError> {
    match (file.size, strongest(file.pieces, file.size->0, file.pieces.len() as int)) {
        (None, _) => Err(MetalinkError::InvalidSize),
        (Some(_), Err(error)) => Err(error),
        (Some(total), Ok(best)) => {
            let own = strongest_whole(file.whole, file.whole.len() as int);
            if file.had_pieces && best is None {
                Err(MetalinkError::InvalidChecksum)
            } else if file.had_checksum && own is None && best is None {
                Err(MetalinkError::UnsupportedChecksum)
            } else {
                Ok(
                    ManifestView {
                        total,
                        length: match best {
                            Some(b) => file.pieces[b].length,
                            None => options.default_chunk_length,
                        },
                        chunks: match best {
                            Some(b) => file.pieces[b].in_order(),
                            None => Seq::empty(),
                        },
                        whole: whole_digests(own, options.user_checksum),
                    },
                )
            }
        },
    }
}

/// Whether a file has what was asked for: it says nothing of it, or says it in
/// some case.
pub open spec fn offers(asked: Option<Seq<char>>, values: Seq<Seq<char>>) -> bool {
    match asked {
        None => true,
        Some(asked) => values.len() == 0 || listed(values, asked),
    }
}

/// Whether a file is for the language, the system and the version asked for.
pub open spec fn matches_request(file: FileView, options: MetalinkOptions) -> bool {
    &&& offers(text_view(options.language), file.language)
    &&& offers(text_view(options.os), file.os)
    &&& options.version is Some && file.version is Some ==> file.version == text_view(options.version)
}

/// The preferred locations.
pub open spec fn location_list(preferred: Option<Seq<char>>) -> Seq<Seq<char>> {
    match preferred {
        Some(list) => parts(list, ','),
        None => parts(Seq::empty(), ','),
    }
}

/// Whether a text is in a list, in some case.
pub open spec fn listed(list: Seq<Seq<char>>, text: Seq<char>) -> bool {
    exists|i: int| 0 <= i < list.len() && same_but_case(#[trigger] list[i], text)
}

/// Whether a location is among those preferred.
pub open spec fn preferred_location(preferred: Option<Seq<char>>, location: Option<Seq<char>>) -> bool {
    match location {
        Some(location) => listed(location_list(preferred), location),
        None => false,
    }
}

/// The place of a source in the order of use: the preferred protocol first, then
/// a preferred location, then by priority, then as written.
pub open spec fn source_key(source: SourceView, i: int, options: MetalinkOptions) -> OrderKey {
    let other_protocol = options.preferred_protocol is Some && options.preferred_protocol != Some(source.protocol);
    let elsewhere = !preferred_location(text_view(options.location), source.location);
    OrderKey {
        rank: if other_protocol {
            if elsewhere {
                3
            } else {
                2
            }
        } else if elsewhere {
            1
        } else {
            0
        },
        position: source.priority as u64,
        id: i as u64,
    }
}

/// The places of all sources.
pub open spec fn source_keys(sources: Seq<SourceView>, options: MetalinkOptions) -> Seq<OrderKey> {
    Seq::new(sources.len(), |i: int| source_key(sources[i], i, options))
}

/// The sources in the order of use.
pub open spec fn ranked_sources(sources: Seq<SourceView>, options: MetalinkOptions) -> Seq<SourceView> {
    sorted_keys(source_keys(sources, options)).map_values(|k: OrderKey| sources[k.id as int])
}

/// The sources in the order of use that are kept: those of the first one's
/// protocol where only one is wanted.
pub open spec fn kept_sources(ranked: Seq<SourceView>, unique: bool) -> Seq<SourceView> {
    if unique {
        ranked.filter(|s: SourceView| s.protocol == ranked[0].protocol)
    } else {
        ranked
    }
}

/// The sources with their places as priorities.
pub open spec fn numbered(sources: Seq<SourceView>) -> Seq<SourceView> {
    Seq::new(sources.len(), |i: int| SourceView { priority: i as i64, ..sources[i] })
}

/// What becomes of a file when it ends: a fault, nothing where it was not asked
/// for, or the file.
pub open spec fn finished_file(
    file: FileView,
    options: MetalinkOptions,
    ranges: Seq<OrderKey>,
    accepted: bool,
) -> Result<Option<MetalinkFileView>, MetalinkError> {
    match manifest_of(file, options) {
        Err(error) => Err(error),
        Ok(verification) => if !accepted {
            Err(MetalinkError::InvalidChecksum)
        } else if !wanted(ranges, file.index) || !matches_request(file, options) {
            Ok(None)
        } else if file.sources.len() == 0 {
            if file.had_metaurl {
                Err(MetalinkError::UnsupportedMetaurl)
            } else {
                Err(MetalinkError::NoUsableSource)
            }
        } else {
            Ok(
                Some(
                    MetalinkFileView {
                        index: file.index,
                        name: file.name,
                        sources: numbered(
                            kept_sources(ranked_sources(file.sources, options), options.unique_protocol),
                        ),
                        verification,
                    },
                ),
            )
        },
    }
}

fn count_pieces(total: u64, length: u64) -> (r: u64)
    requires
        length > 0,
    ensures
        r == piece_count(total, length),
{
    let whole: u64 = total / length;
    if total % length == 0 {
        whole
    } else {
        assert(length == 1 ==> total % length == 0) by (nonlinear_arith);
        assert(length > 1 ==> total / length < u64::MAX) by (nonlinear_arith);
        whole + 1
    }
}

fn pieces_complete(pieces: &Pieces, total: u64) -> (r: bool)
    requires
        pieces@.length > 0,
    ensures
        r == pieces@.complete(total),
{
    if pieces.digests.len() as u64 != count_pieces(total, pieces.length) {
        return false;
    }
    let mut i: usize = 0;
    while i < pieces.digests.len()
        invariant
            i <= pieces.digests.len(),
            forall|k: u64| k < i ==> #[trigger] pieces@.slots.contains_key(k as u128),
        decreases pieces.digests.len() - i,
    {
        if pieces.slots.get(i as u128).is_none() {
            assert(!pieces@.slots.contains_key(i as u64 as u128));
            return false;
        }
        i = i + 1;
    }
    true
}

fn find_strongest(pieces: &Vec<Pieces>, total: u64) -> (r: Result<Option<usize>, MetalinkError>)
    requires
        forall|i: int| 0 <= i < pieces.len() ==> (#[trigger] pieces@[i])@.valid(),
    ensures
        (match r {
            Ok(Some(i)) => Ok::<Option<int>, MetalinkError>(Some(i as int)),
            Ok(None) => Ok::<Option<int>, MetalinkError>(None),
            Err(error) => Err::<Option<int>, MetalinkError>(error),
        }) == strongest(piece_views(pieces@), total, pieces.len() as int),
        r matches Ok(Some(i)) ==> i < pieces.len() && pieces@[i as int]@.complete(total)
            && pieces@[i as int].algorithm is Some,
{
    let ghost views = piece_views(pieces@);
    let mut best: Option<usize> = None;
    let mut i: usize = 0;
    while i < pieces.len()
        invariant
            i <= pieces.len(),
            views == piece_views(pieces@),
            forall|k: int| 0 <= k < pieces.len() ==> (#[trigger] pieces@[k])@.valid(),
            strongest(views, total, i as int) == (match best {
                Some(b) => Ok::<Option<int>, MetalinkError>(Some(b as int)),
                None => Ok::<Option<int>, MetalinkError>(None),
            }),
            best matches Some(b) ==> b < i && pieces@[b as int]@.complete(total)
                && pieces@[b as int].algorithm is Some,
        decreases pieces.len() - i,
    {
        assert(views[i as int] == pieces@[i as int]@);
        if let Some(algorithm) = pieces[i].algorithm {
            let mut k: usize = 0;
            while k < i
                invariant
                    k <= i < pieces.len(),
                    views == piece_views(pieces@),
                    views[i as int].algorithm == Some(algorithm),
                    strongest(views, total, i as int) is Ok,
                    forall|j: int| 0 <= j < k ==> (#[trigger] views[j]).algorithm != Some(algorithm),
                decreases i - k,
            {
                assert(views[k as int] == pieces@[k as int]@);
                if pieces[k].algorithm == Some(algorithm) {
                    proof {
                        assert(has_algorithm(views, algorithm, i as int));
                        lemma_strongest_fault(views, total, i + 1, pieces.len() as int);
                    }
                    return Err(MetalinkError::InvalidChecksum);
                }
                k = k + 1;
            }
            assert(!has_algorithm(views, algorithm, i as int));
            if pieces_complete(&pieces[i], total) {
                best = match best {
                    Some(b) => {
                        assert(views[b as int] == pieces@[b as int]@);
                        match pieces[b].algorithm {
                            Some(held) => if rank(algorithm) > rank(held) {
                                Some(i)
                            } else {
                                Some(b)
                            },
                            None => Some(b),
                        }
                    },
                    None => Some(i),
                };
            }
        }
        i = i + 1;
    }
    Ok(best)
}

/// A fault among the first piece hashes is the fault of them all.
proof fn lemma_strongest_fault(pieces: Seq<PiecesView>, total: u64, n: int, m: int)
    requires
        0 <= n <= m,
        strongest(pieces, total, n) is Err,
    ensures
        strongest(pieces, total, m) == strongest(pieces, total, n),
    decreases m - n,
{
    if n < m {
        lemma_strongest_fault(pieces, total, n, m - 1);
    }
}

fn find_strongest_whole(whole: &Vec<WholeDigest>) -> (r: Option<WholeDigest>)
    ensures
        r == strongest_whole(whole@, whole.len() as int),
{
    let mut best: Option<WholeDigest> = None;
    let mut i: usize = 0;
    while i < whole.len()
        invariant
            i <= whole.len(),
            best == strongest_whole(whole@, i as int),
        decreases whole.len() - i,
    {
        best = match best {
            Some(held) => if rank(whole[i].algorithm) > rank(held.algorithm) {
                Some(whole[i])
            } else {
                Some(held)
            },
            None => Some(whole[i]),
        };
        i = i + 1;
    }
    best
}

fn digests_in_order(pieces: &Pieces, total: u64) -> (r: Vec<Digest>)
    requires
        pieces@.valid(),
        pieces@.complete(total),
    ensures
        r@ == pieces@.in_order(),
{
    let mut out: Vec<Digest> = Vec::new();
    let mut i: usize = 0;
    while i < pieces.digests.len()
        invariant
            i <= pieces.digests.len(),
            pieces@.valid(),
            pieces@.complete(total),
            out@ == pieces@.in_order().take(i as int),
        decreases pieces.digests.len() - i,
    {
        assert(pieces@.slots.contains_key(i as u64 as u128));
        if let Some(slot) = pieces.slots.get(i as u128) {
            out.push(pieces.digests[slot]);
        }
        i = i + 1;
        assert(out@ =~= pieces@.in_order().take(i as int));
    }
    assert(out@ =~= pieces@.in_order());
    out
}

/// What a file is checked against, or why it cannot be.
pub fn file_manifest(file: &FileBuilder, options: &MetalinkOptions) -> (r: Result<
    VerificationManifest,
    MetalinkError,
>)
    requires
        file@.valid(),
    ensures
        (match r {
            Ok(manifest) => Ok::<ManifestView, MetalinkError>(manifest@),
            Err(error) => Err::<ManifestView, MetalinkError>(error),
        }) == manifest_of(file@, *options),
{
    let total = match file.size {
        Some(total) => total,
        None => return Err(MetalinkError::InvalidSize),
    };
    assert forall|i: int| 0 <= i < file.pieces.len() implies (#[trigger] file.pieces@[i])@.valid() by {
        assert(file@.pieces[i] == file.pieces@[i]@);
    }
    let best = match find_strongest(&file.pieces, total) {
        Ok(best) => best,
        Err(error) => return Err(error),
    };
    if file.had_pieces && best.is_none() {
        return Err(MetalinkError::InvalidChecksum);
    }
    let own = find_strongest_whole(&file.whole);
    if file.had_checksum && own.is_none() && best.is_none() {
        return Err(MetalinkError::UnsupportedChecksum);
    }
    let mut whole: Vec<Digest> = Vec::new();
    if let Some(own) = own {
        whole.push(own.digest);
    }
    let ghost mine = whole@;
    if let Some(user) = options.user_checksum {
        let held = whole.len() > 0 && whole[0] == user;
        assert(held == mine.contains(user)) by {
            if own is Some {
                assert(mine[0] == own->0.digest);
            }
        }
        if !held {
            whole.push(user);
        }
    }
    assert(mine =~= (match own {
        Some(whole) => seq![whole.digest],
        None => Seq::empty(),
    }));
    let (length, chunks) = match best {
        Some(b) => {
            assert(file@.pieces[b as int] == file.pieces@[b as int]@);
            (file.pieces[b].length, digests_in_order(&file.pieces[b], total))
        },
        None => (options.default_chunk_length, Vec::new()),
    };
    assert(best is None ==> chunks@ =~= Seq::empty());
    Ok(VerificationManifest { total, length, chunks, whole })
}

fn is_offered(asked: &Option<String>, values: &Vec<Vec<char>>) -> (r: bool)
    ensures
        r == offers(text_view(*asked), char_lists(values@)),
{
    let text = match asked {
        Some(asked) => chars_of(asked.as_str()),
        None => return true,
    };
    if values.len() == 0 {
        return true;
    }
    let mut i: usize = 0;
    while i < values.len()
        invariant
            i <= values.len(),
            forall|k: int| 0 <= k < i ==> !same_but_case(#[trigger] char_lists(values@)[k], text@),
            text_view(*asked) == Some(text@),
        decreases values.len() - i,
    {
        assert(char_lists(values@)[i as int] == values@[i as int]@);
        if chars_same_but_case(&values[i], &text) {
            return true;
        }
        i = i + 1;
    }
    false
}

fn is_preferred_location(list: &Vec<Vec<char>>, location: &Option<String>) -> (r: bool)
    ensures
        r == (match text_view(*location) {
            Some(location) => listed(char_lists(list@), location),
            None => false,
        }),
{
    let text = match location {
        Some(location) => chars_of(location.as_str()),
        None => return false,
    };
    let mut i: usize = 0;
    while i < list.len()
        invariant
            i <= list.len(),
            forall|k: int| 0 <= k < i ==> !same_but_case(#[trigger] char_lists(list@)[k], text@),
            text_view(*location) == Some(text@),
        decreases list.len() - i,
    {
        assert(char_lists(list@)[i as int] == list@[i as int]@);
        if chars_same_but_case(&list[i], &text) {
            return true;
        }
        i = i + 1;
    }
    false
}

fn place_of(source: &MetalinkSource, i: usize, options: &MetalinkOptions, list: &Vec<Vec<char>>) -> (r: OrderKey)
    requires
        char_lists(list@) == location_list(text_view(options.location)),
    ensures
        r == source_key(source@, i as int, *options),
{
    let other_protocol = match options.preferred_protocol {
        Some(preferred) => preferred != source.protocol,
        None => false,
    };
    let elsewhere = !is_preferred_location(list, &source.location);
    let rank: u64 = if other_protocol {
        if elsewhere {
            3
        } else {
            2
        }
    } else if elsewhere {
        1
    } else {
        0
    };
    OrderKey { rank, position: source.priority as u64, id: i as u64 }
}

fn copy_source(source: &MetalinkSource, priority: i64) -> (r: MetalinkSource)
    ensures
        r@ == (SourceView { priority, ..source@ }),
{
    MetalinkSource {
        uri: source.uri.clone(),
        protocol: source.protocol,
        priority,
        location: match &source.location {
            Some(location) => Some(location.clone()),
            None => None,
        },
    }
}

/// A sorted key is one of the keys.
proof fn lemma_sorted_member(keys: Seq<OrderKey>, i: int)
    requires
        0 <= i < keys.len(),
    ensures
        keys.contains(sorted_keys(keys)[i]),
{
    broadcast use group_to_multiset_ensures;

    lemma_sorted_keys(keys);
    let sorted = sorted_keys(keys);
    assert(sorted.contains(sorted[i]));
    assert(sorted.to_multiset().count(sorted[i]) > 0);
    assert(keys.to_multiset().count(sorted[i]) > 0);
}

/// Numbering commutes with taking one more.
proof fn lemma_numbered_push(sources: Seq<SourceView>, source: SourceView)
    ensures
        numbered(sources.push(source)) == numbered(sources).push(
            SourceView { priority: sources.len() as i64, ..source },
        ),
{
    assert(numbered(sources.push(source)) =~= numbered(sources).push(
        SourceView { priority: sources.len() as i64, ..source },
    ));
}

fn rank_sources(sources: &Vec<MetalinkSource>, options: &MetalinkOptions) -> (r: Vec<MetalinkSource>)
    requires
        sources.len() > 0,
    ensures
        source_views(r@) == numbered(
            kept_sources(ranked_sources(source_views(sources@), *options), options.unique_protocol),
        ),
{
    let list = match &options.location {
        Some(list) => split_chars(&chars_of(list.as_str()), ','),
        None => {
            let none: Vec<char> = Vec::new();
            assert(none@ =~= Seq::empty());
            split_chars(&none, ',')
        },
    };
    let ghost views = source_views(sources@);
    let ghost all = source_keys(views, *options);
    let mut keys: Vec<OrderKey> = Vec::new();
    let mut i: usize = 0;
    while i < sources.len()
        invariant
            i <= sources.len(),
            views == source_views(sources@),
            all == source_keys(views, *options),
            char_lists(list@) == location_list(text_view(options.location)),
            keys@ == all.take(i as int),
        decreases sources.len() - i,
    {
        assert(views[i as int] == sources@[i as int]@);
        keys.push(place_of(&sources[i], i, options, &list));
        i = i + 1;
        assert(keys@ =~= all.take(i as int));
    }
    assert(keys@ =~= all);
    let sorted = sort_keys(&keys);
    let ghost ranked = ranked_sources(views, *options);
    proof {
        lemma_sorted_keys(all);
    }
    let mut out: Vec<MetalinkSource> = Vec::new();
    assert(ranked.len() == sorted.len());
    assert(sorted.len() > 0);
    proof {
        lemma_sorted_member(all, 0);
        assert(ranked[0] == views[sorted@[0].id as int]);
    }
    let first = sources[sorted[0].id as usize].protocol;
    assert(first == ranked[0].protocol) by {
        assert(views[sorted@[0].id as int] == sources@[sorted@[0].id as int]@);
    }
    let mut k: usize = 0;
    let ghost keep = |s: SourceView| s.protocol == ranked[0].protocol;
    proof {
        reveal(Seq::filter);
    }
    assert(source_views(out@) =~= numbered(kept_sources_prefix(ranked, options.unique_protocol, 0)));
    while k < sorted.len()
        invariant
            k <= sorted.len(),
            views == source_views(sources@),
            all == source_keys(views, *options),
            sorted@ == sorted_keys(all),
            sorted.len() == all.len(),
            ranked == ranked_sources(views, *options),
            ranked.len() == sorted.len(),
            first == ranked[0].protocol,
            out.len() <= k,
            source_views(out@) == numbered(kept_sources_prefix(ranked, options.unique_protocol, k as int)),
        decreases sorted.len() - k,
    {
        proof {
            reveal(Seq::filter);
            lemma_sorted_member(all, k as int);
            assert(ranked[k as int] == views[sorted@[k as int].id as int]);
            assert(ranked.take(k as int + 1).drop_last() =~= ranked.take(k as int));
            assert(views[sorted@[k as int].id as int] == sources@[sorted@[k as int].id as int]@);
        }
        let source = &sources[sorted[k].id as usize];
        let ghost before = kept_sources_prefix(ranked, options.unique_protocol, k as int);
        if !options.unique_protocol || source.protocol == first {
            proof {
                lemma_numbered_push(before, ranked[k as int]);
                assert(ranked.take(k as int + 1) =~= ranked.take(k as int).push(ranked[k as int]));
                assert(kept_sources_prefix(ranked, options.unique_protocol, k + 1) =~= before.push(
                    ranked[k as int],
                ));
                assert(source_views(out@).len() == before.len());
            }
            let ghost old_out = out@;
            out.push(copy_source(source, out.len() as i64));
            assert(source_views(out@) =~= source_views(old_out).push(out@.last()@));
        }
        k = k + 1;
    }
    assert(ranked.take(k as int) =~= ranked);
    out
}

/// The kept sources among the first `n` in the order of use.
spec fn kept_sources_prefix(ranked: Seq<SourceView>, unique: bool, n: int) -> Seq<SourceView> {
    if unique {
        ranked.take(n).filter(|s: SourceView| s.protocol == ranked[0].protocol)
    } else {
        ranked.take(n)
    }
}

/// What becomes of a file when it ends. `accepted` says whether its manifest
/// was accepted.
pub fn finish_file(
    file: FileBuilder,
    options: &MetalinkOptions,
    ranges: &Vec<OrderKey>,
    accepted: bool,
) -> (r: Result<Option<MetalinkFile>, MetalinkError>)
    requires
        file@.valid(),
    ensures
        (match r {
            Ok(Some(done)) => Ok::<Option<MetalinkFileView>, MetalinkError>(Some(done@)),
            Ok(None) => Ok::<Option<MetalinkFileView>, MetalinkError>(None),
            Err(error) => Err::<Option<MetalinkFileView>, MetalinkError>(error),
        }) == finished_file(file@, *options, ranges@, accepted),
{
    let verification = match file_manifest(&file, options) {
        Ok(verification) => verification,
        Err(error) => return Err(error),
    };
    if !accepted {
        return Err(MetalinkError::InvalidChecksum);
    }
    if !is_wanted(ranges, file.index) {
        return Ok(None);
    }
    let other_version = match (&options.version, &file.version) {
        (Some(asked), Some(version)) => !same_chars(version, &chars_of(asked.as_str())),
        _ => false,
    };
    if !is_offered(&options.language, &file.language) || !is_offered(&options.os, &file.os) || other_version {
        return Ok(None);
    }
    if file.sources.len() == 0 {
        return Err(
            if file.had_metaurl {
                MetalinkError::UnsupportedMetaurl
            } else {
                MetalinkError::NoUsableSource
            },
        );
    }
    let sources = rank_sources(&file.sources, options);
    Ok(Some(MetalinkFile { index: file.index, name: file.name, sources, verification }))
}

} // verus!
