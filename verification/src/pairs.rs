//! Named texts as callers give them.
use vstd::prelude::*;
use crate::json::capped;
use crate::text::{byte_len, same_text};

verus! {

/// A name and its text.
#[derive(Clone, Debug, PartialEq, Eq)]
pub struct TextPair {
    pub name: String,
    pub value: String,
}

/// What a pair says.
#[verifier::ext_equal]
pub struct PairView {
    pub name: Seq<char>,
    pub value: Seq<char>,
}

impl View for TextPair {
    type V = PairView;

    open spec fn view(&self) -> PairView {
        PairView { name: self.name@, value: self.value@ }
    }
}

/// What pairs say.
pub open spec fn pair_views(pairs: Seq<TextPair>) -> Seq<PairView> {
    pairs.map_values(|pair: TextPair| pair@)
}

/// What a pair is counted as.
pub open spec fn pair_bytes(pair: PairView) -> int {
    byte_len(pair.name) + byte_len(pair.value) + 128
}

/// What pairs are counted as.
pub open spec fn pairs_bytes(pairs: Seq<PairView>) -> int
    decreases pairs.len(),
{
    if pairs.len() == 0 {
        0
    } else {
        capped(pairs_bytes(pairs.drop_last()) + pair_bytes(pairs.last()))
    }
}

/// The first pair from `from` on of a name.
pub open spec fn pair_of(pairs: Seq<PairView>, name: Seq<char>, from: int) -> Option<int>
    decreases pairs.len() - from,
{
    if from < 0 || from >= pairs.len() {
        None
    } else if pairs[from].name == name {
        Some(from)
    } else {
        pair_of(pairs, name, from + 1)
    }
}

/// The text under a name.
pub open spec fn value_under(pairs: Seq<PairView>, name: Seq<char>) -> Option<Seq<char>> {
    match pair_of(pairs, name, 0) {
        Some(i) => Some(pairs[i].value),
        None => None,
    }
}

/// No name stands twice.
pub open spec fn distinct_names(pairs: Seq<PairView>) -> bool {
    forall|i: int, j: int|
        0 <= i < j < pairs.len() ==> (#[trigger] pairs[i]).name != (#[trigger] pairs[j]).name
}

/// How much a caller may give.
#[derive(Clone, Copy, Debug, PartialEq, Eq, Structural)]
pub struct PairLimits {
    pub bytes: usize,
    pub entries: usize,
}

/// Whether pairs may be taken: no name stands twice, none asks for another
/// directory, and there is not too much of it.
pub open spec fn acceptable_pairs(pairs: Seq<PairView>, limits: PairLimits) -> bool {
    &&& distinct_names(pairs)
    &&& forall|i: int| 0 <= i < pairs.len() ==> (#[trigger] pairs[i]).name != "dir"@
    &&& pairs.len() <= limits.entries
    &&& pairs_bytes(pairs) <= limits.bytes
}

pub proof fn lemma_pair_of(pairs: Seq<PairView>, name: Seq<char>, from: int)
    requires
        0 <= from,
    ensures
        match pair_of(pairs, name, from) {
            Some(i) => from <= i < pairs.len() && pairs[i].name == name && forall|k: int|
                from <= k < i ==> (#[trigger] pairs[k]).name != name,
            None => forall|k: int| from <= k < pairs.len() ==> (#[trigger] pairs[k]).name != name,
        },
    decreases pairs.len() - from,
{
    if from < pairs.len() && pairs[from].name != name {
        lemma_pair_of(pairs, name, from + 1);
    }
}

/// Finds the pair of a name.
pub fn find_pair(pairs: &Vec<TextPair>, name: &str) -> (r: Option<usize>)
    ensures
        r is Some <==> pair_of(pair_views(pairs@), name@, 0) is Some,
        r matches Some(i) ==> i < pairs.len() && pair_of(pair_views(pairs@), name@, 0) == Some(i as int),
{
    let ghost views = pair_views(pairs@);
    let mut i: usize = 0;
    while i < pairs.len()
        invariant
            i <= pairs.len(),
            views == pair_views(pairs@),
            pair_of(views, name@, 0) == pair_of(views, name@, i as int),
        decreases pairs.len() - i,
    {
        assert(views[i as int] == pairs@[i as int]@);
        if same_text(pairs[i].name.as_str(), name) {
            return Some(i);
        }
        i = i + 1;
    }
    None
}

proof fn lemma_bytes_of_part(pairs: Seq<PairView>, n: int)
    requires
        0 <= n <= pairs.len(),
    ensures
        0 <= pairs_bytes(pairs.take(n)) <= pairs_bytes(pairs),
    decreases pairs.len(),
{
    if n < pairs.len() {
        lemma_bytes_of_part(pairs.drop_last(), n);
        assert(pairs.drop_last().take(n) =~= pairs.take(n));
    } else if n > 0 {
        lemma_bytes_of_part(pairs.drop_last(), n - 1);
        assert(pairs.take(n) =~= pairs);
        assert(pairs.drop_last().take(n - 1) =~= pairs.drop_last());
    }
}

/// Whether pairs may be taken.
pub fn accept_pairs(pairs: &Vec<TextPair>, limits: PairLimits) -> (r: bool)
    ensures
        r == acceptable_pairs(pair_views(pairs@), limits),
{
    let ghost views = pair_views(pairs@);
    let mut bytes: usize = 0;
    let mut i: usize = 0;
    while i < pairs.len()
        invariant
            i <= pairs.len(),
            views == pair_views(pairs@),
            i <= limits.entries,
            bytes == pairs_bytes(views.take(i as int)),
            bytes <= limits.bytes,
            distinct_names(views.take(i as int)),
            forall|k: int| 0 <= k < i ==> (#[trigger] views[k]).name != "dir"@,
        decreases pairs.len() - i,
    {
        let pair = &pairs[i];
        proof {
            assert(views[i as int] == pairs@[i as int]@);
            assert(views.take(i as int + 1).drop_last() =~= views.take(i as int));
            lemma_bytes_of_part(views, i as int + 1);
        }
        let added: usize = bytes.saturating_add(pair.name.as_str().len()).saturating_add(
            pair.value.as_str().len(),
        ).saturating_add(128);
        if i >= limits.entries || same_text(pair.name.as_str(), "dir") {
            return false;
        }
        if added > limits.bytes {
            return false;
        }
        let mut k: usize = 0;
        while k < i
            invariant
                k <= i,
                i < pairs.len(),
                views == pair_views(pairs@),
                pair == &pairs@[i as int],
                forall|j: int| 0 <= j < k ==> (#[trigger] views[j]).name != views[i as int].name,
            decreases i - k,
        {
            assert(views[k as int] == pairs@[k as int]@);
            assert(views[i as int] == pairs@[i as int]@);
            if same_text(pairs[k].name.as_str(), pair.name.as_str()) {
                assert(views[k as int].name == views[i as int].name);
                assert(!distinct_names(views));
                return false;
            }
            k = k + 1;
        }
        bytes = added;
        proof {
            let next = views.take(i as int + 1);
            assert forall|a: int, b: int| 0 <= a < b < next.len() implies (#[trigger] next[a]).name != (
            #[trigger] next[b]).name by {
                if b < i {
                    assert(views.take(i as int)[a].name != views.take(i as int)[b].name);
                } else {
                    assert(views[a].name != views[i as int].name);
                }
            }
        }
        i = i + 1;
    }
    assert(views.take(i as int) =~= views);
    true
}

} // verus!
