//! Total ordering of queue keys and a verified merge sort over them.
use vstd::prelude::*;
use vstd::relations::{sorted_by, total_ordering};
use vstd::seq_lib::{group_to_multiset_ensures, lemma_multiset_commutative, lemma_sorted_unique};

verus! {

/// One lexicographic sort key: rank first, then position, then identity.
#[derive(Clone, Copy, Debug, PartialEq, Eq, Structural)]
pub struct OrderKey {
    pub rank: u64,
    pub position: u64,
    pub id: u64,
}

/// The lexicographic order on keys.
pub open spec fn key_le(a: OrderKey, b: OrderKey) -> bool {
    ||| a.rank < b.rank
    ||| a.rank == b.rank && a.position < b.position
    ||| a.rank == b.rank && a.position == b.position && a.id <= b.id
}

/// [`key_le`] as a function value.
pub open spec fn key_order() -> spec_fn(OrderKey, OrderKey) -> bool {
    |a: OrderKey, b: OrderKey| key_le(a, b)
}

/// The keys in ascending order.
pub open spec fn sorted_keys(keys: Seq<OrderKey>) -> Seq<OrderKey> {
    keys.sort_by(key_order())
}

/// The key order is total.
pub proof fn lemma_key_order_total()
    ensures
        total_ordering(key_order()),
{
    let leq = key_order();
    assert(total_ordering(leq));
}

/// A sorted rearrangement of `keys` is `sorted_keys(keys)`.
pub proof fn lemma_sorted_is_canonical(keys: Seq<OrderKey>, sorted: Seq<OrderKey>)
    requires
        sorted_by(sorted, key_order()),
        sorted.to_multiset() == keys.to_multiset(),
    ensures
        sorted == sorted_keys(keys),
{
    lemma_key_order_total();
    keys.lemma_sort_by_ensures(key_order());
    lemma_sorted_unique(sorted, sorted_keys(keys), key_order());
}

/// Sorting rearranges: same length, same members, ascending.
pub proof fn lemma_sorted_keys(keys: Seq<OrderKey>)
    ensures
        sorted_keys(keys).len() == keys.len(),
        sorted_by(sorted_keys(keys), key_order()),
        sorted_keys(keys).to_multiset() == keys.to_multiset(),
        forall|k: OrderKey| sorted_keys(keys).contains(k) <==> keys.contains(k),
{
    broadcast use group_to_multiset_ensures;

    lemma_key_order_total();
    keys.lemma_sort_by_ensures(key_order());
    let s = sorted_keys(keys);
    assert(s.len() == s.to_multiset().len());
    assert(keys.len() == keys.to_multiset().len());
    assert forall|k: OrderKey| s.contains(k) <==> keys.contains(k) by {
        assert(s.contains(k) <==> s.to_multiset().count(k) > 0);
        assert(keys.contains(k) <==> keys.to_multiset().count(k) > 0);
    }
}

/// Whether `a` sorts at or before `b`.
pub fn key_at_most(a: OrderKey, b: OrderKey) -> (r: bool)
    ensures
        r == key_le(a, b),
{
    if a.rank != b.rank {
        a.rank < b.rank
    } else if a.position != b.position {
        a.position < b.position
    } else {
        a.id <= b.id
    }
}

/// Merges two sorted key vectors.
fn merge_keys(left: &Vec<OrderKey>, right: &Vec<OrderKey>) -> (out: Vec<OrderKey>)
    requires
        sorted_by(left@, key_order()),
        sorted_by(right@, key_order()),
    ensures
        sorted_by(out@, key_order()),
        out@.to_multiset() == left@.to_multiset().add(right@.to_multiset()),
{
    broadcast use group_to_multiset_ensures;

    let mut out: Vec<OrderKey> = Vec::new();
    let mut i: usize = 0;
    let mut j: usize = 0;
    let ghost leq = key_order();
    assert(left@.take(0) =~= Seq::<OrderKey>::empty());
    assert(right@.take(0) =~= Seq::<OrderKey>::empty());
    assert(out@.to_multiset() =~= left@.take(0).to_multiset().add(right@.take(0).to_multiset()));
    while i < left.len() || j < right.len()
        invariant
            i <= left.len(),
            j <= right.len(),
            leq == key_order(),
            sorted_by(left@, leq),
            sorted_by(right@, leq),
            sorted_by(out@, leq),
            out@.to_multiset() =~= left@.take(i as int).to_multiset().add(
                right@.take(j as int).to_multiset(),
            ),
            forall|a: int, b: int|
                #![trigger out[a], left[b]]
                0 <= a < out.len() && i <= b < left.len() ==> key_le(out[a], left[b]),
            forall|a: int, b: int|
                #![trigger out[a], right[b]]
                0 <= a < out.len() && j <= b < right.len() ==> key_le(out[a], right[b]),
        decreases left.len() - i + right.len() - j,
    {
        let take_left = if i < left.len() && j < right.len() {
            key_at_most(left[i], right[j])
        } else {
            i < left.len()
        };
        let ghost before = out@;
        if take_left {
            let k = left[i];
            proof {
                assert(left@.take(i as int + 1) =~= left@.take(i as int).push(k));
                assert forall|b: int| i < b < left.len() implies key_le(k, #[trigger] left[b]) by {
                    assert(leq(left@[i as int], left@[b]));
                }
                assert forall|b: int| j <= b < right.len() implies key_le(k, #[trigger] right[b]) by {
                    if b > j {
                        assert(leq(right@[j as int], right@[b]));
                    }
                }
                assert forall|a: int, b: int| 0 <= a < b < before.push(k).len() implies leq(
                    #[trigger] before.push(k)[a],
                    #[trigger] before.push(k)[b],
                ) by {
                    if b < before.len() {
                        assert(leq(before[a], before[b]));
                    } else {
                        assert(key_le(out[a], left[i as int]));
                    }
                }
            }
            let ghost seen = left@.take(i as int);
            out.push(k);
            i = i + 1;
            proof {
                before.to_multiset_ensures();
                seen.to_multiset_ensures();
                assert(out@ == before.push(k));
                assert(left@.take(i as int) == seen.push(k));
            }
            assert(out@.to_multiset() =~= left@.take(i as int).to_multiset().add(
                right@.take(j as int).to_multiset(),
            ));
        } else {
            let k = right[j];
            proof {
                assert(right@.take(j as int + 1) =~= right@.take(j as int).push(k));
                assert forall|b: int| j < b < right.len() implies key_le(k, #[trigger] right[b]) by {
                    assert(leq(right@[j as int], right@[b]));
                }
                assert forall|b: int| i <= b < left.len() implies key_le(k, #[trigger] left[b]) by {
                    if b > i {
                        assert(leq(left@[i as int], left@[b]));
                    }
                }
                assert forall|a: int, b: int| 0 <= a < b < before.push(k).len() implies leq(
                    #[trigger] before.push(k)[a],
                    #[trigger] before.push(k)[b],
                ) by {
                    if b < before.len() {
                        assert(leq(before[a], before[b]));
                    } else {
                        assert(key_le(out[a], right[j as int]));
                    }
                }
            }
            let ghost seen = right@.take(j as int);
            out.push(k);
            j = j + 1;
            proof {
                before.to_multiset_ensures();
                seen.to_multiset_ensures();
                assert(out@ == before.push(k));
                assert(right@.take(j as int) == seen.push(k));
            }
            assert(out@.to_multiset() =~= left@.take(i as int).to_multiset().add(
                right@.take(j as int).to_multiset(),
            ));
        }
    }
    assert(left@.take(i as int) =~= left@);
    assert(right@.take(j as int) =~= right@);
    out
}

/// The sorted keys of `keys[from..to]`.
fn sort_range(keys: &Vec<OrderKey>, from: usize, to: usize) -> (out: Vec<OrderKey>)
    requires
        from <= to <= keys.len(),
    ensures
        sorted_by(out@, key_order()),
        out@.to_multiset() == keys@.subrange(from as int, to as int).to_multiset(),
    decreases to - from,
{
    if to - from <= 1 {
        let mut out: Vec<OrderKey> = Vec::new();
        if from < to {
            out.push(keys[from]);
        }
        assert(out@ =~= keys@.subrange(from as int, to as int));
        return out;
    }
    let middle: usize = from + (to - from) / 2;
    let left = sort_range(keys, from, middle);
    let right = sort_range(keys, middle, to);
    let out = merge_keys(&left, &right);
    proof {
        let a = keys@.subrange(from as int, middle as int);
        let b = keys@.subrange(middle as int, to as int);
        lemma_multiset_commutative(a, b);
        assert(a + b =~= keys@.subrange(from as int, to as int));
    }
    out
}

/// Sorts keys into ascending order.
pub fn sort_keys(keys: &Vec<OrderKey>) -> (out: Vec<OrderKey>)
    ensures
        out@ == sorted_keys(keys@),
{
    let out = sort_range(keys, 0, keys.len());
    proof {
        assert(keys@.subrange(0, keys@.len() as int) =~= keys@);
        lemma_sorted_is_canonical(keys@, out@);
    }
    out
}

} // verus!
