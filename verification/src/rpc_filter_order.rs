//! Filters of events do not depend on the order in which they are spelled.
use vstd::prelude::*;
use crate::rpc_events::{
    ascending_gids, ascending_texts, filter_fits, filter_of, method_name, put_gid, put_text,
    MAX_RPC_EVENT_FILTER_GIDS, MAX_RPC_EVENT_FILTER_METHODS,
};
use crate::session::Gid;
use crate::text::text_before;

verus! {

/// Whether two lists have the same members, in whatever order and however often.
pub open spec fn same_members<T>(a: Seq<T>, b: Seq<T>) -> bool {
    forall|x: T| #[trigger] a.contains(x) <==> b.contains(x)
}

/// Whether texts ascend strictly.
pub open spec fn texts_ascend(list: Seq<Seq<char>>) -> bool {
    forall|i: int, k: int| 0 <= i < k < list.len() ==> text_before(#[trigger] list[i], #[trigger] list[k])
}

/// Whether GIDs ascend strictly.
pub open spec fn gids_ascend(list: Seq<Gid>) -> bool {
    forall|i: int, k: int| 0 <= i < k < list.len() ==> (#[trigger] list[i]).0 < (#[trigger] list[k]).0
}

/// Of two texts that differ, exactly one stands before the other.
proof fn lemma_texts_compare(a: Seq<char>, b: Seq<char>)
    ensures
        a == b ==> !text_before(a, b),
        a != b ==> text_before(a, b) == !text_before(b, a),
    decreases a.len(),
{
    if a.len() > 0 && b.len() > 0 && a[0] == b[0] {
        lemma_texts_compare(a.drop_first(), b.drop_first());
        if a.drop_first() == b.drop_first() {
            assert(a =~= seq![a[0]] + a.drop_first());
            assert(b =~= seq![b[0]] + b.drop_first());
        }
    } else if a.len() == 0 && b.len() == 0 {
        assert(a =~= b);
    }
}

/// Whatever stands before a text stands before all that it stands before.
proof fn lemma_texts_chain(a: Seq<char>, b: Seq<char>, c: Seq<char>)
    requires
        text_before(a, b),
        text_before(b, c),
    ensures
        text_before(a, c),
    decreases a.len(),
{
    if a.len() > 0 && a[0] == b[0] && b[0] == c[0] {
        lemma_texts_chain(a.drop_first(), b.drop_first(), c.drop_first());
    }
}

/// The members of a list with one more.
proof fn lemma_push_members<T>(list: Seq<T>, last: T)
    ensures
        forall|x: T| #[trigger] list.push(last).contains(x) <==> list.contains(x) || x == last,
{
    assert forall|x: T| #[trigger] list.push(last).contains(x) <==> list.contains(x) || x == last by {
        if list.contains(x) {
            let i = list.index_of(x);
            assert(list.push(last)[i] == x);
        }
        assert(list.push(last)[list.len() as int] == last);
    }
}

/// A text put in its place is one more member, and the order stays.
proof fn lemma_put_text(sorted: Seq<Seq<char>>, text: Seq<char>)
    requires
        texts_ascend(sorted),
    ensures
        texts_ascend(put_text(sorted, text)),
        forall|x: Seq<char>| #[trigger] put_text(sorted, text).contains(x) <==> sorted.contains(x) || x == text,
    decreases sorted.len(),
{
    if sorted.len() == 0 {
        assert(seq![text] =~= sorted.push(text));
        lemma_push_members(sorted, text);
    } else {
        let rest = sorted.drop_last();
        let last = sorted.last();
        assert(sorted =~= rest.push(last));
        lemma_push_members(rest, last);
        lemma_texts_compare(last, text);
        if text == last {
        } else if text_before(last, text) {
            lemma_push_members(sorted, text);
            assert forall|i: int| 0 <= i < sorted.len() implies text_before(#[trigger] sorted[i], text) by {
                if i < rest.len() {
                    lemma_texts_chain(sorted[i], sorted[sorted.len() - 1], text);
                }
            }
        } else {
            lemma_put_text(rest, text);
            let put = put_text(rest, text);
            lemma_push_members(put, last);
            assert forall|i: int| 0 <= i < put.len() implies text_before(#[trigger] put[i], last) by {
                assert(put.contains(put[i]));
                if put[i] != text {
                    let k = rest.index_of(put[i]);
                    assert(sorted[k] == put[i] && sorted[sorted.len() - 1] == last);
                }
            }
        }
    }
}

/// A GID put in its place is one more member, and the order stays.
proof fn lemma_put_gid(sorted: Seq<Gid>, gid: Gid)
    requires
        gids_ascend(sorted),
    ensures
        gids_ascend(put_gid(sorted, gid)),
        forall|x: Gid| #[trigger] put_gid(sorted, gid).contains(x) <==> sorted.contains(x) || x == gid,
    decreases sorted.len(),
{
    if sorted.len() == 0 {
        assert(seq![gid] =~= sorted.push(gid));
        lemma_push_members(sorted, gid);
    } else {
        let rest = sorted.drop_last();
        let last = sorted.last();
        assert(sorted =~= rest.push(last));
        lemma_push_members(rest, last);
        if gid == last {
        } else if last.0 < gid.0 {
            lemma_push_members(sorted, gid);
        } else {
            lemma_put_gid(rest, gid);
            let put = put_gid(rest, gid);
            lemma_push_members(put, last);
            assert forall|i: int| 0 <= i < put.len() implies (#[trigger] put[i]).0 < last.0 by {
                assert(put.contains(put[i]));
                if put[i] != gid {
                    let k = rest.index_of(put[i]);
                    assert(sorted[k] == put[i] && sorted[sorted.len() - 1] == last);
                }
            }
        }
    }
}

/// The first texts of a list, put in order, ascend and are the same.
proof fn lemma_ascending_texts(list: Seq<Seq<char>>, n: int)
    requires
        0 <= n <= list.len(),
    ensures
        texts_ascend(ascending_texts(list, n)),
        same_members(ascending_texts(list, n), list.take(n)),
    decreases n,
{
    if n > 0 {
        lemma_ascending_texts(list, n - 1);
        lemma_put_text(ascending_texts(list, n - 1), list[n - 1]);
        assert(list.take(n) =~= list.take(n - 1).push(list[n - 1]));
        lemma_push_members(list.take(n - 1), list[n - 1]);
        assert forall|x: Seq<char>| #[trigger]
            ascending_texts(list, n).contains(x) <==> list.take(n).contains(x) by {
            assert(ascending_texts(list, n - 1).contains(x) <==> list.take(n - 1).contains(x));
        }
    }
}

/// The first GIDs of a list, put in order, ascend and are the same.
proof fn lemma_ascending_gids(list: Seq<Gid>, n: int)
    requires
        0 <= n <= list.len(),
    ensures
        gids_ascend(ascending_gids(list, n)),
        same_members(ascending_gids(list, n), list.take(n)),
    decreases n,
{
    if n > 0 {
        lemma_ascending_gids(list, n - 1);
        lemma_put_gid(ascending_gids(list, n - 1), list[n - 1]);
        assert(list.take(n) =~= list.take(n - 1).push(list[n - 1]));
        lemma_push_members(list.take(n - 1), list[n - 1]);
        assert forall|x: Gid| #[trigger] ascending_gids(list, n).contains(x) <==> list.take(n).contains(x) by {
            assert(ascending_gids(list, n - 1).contains(x) <==> list.take(n - 1).contains(x));
        }
    }
}

/// Lists that ascend and have the same members are the same.
proof fn lemma_texts_settled(a: Seq<Seq<char>>, b: Seq<Seq<char>>)
    requires
        texts_ascend(a),
        texts_ascend(b),
        same_members(a, b),
    ensures
        a == b,
    decreases a.len(),
{
    if a.len() == 0 {
        if b.len() > 0 {
            assert(b.contains(b[0]) && !a.contains(b[0]));
        }
        assert(a =~= b);
    } else {
        let last = a.last();
        assert(a.contains(last));
        let k = b.index_of(last);
        assert(b.contains(b.last()));
        assert(a.contains(b.last()));
        let i = a.index_of(b.last());
        lemma_texts_compare(last, b.last());
        assert(i < a.len() - 1 ==> text_before(a[i], a[a.len() - 1]));
        assert(k < b.len() - 1 ==> text_before(b[k], b[b.len() - 1]));
        assert(last == b.last());
        let (rest, other) = (a.drop_last(), b.drop_last());
        assert(a =~= rest.push(last) && b =~= other.push(last));
        lemma_push_members(rest, last);
        lemma_push_members(other, last);
        lemma_texts_compare(last, last);
        assert(!rest.contains(last)) by {
            if rest.contains(last) {
                assert(text_before(a[rest.index_of(last)], a[a.len() - 1]));
            }
        }
        assert(!other.contains(last)) by {
            if other.contains(last) {
                assert(text_before(b[other.index_of(last)], b[b.len() - 1]));
            }
        }
        assert forall|x: Seq<char>| #[trigger] rest.contains(x) <==> other.contains(x) by {
            assert(a.contains(x) <==> b.contains(x));
        }
        lemma_texts_settled(rest, other);
    }
}

/// GIDs that ascend and have the same members are the same.
proof fn lemma_gids_settled(a: Seq<Gid>, b: Seq<Gid>)
    requires
        gids_ascend(a),
        gids_ascend(b),
        same_members(a, b),
    ensures
        a == b,
    decreases a.len(),
{
    if a.len() == 0 {
        if b.len() > 0 {
            assert(b.contains(b[0]) && !a.contains(b[0]));
        }
        assert(a =~= b);
    } else {
        let last = a.last();
        assert(a.contains(last));
        let k = b.index_of(last);
        assert(b.contains(b.last()));
        assert(a.contains(b.last()));
        let i = a.index_of(b.last());
        assert(i < a.len() - 1 ==> a[i].0 < a[a.len() - 1].0);
        assert(k < b.len() - 1 ==> b[k].0 < b[b.len() - 1].0);
        assert(last == b.last());
        let (rest, other) = (a.drop_last(), b.drop_last());
        assert(a =~= rest.push(last) && b =~= other.push(last));
        lemma_push_members(rest, last);
        lemma_push_members(other, last);
        assert(!rest.contains(last)) by {
            if rest.contains(last) {
                assert(a[rest.index_of(last)].0 < a[a.len() - 1].0);
            }
        }
        assert(!other.contains(last)) by {
            if other.contains(last) {
                assert(b[other.index_of(last)].0 < b[b.len() - 1].0);
            }
        }
        assert forall|x: Gid| #[trigger] rest.contains(x) <==> other.contains(x) by {
            assert(a.contains(x) <==> b.contains(x));
        }
        lemma_gids_settled(rest, other);
    }
}

/// A filter holds exactly the methods and tasks that were selected, each once and in
/// ascending order.
pub proof fn law_a_filter_holds_its_selections(methods: Seq<Seq<char>>, gids: Seq<Gid>)
    ensures
        same_members(filter_of(methods, gids).methods, methods),
        texts_ascend(filter_of(methods, gids).methods),
        same_members(filter_of(methods, gids).gids, gids),
        gids_ascend(filter_of(methods, gids).gids),
{
    lemma_ascending_texts(methods, methods.len() as int);
    lemma_ascending_gids(gids, gids.len() as int);
    assert(methods.take(methods.len() as int) =~= methods);
    assert(gids.take(gids.len() as int) =~= gids);
}

/// Neither the order of selections nor how often one is given matters, as long as
/// there are not too many: the same methods and tasks are accepted or refused alike,
/// and make the same filter.
pub proof fn law_order_and_repetition_of_selections_do_not_matter(
    methods: Seq<Seq<char>>,
    gids: Seq<Gid>,
    other_methods: Seq<Seq<char>>,
    other_gids: Seq<Gid>,
)
    requires
        methods.len() <= MAX_RPC_EVENT_FILTER_METHODS,
        other_methods.len() <= MAX_RPC_EVENT_FILTER_METHODS,
        gids.len() <= MAX_RPC_EVENT_FILTER_GIDS,
        other_gids.len() <= MAX_RPC_EVENT_FILTER_GIDS,
        same_members(methods, other_methods),
        same_members(gids, other_gids),
    ensures
        filter_fits(methods, gids) == filter_fits(other_methods, other_gids),
        filter_of(methods, gids) == filter_of(other_methods, other_gids),
{
    lemma_fits_alike(methods, gids, other_methods, other_gids);
    assert(same_members(other_methods, methods));
    assert(same_members(other_gids, gids));
    lemma_fits_alike(other_methods, other_gids, methods, gids);
    law_a_filter_holds_its_selections(methods, gids);
    law_a_filter_holds_its_selections(other_methods, other_gids);
    let (a, b) = (filter_of(methods, gids), filter_of(other_methods, other_gids));
    assert(same_members(a.methods, b.methods)) by {
        assert forall|x: Seq<char>| #[trigger] a.methods.contains(x) <==> b.methods.contains(x) by {
            assert(methods.contains(x) <==> other_methods.contains(x));
        }
    }
    assert(same_members(a.gids, b.gids)) by {
        assert forall|x: Gid| #[trigger] a.gids.contains(x) <==> b.gids.contains(x) by {
            assert(gids.contains(x) <==> other_gids.contains(x));
        }
    }
    lemma_texts_settled(a.methods, b.methods);
    lemma_gids_settled(a.gids, b.gids);
}

/// Selections are accepted where others with the same members are.
proof fn lemma_fits_alike(
    methods: Seq<Seq<char>>,
    gids: Seq<Gid>,
    other_methods: Seq<Seq<char>>,
    other_gids: Seq<Gid>,
)
    requires
        other_methods.len() <= MAX_RPC_EVENT_FILTER_METHODS,
        other_gids.len() <= MAX_RPC_EVENT_FILTER_GIDS,
        same_members(methods, other_methods),
    ensures
        filter_fits(methods, gids) ==> filter_fits(other_methods, other_gids),
{
    if filter_fits(methods, gids) {
        assert forall|i: int| 0 <= i < other_methods.len() implies method_name(#[trigger] other_methods[i]) by {
            assert(other_methods.contains(other_methods[i]));
            assert(methods.contains(other_methods[i]));
            let k = methods.index_of(other_methods[i]);
            assert(method_name(methods[k]));
        }
    }
}

} // verus!
