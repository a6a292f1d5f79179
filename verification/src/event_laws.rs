//! Laws of events: what a subscriber asks for, what it gets and in which order.
use vstd::prelude::*;
use crate::json::{json_field, json_gid, json_items, json_text, Json};
use crate::rpc_broker::{
    delivered, enqueued, kept_events, refiltered, same_key, Enqueued, SubscriberView,
};
use crate::rpc_budget::LedgerView;
use crate::rpc_events::{
    filter_of, gid_items, key_view, method_items, notified, requested_filter, selects, FilterView, RpcEvent,
    RpcEventClass, RpcEventError, RpcEventKey,
};
use crate::rpc_filter_order::law_a_filter_holds_its_selections;

verus! {

/// Events are taken in the order in which they wait, one at a time; with one comes the
/// number of those that were dropped since the last, which is then counted anew.
pub proof fn law_events_are_delivered_in_order(subscriber: SubscriberView, bytes: int)
    ensures
        ({
            let (r, after) = delivered(subscriber, bytes);
            &&& r matches Ok(Some((event, dropped))) ==> {
                &&& subscriber.queue.len() > 0
                &&& event == subscriber.queue[0]
                &&& dropped == subscriber.dropped
                &&& after.dropped == 0
                &&& subscriber.queue == seq![event] + after.queue
                &&& after.filter == subscriber.filter
                &&& after.limits == subscriber.limits
                &&& after.disconnect is None
            }
            &&& !(r matches Ok(Some(_))) ==> after == subscriber
            &&& r == Ok::<Option<(RpcEvent, u64)>, RpcEventError>(None) ==> subscriber.queue.len() == 0
            &&& subscriber.disconnect matches Some(reason) ==> r == Err::<Option<(RpcEvent, u64)>, RpcEventError>(
                RpcEventError::Disconnected(reason),
            )
        }),
{
    if subscriber.queue.len() > 0 {
        assert(subscriber.queue =~= seq![subscriber.queue[0]] + subscriber.queue.drop_first());
    }
}

/// An event that is selected joins the end of the queue, takes the place of the one that it
/// replaces, or is counted as dropped; a reliable one that cannot be held cuts the subscriber
/// off instead. Nothing else changes what waits.
pub proof fn law_an_event_joins_the_queue_once(subscriber: SubscriberView, ledger: LedgerView, event: RpcEvent)
    requires
        subscriber.disconnect is None,
        selects(subscriber.filter, event),
        subscriber.dropped < u64::MAX,
        subscriber.coalesced < u64::MAX,
    ensures
        ({
            let after = enqueued(subscriber, ledger, event).subscriber;
            let joined = after.queue == subscriber.queue.push(event) && after.dropped == subscriber.dropped
                && after.coalesced == subscriber.coalesced && after.disconnect is None;
            let took_place = event.class is Coalesced && after.queue.len() == subscriber.queue.len() && after.dropped
                == subscriber.dropped && after.coalesced == subscriber.coalesced + 1 && after.disconnect is None
                && exists|i: int|
                0 <= i < after.queue.len() && key_view(subscriber.queue[i].key) == key_view(event.key) && (
                #[trigger] after.queue[i]) == event && forall|j: int|
                    0 <= j < after.queue.len() && j != i ==> #[trigger] after.queue[j] == subscriber.queue[j];
            let counted = !(event.class is Reliable) && after.queue == subscriber.queue && after.dropped
                == subscriber.dropped + 1 && after.disconnect is None;
            let cut_off = event.class is Reliable && after.disconnect is Some && after.queue.len() == 0;
            joined || took_place || counted || cut_off
        }),
{
    lemma_key_place(subscriber.queue, event.key, 0);
    let after = enqueued(subscriber, ledger, event).subscriber;
    if event.class == RpcEventClass::Coalesced && same_key(subscriber.queue, event.key, 0) is Some {
        let i = same_key(subscriber.queue, event.key, 0)->0;
        if after.dropped == subscriber.dropped {
            assert(after.queue[i] == event);
            assert forall|j: int| 0 <= j < after.queue.len() && j != i implies #[trigger] after.queue[j]
                == subscriber.queue[j] by {
            }
        }
    }
}

proof fn lemma_key_place(queue: Seq<RpcEvent>, key: Option<RpcEventKey>, from: int)
    requires
        0 <= from,
    ensures
        same_key(queue, key, from) matches Some(i) ==> from <= i < queue.len() && key_view(queue[i].key) == key_view(key),
        same_key(queue, key, from) is None ==> forall|k: int|
            from <= k < queue.len() ==> key_view((#[trigger] queue[k]).key) != key_view(key),
    decreases queue.len() - from,
{
    if from < queue.len() && key_view(queue[from].key) != key_view(key) {
        lemma_key_place(queue, key, from + 1);
    }
}

/// An event that fits and can be paid for is never dropped.
pub proof fn law_an_event_that_fits_is_kept(subscriber: SubscriberView, ledger: LedgerView, event: RpcEvent)
    requires
        subscriber.disconnect is None,
        selects(subscriber.filter, event),
        subscriber.queue.len() < subscriber.limits.events,
        subscriber.queued_bytes + event.serialized_bytes <= subscriber.limits.bytes,
        crate::rpc_budget::event_charged(
            ledger.accounts(subscriber.client as int),
            crate::rpc_broker::event_bytes(event),
        ) is Ok,
        !(event.class is Coalesced),
    ensures
        enqueued(subscriber, ledger, event).subscriber.queue == subscriber.queue.push(event),
        enqueued(subscriber, ledger, event).subscriber.queued_bytes == subscriber.queued_bytes + event.serialized_bytes,
{
}

/// A queue never holds more events or bytes than its subscriber may.
pub proof fn law_queues_stay_within_their_limits(subscriber: SubscriberView, ledger: LedgerView, event: RpcEvent)
    requires
        subscriber.queue.len() <= subscriber.limits.events,
        subscriber.queued_bytes <= subscriber.limits.bytes,
    ensures
        enqueued(subscriber, ledger, event).subscriber.queue.len() <= subscriber.limits.events,
        enqueued(subscriber, ledger, event).subscriber.queued_bytes <= subscriber.limits.bytes,
        enqueued(subscriber, ledger, event).subscriber.limits == subscriber.limits,
{
    lemma_key_place(subscriber.queue, event.key, 0);
}

/// A new filter keeps the waiting events that it selects, in their order, and no other.
pub proof fn law_a_new_filter_keeps_what_it_selects(
    subscriber: SubscriberView,
    ledger: LedgerView,
    filter: FilterView,
    filter_bytes: usize,
    next: Enqueued,
)
    requires
        refiltered(subscriber, ledger, filter, filter_bytes) == Ok::<Enqueued, RpcEventError>(next),
    ensures
        next.subscriber.filter == filter,
        forall|k: int|
            0 <= k < next.subscriber.queue.len() ==> selects(filter, #[trigger] next.subscriber.queue[k])
                && subscriber.queue.contains(next.subscriber.queue[k]),
        forall|k: int|
            0 <= k < subscriber.queue.len() && selects(filter, #[trigger] subscriber.queue[k])
                ==> next.subscriber.queue.contains(subscriber.queue[k]),
        (forall|k: int| 0 <= k < subscriber.queue.len() ==> selects(filter, #[trigger] subscriber.queue[k]))
            ==> next.subscriber.queue == subscriber.queue,
        next.subscriber.dropped == subscriber.dropped,
{
    let n = subscriber.queue.len() as int;
    lemma_kept(subscriber.queue, filter, n);
    if forall|k: int| 0 <= k < subscriber.queue.len() ==> selects(filter, #[trigger] subscriber.queue[k]) {
        lemma_all_kept(subscriber.queue, filter, n);
        assert(subscriber.queue.take(n) =~= subscriber.queue);
    }
}

proof fn lemma_kept(queue: Seq<RpcEvent>, filter: FilterView, n: int)
    requires
        0 <= n <= queue.len(),
    ensures
        forall|k: int|
            0 <= k < kept_events(queue, filter, n).len() ==> selects(filter, #[trigger] kept_events(queue, filter, n)[k])
                && queue.contains(kept_events(queue, filter, n)[k]),
        forall|k: int|
            0 <= k < n && selects(filter, #[trigger] queue[k]) ==> kept_events(queue, filter, n).contains(queue[k]),
    decreases n,
{
    if n > 0 {
        lemma_kept(queue, filter, n - 1);
        let before = kept_events(queue, filter, n - 1);
        let all = kept_events(queue, filter, n);
        assert forall|k: int| 0 <= k < n && selects(filter, #[trigger] queue[k]) implies all.contains(queue[k]) by {
            if k < n - 1 {
                let at = before.index_of(queue[k]);
                assert(all[at] == queue[k]);
            } else {
                assert(all[before.len() as int] == queue[k]);
            }
        }
    }
}

proof fn lemma_all_kept(queue: Seq<RpcEvent>, filter: FilterView, n: int)
    requires
        0 <= n <= queue.len(),
        forall|k: int| 0 <= k < queue.len() ==> selects(filter, #[trigger] queue[k]),
    ensures
        kept_events(queue, filter, n) == queue.take(n),
    decreases n,
{
    if n > 0 {
        lemma_all_kept(queue, filter, n - 1);
        assert(queue.take(n) =~= queue.take(n - 1).push(queue[n - 1]));
    } else {
        assert(queue.take(0) =~= Seq::empty());
    }
}

/// A filter without methods selects events of all methods, and one without tasks those of all
/// tasks; events of no task in particular pass by the tasks.
pub proof fn law_filters_select_what_they_name(filter: FilterView, event: RpcEvent)
    ensures
        filter.methods.len() == 0 && filter.gids.len() == 0 ==> selects(filter, event),
        filter.methods.len() > 0 && !filter.methods.contains(event.method@) ==> !selects(filter, event),
        filter.methods.contains(event.method@) && filter.gids.len() == 0 ==> selects(filter, event),
        event.gid matches Some(gid) ==> filter.gids.len() > 0 && !filter.gids.contains(gid) ==> !selects(filter, event),
        event.gid matches Some(gid) ==> filter.gids.contains(gid) && filter.methods.contains(event.method@)
            ==> selects(filter, event),
        event.gid is None && filter.methods.len() == 0 ==> selects(filter, event),
{
}

/// A filter that is asked for holds the methods and the tasks that the request lists under
/// these names, and no others.
pub proof fn law_requested_filters_hold_what_is_listed(value: Json, filter: FilterView)
    requires
        requested_filter(value) == Some(filter),
    ensures
        json_field(value, "methods"@) is None ==> filter.methods.len() == 0,
        json_field(value, "methods"@) matches Some(list) ==> json_items(list) is Some && (forall|i: int|
            0 <= i < json_items(list)->0.len() ==> json_text(#[trigger] json_items(list)->0[i]) is Some
                && filter.methods.contains(json_text(json_items(list)->0[i])->0)) && (forall|k: int|
            0 <= k < filter.methods.len() ==> exists|i: int|
                0 <= i < json_items(list)->0.len() && json_text(#[trigger] json_items(list)->0[i]) == Some(
                    #[trigger] filter.methods[k],
                )),
        json_field(value, "gids"@) is None ==> filter.gids.len() == 0,
        json_field(value, "gids"@) matches Some(list) ==> json_items(list) is Some && (forall|i: int|
            0 <= i < json_items(list)->0.len() ==> json_gid(#[trigger] json_items(list)->0[i]) is Some
                && filter.gids.contains(json_gid(json_items(list)->0[i])->0)) && (forall|k: int|
            0 <= k < filter.gids.len() ==> exists|i: int|
                0 <= i < json_items(list)->0.len() && json_gid(#[trigger] json_items(list)->0[i]) == Some(
                    #[trigger] filter.gids[k],
                )),
{
    let method_list = match json_field(value, "methods"@) {
        Some(list) => json_items(list)->0,
        None => Seq::empty(),
    };
    let gid_list = match json_field(value, "gids"@) {
        Some(list) => json_items(list)->0,
        None => Seq::empty(),
    };
    let methods = method_items(method_list)->0;
    let gids = gid_items(gid_list)->0;
    assert(filter == filter_of(methods, gids));
    law_a_filter_holds_its_selections(methods, gids);
    assert(methods.len() == method_list.len());
    assert(gids.len() == gid_list.len());
    assert forall|i: int| 0 <= i < method_list.len() implies json_text(#[trigger] method_list[i]) is Some
        && filter.methods.contains(json_text(method_list[i])->0) by {
        assert(crate::rpc_events::short_text(method_list[i]));
        assert(methods[i] == json_text(method_list[i])->0);
        assert(methods.contains(methods[i]));
    }
    assert forall|k: int| 0 <= k < filter.methods.len() implies exists|i: int|
        0 <= i < method_list.len() && json_text(#[trigger] method_list[i]) == Some(#[trigger] filter.methods[k]) by {
        assert(filter.methods.contains(filter.methods[k]));
        let i = methods.index_of(filter.methods[k]);
        assert(methods[i] == json_text(method_list[i])->0);
        assert(crate::rpc_events::short_text(method_list[i]));
    }
    assert forall|i: int| 0 <= i < gid_list.len() implies json_gid(#[trigger] gid_list[i]) is Some
        && filter.gids.contains(json_gid(gid_list[i])->0) by {
        assert(gids[i] == json_gid(gid_list[i])->0);
        assert(gids.contains(gids[i]));
    }
    assert forall|k: int| 0 <= k < filter.gids.len() implies exists|i: int|
        0 <= i < gid_list.len() && json_gid(#[trigger] gid_list[i]) == Some(#[trigger] filter.gids[k]) by {
        assert(filter.gids.contains(filter.gids[k]));
        let i = gids.index_of(filter.gids[k]);
        assert(gids[i] == json_gid(gid_list[i])->0);
    }
    if method_list.len() == 0 && filter.methods.len() > 0 {
        assert(filter.methods.contains(filter.methods[0]));
    }
    if gid_list.len() == 0 && filter.gids.len() > 0 {
        assert(filter.gids.contains(filter.gids[0]));
    }
}

/// An event is of the task that its key names; without such a key, of the task that its
/// parameters name, themselves or in their first item.
pub proof fn law_events_are_of_the_task_they_name(
    ticket: u64,
    method: String,
    params: Json,
    class: RpcEventClass,
    key: Option<RpcEventKey>,
    serialized_bytes: Option<usize>,
    owned_bytes: usize,
    event: RpcEvent,
)
    requires
        notified(ticket, method, params, class, key, serialized_bytes, owned_bytes) == Ok::<RpcEvent, RpcEventError>(
            event,
        ),
    ensures
        event.method == method,
        event.class == class,
        event.key == key,
        event.ticket == ticket,
        event.owned_bytes == owned_bytes,
        serialized_bytes == Some(event.serialized_bytes),
        class is Coalesced ==> key is Some,
        key matches Some(key) ==> key.gid is Some ==> event.gid == key.gid,
        key is None || key->0.gid is None ==> {
            &&& json_field(params, "gid"@) matches Some(named) ==> event.gid == json_gid(named)
            &&& json_field(params, "gid"@) is None && json_items(params) is Some && json_items(params)->0.len() > 0
                && json_field(json_items(params)->0[0], "gid"@) is Some ==> event.gid == json_gid(
                json_field(json_items(params)->0[0], "gid"@)->0,
            )
        },
{
}

} // verus!
