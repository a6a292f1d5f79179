//! Laws of subscriptions: who is subscribed, to what, and what it costs.
use vstd::prelude::*;
use crate::rpc_broker::{
    lemma_number_is_free, lemma_place_of, next_for, number_is_free, place_for, place_of, refilters, subscribed,
    subscribes, subscription_fault, without_subscriber, BrokerView, Brokered, RpcEventDelivery, SubscriberView,
    Subscription,
};
use crate::rpc_client::{authorizes, ClientState};
use crate::rpc_events::{FilterView, RpcEventDisconnect, RpcEventError, MAX_RPC_EVENT_SUBSCRIBERS};

verus! {

/// The place for a number is among the others.
proof fn lemma_place_for(subscribers: Seq<SubscriberView>, id: u64, from: int)
    requires
        0 <= from <= subscribers.len(),
    ensures
        from <= place_for(subscribers, id, from) <= subscribers.len(),
    decreases subscribers.len() - from,
{
    if from < subscribers.len() && subscribers[from].id <= id {
        lemma_place_for(subscribers, id, from + 1);
    }
}

/// A subscription that is granted adds one subscriber with nothing waiting and nothing lost, within
/// the limits, under the filter and at the expense of the client that were named; all other
/// subscribers stay as they are. One that is refused changes nothing.
pub proof fn law_subscribing_adds_one_subscriber(
    before: Brokered,
    subscription: Subscription,
    filter: FilterView,
    after: Brokered,
    r: Result<u64, RpcEventError>,
)
    requires
        subscribes(before, subscription, filter, after, r),
        number_is_free(before.broker.subscribers, before.broker.next_id),
    ensures
        r is Err ==> after == before,
        r matches Ok(id) ==> {
            &&& before.broker.subscribers.len() < MAX_RPC_EVENT_SUBSCRIBERS
            &&& after.broker.subscribers.len() == before.broker.subscribers.len() + 1
            &&& exists|i: int|
                {
                    let added = #[trigger] after.broker.subscribers[i];
                    &&& 0 <= i < after.broker.subscribers.len()
                    &&& added.id == id
                    &&& added.queue.len() == 0
                    &&& added.queued_bytes == 0
                    &&& added.dropped == 0
                    &&& added.coalesced == 0
                    &&& added.disconnect is None
                    &&& added.limits == subscription.limits
                    &&& added.filter == filter
                    &&& added.client == subscription.client
                    &&& after.broker.subscribers.remove(i) == before.broker.subscribers
                }
            &&& after.broker.next_id != id || id == 0
            &&& id < u64::MAX ==> after.broker.next_id == id + 1
        },
        r is Err && subscription.limits.fits() && before.broker.subscribers.len() < MAX_RPC_EVENT_SUBSCRIBERS ==> r
            == Err::<u64, RpcEventError>(RpcEventError::BudgetExhausted),
        !subscription.limits.fits() ==> r == Err::<u64, RpcEventError>(RpcEventError::InvalidLimits),
{
    let others = before.broker.subscribers;
    let id = before.broker.next_id;
    lemma_place_of(others, id, 0);
    if let Some(i) = place_of(others, id, 0) {
        assert(others[i].id != id);
    }
    lemma_place_for(others, id, 0);
    if r is Ok {
        let place = place_for(others, id, 0);
        let list = after.broker.subscribers;
        assert(list[place].id == id);
        assert(list.remove(place) =~= others);
    }
}

/// Who unsubscribes is gone, and nobody else with it.
pub proof fn law_unsubscribing_removes_one_subscriber(before: Brokered, id: u64)
    requires
        before.broker.valid(before.ledger),
    ensures
        ({
            let after = without_subscriber(before.broker, before.ledger, id);
            &&& number_is_free(after.broker.subscribers, id)
            &&& after.broker.next_id == before.broker.next_id
            &&& number_is_free(before.broker.subscribers, id) ==> after == before
            &&& forall|i: int|
                0 <= i < before.broker.subscribers.len() && (#[trigger] before.broker.subscribers[i]).id != id
                    ==> after.broker.subscribers.contains(before.broker.subscribers[i])
            &&& !number_is_free(before.broker.subscribers, id) ==> after.broker.subscribers.len() + 1
                == before.broker.subscribers.len()
        }),
{
    let list = before.broker.subscribers;
    lemma_place_of(list, id, 0);
    lemma_number_is_free(list, id);
    if let Some(p) = place_of(list, id, 0) {
        let rest = list.remove(p);
        assert(!number_is_free(list, id)) by {
            assert(list[p].id == id);
        }
        assert forall|i: int| 0 <= i < list.len() && (#[trigger] list[i]).id != id implies rest.contains(list[i]) by {
            if i < p {
                assert(rest[i] == list[i]);
            } else {
                assert(rest[i - 1] == list[i]);
            }
        }
    }
}

/// A subscriber that leaves at once gives back everything that it was charged.
pub proof fn law_a_subscription_refunds_everything(before: Brokered, subscription: Subscription, filter: FilterView)
    requires
        before.broker.valid(before.ledger),
        before.broker.next_id < u64::MAX,
        number_is_free(before.broker.subscribers, before.broker.next_id),
        subscription.client < before.ledger.clients.len(),
        subscription_fault(before.broker, before.ledger, subscription) is None,
    ensures
        ({
            let held = subscribed(before.broker, before.ledger, subscription, filter);
            let after = without_subscriber(held.broker, held.ledger, before.broker.next_id);
            after.broker.subscribers == before.broker.subscribers && after.ledger == before.ledger
        }),
{
    let others = before.broker.subscribers;
    let id = before.broker.next_id;
    let held = subscribed(before.broker, before.ledger, subscription, filter);
    lemma_place_of(others, id, 0);
    if let Some(i) = place_of(others, id, 0) {
        assert(others[i].id != id);
    }
    lemma_place_for(others, id, 0);
    let place = place_for(others, id, 0);
    let list = held.broker.subscribers;
    assert(list[place].id == id);
    lemma_place_of(list, id, 0);
    let at = place_of(list, id, 0);
    assert(at is Some);
    assert(at->0 == place) by {
        let i = at->0;
        if i < place {
            assert(list[i] == others[i]);
        } else if i > place {
            assert(list[i] == others[i - 1]);
        }
    }
    assert(list.remove(place) =~= others);
    let after = without_subscriber(held.broker, held.ledger, id);
    assert(after.ledger.clients =~= before.ledger.clients);
}

/// The next event of a subscriber is the first that waits in its own queue, with the number of
/// those it lost, at the expense of its own client; nobody else's queue is touched.
pub proof fn law_each_subscriber_gets_its_own_events(
    before: BrokerView,
    id: u64,
    bytes: int,
    after: BrokerView,
    r: Result<Option<RpcEventDelivery>, RpcEventError>,
)
    requires
        next_for(before, id, bytes, after, r),
    ensures
        after.subscribers.len() == before.subscribers.len(),
        after.next_id == before.next_id,
        number_is_free(before.subscribers, id) ==> after == before && r == Err::<
            Option<RpcEventDelivery>,
            RpcEventError,
        >(RpcEventError::Disconnected(RpcEventDisconnect::Unsubscribed)),
        forall|i: int|
            0 <= i < before.subscribers.len() && before.subscribers[i].id != id ==> #[trigger] after.subscribers[i]
                == before.subscribers[i],
        r matches Ok(Some(delivery)) ==> exists|i: int|
            {
                let subscriber = #[trigger] before.subscribers[i];
                &&& 0 <= i < before.subscribers.len()
                &&& subscriber.id == id
                &&& subscriber.queue.len() > 0
                &&& delivery.event == subscriber.queue[0]
                &&& delivery.dropped == subscriber.dropped
                &&& delivery.client == subscriber.client
                &&& after.subscribers[i].queue == subscriber.queue.drop_first()
            },
{
    lemma_place_of(before.subscribers, id, 0);
    if let Some(i) = place_of(before.subscribers, id, 0) {
        assert(before.subscribers[i].id == id);
        assert forall|j: int| 0 <= j < before.subscribers.len() && before.subscribers[j].id != id implies
            #[trigger] after.subscribers[j] == before.subscribers[j] by {
            assert(j != i);
        }
    }
}

/// A new filter is that of the subscriber that asked for it, and of no other.
pub proof fn law_a_filter_changes_for_who_asked(
    before: Brokered,
    id: u64,
    filter: FilterView,
    filter_bytes: usize,
    after: Brokered,
    r: Result<(), RpcEventError>,
)
    requires
        refilters(before, id, filter, filter_bytes, after, r),
    ensures
        r is Err ==> after == before,
        r is Ok ==> after.broker.subscribers.len() == before.broker.subscribers.len() && (exists|i: int|
            0 <= i < after.broker.subscribers.len() && (#[trigger] after.broker.subscribers[i]).filter == filter
                && before.broker.subscribers[i].id == id && forall|j: int|
                0 <= j < after.broker.subscribers.len() && j != i ==> #[trigger] after.broker.subscribers[j]
                    == before.broker.subscribers[j]),
        number_is_free(before.broker.subscribers, id) ==> r is Err,
{
    lemma_place_of(before.broker.subscribers, id, 0);
    if let Some(i) = place_of(before.broker.subscribers, id, 0) {
        assert(before.broker.subscribers[i].id == id);
        if r is Ok {
            assert(after.broker.subscribers[i].filter == filter);
        }
    }
}

/// A connection that was authorized stays as it is. Another is authorized, and subscribed if
/// events can be pushed over it; where no subscription comes of it, it stays without.
pub proof fn law_authorized_connections_are_subscribed(
    connection: ClientState,
    before: Brokered,
    next: ClientState,
    after: Brokered,
    r: Result<(), RpcEventError>,
)
    requires
        authorizes(connection, before, next, after, r),
    ensures
        r is Ok ==> next.authenticated,
        connection.authenticated ==> r is Ok && next == connection && after == before,
        !connection.authenticated && connection.events is None ==> r is Ok && next.subscriber == connection.subscriber
            && after == before,
        !connection.authenticated && connection.events is Some && r is Ok ==> next.subscriber == Some(
            before.broker.next_id,
        ) && next.events == connection.events,
        r is Err ==> next == connection && after == before,
{
    if !connection.authenticated {
        if let Some(client) = connection.events {
            let made = choose|made: Result<u64, RpcEventError>| #[trigger]
                crate::rpc_broker::subscribes_to_all(
                    before,
                    crate::rpc_client::connection_limits(),
                    client,
                    after,
                    made,
                ) && match made {
                    Ok(id) => r is Ok && next == crate::rpc_client::event_state(client, Some(id)),
                    Err(error) => r == Err::<(), RpcEventError>(error) && next == connection,
                };
            assert(crate::rpc_broker::subscribes_to_all(
                before,
                crate::rpc_client::connection_limits(),
                client,
                after,
                made,
            ));
        }
    }
}

} // verus!
