//! Delivery of events to subscribers: each has a bounded queue, pays for what
//! waits in it, and is cut off where it would lose a reliable event.
use vstd::prelude::*;
use crate::json::{capped, field_from, Json, JsonField};
use crate::rpc_budget::{charged, dropped_owner, event_charged, LedgerView, RpcAccounts, RpcByteCharge, RpcLedger};
use crate::rpc_events::{
    key_view, selects, FilterView, RpcEvent, RpcEventClass, RpcEventDisconnect, RpcEventError, RpcEventFilter,
    RpcEventKey, RpcEventLimits, MAX_RPC_EVENT_SUBSCRIBERS,
};
use crate::text::same_text;

verus! {

/// One subscriber.
pub struct SubscriberState {
    pub id: u64,
    pub limits: RpcEventLimits,
    pub queue: Vec<RpcEvent>,
    pub queued_bytes: usize,
    pub dropped: u64,
    pub coalesced: u64,
    pub disconnect: Option<RpcEventDisconnect>,
    /// The number of the client that pays.
    pub client: usize,
    pub filter: RpcEventFilter,
    pub filter_bytes: usize,
    pub queue_bytes: usize,
}

/// What a subscriber holds.
#[verifier::ext_equal]
pub struct SubscriberView {
    pub id: u64,
    pub limits: RpcEventLimits,
    pub queue: Seq<RpcEvent>,
    pub queued_bytes: usize,
    pub dropped: u64,
    pub coalesced: u64,
    pub disconnect: Option<RpcEventDisconnect>,
    pub client: usize,
    pub filter: FilterView,
    pub filter_bytes: usize,
    pub queue_bytes: usize,
}

impl View for SubscriberState {
    type V = SubscriberView;

    open spec fn view(&self) -> SubscriberView {
        SubscriberView {
            id: self.id,
            limits: self.limits,
            queue: self.queue@,
            queued_bytes: self.queued_bytes,
            dropped: self.dropped,
            coalesced: self.coalesced,
            disconnect: self.disconnect,
            client: self.client,
            filter: self.filter@,
            filter_bytes: self.filter_bytes,
            queue_bytes: self.queue_bytes,
        }
    }
}

impl SubscriberView {
    /// The queue keeps to its limits, and its size is known exactly.
    pub open spec fn bounded(self) -> bool {
        &&& self.limits.fits()
        &&& self.queue.len() <= self.limits.events
        &&& self.queued_bytes <= self.limits.bytes
        &&& self.queued_bytes == queue_size(self.queue)
    }
}

/// What an event that waits is charged.
pub open spec fn event_bytes(event: RpcEvent) -> int {
    capped(capped(2 * event.owned_bytes) + 256)
}

/// What the events that wait are charged.
pub open spec fn queue_charge(queue: Seq<RpcEvent>) -> int
    decreases queue.len(),
{
    if queue.len() == 0 {
        0
    } else {
        capped(queue_charge(queue.drop_last()) + event_bytes(queue.last()))
    }
}

/// The size on the wire of the events that wait.
pub open spec fn queue_size(queue: Seq<RpcEvent>) -> int
    decreases queue.len(),
{
    if queue.len() == 0 {
        0
    } else {
        queue_size(queue.drop_last()) + queue.last().serialized_bytes
    }
}

/// The first event from `from` on with a key.
pub open spec fn same_key(queue: Seq<RpcEvent>, key: Option<RpcEventKey>, from: int) -> Option<int>
    decreases queue.len() - from,
{
    if from < 0 || from >= queue.len() {
        None
    } else if key_view(queue[from].key) == key_view(key) {
        Some(from)
    } else {
        same_key(queue, key, from + 1)
    }
}

/// One more, as far as the counter goes.
pub open spec fn counted(n: u64) -> u64 {
    if n == u64::MAX {
        n
    } else {
        (n + 1) as u64
    }
}

/// A subscriber and the ledger.
#[verifier::ext_equal]
pub struct Enqueued {
    pub subscriber: SubscriberView,
    pub ledger: LedgerView,
}

/// The size of a queue in which one event takes the place of another.
pub open spec fn replaced_size(queued: usize, before: usize, after: usize) -> int {
    let rest = if queued >= before {
        queued - before
    } else {
        0
    };
    capped(rest + after)
}

/// A coalesced event in the place of the one with its key: where that does not
/// fit, the new one is lost.
pub open spec fn replaced(subscriber: SubscriberView, ledger: LedgerView, event: RpcEvent, i: int) -> Enqueued {
    let previous = subscriber.queue[i];
    let next = replaced_size(subscriber.queued_bytes, previous.serialized_bytes, event.serialized_bytes);
    let client = subscriber.client as int;
    match charged(
        ledger.accounts(client),
        RpcByteCharge { request: false, bytes: event_bytes(event) as usize },
    ) {
        Ok(accounts) => if next <= subscriber.limits.bytes {
            Enqueued {
                subscriber: SubscriberView {
                    queue: subscriber.queue.update(i, event),
                    queued_bytes: next as usize,
                    coalesced: counted(subscriber.coalesced),
                    ..subscriber
                },
                ledger: ledger.with(client, dropped_owner(accounts, 0, event_bytes(previous))),
            }
        } else {
            lost(subscriber, ledger)
        },
        Err(_) => lost(subscriber, ledger),
    }
}

/// An event that was lost.
pub open spec fn lost(subscriber: SubscriberView, ledger: LedgerView) -> Enqueued {
    Enqueued { subscriber: SubscriberView { dropped: counted(subscriber.dropped), ..subscriber }, ledger }
}

/// An event at the end of a queue: where it does not fit, a reliable one cuts
/// the subscriber off, and any other is lost.
pub open spec fn appended(subscriber: SubscriberView, ledger: LedgerView, event: RpcEvent) -> Enqueued {
    let client = subscriber.client as int;
    let size = capped(subscriber.queued_bytes + event.serialized_bytes);
    let fits = subscriber.queue.len() < subscriber.limits.events && size <= subscriber.limits.bytes;
    match event_charged(ledger.accounts(client), event_bytes(event)) {
        Ok(accounts) => if fits {
            Enqueued {
                subscriber: SubscriberView {
                    queue: subscriber.queue.push(event),
                    queued_bytes: size as usize,
                    ..subscriber
                },
                ledger: ledger.with(client, accounts),
            }
        } else {
            refused(subscriber, ledger, event)
        },
        Err(_) => refused(subscriber, ledger, event),
    }
}

/// An event that does not fit.
pub open spec fn refused(subscriber: SubscriberView, ledger: LedgerView, event: RpcEvent) -> Enqueued {
    let client = subscriber.client as int;
    if event.class == RpcEventClass::Reliable {
        Enqueued {
            subscriber: SubscriberView {
                disconnect: Some(RpcEventDisconnect::SlowConsumer),
                queue: Seq::empty(),
                queued_bytes: 0,
                ..subscriber
            },
            ledger: ledger.with(
                client,
                dropped_owner(
                    ledger.accounts(client),
                    subscriber.queue.len() as int,
                    queue_charge(subscriber.queue),
                ),
            ),
        }
    } else {
        lost(subscriber, ledger)
    }
}

/// A subscriber after an event was published.
pub open spec fn enqueued(subscriber: SubscriberView, ledger: LedgerView, event: RpcEvent) -> Enqueued {
    if subscriber.disconnect is Some || !selects(subscriber.filter, event) {
        Enqueued { subscriber, ledger }
    } else if event.class == RpcEventClass::Coalesced && same_key(subscriber.queue, event.key, 0) is Some {
        replaced(subscriber, ledger, event, same_key(subscriber.queue, event.key, 0)->0)
    } else {
        appended(subscriber, ledger, event)
    }
}

fn charge_of(event: &RpcEvent) -> (r: usize)
    ensures
        r == event_bytes(*event),
{
    let doubled: usize = match event.owned_bytes.checked_mul(2) {
        Some(product) => product,
        None => usize::MAX,
    };
    doubled.saturating_add(256)
}

fn charge_of_queue(queue: &Vec<RpcEvent>) -> (r: usize)
    ensures
        r == queue_charge(queue@),
{
    let mut sum: usize = 0;
    let mut i: usize = 0;
    while i < queue.len()
        invariant
            i <= queue.len(),
            sum == queue_charge(queue@.take(i as int)),
        decreases queue.len() - i,
    {
        assert(queue@.take(i as int + 1).drop_last() =~= queue@.take(i as int));
        sum = sum.saturating_add(charge_of(&queue[i]));
        i = i + 1;
    }
    assert(queue@.take(i as int) =~= queue@);
    sum
}

proof fn lemma_size_of_part(queue: Seq<RpcEvent>, n: int)
    requires
        0 <= n <= queue.len(),
    ensures
        0 <= queue_size(queue.take(n)) <= queue_size(queue),
    decreases queue.len(),
{
    if n < queue.len() {
        lemma_size_of_part(queue.drop_last(), n);
        assert(queue.drop_last().take(n) =~= queue.take(n));
    } else if n > 0 {
        lemma_size_of_part(queue.drop_last(), n - 1);
        assert(queue.take(n) =~= queue);
        assert(queue.drop_last().take(n - 1) =~= queue.drop_last());
    }
}

proof fn lemma_size_of_replaced(queue: Seq<RpcEvent>, i: int, event: RpcEvent)
    requires
        0 <= i < queue.len(),
    ensures
        queue_size(queue.update(i, event)) == queue_size(queue) - queue[i].serialized_bytes
            + event.serialized_bytes,
        queue[i].serialized_bytes <= queue_size(queue),
    decreases queue.len(),
{
    let after = queue.update(i, event);
    lemma_size_of_part(queue, queue.len() - 1);
    assert(queue.take(queue.len() - 1) =~= queue.drop_last());
    if i == queue.len() - 1 {
        assert(after.drop_last() =~= queue.drop_last());
    } else {
        lemma_size_of_replaced(queue.drop_last(), i, event);
        assert(after.drop_last() =~= queue.drop_last().update(i, event));
    }
}

proof fn lemma_size_of_rest(queue: Seq<RpcEvent>)
    requires
        queue.len() > 0,
    ensures
        queue_size(queue) == queue[0].serialized_bytes + queue_size(queue.drop_first()),
        0 <= queue_size(queue.drop_first()),
    decreases queue.len(),
{
    let rest = queue.drop_first();
    if queue.len() == 1 {
        assert(queue.drop_last() =~= Seq::empty());
        assert(rest =~= Seq::empty());
        assert(queue_size(queue.drop_last()) == 0);
    } else {
        lemma_size_of_rest(queue.drop_last());
        assert(queue.drop_last().drop_first() =~= rest.drop_last());
    }
}

proof fn lemma_size_of_kept(queue: Seq<RpcEvent>, filter: FilterView, n: int)
    requires
        0 <= n <= queue.len(),
    ensures
        0 <= queue_size(kept_events(queue, filter, n)) <= queue_size(queue.take(n)),
        kept_events(queue, filter, n).len() <= n,
    decreases n,
{
    if n > 0 {
        lemma_size_of_kept(queue, filter, n - 1);
        assert(queue.take(n).drop_last() =~= queue.take(n - 1));
        if selects(filter, queue[n - 1]) {
            assert(kept_events(queue, filter, n).drop_last() =~= kept_events(queue, filter, n - 1));
        }
    }
}

fn size_of_queue(queue: &Vec<RpcEvent>) -> (r: usize)
    requires
        queue_size(queue@) <= usize::MAX,
    ensures
        r == queue_size(queue@),
{
    let mut sum: usize = 0;
    let mut i: usize = 0;
    while i < queue.len()
        invariant
            i <= queue.len(),
            sum == queue_size(queue@.take(i as int)),
            queue_size(queue@) <= usize::MAX,
        decreases queue.len() - i,
    {
        assert(queue@.take(i as int + 1).drop_last() =~= queue@.take(i as int));
        proof {
            lemma_size_of_part(queue@, i as int + 1);
        }
        sum = sum + queue[i].serialized_bytes;
        i = i + 1;
    }
    assert(queue@.take(i as int) =~= queue@);
    sum
}

fn same_keys(a: &Option<RpcEventKey>, b: &Option<RpcEventKey>) -> (r: bool)
    ensures
        r == (key_view(*a) == key_view(*b)),
{
    match (a, b) {
        (Some(a), Some(b)) => a.gid == b.gid && same_text(a.kind.as_str(), b.kind.as_str()),
        (None, None) => true,
        _ => false,
    }
}

fn find_key(queue: &Vec<RpcEvent>, key: &Option<RpcEventKey>) -> (r: Option<usize>)
    ensures
        r is Some <==> same_key(queue@, *key, 0) is Some,
        r matches Some(i) ==> i < queue.len() && same_key(queue@, *key, 0) == Some(i as int),
{
    let mut i: usize = 0;
    while i < queue.len()
        invariant
            i <= queue.len(),
            same_key(queue@, *key, 0) == same_key(queue@, *key, i as int),
        decreases queue.len() - i,
    {
        if same_keys(&queue[i].key, key) {
            return Some(i);
        }
        i = i + 1;
    }
    None
}

impl SubscriberState {
    fn replace(&mut self, ledger: &mut RpcLedger, event: RpcEvent, i: usize)
        requires
            old(self).client < old(ledger)@.clients.len(),
            old(ledger)@.valid(),
            old(self)@.bounded(),
            i < old(self)@.queue.len(),
        ensures
            (Enqueued { subscriber: final(self)@, ledger: final(ledger)@ }) == replaced(
                old(self)@,
                old(ledger)@,
                event,
                i as int,
            ),
            final(ledger)@.valid(),
            final(self)@.bounded(),
    {
        proof {
            lemma_size_of_replaced(self.queue@, i as int, event);
        }
        let before = charge_of(&self.queue[i]);
        let next: usize = self.queued_bytes.saturating_sub(self.queue[i].serialized_bytes).saturating_add(
            event.serialized_bytes,
        );
        assert(ledger@.accounts(self.client as int).valid());
        let mut accounts = ledger.accounts(self.client);
        if next <= self.limits.bytes && accounts.charge(
            RpcByteCharge { request: false, bytes: charge_of(&event) },
        ).is_ok() {
            accounts.drop_owner(0, before);
            ledger.set(self.client, accounts);
            self.queue.set(i, event);
            self.queued_bytes = next;
            self.coalesced = self.coalesced.saturating_add(1);
        } else {
            self.dropped = self.dropped.saturating_add(1);
        }
    }

    fn append(&mut self, ledger: &mut RpcLedger, event: RpcEvent)
        requires
            old(self).client < old(ledger)@.clients.len(),
            old(ledger)@.valid(),
            old(self)@.bounded(),
        ensures
            (Enqueued { subscriber: final(self)@, ledger: final(ledger)@ }) == appended(
                old(self)@,
                old(ledger)@,
                event,
            ),
            final(ledger)@.valid(),
            final(self)@.bounded(),
    {
        let size: usize = self.queued_bytes.saturating_add(event.serialized_bytes);
        let fits = self.queue.len() < self.limits.events && size <= self.limits.bytes;
        assert(ledger@.accounts(self.client as int).valid());
        let mut accounts = ledger.accounts(self.client);
        if fits && accounts.event_charge(charge_of(&event)).is_ok() {
            ledger.set(self.client, accounts);
            self.queued_bytes = size;
            self.queue.push(event);
            assert(self.queue@.drop_last() =~= old(self).queue@);
        } else if event.class == RpcEventClass::Reliable {
            let mut accounts = ledger.accounts(self.client);
            accounts.drop_owner(self.queue.len(), charge_of_queue(&self.queue));
            ledger.set(self.client, accounts);
            self.disconnect = Some(RpcEventDisconnect::SlowConsumer);
            self.queue.clear();
            self.queued_bytes = 0;
        } else {
            self.dropped = self.dropped.saturating_add(1);
        }
    }

    /// Takes a published event on.
    pub fn enqueue(&mut self, ledger: &mut RpcLedger, event: RpcEvent)
        requires
            old(self).client < old(ledger)@.clients.len(),
            old(ledger)@.valid(),
            old(self)@.bounded(),
        ensures
            (Enqueued { subscriber: final(self)@, ledger: final(ledger)@ }) == enqueued(
                old(self)@,
                old(ledger)@,
                event,
            ),
            final(ledger)@.valid(),
            final(self)@.bounded(),
    {
        if self.disconnect.is_some() || !self.filter.matches(&event) {
            return;
        }
        if event.class == RpcEventClass::Coalesced {
            if let Some(i) = find_key(&self.queue, &event.key) {
                self.replace(ledger, event, i);
                return;
            }
        }
        self.append(ledger, event);
    }
}

/// An event on its way to its subscriber, and how many were lost before it.
#[derive(Debug)]
pub struct RpcEventDelivery {
    pub event: RpcEvent,
    pub dropped: u64,
    pub client: usize,
}

/// What a delivery or a refusal is, and the subscriber after it.
pub open spec fn delivered(subscriber: SubscriberView, bytes: int) -> (
    Result<Option<(RpcEvent, u64)>, RpcEventError>,
    SubscriberView,
) {
    if subscriber.disconnect is Some {
        (Err(RpcEventError::Disconnected(subscriber.disconnect->0)), subscriber)
    } else if subscriber.queue.len() == 0 {
        (Ok(None), subscriber)
    } else {
        let event = subscriber.queue[0];
        if capped(event.owned_bytes + 1024) > bytes {
            (Err(RpcEventError::EventTooLarge), subscriber)
        } else {
            (
                Ok(Some((event, subscriber.dropped))),
                SubscriberView {
                    queue: subscriber.queue.drop_first(),
                    queued_bytes: if subscriber.queued_bytes >= event.serialized_bytes {
                        (subscriber.queued_bytes - event.serialized_bytes) as usize
                    } else {
                        0
                    },
                    dropped: 0,
                    ..subscriber
                },
            )
        }
    }
}

/// The events that a filter keeps among the first `n`.
pub open spec fn kept_events(queue: Seq<RpcEvent>, filter: FilterView, n: int) -> Seq<RpcEvent>
    decreases n,
{
    if n <= 0 {
        Seq::empty()
    } else if selects(filter, queue[n - 1]) {
        kept_events(queue, filter, n - 1).push(queue[n - 1])
    } else {
        kept_events(queue, filter, n - 1)
    }
}

/// The events that a filter drops among the first `n`.
pub open spec fn shed_events(queue: Seq<RpcEvent>, filter: FilterView, n: int) -> Seq<RpcEvent>
    decreases n,
{
    if n <= 0 {
        Seq::empty()
    } else if selects(filter, queue[n - 1]) {
        shed_events(queue, filter, n - 1)
    } else {
        shed_events(queue, filter, n - 1).push(queue[n - 1])
    }
}

/// A subscriber with another filter, and the ledger with it. The new filter is
/// paid for first; events that it does not select leave the queue at once.
pub open spec fn refiltered(
    subscriber: SubscriberView,
    ledger: LedgerView,
    filter: FilterView,
    filter_bytes: usize,
) -> Result<Enqueued, RpcEventError> {
    let client = subscriber.client as int;
    let n = subscriber.queue.len() as int;
    let kept = kept_events(subscriber.queue, filter, n);
    let shed = shed_events(subscriber.queue, filter, n);
    match charged(ledger.accounts(client), RpcByteCharge { request: false, bytes: filter_bytes }) {
        Err(_) => Err(RpcEventError::BudgetExhausted),
        Ok(accounts) => Ok(
            Enqueued {
                subscriber: SubscriberView {
                    queue: kept,
                    queued_bytes: queue_size(kept) as usize,
                    filter,
                    filter_bytes,
                    ..subscriber
                },
                ledger: ledger.with(
                    client,
                    dropped_owner(
                        dropped_owner(accounts, shed.len() as int, queue_charge(shed)),
                        0,
                        subscriber.filter_bytes as int,
                    ),
                ),
            },
        ),
    }
}

impl SubscriberState {
    /// The next event, where it fits into so many bytes.
    pub fn try_next_bounded(&mut self, bytes: usize) -> (r: Result<Option<RpcEventDelivery>, RpcEventError>)
        requires
            old(self)@.bounded(),
        ensures
            final(self)@ == delivered(old(self)@, bytes as int).1,
            final(self)@.bounded(),
            handed_out(r, delivered(old(self)@, bytes as int).0, old(self).client),
    {
        if let Some(reason) = self.disconnect {
            return Err(RpcEventError::Disconnected(reason));
        }
        if self.queue.len() == 0 {
            return Ok(None);
        }
        if self.queue[0].owned_bytes.saturating_add(1024) > bytes {
            return Err(RpcEventError::EventTooLarge);
        }
        proof {
            lemma_size_of_rest(self.queue@);
        }
        let event = self.queue.remove(0);
        assert(self.queue@ =~= old(self).queue@.drop_first());
        self.queued_bytes = self.queued_bytes.saturating_sub(event.serialized_bytes);
        let dropped = self.dropped;
        self.dropped = 0;
        Ok(Some(RpcEventDelivery { event, dropped, client: self.client }))
    }

    /// Puts another filter in force.
    pub fn set_filter(&mut self, ledger: &mut RpcLedger, filter: RpcEventFilter, filter_bytes: usize) -> (r: Result<
        (),
        RpcEventError,
    >)
        requires
            old(self).client < old(ledger)@.clients.len(),
            old(ledger)@.valid(),
            old(self)@.bounded(),
        ensures
            final(ledger)@.valid(),
            match refiltered(old(self)@, old(ledger)@, filter@, filter_bytes) {
                Ok(after) => r is Ok && final(self)@ == after.subscriber && final(ledger)@ == after.ledger,
                Err(error) => r == Err::<(), RpcEventError>(error) && final(self)@ == old(self)@
                    && final(ledger)@ == old(ledger)@,
            },
            final(self)@.bounded(),
    {
        assert(ledger@.accounts(self.client as int).valid());
        let mut accounts = ledger.accounts(self.client);
        if accounts.charge(RpcByteCharge { request: false, bytes: filter_bytes }).is_err() {
            return Err(RpcEventError::BudgetExhausted);
        }
        let ghost all = self.queue@;
        let mut kept: Vec<RpcEvent> = Vec::new();
        let mut shed: Vec<RpcEvent> = Vec::new();
        let mut i: usize = 0;
        while i < self.queue.len()
            invariant
                i <= self.queue.len(),
                *self == *old(self),
                all == self.queue@,
                kept@ == kept_events(all, filter@, i as int),
                shed@ == shed_events(all, filter@, i as int),
                kept.len() <= i,
            decreases self.queue.len() - i,
        {
            let event = self.queue[i].clone();
            if filter.matches(&event) {
                kept.push(event);
            } else {
                shed.push(event);
            }
            i = i + 1;
        }
        accounts.drop_owner(shed.len(), charge_of_queue(&shed));
        accounts.drop_owner(0, self.filter_bytes);
        ledger.set(self.client, accounts);
        proof {
            lemma_size_of_kept(all, filter@, all.len() as int);
            assert(all.take(all.len() as int) =~= all);
        }
        self.queued_bytes = size_of_queue(&kept);
        self.queue = kept;
        self.filter = filter;
        self.filter_bytes = filter_bytes;
        Ok(())
    }
}

/// Whether a field was set: in place of the one of its name, else at the end.
pub open spec fn field_set(before: Seq<JsonField>, after: Seq<JsonField>, name: Seq<char>, value: Json) -> bool {
    match field_from(before, name, 0) {
        Some(i) => {
            &&& after.len() == before.len()
            &&& after[i].name@ == name
            &&& after[i].value == value
            &&& forall|j: int| 0 <= j < before.len() && j != i ==> #[trigger] after[j] == before[j]
        },
        None => {
            &&& after.len() == before.len() + 1
            &&& after.last().name@ == name
            &&& after.last().value == value
            &&& forall|j: int| 0 <= j < before.len() ==> #[trigger] after[j] == before[j]
        },
    }
}

/// Sets a field.
pub fn set_field(fields: Vec<JsonField>, name: &str, value: Json) -> (r: Vec<JsonField>)
    ensures
        field_set(fields@, r@, name@, value),
{
    let mut after = fields;
    let mut i: usize = 0;
    while i < after.len()
        invariant
            i <= after.len(),
            after@ == fields@,
            field_from(fields@, name@, 0) == field_from(fields@, name@, i as int),
        decreases after.len() - i,
    {
        if same_text(after[i].name.as_str(), name) {
            after.set(i, JsonField { name: name.to_owned(), value });
            return after;
        }
        i = i + 1;
    }
    after.push(JsonField { name: name.to_owned(), value });
    after
}

impl RpcEventDelivery {
    /// The parameters as they are delivered: how many events were lost is told
    /// where any was and the parameters have names.
    pub fn into_params(&self, params: Json) -> (r: Json)
        ensures
            match params {
                Json::Object(fields) => if self.dropped == 0 {
                    r == params
                } else {
                    r matches Json::Object(after) && field_set(
                        fields@,
                        after@,
                        "ariaxDropped"@,
                        Json::Unsigned(self.dropped),
                    )
                },
                _ => r == params,
            },
    {
        if self.dropped == 0 {
            return params;
        }
        match params {
            Json::Object(fields) => Json::Object(set_field(fields, "ariaxDropped", Json::Unsigned(self.dropped))),
            other => other,
        }
    }

    /// Gives back what the delivered event was charged.
    pub fn release(self, ledger: &mut RpcLedger)
        requires
            self.client < old(ledger)@.clients.len(),
            old(ledger)@.valid(),
        ensures
            final(ledger)@.valid(),
            final(ledger)@ == old(ledger)@.with(
                self.client as int,
                dropped_owner(old(ledger)@.accounts(self.client as int), 1, event_bytes(self.event)),
            ),
    {
        assert(ledger@.accounts(self.client as int).valid());
        let mut accounts = ledger.accounts(self.client);
        accounts.drop_owner(1, charge_of(&self.event));
        ledger.set(self.client, accounts);
    }
}

/// A reliable event is never lost silently: it waits in the queue, it was not
/// selected, or the subscriber is cut off.
pub proof fn law_reliable_events_are_never_lost_silently(
    subscriber: SubscriberView,
    ledger: LedgerView,
    event: RpcEvent,
)
    requires
        event.class == RpcEventClass::Reliable,
        subscriber.disconnect is None,
        selects(subscriber.filter, event),
    ensures
        ({
            let after = enqueued(subscriber, ledger, event).subscriber;
            ||| after.disconnect == Some(RpcEventDisconnect::SlowConsumer)
            ||| after.queue == subscriber.queue.push(event) && after.dropped == subscriber.dropped
        }),
{
}

/// An event that a filter does not select changes nothing.
pub proof fn law_unselected_events_change_nothing(subscriber: SubscriberView, ledger: LedgerView, event: RpcEvent)
    requires
        !selects(subscriber.filter, event),
    ensures
        enqueued(subscriber, ledger, event) == (Enqueued { subscriber, ledger }),
{
}

proof fn lemma_same_key(queue: Seq<RpcEvent>, key: Option<RpcEventKey>, from: int)
    requires
        0 <= from,
    ensures
        match same_key(queue, key, from) {
            Some(i) => from <= i < queue.len() && key_view(queue[i].key) == key_view(key),
            None => forall|i: int| from <= i < queue.len() ==> key_view((#[trigger] queue[i]).key) != key_view(key),
        },
    decreases queue.len() - from,
{
    if from < queue.len() {
        lemma_same_key(queue, key, from + 1);
    }
}

/// No two events that wait have the same key, as long as all that have a key
/// are coalesced.
pub open spec fn one_for_each_key(queue: Seq<RpcEvent>) -> bool {
    forall|i: int, j: int|
        0 <= i < j < queue.len() && (#[trigger] queue[i]).key is Some ==> key_view(queue[i].key) != key_view(
            (#[trigger] queue[j]).key,
        )
}

/// Coalescing leaves at most one event for each key, and an event that replaces
/// another takes its place in the queue.
pub proof fn law_coalesced_events_replace_each_other(
    subscriber: SubscriberView,
    ledger: LedgerView,
    event: RpcEvent,
)
    requires
        event.class == RpcEventClass::Coalesced,
        one_for_each_key(subscriber.queue),
    ensures
        one_for_each_key(enqueued(subscriber, ledger, event).subscriber.queue),
        same_key(subscriber.queue, event.key, 0) is Some ==> enqueued(
            subscriber,
            ledger,
            event,
        ).subscriber.queue.len() == subscriber.queue.len(),
{
    lemma_same_key(subscriber.queue, event.key, 0);
}

/// All subscribers, by ascending number.
pub struct RpcEventBroker {
    pub next_id: u64,
    pub subscribers: Vec<SubscriberState>,
}

/// What a broker holds.
#[verifier::ext_equal]
pub struct BrokerView {
    pub next_id: u64,
    pub subscribers: Seq<SubscriberView>,
}

/// What the subscribers hold.
pub open spec fn states(list: Seq<SubscriberState>) -> Seq<SubscriberView> {
    list.map_values(|s: SubscriberState| s@)
}

impl View for RpcEventBroker {
    type V = BrokerView;

    open spec fn view(&self) -> BrokerView {
        BrokerView { next_id: self.next_id, subscribers: states(self.subscribers@) }
    }
}

/// Subscribers by ascending number, each within its limits and paid by a client
/// that there is.
pub open spec fn orderly(subscribers: Seq<SubscriberView>, clients: nat) -> bool {
    &&& forall|i: int, j: int|
        0 <= i < j < subscribers.len() ==> (#[trigger] subscribers[i]).id < (#[trigger] subscribers[j]).id
    &&& forall|i: int| 0 <= i < subscribers.len() ==> (#[trigger] subscribers[i]).bounded() && subscribers[i].client
        < clients
}

impl BrokerView {
    pub open spec fn valid(self, ledger: LedgerView) -> bool {
        &&& ledger.valid()
        &&& self.next_id > 0
        &&& orderly(self.subscribers, ledger.clients.len())
    }
}

/// Where a subscriber stands.
pub open spec fn place_of(subscribers: Seq<SubscriberView>, id: u64, from: int) -> Option<int>
    decreases subscribers.len() - from,
{
    if from < 0 || from >= subscribers.len() {
        None
    } else if subscribers[from].id == id {
        Some(from)
    } else {
        place_of(subscribers, id, from + 1)
    }
}

/// Before how many subscribers of a smaller number a new one stands.
pub open spec fn place_for(subscribers: Seq<SubscriberView>, id: u64, from: int) -> int
    decreases subscribers.len() - from,
{
    if from < 0 || from >= subscribers.len() || subscribers[from].id > id {
        from
    } else {
        place_for(subscribers, id, from + 1)
    }
}

/// What a subscriber that goes gives back.
pub open spec fn settled(ledger: LedgerView, subscriber: SubscriberView) -> LedgerView {
    let client = subscriber.client as int;
    let events = dropped_owner(
        ledger.accounts(client),
        subscriber.queue.len() as int,
        queue_charge(subscriber.queue),
    );
    ledger.with(
        client,
        dropped_owner(
            dropped_owner(events, 0, subscriber.filter_bytes as int),
            0,
            subscriber.queue_bytes as int,
        ),
    )
}

/// A broker and the ledger.
#[verifier::ext_equal]
pub struct Brokered {
    pub broker: BrokerView,
    pub ledger: LedgerView,
}

/// The broker without a subscriber, which gives back what it was charged.
pub open spec fn without_subscriber(broker: BrokerView, ledger: LedgerView, id: u64) -> Brokered {
    match place_of(broker.subscribers, id, 0) {
        Some(i) => Brokered {
            broker: BrokerView { subscribers: broker.subscribers.remove(i), ..broker },
            ledger: settled(ledger, broker.subscribers[i]),
        },
        None => Brokered { broker, ledger },
    }
}

/// What a subscriber asks for.
#[derive(Clone, Copy, Debug, PartialEq, Eq, Structural)]
pub struct Subscription {
    pub limits: RpcEventLimits,
    /// The number of the client that pays.
    pub client: usize,
    /// What the filter occupies.
    pub filter_bytes: usize,
    /// What a place in the queue occupies.
    pub slot_bytes: usize,
}

/// What the places of a queue are charged.
pub open spec fn queue_room(subscription: Subscription) -> int {
    capped(capped(subscription.limits.events * subscription.slot_bytes) + 1024)
}

/// The accounts once filter and queue are paid for.
pub open spec fn admitted_accounts(ledger: LedgerView, subscription: Subscription) -> Option<RpcAccounts> {
    match charged(
        ledger.accounts(subscription.client as int),
        RpcByteCharge { request: false, bytes: subscription.filter_bytes },
    ) {
        Err(_) => None,
        Ok(accounts) => match charged(
            accounts,
            RpcByteCharge { request: false, bytes: queue_room(subscription) as usize },
        ) {
            Err(_) => None,
            Ok(accounts) => Some(accounts),
        },
    }
}

/// Whether the filter alone can be paid for.
pub open spec fn filter_paid(ledger: LedgerView, subscription: Subscription) -> bool {
    charged(
        ledger.accounts(subscription.client as int),
        RpcByteCharge { request: false, bytes: subscription.filter_bytes },
    ) is Ok
}

/// Why a subscription is refused, if it is.
pub open spec fn subscription_fault(
    broker: BrokerView,
    ledger: LedgerView,
    subscription: Subscription,
) -> Option<RpcEventError> {
    if !subscription.limits.fits() {
        Some(RpcEventError::InvalidLimits)
    } else if !filter_paid(ledger, subscription) {
        Some(RpcEventError::BudgetExhausted)
    } else if broker.subscribers.len() >= MAX_RPC_EVENT_SUBSCRIBERS {
        Some(RpcEventError::TooManySubscribers)
    } else if admitted_accounts(ledger, subscription) is None {
        Some(RpcEventError::BudgetExhausted)
    } else {
        None
    }
}

/// A subscriber that has just come.
pub open spec fn new_subscriber(id: u64, subscription: Subscription, filter: FilterView) -> SubscriberView {
    SubscriberView {
        id,
        limits: subscription.limits,
        queue: Seq::empty(),
        queued_bytes: 0,
        dropped: 0,
        coalesced: 0,
        disconnect: None,
        client: subscription.client,
        filter,
        filter_bytes: subscription.filter_bytes,
        queue_bytes: queue_room(subscription) as usize,
    }
}

/// The broker with one more subscriber. Numbers count up and start over at one;
/// a subscriber that still has the number gives way.
pub open spec fn subscribed(
    broker: BrokerView,
    ledger: LedgerView,
    subscription: Subscription,
    filter: FilterView,
) -> Brokered {
    let id = broker.next_id;
    let paid = ledger.with(subscription.client as int, admitted_accounts(ledger, subscription)->0);
    let freed = without_subscriber(broker, paid, id);
    let next_id = if id == u64::MAX {
        1u64
    } else {
        (id + 1) as u64
    };
    Brokered {
        broker: BrokerView {
            next_id,
            subscribers: freed.broker.subscribers.insert(
                place_for(freed.broker.subscribers, id, 0),
                new_subscriber(id, subscription, filter),
            ),
        },
        ledger: freed.ledger,
    }
}

/// The subscribers and the ledger after an event reached the first `n`.
pub open spec fn published(broker: BrokerView, ledger: LedgerView, event: RpcEvent, n: int) -> Brokered
    decreases n,
{
    if n <= 0 {
        Brokered { broker, ledger }
    } else {
        let before = published(broker, ledger, event, n - 1);
        let step = enqueued(before.broker.subscribers[n - 1], before.ledger, event);
        Brokered {
            broker: BrokerView {
                subscribers: before.broker.subscribers.update(n - 1, step.subscriber),
                ..before.broker
            },
            ledger: step.ledger,
        }
    }
}

pub(crate) proof fn lemma_place_of(subscribers: Seq<SubscriberView>, id: u64, from: int)
    requires
        0 <= from,
    ensures
        match place_of(subscribers, id, from) {
            Some(i) => from <= i < subscribers.len() && subscribers[i].id == id,
            None => forall|i: int| from <= i < subscribers.len() ==> (#[trigger] subscribers[i]).id != id,
        },
    decreases subscribers.len() - from,
{
    if from < subscribers.len() {
        lemma_place_of(subscribers, id, from + 1);
    }
}

proof fn lemma_enqueue_keeps_number(subscriber: SubscriberView, ledger: LedgerView, event: RpcEvent)
    requires
        subscriber.client < ledger.clients.len(),
    ensures
        enqueued(subscriber, ledger, event).subscriber.id == subscriber.id,
        enqueued(subscriber, ledger, event).subscriber.client == subscriber.client,
        enqueued(subscriber, ledger, event).ledger.clients.len() == ledger.clients.len(),
{
}

/// Nobody has a number.
pub open spec fn number_is_free(subscribers: Seq<SubscriberView>, id: u64) -> bool {
    forall|i: int| 0 <= i < subscribers.len() ==> (#[trigger] subscribers[i]).id != id
}

/// Once the subscriber of a number has gone, nobody has it.
pub(crate) proof fn lemma_number_is_free(subscribers: Seq<SubscriberView>, id: u64)
    requires
        forall|i: int, j: int|
            0 <= i < j < subscribers.len() ==> (#[trigger] subscribers[i]).id < (#[trigger] subscribers[j]).id,
    ensures
        ({
            match place_of(subscribers, id, 0) {
                Some(p) => number_is_free(subscribers.remove(p), id),
                None => number_is_free(subscribers, id),
            }
        }),
{
    lemma_place_of(subscribers, id, 0);
    match place_of(subscribers, id, 0) {
        Some(p) => {
            let rest = subscribers.remove(p);
            assert forall|i: int| 0 <= i < rest.len() implies (#[trigger] rest[i]).id != id by {
                let o = if i < p {
                    i
                } else {
                    i + 1
                };
                assert(rest[i] == subscribers[o]);
                assert(subscribers[p].id == id);
            }
        },
        None => {},
    }
}

proof fn lemma_insertion_is_orderly(
    others: Seq<SubscriberView>,
    place: int,
    added: SubscriberView,
    clients: nat,
)
    requires
        orderly(others, clients),
        0 <= place <= others.len(),
        number_is_free(others, added.id),
        forall|i: int| 0 <= i < place ==> (#[trigger] others[i]).id <= added.id,
        place < others.len() ==> others[place].id > added.id,
        added.bounded(),
        added.client < clients,
    ensures
        orderly(others.insert(place, added), clients),
{
    let after = others.insert(place, added);
    assert forall|i: int, j: int| 0 <= i < j < after.len() implies (#[trigger] after[i]).id < (
    #[trigger] after[j]).id by {
        let a = if i < place {
            i
        } else {
            i - 1
        };
        let b = if j < place {
            j
        } else {
            j - 1
        };
        assert(i != place ==> after[i] == others[a]);
        assert(j != place ==> after[j] == others[b]);
        if i == place && place < b {
            assert(others[place].id < others[b].id);
        }
    }
    assert forall|i: int| 0 <= i < after.len() implies (#[trigger] after[i]).bounded() && after[i].client
        < clients by {
        if i < place {
            assert(after[i] == others[i]);
        } else if i > place {
            assert(after[i] == others[i - 1]);
        }
    }
}

/// Whether a subscription comes of it that was asked for, or why none does.
pub open spec fn subscribes(
    before: Brokered,
    subscription: Subscription,
    filter: FilterView,
    after: Brokered,
    r: Result<u64, RpcEventError>,
) -> bool {
    match subscription_fault(before.broker, before.ledger, subscription) {
        Some(error) => r == Err::<u64, RpcEventError>(error) && after == before,
        None => r == Ok::<u64, RpcEventError>(before.broker.next_id) && after == subscribed(
            before.broker,
            before.ledger,
            subscription,
            filter,
        ),
    }
}

/// A subscription whose filter takes so many bytes.
pub open spec fn asked(limits: RpcEventLimits, client: usize, filter_bytes: usize) -> Subscription {
    Subscription { limits, client, filter_bytes, slot_bytes: vstd::layout::size_of::<RpcEvent>() as usize }
}

/// Whether a subscription to every event comes of it, or why none does. The empty
/// filter is charged what it takes.
pub open spec fn subscribes_to_all(
    before: Brokered,
    limits: RpcEventLimits,
    client: usize,
    after: Brokered,
    r: Result<u64, RpcEventError>,
) -> bool {
    exists|filter: RpcEventFilter, bytes: usize|
        filter@ == (FilterView { methods: Seq::empty(), gids: Seq::empty() }) && #[trigger] filter.costs(bytes)
            && subscribes(before, asked(limits, client, bytes), filter@, after, r)
}

/// Whether another filter of a subscriber is in force, or why it is not.
pub open spec fn refilters(
    before: Brokered,
    id: u64,
    filter: FilterView,
    filter_bytes: usize,
    after: Brokered,
    r: Result<(), RpcEventError>,
) -> bool {
    match place_of(before.broker.subscribers, id, 0) {
        None => r == Err::<(), RpcEventError>(RpcEventError::Disconnected(RpcEventDisconnect::Unsubscribed)) && after
            == before,
        Some(i) => match refiltered(before.broker.subscribers[i], before.ledger, filter, filter_bytes) {
            Ok(next) => r is Ok && after.ledger == next.ledger && after.broker == (BrokerView {
                subscribers: before.broker.subscribers.update(i, next.subscriber),
                ..before.broker
            }),
            Err(error) => r == Err::<(), RpcEventError>(error) && after == before,
        },
    }
}

impl Default for RpcEventBroker {
    fn default() -> (r: Self)
        ensures
            r@ == (BrokerView { next_id: 1, subscribers: Seq::empty() }),
    {
        Self::new()
    }
}

impl RpcEventBroker {
    pub fn new() -> (r: Self)
        ensures
            r@ == (BrokerView { next_id: 1, subscribers: Seq::empty() }),
    {
        let r = RpcEventBroker { next_id: 1, subscribers: Vec::new() };
        assert(r@.subscribers =~= Seq::empty());
        r
    }

    pub fn subscriber_count(&self) -> (r: usize)
        ensures
            r == self@.subscribers.len(),
    {
        self.subscribers.len()
    }

    fn place(&self, id: u64) -> (r: Option<usize>)
        ensures
            r is Some <==> place_of(self@.subscribers, id, 0) is Some,
            r matches Some(i) ==> i < self.subscribers.len() && place_of(self@.subscribers, id, 0) == Some(i as int),
    {
        let mut i: usize = 0;
        while i < self.subscribers.len()
            invariant
                i <= self.subscribers.len(),
                place_of(self@.subscribers, id, 0) == place_of(self@.subscribers, id, i as int),
            decreases self.subscribers.len() - i,
        {
            assert(self@.subscribers[i as int] == self.subscribers@[i as int]@);
            if self.subscribers[i].id == id {
                return Some(i);
            }
            i = i + 1;
        }
        None
    }

    /// Takes a subscriber out, with what it was charged.
    pub fn unsubscribe(&mut self, ledger: &mut RpcLedger, id: u64) -> (r: bool)
        requires
            old(self)@.valid(old(ledger)@),
        ensures
            final(self)@.valid(final(ledger)@),
            r == (place_of(old(self)@.subscribers, id, 0) is Some),
            (Brokered { broker: final(self)@, ledger: final(ledger)@ }) == without_subscriber(
                old(self)@,
                old(ledger)@,
                id,
            ),
            final(ledger)@.clients.len() == old(ledger)@.clients.len(),
    {
        match self.place(id) {
            Some(i) => {
                assert(self@.subscribers[i as int] == self.subscribers@[i as int]@);
                assert(self@.subscribers[i as int].client < ledger@.clients.len());
                let subscriber = self.subscribers.remove(i);
                assert(self@.subscribers =~= old(self)@.subscribers.remove(i as int));
                assert(ledger@.accounts(subscriber.client as int).valid());
                let mut accounts = ledger.accounts(subscriber.client);
                accounts.drop_owner(subscriber.queue.len(), charge_of_queue(&subscriber.queue));
                accounts.drop_owner(0, subscriber.filter_bytes);
                accounts.drop_owner(0, subscriber.queue_bytes);
                ledger.set(subscriber.client, accounts);
                true
            },
            None => false,
        }
    }

    /// Adds a subscriber with such sizes that takes what its filter selects.
    pub fn subscribe_sized(
        &mut self,
        ledger: &mut RpcLedger,
        subscription: Subscription,
        filter: RpcEventFilter,
    ) -> (r: Result<u64, RpcEventError>)
        requires
            old(self)@.valid(old(ledger)@),
            subscription.client < old(ledger)@.clients.len(),
        ensures
            final(self)@.valid(final(ledger)@),
            final(ledger)@.clients.len() == old(ledger)@.clients.len(),
            subscribes(
                Brokered { broker: old(self)@, ledger: old(ledger)@ },
                subscription,
                filter@,
                Brokered { broker: final(self)@, ledger: final(ledger)@ },
                r,
            ),
    {
        let limits = match subscription.limits.validate() {
            Ok(limits) => limits,
            Err(error) => return Err(error),
        };
        assert(ledger@.accounts(subscription.client as int).valid());
        let mut accounts = ledger.accounts(subscription.client);
        if accounts.charge(RpcByteCharge { request: false, bytes: subscription.filter_bytes }).is_err() {
            return Err(RpcEventError::BudgetExhausted);
        }
        if self.subscribers.len() >= MAX_RPC_EVENT_SUBSCRIBERS {
            return Err(RpcEventError::TooManySubscribers);
        }
        let places: usize = match limits.events.checked_mul(subscription.slot_bytes) {
            Some(product) => product,
            None => usize::MAX,
        };
        let room: usize = places.saturating_add(1024);
        if accounts.charge(RpcByteCharge { request: false, bytes: room }).is_err() {
            return Err(RpcEventError::BudgetExhausted);
        }
        ledger.set(subscription.client, accounts);
        let id = self.next_id;
        self.unsubscribe(ledger, id);
        proof {
            lemma_number_is_free(old(self)@.subscribers, id);
        }
        self.next_id = if id == u64::MAX {
            1
        } else {
            id + 1
        };
        let subscriber = SubscriberState {
            id,
            limits,
            queue: Vec::new(),
            queued_bytes: 0,
            dropped: 0,
            coalesced: 0,
            disconnect: None,
            client: subscription.client,
            filter,
            filter_bytes: subscription.filter_bytes,
            queue_bytes: room,
        };
        assert(subscriber@ =~= new_subscriber(id, subscription, filter@));
        self.insert_subscriber(subscriber, Ghost(ledger@.clients.len()));
        Ok(id)
    }

    fn insert_subscriber(&mut self, subscriber: SubscriberState, Ghost(clients): Ghost<nat>)
        requires
            orderly(old(self)@.subscribers, clients),
            number_is_free(old(self)@.subscribers, subscriber.id),
            subscriber@.bounded(),
            subscriber.client < clients,
        ensures
            final(self)@.next_id == old(self)@.next_id,
            final(self)@.subscribers == old(self)@.subscribers.insert(
                place_for(old(self)@.subscribers, subscriber.id, 0),
                subscriber@,
            ),
            orderly(final(self)@.subscribers, clients),
    {
        let ghost others = self@.subscribers;
        let ghost added = subscriber@;
        let id = subscriber.id;
        let mut place: usize = 0;
        while place < self.subscribers.len() && self.subscribers[place].id <= id
            invariant
                place <= self.subscribers.len(),
                *self == *old(self),
                others == self@.subscribers,
                forall|i: int| 0 <= i < place ==> (#[trigger] others[i]).id <= id,
                place_for(others, id, 0) == place_for(others, id, place as int),
            decreases self.subscribers.len() - place,
        {
            assert(others[place as int] == self.subscribers@[place as int]@);
            place = place + 1;
        }
        assert(place < self.subscribers.len() ==> others[place as int] == self.subscribers@[place as int]@);
        self.subscribers.insert(place, subscriber);
        assert(self@.subscribers =~= others.insert(place as int, added));
        proof {
            lemma_insertion_is_orderly(others, place as int, added, clients);
        }
    }

    /// Adds a subscriber that takes what its filter selects, and charges what filter
    /// and queue take.
    pub fn subscribe_filtered(
        &mut self,
        ledger: &mut RpcLedger,
        limits: RpcEventLimits,
        client: usize,
        filter: RpcEventFilter,
    ) -> (r: Result<u64, RpcEventError>)
        requires
            old(self)@.valid(old(ledger)@),
            client < old(ledger)@.clients.len(),
        ensures
            final(self)@.valid(final(ledger)@),
            final(ledger)@.clients.len() == old(ledger)@.clients.len(),
            exists|bytes: usize| #[trigger]
                filter.costs(bytes) && subscribes(
                    Brokered { broker: old(self)@, ledger: old(ledger)@ },
                    asked(limits, client, bytes),
                    filter@,
                    Brokered { broker: final(self)@, ledger: final(ledger)@ },
                    r,
                ),
    {
        let filter_bytes = filter.owned_bytes();
        let slot_bytes = core::mem::size_of::<RpcEvent>();
        let subscription = Subscription { limits, client, filter_bytes, slot_bytes };
        assert(subscription == asked(limits, client, filter_bytes));
        self.subscribe_sized(ledger, subscription, filter)
    }

    /// Adds a subscriber that takes every event.
    pub fn subscribe(&mut self, ledger: &mut RpcLedger, limits: RpcEventLimits, client: usize) -> (r: Result<
        u64,
        RpcEventError,
    >)
        requires
            old(self)@.valid(old(ledger)@),
            client < old(ledger)@.clients.len(),
        ensures
            final(self)@.valid(final(ledger)@),
            final(ledger)@.clients.len() == old(ledger)@.clients.len(),
            subscribes_to_all(
                Brokered { broker: old(self)@, ledger: old(ledger)@ },
                limits,
                client,
                Brokered { broker: final(self)@, ledger: final(ledger)@ },
                r,
            ),
    {
        let filter = RpcEventFilter::default();
        let ghost given = filter;
        let r = self.subscribe_filtered(ledger, limits, client, filter);
        proof {
            let bytes = choose|bytes: usize| #[trigger]
                given.costs(bytes) && subscribes(
                    Brokered { broker: old(self)@, ledger: old(ledger)@ },
                    asked(limits, client, bytes),
                    given@,
                    Brokered { broker: self@, ledger: ledger@ },
                    r,
                );
            assert(given.costs(bytes));
        }
        r
    }

    /// Hands an event to every subscriber, by ascending number.
    pub fn publish(&mut self, ledger: &mut RpcLedger, event: RpcEvent)
        requires
            old(self)@.valid(old(ledger)@),
        ensures
            final(self)@.valid(final(ledger)@),
            (Brokered { broker: final(self)@, ledger: final(ledger)@ }) == published(
                old(self)@,
                old(ledger)@,
                event,
                old(self)@.subscribers.len() as int,
            ),
    {
        let mut i: usize = 0;
        while i < self.subscribers.len()
            invariant
                i <= self.subscribers.len(),
                self.subscribers.len() == old(self)@.subscribers.len(),
                self@.valid(ledger@),
                (Brokered { broker: self@, ledger: ledger@ }) == published(
                    old(self)@,
                    old(ledger)@,
                    event,
                    i as int,
                ),
            decreases self.subscribers.len() - i,
        {
            let ghost before = self@;
            let ghost ledger_before = ledger@;
            assert(before.subscribers[i as int] == self.subscribers@[i as int]@);
            let mut subscriber = self.subscribers.remove(i);
            subscriber.enqueue(ledger, event.clone());
            let ghost next = subscriber@;
            self.subscribers.insert(i, subscriber);
            proof {
                lemma_enqueue_keeps_number(before.subscribers[i as int], ledger_before, event);
                assert(self@.subscribers =~= before.subscribers.update(i as int, next));
                assert forall|k: int, j: int| 0 <= k < j < self@.subscribers.len() implies (
                #[trigger] self@.subscribers[k]).id < (#[trigger] self@.subscribers[j]).id by {
                    assert(before.subscribers[k].id < before.subscribers[j].id);
                }
                assert forall|k: int| 0 <= k < self@.subscribers.len() implies (
                #[trigger] self@.subscribers[k]).bounded() && self@.subscribers[k].client < ledger@.clients.len() by {
                    assert(before.subscribers[k].bounded());
                }
            }
            i = i + 1;
        }
    }

    /// The next event of a subscriber, where it fits into so many bytes.
    pub fn try_next_bounded(&mut self, ledger: &RpcLedger, id: u64, bytes: usize) -> (r: Result<
        Option<RpcEventDelivery>,
        RpcEventError,
    >)
        requires
            old(self)@.valid(ledger@),
        ensures
            final(self)@.valid(ledger@),
            next_for(old(self)@, id, bytes as int, final(self)@, r),
    {
        match self.place(id) {
            None => Err(RpcEventError::Disconnected(RpcEventDisconnect::Unsubscribed)),
            Some(i) => {
                let ghost before = self@;
                assert(before.subscribers[i as int] == self.subscribers@[i as int]@);
                let mut subscriber = self.subscribers.remove(i);
                let r = subscriber.try_next_bounded(bytes);
                let ghost next = subscriber@;
                self.subscribers.insert(i, subscriber);
                proof {
                    assert(self@.subscribers =~= before.subscribers.update(i as int, next));
                    lemma_update_is_orderly(before.subscribers, i as int, next, ledger@.clients.len());
                }
                r
            },
        }
    }

    /// Puts another filter of a subscriber in force that takes so many bytes.
    pub fn set_sized_filter(
        &mut self,
        ledger: &mut RpcLedger,
        id: u64,
        filter: RpcEventFilter,
        filter_bytes: usize,
    ) -> (r: Result<(), RpcEventError>)
        requires
            old(self)@.valid(old(ledger)@),
        ensures
            final(self)@.valid(final(ledger)@),
            refilters(
                Brokered { broker: old(self)@, ledger: old(ledger)@ },
                id,
                filter@,
                filter_bytes,
                Brokered { broker: final(self)@, ledger: final(ledger)@ },
                r,
            ),
    {
        match self.place(id) {
            None => Err(RpcEventError::Disconnected(RpcEventDisconnect::Unsubscribed)),
            Some(i) => {
                let ghost before = self@;
                assert(before.subscribers[i as int] == self.subscribers@[i as int]@);
                let mut subscriber = self.subscribers.remove(i);
                let r = subscriber.set_filter(ledger, filter, filter_bytes);
                let ghost next = subscriber@;
                self.subscribers.insert(i, subscriber);
                proof {
                    assert(self@.subscribers =~= before.subscribers.update(i as int, next));
                    lemma_update_is_orderly(before.subscribers, i as int, next, ledger@.clients.len());
                    assert(before.subscribers.update(i as int, before.subscribers[i as int])
                        =~= before.subscribers);
                }
                r
            },
        }
    }

    /// Puts another filter of a subscriber in force, and charges what it takes.
    pub fn set_filter(&mut self, ledger: &mut RpcLedger, id: u64, filter: RpcEventFilter) -> (r: Result<
        (),
        RpcEventError,
    >)
        requires
            old(self)@.valid(old(ledger)@),
        ensures
            final(self)@.valid(final(ledger)@),
            exists|bytes: usize| #[trigger]
                filter.costs(bytes) && refilters(
                    Brokered { broker: old(self)@, ledger: old(ledger)@ },
                    id,
                    filter@,
                    bytes,
                    Brokered { broker: final(self)@, ledger: final(ledger)@ },
                    r,
                ),
    {
        let bytes = filter.owned_bytes();
        self.set_sized_filter(ledger, id, filter, bytes)
    }
}

/// What asking for the next event of a subscriber gives, and the broker after it.
pub open spec fn next_for(
    before: BrokerView,
    id: u64,
    bytes: int,
    after: BrokerView,
    r: Result<Option<RpcEventDelivery>, RpcEventError>,
) -> bool {
    match place_of(before.subscribers, id, 0) {
        None => r == Err::<Option<RpcEventDelivery>, RpcEventError>(
            RpcEventError::Disconnected(RpcEventDisconnect::Unsubscribed),
        ) && after == before,
        Some(i) => {
            &&& after == (BrokerView {
                subscribers: before.subscribers.update(i, delivered(before.subscribers[i], bytes).1),
                ..before
            })
            &&& handed_out(r, delivered(before.subscribers[i], bytes).0, before.subscribers[i].client)
        },
    }
}

/// Whether a delivery or a refusal was handed out.
pub open spec fn handed_out(
    r: Result<Option<RpcEventDelivery>, RpcEventError>,
    expected: Result<Option<(RpcEvent, u64)>, RpcEventError>,
    client: usize,
) -> bool {
    match (r, expected) {
        (Err(found), Err(error)) => found == error,
        (Ok(None), Ok(None)) => true,
        (Ok(Some(delivery)), Ok(Some((event, dropped)))) => delivery.event == event && delivery.dropped == dropped
            && delivery.client == client,
        _ => false,
    }
}

proof fn lemma_update_is_orderly(before: Seq<SubscriberView>, i: int, next: SubscriberView, clients: nat)
    requires
        orderly(before, clients),
        0 <= i < before.len(),
        next.bounded(),
        next.id == before[i].id,
        next.client == before[i].client,
    ensures
        orderly(before.update(i, next), clients),
{
    let after = before.update(i, next);
    assert forall|k: int, j: int| 0 <= k < j < after.len() implies (#[trigger] after[k]).id < (
    #[trigger] after[j]).id by {
        assert(before[k].id < before[j].id);
    }
    assert forall|k: int| 0 <= k < after.len() implies (#[trigger] after[k]).bounded() && after[k].client
        < clients by {
        assert(before[k].bounded());
    }
}

proof fn lemma_published_so_far(broker: BrokerView, ledger: LedgerView, event: RpcEvent, n: int)
    requires
        broker.valid(ledger),
        0 <= n <= broker.subscribers.len(),
    ensures
        ({
            let after = published(broker, ledger, event, n);
            &&& after.broker.subscribers.len() == broker.subscribers.len()
            &&& after.ledger.clients.len() == ledger.clients.len()
            &&& forall|i: int| n <= i < broker.subscribers.len() ==> after.broker.subscribers[i]
                == #[trigger] broker.subscribers[i]
            &&& forall|i: int|
                0 <= i < n && (broker.subscribers[i].disconnect is Some || !selects(
                    broker.subscribers[i].filter,
                    event,
                )) ==> after.broker.subscribers[i] == #[trigger] broker.subscribers[i]
        }),
    decreases n,
{
    if n > 0 {
        lemma_published_so_far(broker, ledger, event, n - 1);
        let before = published(broker, ledger, event, n - 1);
        assert(before.broker.subscribers[n - 1] == broker.subscribers[n - 1]);
        lemma_enqueue_keeps_number(broker.subscribers[n - 1], before.ledger, event);
    }
}

/// Publishing neither adds nor removes a subscriber, and leaves those that are
/// cut off or do not select the event as they were, whatever befalls the others.
pub proof fn law_publishing_touches_only_who_selects(broker: BrokerView, ledger: LedgerView, event: RpcEvent)
    requires
        broker.valid(ledger),
    ensures
        ({
            let after = published(broker, ledger, event, broker.subscribers.len() as int).broker.subscribers;
            &&& after.len() == broker.subscribers.len()
            &&& forall|i: int|
                0 <= i < after.len() && (broker.subscribers[i].disconnect is Some || !selects(
                    broker.subscribers[i].filter,
                    event,
                )) ==> after[i] == #[trigger] broker.subscribers[i]
        }),
{
    lemma_published_so_far(broker, ledger, event, broker.subscribers.len() as int);
}

} // verus!
