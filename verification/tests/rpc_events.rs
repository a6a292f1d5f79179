use ariax_engine::byte_budget::ByteBudget;
use ariax_engine::json::{owned_value_bytes, Json, JsonField, JsonText};
use ariax_engine::rpc_broker::{RpcEventBroker, Subscription};
use ariax_engine::rpc_budget::{RpcBudgets, RpcItem, RpcLedger};
use ariax_engine::rpc_events::{
    filter_room, RpcEvent, RpcEventClass, RpcEventDisconnect, RpcEventError, RpcEventFilter, RpcEventKey,
    RpcEventLimits,
};
use ariax_engine::session::Gid;
use serde_json::Value;

fn ledger() -> (RpcLedger, usize) {
    let mut ledger =
        RpcLedger::new(RpcBudgets::new(32, 32 * 1024 * 1024, ByteBudget::new(64 * 1024 * 1024)));
    let client = ledger.open_client().expect("client");
    (ledger, client)
}

fn text(value: &str, gid: Option<Gid>) -> Json {
    Json::Text(JsonText {
        text: value.to_owned(),
        gid,
        challenge: None,
        fingerprint: None,
        persistable: false,
    })
}

fn object(fields: Vec<(&str, Json)>) -> Json {
    Json::Object(fields.into_iter().map(|(name, value)| JsonField { name: name.to_owned(), value }).collect())
}

fn plain(value: &Json) -> Value {
    match value {
        Json::Null => Value::Null,
        Json::Bool(flag) => Value::from(*flag),
        Json::Unsigned(number) => Value::from(*number),
        Json::Negative(number) => Value::from(*number),
        Json::Real(number) => Value::from(number.as_str()),
        Json::Text(text) => Value::from(text.text.as_str()),
        Json::Array(items) => Value::Array(items.iter().map(plain).collect()),
        Json::Object(fields) => {
            Value::Object(fields.iter().map(|field| (field.name.clone(), plain(&field.value))).collect())
        }
    }
}

fn serialized(envelope: &Json, limit: usize) -> Option<usize> {
    Some(plain(envelope).to_string().len()).filter(|bytes| *bytes <= limit)
}

fn notification(method: &str, params: Json, class: RpcEventClass, key: Option<RpcEventKey>, ticket: u64) -> RpcEvent {
    RpcEvent::notification(ticket, method.to_owned(), params, class, key, serialized).expect("event").0
}

fn sequence(value: u64) -> Json {
    object(vec![("sequence", Json::Unsigned(value))])
}

fn event(class: RpcEventClass, key: Option<RpcEventKey>, value: u64) -> RpcEvent {
    notification("ariax.test", sequence(value), class, key, value)
}

fn gid_params(gid: Gid) -> Json {
    Json::Array(vec![object(vec![("gid", text(&format!("{:016x}", gid.0), Some(gid)))])])
}

#[test]
fn filters_prevent_unrelated_overflow_and_atomically_remove_queued_events() {
    let (mut ledger, client) = ledger();
    let mut broker = RpcEventBroker::new();
    let gid = Gid(1);
    let other = Gid(2);
    let filter = RpcEventFilter::new(vec!["aria2.onDownloadComplete".to_owned()], vec![gid]).expect("filter");
    let subscriber = broker
        .subscribe_filtered(
            &mut ledger,
            RpcEventLimits { events: 1, bytes: 4096 },
            client,
            filter,
        )
        .expect("subscribe");
    for ticket in 0..8 {
        let event = notification(
            "aria2.onDownloadComplete",
            gid_params(other),
            RpcEventClass::Reliable,
            None,
            ticket,
        );
        broker.publish(&mut ledger, event);
    }
    assert!(broker.try_next_bounded(&ledger, subscriber, usize::MAX).expect("no unrelated overflow").is_none());
    let own = notification("aria2.onDownloadComplete", gid_params(gid), RpcEventClass::Reliable, None, 8);
    broker.publish(&mut ledger, own);
    let replacement = RpcEventFilter::new(vec!["ariax.onShutdown".to_owned()], vec![other]).expect("replacement");
    broker.set_filter(&mut ledger, subscriber, replacement).expect("replace");
    assert!(broker.try_next_bounded(&ledger, subscriber, usize::MAX).expect("discard old queue").is_none());
    let global = notification("ariax.onShutdown", object(vec![]), RpcEventClass::Reliable, None, 9);
    broker.publish(&mut ledger, global);
    let delivery = broker
        .try_next_bounded(&ledger, subscriber, usize::MAX)
        .expect("global bypasses GID")
        .expect("event");
    assert_eq!(delivery.event.method, "ariax.onShutdown");
    let many: Vec<Json> = (0..65).map(|_| text("x", None)).collect();
    for value in [
        object(vec![("extra", Json::Array(vec![]))]),
        object(vec![("gids", Json::Array(vec![text("1", None)]))]),
        object(vec![("methods", Json::Array(vec![text("bad\nmethod", None)]))]),
        object(vec![("methods", Json::Array(many))]),
    ] {
        assert!(matches!(RpcEventFilter::from_rpc(&value), Err(RpcEventError::InvalidFilter)));
    }
}

#[test]
fn bounded_poll_keeps_an_oversized_event_and_its_permits_queued() {
    let (mut ledger, client) = ledger();
    let mut broker = RpcEventBroker::new();
    let subscriber =
        broker.subscribe(&mut ledger, RpcEventLimits::default(), client).expect("subscriber");
    broker.publish(&mut ledger, event(RpcEventClass::Reliable, None, 1));
    assert!(matches!(
        broker.try_next_bounded(&ledger, subscriber, 1),
        Err(RpcEventError::EventTooLarge)
    ));
    let delivered = broker
        .try_next_bounded(&ledger, subscriber, 64 * 1024)
        .expect("budget fits")
        .expect("event remains queued");
    assert_eq!(delivered.event.ticket, 1);
    assert_eq!(delivered.into_params(sequence(1)), sequence(1));
    assert!(broker.try_next_bounded(&ledger, subscriber, usize::MAX).expect("empty").is_none());
}

#[test]
fn event_credit_follows_delivery_and_preserves_command_capacity() {
    let (mut ledger, client) = ledger();
    let mut broker = RpcEventBroker::new();
    let subscriber =
        broker.subscribe(&mut ledger, RpcEventLimits::default(), client).expect("subscriber");
    let baseline = ledger.process.snapshot().bytes;
    let limit = ledger.process.snapshot().item_limit / 2;
    for value in 0..limit {
        broker.publish(&mut ledger, event(RpcEventClass::Informational, None, value as u64));
    }
    assert_eq!(ledger.process.snapshot().items, limit);
    assert!(ledger.process.snapshot().bytes > baseline);
    broker.publish(&mut ledger, event(RpcEventClass::Informational, None, 100));
    assert_eq!(ledger.process.snapshot().items, limit);
    let mut accounts = ledger.accounts(client);
    let request = accounts.try_request(128).expect("polling remains possible");
    let response = accounts.response(Some(request)).expect("reply remains possible");
    accounts.give_slot(RpcItem::Response);
    accounts.release_request(response.request.expect("answered request"));
    ledger.set(client, accounts);
    let delivery =
        broker.try_next_bounded(&ledger, subscriber, usize::MAX).expect("queue").expect("delivery");
    assert_eq!(ledger.process.snapshot().items, limit);
    delivery.release(&mut ledger);
    assert_eq!(ledger.process.snapshot().items, limit - 1);
    broker.publish(&mut ledger, event(RpcEventClass::Reliable, None, 101));
    broker.publish(&mut ledger, event(RpcEventClass::Reliable, None, 102));
    assert!(matches!(
        broker.try_next_bounded(&ledger, subscriber, usize::MAX),
        Err(RpcEventError::Disconnected(RpcEventDisconnect::SlowConsumer))
    ));
    assert_eq!(ledger.process.snapshot().items, 0);
    assert!(broker.unsubscribe(&mut ledger, subscriber));
    let process = ledger.accounts(client).close();
    assert_eq!(process.snapshot().bytes, 0);
    assert_eq!(process.snapshot().resident_bytes, 0);
}

#[test]
fn coalescing_is_per_subscriber_and_reports_information_loss() {
    let (mut ledger, client) = ledger();
    let mut broker = RpcEventBroker::new();
    let subscriber = broker
        .subscribe(&mut ledger, RpcEventLimits { events: 1, bytes: 1024 }, client)
        .expect("subscribe");
    let key = RpcEventKey::new(None, "status".to_owned());
    broker.publish(&mut ledger, event(RpcEventClass::Coalesced, Some(key.clone()), 1));
    broker.publish(&mut ledger, event(RpcEventClass::Coalesced, Some(key), 2));
    broker.publish(&mut ledger, event(RpcEventClass::Informational, None, 3));
    let delivered = broker
        .try_next_bounded(&ledger, subscriber, usize::MAX)
        .expect("delivery")
        .expect("queued event");
    assert_eq!(delivered.event.ticket, 2);
    let params = delivered.into_params(sequence(2));
    assert_eq!(params.get("sequence"), Some(&Json::Unsigned(2)));
    assert_eq!(params.get("ariaxDropped"), Some(&Json::Unsigned(1)));
    assert!(broker.try_next_bounded(&ledger, subscriber, usize::MAX).expect("empty queue").is_none());
}

#[test]
fn reliable_overflow_disconnects_only_the_slow_subscriber() {
    let (mut ledger, client) = ledger();
    let mut broker = RpcEventBroker::new();
    let limits = RpcEventLimits { events: 1, bytes: 1024 };
    let slow = broker.subscribe(&mut ledger, limits, client).expect("slow subscriber");
    let fast = broker.subscribe(&mut ledger, limits, client).expect("fast subscriber");
    broker.publish(&mut ledger, event(RpcEventClass::Reliable, None, 1));
    assert!(broker.try_next_bounded(&ledger, fast, usize::MAX).expect("fast delivery").is_some());
    broker.publish(&mut ledger, event(RpcEventClass::Reliable, None, 2));
    assert!(matches!(
        broker.try_next_bounded(&ledger, slow, usize::MAX),
        Err(RpcEventError::Disconnected(RpcEventDisconnect::SlowConsumer))
    ));
    let second = broker
        .try_next_bounded(&ledger, fast, usize::MAX)
        .expect("second fast delivery")
        .expect("fast event");
    assert_eq!(second.event.ticket, 2);
}

#[test]
fn events_state_their_errors() {
    assert!(matches!(
        RpcEvent::notification(0, "m".to_owned(), Json::Null, RpcEventClass::Coalesced, None, serialized),
        Err(RpcEventError::MissingCoalesceKey)
    ));
    assert!(matches!(
        RpcEvent::sized(0, "m".to_owned(), &Json::Null, RpcEventClass::Reliable, None, Some(usize::MAX), 1),
        Err(RpcEventError::EventTooLarge)
    ));
    assert!(matches!(
        RpcEventLimits { events: usize::MAX, bytes: 1 }.validate(),
        Err(RpcEventError::InvalidLimits)
    ));
    let (mut ledger, _client) = ledger();
    let mut broker = RpcEventBroker::new();
    assert_eq!(broker.subscriber_count(), 0);
    assert!(!broker.unsubscribe(&mut ledger, 7));
    assert!(matches!(
        broker.try_next_bounded(&ledger, 7, 1),
        Err(RpcEventError::Disconnected(RpcEventDisconnect::Unsubscribed))
    ));
}

#[test]
fn filters_are_charged_with_their_lists_and_names() {
    let slots = 2 * std::mem::size_of::<String>();
    assert_eq!(filter_room(2, &vec![16, 40], 3), 128 + slots + 56 + 24);
    assert_eq!(filter_room(0, &Vec::new(), 0), 128);
    assert_eq!(filter_room(usize::MAX, &vec![1], 1), usize::MAX);
    assert_eq!(RpcEventFilter::default().owned_bytes(), 128);
    let name = "aria2.onDownloadComplete";
    let filter = RpcEventFilter { methods: vec![name.to_owned()], gids: vec![Gid(7)] };
    assert!(filter.owned_bytes() >= 128 + std::mem::size_of::<String>() + name.len() + 8);
}

#[test]
fn notifications_are_measured_in_their_envelope() {
    let params = object(vec![("sequence", Json::Unsigned(1))]);
    let (event, sent) =
        RpcEvent::notification(1, "ariax.test".to_owned(), params, RpcEventClass::Reliable, None, serialized)
            .expect("event");
    let text = r#"{"jsonrpc":"2.0","method":"ariax.test","params":{"sequence":1}}"#;
    assert_eq!(plain(&sent).to_string(), text);
    assert_eq!(event.serialized_bytes, text.len());
    assert_eq!(event.owned_bytes, owned_value_bytes(&sent));
    assert!(event.owned_bytes >= 9 * 256 + 34);
    let large = Json::Array((0..3_000_000).map(|_| Json::Null).collect());
    let limited = |value: &Json, limit: usize| match value.get("params") {
        Some(Json::Array(items)) if items.len() * 25 > limit => None,
        _ => Some(1),
    };
    assert!(matches!(
        RpcEvent::notification(1, "m".to_owned(), large, RpcEventClass::Reliable, None, limited),
        Err(RpcEventError::EventTooLarge)
    ));
}

#[test]
fn subscriptions_are_charged_for_filter_and_queue() {
    let (mut ledger, client) = ledger();
    let mut broker = RpcEventBroker::new();
    let before = ledger.accounts(client).bytes();
    let limits = RpcEventLimits { events: 4, bytes: 4096 };
    let subscription = Subscription { limits, client, filter_bytes: 100, slot_bytes: 10 };
    let id = broker.subscribe_sized(&mut ledger, subscription, RpcEventFilter::default()).expect("subscriber");
    assert_eq!(ledger.accounts(client).bytes(), before + 100 + 4 * 10 + 1024);
    broker.set_sized_filter(&mut ledger, id, RpcEventFilter::default(), 30).expect("filter");
    assert_eq!(ledger.accounts(client).bytes(), before + 30 + 4 * 10 + 1024);
    assert!(broker.unsubscribe(&mut ledger, id));
    assert_eq!(ledger.accounts(client).bytes(), before);
    let id = broker.subscribe(&mut ledger, limits, client).expect("subscriber");
    assert_eq!(
        ledger.accounts(client).bytes(),
        before + 128 + 4 * std::mem::size_of::<RpcEvent>() + 1024
    );
    assert!(broker.unsubscribe(&mut ledger, id));
    let crowded = RpcEventLimits { events: usize::MAX, bytes: 1 };
    assert!(matches!(broker.subscribe(&mut ledger, crowded, client), Err(RpcEventError::InvalidLimits)));
}

#[test]
fn filters_ignore_the_order_and_repetition_of_selections() {
    let names = |list: &[&str]| list.iter().map(|name| (*name).to_owned()).collect::<Vec<String>>();
    let once = RpcEventFilter::new(names(&["b.x", "a_1", "Z"]), vec![Gid(3), Gid(1)]).expect("filter");
    let more = RpcEventFilter::new(names(&["a_1", "Z", "b.x", "Z", "a_1"]), vec![Gid(1), Gid(3), Gid(3)]).expect("filter");
    assert_eq!(once, more);
    assert_eq!(once.methods, names(&["Z", "a_1", "b.x"]));
    assert_eq!(once.gids, vec![Gid(1), Gid(3)]);
    for refused in ["", "a-b", "a b", "\u{e9}"] {
        for list in [names(&["ok", refused]), names(&[refused, "ok", refused])] {
            assert_eq!(RpcEventFilter::new(list, Vec::new()), Err(RpcEventError::InvalidFilter));
        }
    }
    assert!(RpcEventFilter::new(vec!["m".repeat(128)], Vec::new()).is_ok());
    assert!(RpcEventFilter::new(vec!["m".repeat(129)], Vec::new()).is_err());
    assert!(RpcEventFilter::new(vec!["m".to_owned(); 65], Vec::new()).is_err());
    assert!(RpcEventFilter::new(Vec::new(), vec![Gid(1); 257]).is_err());
}
