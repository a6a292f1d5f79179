//! Bounded event queues, one for each subscriber.
use vstd::prelude::*;
use crate::json::{
    capped, json_field, json_gid, json_items, json_text, owned_value_bytes, owned_with, plain_text, rooms_suffice,
    text_rooms, texts_hold, texts_of, Json, JsonField,
};
use crate::native_api::{list_capacity, padded_rooms};
use crate::session::Gid;
use crate::text::{byte_len, chars_of, same_text, stands_before, text_before};

verus! {

pub const DEFAULT_RPC_EVENT_CAPACITY: usize = 256;

pub const DEFAULT_RPC_EVENT_BYTE_CAPACITY: usize = 4_194_304;

pub const MAX_RPC_EVENT_CAPACITY: usize = 4096;

pub const MAX_RPC_EVENT_BYTE_CAPACITY: usize = 67_108_864;

pub const MAX_RPC_EVENT_SUBSCRIBERS: usize = 1024;

pub const MAX_RPC_EVENT_FILTER_METHODS: usize = 64;

pub const MAX_RPC_EVENT_FILTER_GIDS: usize = 256;

#[derive(Clone, Copy, Debug, PartialEq, Eq, Structural)]
pub enum RpcEventClass {
    Reliable,
    Coalesced,
    Informational,
}

#[derive(Clone, Copy, Debug, PartialEq, Eq, Structural)]
pub enum RpcEventDisconnect {
    SlowConsumer,
    Unsubscribed,
}

#[derive(Clone, Copy, Debug, PartialEq, Eq, Structural)]
pub enum RpcEventError {
    InvalidLimits,
    InvalidFilter,
    TooManySubscribers,
    MissingCoalesceKey,
    EventTooLarge,
    Serialization,
    BudgetExhausted,
    Disconnected(RpcEventDisconnect),
}

impl RpcEventError {
    pub open spec fn spec_message(self) -> Seq<char> {
        match self {
            RpcEventError::InvalidLimits => "invalid RPC event queue limits"@,
            RpcEventError::InvalidFilter => "invalid RPC event filter"@,
            RpcEventError::TooManySubscribers => "RPC event subscriber limit reached"@,
            RpcEventError::MissingCoalesceKey => "coalesced RPC event requires a key"@,
            RpcEventError::EventTooLarge => "RPC event exceeds the byte bound"@,
            RpcEventError::Serialization => "RPC event serialization failed"@,
            RpcEventError::BudgetExhausted => "RPC event budget is busy"@,
            RpcEventError::Disconnected(
                RpcEventDisconnect::SlowConsumer,
            ) => "RPC event subscriber is a slow consumer"@,
            RpcEventError::Disconnected(RpcEventDisconnect::Unsubscribed) => "RPC event subscriber was removed"@,
        }
    }

    /// The readable form of the error.
    pub fn message(self) -> (r: &'static str)
        ensures
            r@ == self.spec_message(),
    {
        match self {
            RpcEventError::InvalidLimits => "invalid RPC event queue limits",
            RpcEventError::InvalidFilter => "invalid RPC event filter",
            RpcEventError::TooManySubscribers => "RPC event subscriber limit reached",
            RpcEventError::MissingCoalesceKey => "coalesced RPC event requires a key",
            RpcEventError::EventTooLarge => "RPC event exceeds the byte bound",
            RpcEventError::Serialization => "RPC event serialization failed",
            RpcEventError::BudgetExhausted => "RPC event budget is busy",
            RpcEventError::Disconnected(RpcEventDisconnect::SlowConsumer) => "RPC event subscriber is a slow consumer",
            RpcEventError::Disconnected(RpcEventDisconnect::Unsubscribed) => "RPC event subscriber was removed",
        }
    }
}

#[derive(Clone, Copy, Debug, PartialEq, Eq, Structural)]
pub struct RpcEventLimits {
    pub events: usize,
    pub bytes: usize,
}

impl Default for RpcEventLimits {
    fn default() -> (r: Self)
        ensures
            r == (RpcEventLimits {
                events: DEFAULT_RPC_EVENT_CAPACITY,
                bytes: DEFAULT_RPC_EVENT_BYTE_CAPACITY,
            }),
    {
        RpcEventLimits { events: DEFAULT_RPC_EVENT_CAPACITY, bytes: DEFAULT_RPC_EVENT_BYTE_CAPACITY }
    }
}

impl RpcEventLimits {
    pub open spec fn fits(self) -> bool {
        self.events <= MAX_RPC_EVENT_CAPACITY && self.bytes <= MAX_RPC_EVENT_BYTE_CAPACITY
    }

    pub fn validate(self) -> (r: Result<Self, RpcEventError>)
        ensures
            r == (if self.fits() {
                Ok::<Self, RpcEventError>(self)
            } else {
                Err::<Self, RpcEventError>(RpcEventError::InvalidLimits)
            }),
    {
        if self.events > MAX_RPC_EVENT_CAPACITY || self.bytes > MAX_RPC_EVENT_BYTE_CAPACITY {
            return Err(RpcEventError::InvalidLimits);
        }
        Ok(self)
    }
}

/// What coalesced events replace each other by.
#[derive(Debug, PartialEq, Eq)]
pub struct RpcEventKey {
    pub gid: Option<Gid>,
    pub kind: String,
}

impl Clone for RpcEventKey {
    fn clone(&self) -> (copy: Self)
        ensures
            copy == *self,
    {
        RpcEventKey { gid: self.gid, kind: self.kind.clone() }
    }
}

impl RpcEventKey {
    pub fn new(gid: Option<Gid>, kind: String) -> (r: Self)
        ensures
            r == (RpcEventKey { gid, kind }),
    {
        RpcEventKey { gid, kind }
    }
}

/// What a key stands for.
pub open spec fn key_view(key: Option<RpcEventKey>) -> Option<(Option<Gid>, Seq<char>)> {
    match key {
        Some(key) => Some((key.gid, key.kind@)),
        None => None,
    }
}

/// One event. Its payload is kept under the ticket.
#[derive(Debug, PartialEq, Eq)]
pub struct RpcEvent {
    pub ticket: u64,
    pub method: String,
    pub gid: Option<Gid>,
    pub serialized_bytes: usize,
    pub owned_bytes: usize,
    pub class: RpcEventClass,
    pub key: Option<RpcEventKey>,
}

impl Clone for RpcEvent {
    fn clone(&self) -> (copy: Self)
        ensures
            copy == *self,
    {
        RpcEvent {
            ticket: self.ticket,
            method: self.method.clone(),
            gid: self.gid,
            serialized_bytes: self.serialized_bytes,
            owned_bytes: self.owned_bytes,
            class: self.class,
            key: match &self.key {
                Some(key) => Some(key.clone()),
                None => None,
            },
        }
    }
}

/// The task that an event is about: that of its key, or the one its parameters name.
pub open spec fn event_gid(key: Option<RpcEventKey>, params: Json) -> Option<Gid> {
    let keyed = match key {
        Some(key) => key.gid,
        None => None,
    };
    if keyed is Some {
        keyed
    } else {
        let named = match json_field(params, "gid"@) {
            Some(value) => Some(value),
            None => match json_items(params) {
                Some(items) => if items.len() > 0 {
                    json_field(items[0], "gid"@)
                } else {
                    None
                },
                None => None,
            },
        };
        match named {
            Some(value) => json_gid(value),
            None => None,
        }
    }
}

fn find_event_gid(key: &Option<RpcEventKey>, params: &Json) -> (r: Option<Gid>)
    ensures
        r == event_gid(*key, *params),
{
    if let Some(key) = key {
        if key.gid.is_some() {
            return key.gid;
        }
    }
    let named = match params.get("gid") {
        Some(value) => Some(value),
        None => match params {
            Json::Array(items) => if items.len() > 0 {
                items[0].get("gid")
            } else {
                None
            },
            _ => None,
        },
    };
    match named {
        Some(value) => value.as_gid(),
        None => None,
    }
}

/// Whether a value is a text that spells no identity.
pub open spec fn spells_only(value: Json, text: Seq<char>) -> bool {
    value matches Json::Text(spelled) && spelled.text@ == text && spelled.gid is None && spelled.challenge is None
        && spelled.fingerprint is None && !spelled.persistable
}

/// Whether a value is the envelope in which a notification is sent.
pub open spec fn enveloped(method: Seq<char>, params: Json, envelope: Json) -> bool {
    envelope matches Json::Object(fields) && {
        &&& fields@.len() == 3
        &&& fields@[0].name@ == "jsonrpc"@ && spells_only(fields@[0].value, "2.0"@)
        &&& fields@[1].name@ == "method"@ && spells_only(fields@[1].value, method)
        &&& fields@[2].name@ == "params"@ && fields@[2].value == params
    }
}

/// The envelope in which a notification is sent.
pub fn envelope(method: String, params: Json) -> (r: Json)
    ensures
        enveloped(method@, params, r),
{
    Json::Object(
        vec![
            JsonField { name: "jsonrpc".to_owned(), value: plain_text("2.0".to_owned()) },
            JsonField { name: "method".to_owned(), value: plain_text(method) },
            JsonField { name: "params".to_owned(), value: params },
        ],
    )
}

/// A notification whose envelope has such sizes, or why it cannot be sent.
pub open spec fn notified(
    ticket: u64,
    method: String,
    params: Json,
    class: RpcEventClass,
    key: Option<RpcEventKey>,
    serialized_bytes: Option<usize>,
    owned_bytes: usize,
) -> Result<RpcEvent, RpcEventError> {
    if class == RpcEventClass::Coalesced && key is None {
        Err(RpcEventError::MissingCoalesceKey)
    } else if serialized_bytes is None || serialized_bytes->0 > MAX_RPC_EVENT_BYTE_CAPACITY {
        Err(RpcEventError::EventTooLarge)
    } else {
        Ok(
            RpcEvent {
                ticket,
                method,
                gid: event_gid(key, params),
                serialized_bytes: serialized_bytes->0,
                owned_bytes,
                class,
                key,
            },
        )
    }
}

impl RpcEvent {
    /// A notification whose envelope has such sizes: `serialized_bytes` on the wire,
    /// where that is within the largest queue, and `owned_bytes` in memory.
    pub fn sized(
        ticket: u64,
        method: String,
        params: &Json,
        class: RpcEventClass,
        key: Option<RpcEventKey>,
        serialized_bytes: Option<usize>,
        owned_bytes: usize,
    ) -> (r: Result<Self, RpcEventError>)
        ensures
            r == notified(ticket, method, *params, class, key, serialized_bytes, owned_bytes),
    {
        if class == RpcEventClass::Coalesced && key.is_none() {
            return Err(RpcEventError::MissingCoalesceKey);
        }
        let serialized_bytes: usize = match serialized_bytes {
            Some(bytes) => {
                if bytes > MAX_RPC_EVENT_BYTE_CAPACITY {
                    return Err(RpcEventError::EventTooLarge);
                }
                bytes
            },
            None => return Err(RpcEventError::EventTooLarge),
        };
        let gid = find_event_gid(&key, params);
        Ok(RpcEvent { ticket, method, gid, serialized_bytes, owned_bytes, class, key })
    }

    /// A notification, and the envelope in which it is sent. `serialized` measures
    /// the envelope on the wire; it gives nothing where that is beyond a limit.
    pub fn notification<S: FnOnce(&Json, usize) -> Option<usize>>(
        ticket: u64,
        method: String,
        params: Json,
        class: RpcEventClass,
        key: Option<RpcEventKey>,
        serialized: S,
    ) -> (r: Result<(Self, Json), RpcEventError>)
        requires
            forall|value: Json| #[trigger] serialized.requires((&value, MAX_RPC_EVENT_BYTE_CAPACITY)),
        ensures
            class == RpcEventClass::Coalesced && key is None ==> r == Err::<(Self, Json), RpcEventError>(
                RpcEventError::MissingCoalesceKey,
            ),
            !(class == RpcEventClass::Coalesced && key is None) ==> exists|value: Json, bytes: Option<usize>, rooms: Seq<
                usize,
            >|
                {
                    &&& enveloped(method@, params, value)
                    &&& #[trigger] serialized.ensures((&value, MAX_RPC_EVENT_BYTE_CAPACITY), bytes)
                    &&& rooms_suffice(rooms, texts_of(value))
                    &&& r == (match notified(
                        ticket,
                        method,
                        params,
                        class,
                        key,
                        bytes,
                        capped(#[trigger] owned_with(value, rooms)) as usize,
                    ) {
                        Ok(event) => Ok::<(Self, Json), RpcEventError>((event, value)),
                        Err(error) => Err::<(Self, Json), RpcEventError>(error),
                    })
                },
    {
        if class == RpcEventClass::Coalesced && key.is_none() {
            return Err(RpcEventError::MissingCoalesceKey);
        }
        let gid = find_event_gid(&key, &params);
        let value = envelope(method.clone(), params);
        let bytes = serialized(&value, MAX_RPC_EVENT_BYTE_CAPACITY);
        let owned_bytes = owned_value_bytes(&value);
        proof {
            let rooms = choose|rooms: Seq<usize>|
                rooms_suffice(rooms, texts_of(value)) && owned_bytes == capped(#[trigger] owned_with(value, rooms));
            assert(serialized.ensures((&value, MAX_RPC_EVENT_BYTE_CAPACITY), bytes));
            assert(rooms_suffice(rooms, texts_of(value)));
            assert(capped(owned_with(value, rooms)) == owned_bytes);
        }
        match bytes {
            Some(serialized_bytes) => {
                if serialized_bytes > MAX_RPC_EVENT_BYTE_CAPACITY {
                    return Err(RpcEventError::EventTooLarge);
                }
                Ok((RpcEvent { ticket, method, gid, serialized_bytes, owned_bytes, class, key }, value))
            },
            None => Err(RpcEventError::EventTooLarge),
        }
    }
}

/// A bounded conjunction of method and task selections. Empty selections match all.
#[derive(Debug, PartialEq, Eq)]
pub struct RpcEventFilter {
    pub methods: Vec<String>,
    pub gids: Vec<Gid>,
}

/// What a filter selects.
#[verifier::ext_equal]
pub struct FilterView {
    pub methods: Seq<Seq<char>>,
    pub gids: Seq<Gid>,
}

/// The characters of several texts.
pub open spec fn texts(list: Seq<String>) -> Seq<Seq<char>> {
    list.map_values(|s: String| s@)
}

impl View for RpcEventFilter {
    type V = FilterView;

    open spec fn view(&self) -> FilterView {
        FilterView { methods: texts(self.methods@), gids: self.gids@ }
    }
}

impl Default for RpcEventFilter {
    fn default() -> (r: Self)
        ensures
            r@ == (FilterView { methods: Seq::empty(), gids: Seq::empty() }),
    {
        let r = RpcEventFilter { methods: Vec::new(), gids: Vec::new() };
        assert(r@.methods =~= Seq::empty());
        r
    }
}

/// What a filter takes, by the places that its lists have and the rooms of its
/// methods' names.
pub open spec fn filter_cost(places: usize, rooms: Seq<usize>, tasks: usize) -> int {
    capped(
        128 + places * vstd::layout::size_of::<String>() + padded_rooms(rooms, 0) + tasks * vstd::layout::size_of::<
            Gid,
        >(),
    )
}

/// What a filter takes.
pub fn filter_room(places: usize, rooms: &Vec<usize>, tasks: usize) -> (r: usize)
    ensures
        r == filter_cost(places, rooms@, tasks),
{
    let named: usize = match places.checked_mul(core::mem::size_of::<String>()) {
        Some(product) => product,
        None => usize::MAX,
    };
    let numbered: usize = match tasks.checked_mul(core::mem::size_of::<Gid>()) {
        Some(product) => product,
        None => usize::MAX,
    };
    let base: usize = 128;
    let mut bytes: usize = base.saturating_add(named);
    let mut i: usize = 0;
    while i < rooms.len()
        invariant
            i <= rooms.len(),
            named == capped(places * vstd::layout::size_of::<String>()),
            padded_rooms(rooms@.take(i as int), 0) >= 0,
            bytes == capped(128 + named + padded_rooms(rooms@.take(i as int), 0)),
        decreases rooms.len() - i,
    {
        assert(rooms@.take(i as int + 1).drop_last() =~= rooms@.take(i as int));
        bytes = bytes.saturating_add(rooms[i]);
        i = i + 1;
    }
    assert(rooms@.take(i as int) =~= rooms@);
    bytes.saturating_add(numbered)
}

impl RpcEventFilter {
    /// Whether this filter takes so many bytes for some rooms that hold it.
    pub open spec fn costs(self, bytes: usize) -> bool {
        exists|places: usize, rooms: Seq<usize>, tasks: usize|
            places >= self.methods@.len() && texts_hold(rooms, self.methods@) && tasks >= self.gids@.len() && bytes
                == #[trigger] filter_cost(places, rooms, tasks)
    }

    /// What this filter takes. Its lists and names are counted with the room that
    /// they have, which is at least what they hold.
    pub fn owned_bytes(&self) -> (r: usize)
        ensures
            self.costs(r),
    {
        let places = list_capacity(&self.methods);
        let rooms = text_rooms(&self.methods);
        let tasks = list_capacity(&self.gids);
        let r = filter_room(places, &rooms, tasks);
        assert(r == filter_cost(places, rooms@, tasks));
        r
    }
}

/// Whether a name may be that of a method.
pub open spec fn method_name(name: Seq<char>) -> bool {
    &&& name.len() > 0
    &&& byte_len(name) <= 128
    &&& forall|i: int| 0 <= i < name.len() ==> method_char(#[trigger] name[i])
}

/// Whether a character may stand in the name of a method.
pub open spec fn method_char(c: char) -> bool {
    ||| '0' <= c && c <= '9'
    ||| 'a' <= c && c <= 'z'
    ||| 'A' <= c && c <= 'Z'
    ||| c == '.'
    ||| c == '_'
}

/// Whether selections make a filter.
pub open spec fn filter_fits(methods: Seq<Seq<char>>, gids: Seq<Gid>) -> bool {
    &&& methods.len() <= MAX_RPC_EVENT_FILTER_METHODS
    &&& gids.len() <= MAX_RPC_EVENT_FILTER_GIDS
    &&& forall|i: int| 0 <= i < methods.len() ==> method_name(#[trigger] methods[i])
}

/// The texts in ascending order, each once: one more is put in its place.
pub open spec fn put_text(sorted: Seq<Seq<char>>, text: Seq<char>) -> Seq<Seq<char>>
    decreases sorted.len(),
{
    if sorted.len() == 0 {
        seq![text]
    } else if text == sorted.last() {
        sorted
    } else if text_before(sorted.last(), text) {
        sorted.push(text)
    } else {
        put_text(sorted.drop_last(), text).push(sorted.last())
    }
}

/// The first `n` texts in ascending order, each once.
pub open spec fn ascending_texts(list: Seq<Seq<char>>, n: int) -> Seq<Seq<char>>
    decreases n,
{
    if n <= 0 {
        Seq::empty()
    } else {
        put_text(ascending_texts(list, n - 1), list[n - 1])
    }
}

/// The GIDs in ascending order, each once: one more is put in its place.
pub open spec fn put_gid(sorted: Seq<Gid>, gid: Gid) -> Seq<Gid>
    decreases sorted.len(),
{
    if sorted.len() == 0 {
        seq![gid]
    } else if gid == sorted.last() {
        sorted
    } else if sorted.last().0 < gid.0 {
        sorted.push(gid)
    } else {
        put_gid(sorted.drop_last(), gid).push(sorted.last())
    }
}

/// The first `n` GIDs in ascending order, each once.
pub open spec fn ascending_gids(list: Seq<Gid>, n: int) -> Seq<Gid>
    decreases n,
{
    if n <= 0 {
        Seq::empty()
    } else {
        put_gid(ascending_gids(list, n - 1), list[n - 1])
    }
}

/// The filter of some selections.
pub open spec fn filter_of(methods: Seq<Seq<char>>, gids: Seq<Gid>) -> FilterView {
    FilterView {
        methods: ascending_texts(methods, methods.len() as int),
        gids: ascending_gids(gids, gids.len() as int),
    }
}

/// Whether an event is selected: by its method, and by its task where it has one.
pub open spec fn selects(filter: FilterView, event: RpcEvent) -> bool {
    &&& filter.methods.len() == 0 || filter.methods.contains(event.method@)
    &&& filter.gids.len() == 0 || event.gid is None || filter.gids.contains(event.gid->0)
}

fn put_text_in(sorted: &mut Vec<String>, text: String)
    ensures
        texts(final(sorted)@) == put_text(texts(old(sorted)@), text@),
{
    let ghost all = texts(sorted@);
    let chars = chars_of(text.as_str());
    let mut i: usize = sorted.len();
    assert(all.take(i as int) =~= all);
    assert(all.skip(i as int) =~= Seq::empty());
    assert(put_text(all, text@) =~= put_text(all.take(i as int), text@) + all.skip(i as int));
    while i > 0
        invariant_except_break
            i <= sorted.len(),
            chars@ == text@,
            all == texts(sorted@),
            *sorted == *old(sorted),
            put_text(all, text@) == put_text(all.take(i as int), text@) + all.skip(i as int),
        ensures
            i <= sorted.len(),
            all == texts(sorted@),
            *sorted == *old(sorted),
            put_text(all, text@) == all.take(i as int).push(text@) + all.skip(i as int),
        decreases i,
    {
        assert(all[i - 1] == sorted@[i - 1]@);
        assert(all.take(i as int).last() == all[i - 1]);
        assert(all.take(i as int).drop_last() =~= all.take(i - 1));
        if same_text(sorted[i - 1].as_str(), text.as_str()) {
            assert(all.take(i as int) + all.skip(i as int) =~= all);
            return;
        }
        if stands_before(&chars_of(sorted[i - 1].as_str()), &chars) {
            break;
        }
        assert(put_text(all.take(i - 1), text@).push(all[i - 1]) + all.skip(i as int) =~= put_text(
            all.take(i - 1),
            text@,
        ) + all.skip(i - 1));
        i = i - 1;
        if i == 0 {
            assert(all.take(0) =~= Seq::empty());
            assert(seq![text@] =~= all.take(0).push(text@));
        }
    }
    proof {
        if all.len() == 0 {
            assert(all.take(0).push(text@) + all.skip(0) =~= seq![text@]);
        }
    }
    let ghost spelled = text@;
    sorted.insert(i, text);
    assert(texts(sorted@) =~= all.take(i as int).push(spelled) + all.skip(i as int));
}

fn put_gid_in(sorted: &mut Vec<Gid>, gid: Gid)
    ensures
        final(sorted)@ == put_gid(old(sorted)@, gid),
{
    let ghost all = sorted@;
    let mut i: usize = sorted.len();
    assert(all.take(i as int) =~= all);
    assert(all.skip(i as int) =~= Seq::empty());
    assert(put_gid(all, gid) =~= put_gid(all.take(i as int), gid) + all.skip(i as int));
    while i > 0
        invariant_except_break
            i <= sorted.len(),
            all == sorted@,
            *sorted == *old(sorted),
            put_gid(all, gid) == put_gid(all.take(i as int), gid) + all.skip(i as int),
        ensures
            i <= sorted.len(),
            all == sorted@,
            *sorted == *old(sorted),
            put_gid(all, gid) == all.take(i as int).push(gid) + all.skip(i as int),
        decreases i,
    {
        assert(all.take(i as int).last() == all[i - 1]);
        assert(all.take(i as int).drop_last() =~= all.take(i - 1));
        if sorted[i - 1] == gid {
            assert(all.take(i as int) + all.skip(i as int) =~= all);
            return;
        }
        if sorted[i - 1].0 < gid.0 {
            break;
        }
        assert(put_gid(all.take(i - 1), gid).push(all[i - 1]) + all.skip(i as int) =~= put_gid(
            all.take(i - 1),
            gid,
        ) + all.skip(i - 1));
        i = i - 1;
        if i == 0 {
            assert(all.take(0) =~= Seq::empty());
            assert(seq![gid] =~= all.take(0).push(gid));
        }
    }
    proof {
        if all.len() == 0 {
            assert(all.take(0).push(gid) + all.skip(0) =~= seq![gid]);
        }
    }
    sorted.insert(i, gid);
    assert(sorted@ =~= all.take(i as int).push(gid) + all.skip(i as int));
}

fn is_method_name(name: &str) -> (r: bool)
    ensures
        r == method_name(name@),
{
    if name.is_empty() || name.len() > 128 {
        return false;
    }
    let chars = chars_of(name);
    let mut i: usize = 0;
    while i < chars.len()
        invariant
            i <= chars.len(),
            chars@ == name@,
            forall|k: int| 0 <= k < i ==> method_char(#[trigger] name@[k]),
        decreases chars.len() - i,
    {
        let c = chars[i];
        if !(('0' <= c && c <= '9') || ('a' <= c && c <= 'z') || ('A' <= c && c <= 'Z') || c == '.' || c == '_') {
            assert(!method_char(name@[i as int]));
            return false;
        }
        i = i + 1;
    }
    true
}

/// The texts of items, if each is one of at most 128 bytes.
pub open spec fn method_items(items: Seq<Json>) -> Option<Seq<Seq<char>>> {
    if forall|i: int| 0 <= i < items.len() ==> short_text(#[trigger] items[i]) {
        Some(items.map_values(|v: Json| json_text(v)->0))
    } else {
        None
    }
}

/// Whether a value is a text of at most 128 bytes.
pub open spec fn short_text(value: Json) -> bool {
    json_text(value) is Some && byte_len(json_text(value)->0) <= 128
}

/// The GIDs of items, if each spells one.
pub open spec fn gid_items(items: Seq<Json>) -> Option<Seq<Gid>> {
    if forall|i: int| 0 <= i < items.len() ==> json_gid(#[trigger] items[i]) is Some {
        Some(items.map_values(|v: Json| json_gid(v)->0))
    } else {
        None
    }
}

/// The items of a field, none where it is absent; `None` where it is no array
/// or too long a one.
pub open spec fn bounded_items(value: Json, name: Seq<char>, limit: int) -> Option<Seq<Json>> {
    match json_field(value, name) {
        None => Some(Seq::empty()),
        Some(field) => match json_items(field) {
            Some(items) => if items.len() <= limit {
                Some(items)
            } else {
                None
            },
            None => None,
        },
    }
}

/// Whether a value is an object with no fields but those of a filter.
pub open spec fn filter_object(value: Json) -> bool {
    value matches Json::Object(fields) && forall|i: int|
        0 <= i < fields@.len() ==> (#[trigger] fields@[i]).name@ == "methods"@ || fields@[i].name@ == "gids"@
}

/// The filter that a request spells, if it does.
pub open spec fn requested_filter(value: Json) -> Option<FilterView> {
    if !filter_object(value) {
        None
    } else {
        match (
            bounded_items(value, "methods"@, MAX_RPC_EVENT_FILTER_METHODS as int),
            bounded_items(value, "gids"@, MAX_RPC_EVENT_FILTER_GIDS as int),
        ) {
            (Some(methods), Some(gids)) => match (method_items(methods), gid_items(gids)) {
                (Some(methods), Some(gids)) => if filter_fits(methods, gids) {
                    Some(filter_of(methods, gids))
                } else {
                    None
                },
                _ => None,
            },
            _ => None,
        }
    }
}

fn read_methods(items: &Vec<Json>) -> (r: Option<Vec<String>>)
    ensures
        (match r {
            Some(list) => Some(texts(list@)),
            None => None,
        }) == method_items(items@),
{
    let mut list: Vec<String> = Vec::new();
    let mut i: usize = 0;
    let ghost all = items@.map_values(|v: Json| json_text(v)->0);
    assert(texts(list@) =~= all.take(0));
    while i < items.len()
        invariant
            i <= items.len(),
            all == items@.map_values(|v: Json| json_text(v)->0),
            texts(list@) == all.take(i as int),
            forall|k: int| 0 <= k < i ==> short_text(#[trigger] items@[k]),
        decreases items.len() - i,
    {
        match items[i].as_text() {
            Some(text) => {
                if text.len() > 128 {
                    assert(!short_text(items@[i as int]));
                    return None;
                }
                let ghost before = texts(list@);
                list.push(text.to_owned());
                assert(texts(list@) =~= before.push(text@));
                assert(all.take(i as int + 1) =~= all.take(i as int).push(all[i as int]));
            },
            None => {
                assert(!short_text(items@[i as int]));
                return None;
            },
        }
        i = i + 1;
    }
    assert(all.take(i as int) =~= all);
    Some(list)
}

fn read_gids(items: &Vec<Json>) -> (r: Option<Vec<Gid>>)
    ensures
        (match r {
            Some(list) => Some(list@),
            None => None,
        }) == gid_items(items@),
{
    let mut list: Vec<Gid> = Vec::new();
    let mut i: usize = 0;
    let ghost all = items@.map_values(|v: Json| json_gid(v)->0);
    while i < items.len()
        invariant
            i <= items.len(),
            all == items@.map_values(|v: Json| json_gid(v)->0),
            list@ == all.take(i as int),
            forall|k: int| 0 <= k < i ==> json_gid(#[trigger] items@[k]) is Some,
        decreases items.len() - i,
    {
        match items[i].as_gid() {
            Some(gid) => list.push(gid),
            None => return None,
        }
        i = i + 1;
        assert(list@ =~= all.take(i as int));
    }
    assert(all.take(i as int) =~= all);
    Some(list)
}

/// The items of a field of a filter.
enum FilterItems<'a> {
    Absent,
    Items(&'a Vec<Json>),
    Invalid,
}

fn filter_items<'a>(value: &'a Json, name: &str, limit: usize) -> (r: FilterItems<'a>)
    ensures
        match r {
            FilterItems::Absent => json_field(*value, name@) is None,
            FilterItems::Items(items) => json_field(*value, name@) is Some && bounded_items(
                *value,
                name@,
                limit as int,
            ) == Some(items@),
            FilterItems::Invalid => bounded_items(*value, name@, limit as int) is None,
        },
{
    match value.get(name) {
        None => FilterItems::Absent,
        Some(Json::Array(items)) => if items.len() <= limit {
            FilterItems::Items(items)
        } else {
            FilterItems::Invalid
        },
        Some(_) => FilterItems::Invalid,
    }
}

impl RpcEventFilter {
    /// A filter of some selections, each put in order and without repetition.
    pub fn new(methods: Vec<String>, gids: Vec<Gid>) -> (r: Result<Self, RpcEventError>)
        ensures
            (match r {
                Ok(filter) => Ok::<FilterView, RpcEventError>(filter@),
                Err(error) => Err::<FilterView, RpcEventError>(error),
            }) == (if filter_fits(texts(methods@), gids@) {
                Ok::<FilterView, RpcEventError>(filter_of(texts(methods@), gids@))
            } else {
                Err::<FilterView, RpcEventError>(RpcEventError::InvalidFilter)
            }),
    {
        let ghost names = texts(methods@);
        if methods.len() > MAX_RPC_EVENT_FILTER_METHODS || gids.len() > MAX_RPC_EVENT_FILTER_GIDS {
            return Err(RpcEventError::InvalidFilter);
        }
        let mut sorted: Vec<String> = Vec::new();
        let mut i: usize = 0;
        assert(texts(sorted@) =~= Seq::empty());
        while i < methods.len()
            invariant
                i <= methods.len(),
                names == texts(methods@),
                texts(sorted@) == ascending_texts(names, i as int),
                forall|k: int| 0 <= k < i ==> method_name(#[trigger] names[k]),
            decreases methods.len() - i,
        {
            assert(names[i as int] == methods@[i as int]@);
            if !is_method_name(methods[i].as_str()) {
                return Err(RpcEventError::InvalidFilter);
            }
            put_text_in(&mut sorted, methods[i].clone());
            i = i + 1;
        }
        let mut ordered: Vec<Gid> = Vec::new();
        let mut k: usize = 0;
        assert(ordered@ =~= Seq::empty());
        while k < gids.len()
            invariant
                k <= gids.len(),
                ordered@ == ascending_gids(gids@, k as int),
            decreases gids.len() - k,
        {
            put_gid_in(&mut ordered, gids[k]);
            k = k + 1;
        }
        Ok(RpcEventFilter { methods: sorted, gids: ordered })
    }

    /// The filter that a request spells.
    pub fn from_rpc(value: &Json) -> (r: Result<Self, RpcEventError>)
        ensures
            (match r {
                Ok(filter) => Ok::<FilterView, RpcEventError>(filter@),
                Err(error) => Err::<FilterView, RpcEventError>(error),
            }) == (match requested_filter(*value) {
                Some(filter) => Ok::<FilterView, RpcEventError>(filter),
                None => Err::<FilterView, RpcEventError>(RpcEventError::InvalidFilter),
            }),
    {
        match value {
            Json::Object(fields) => {
                let mut i: usize = 0;
                while i < fields.len()
                    invariant
                        i <= fields.len(),
                        *value == Json::Object(*fields),
                        forall|k: int|
                            0 <= k < i ==> (#[trigger] fields@[k]).name@ == "methods"@ || fields@[k].name@
                                == "gids"@,
                    decreases fields.len() - i,
                {
                    if !same_text(fields[i].name.as_str(), "methods") && !same_text(
                        fields[i].name.as_str(),
                        "gids",
                    ) {
                        assert(!filter_object(*value));
                        return Err(RpcEventError::InvalidFilter);
                    }
                    i = i + 1;
                }
            },
            _ => return Err(RpcEventError::InvalidFilter),
        }
        let none: Vec<Json> = Vec::new();
        assert(none@ =~= Seq::empty());
        let methods = match filter_items(value, "methods", MAX_RPC_EVENT_FILTER_METHODS) {
            FilterItems::Absent => read_methods(&none),
            FilterItems::Items(items) => read_methods(items),
            FilterItems::Invalid => return Err(RpcEventError::InvalidFilter),
        };
        let methods = match methods {
            Some(methods) => methods,
            None => return Err(RpcEventError::InvalidFilter),
        };
        let gids = match filter_items(value, "gids", MAX_RPC_EVENT_FILTER_GIDS) {
            FilterItems::Absent => read_gids(&none),
            FilterItems::Items(items) => read_gids(items),
            FilterItems::Invalid => return Err(RpcEventError::InvalidFilter),
        };
        let gids = match gids {
            Some(gids) => gids,
            None => return Err(RpcEventError::InvalidFilter),
        };
        RpcEventFilter::new(methods, gids)
    }

    /// Whether an event is selected.
    pub fn matches(&self, event: &RpcEvent) -> (r: bool)
        ensures
            r == selects(self@, *event),
    {
        let mut known = self.methods.len() == 0;
        let mut i: usize = 0;
        while i < self.methods.len() && !known
            invariant
                i <= self.methods.len(),
                known ==> self@.methods.len() == 0 || self@.methods.contains(event.method@),
                !known ==> forall|k: int| 0 <= k < i ==> #[trigger] self@.methods[k] != event.method@,
                self@.methods.len() == 0 ==> known,
            decreases self.methods.len() - i,
        {
            assert(self@.methods[i as int] == self.methods@[i as int]@);
            known = same_text(self.methods[i].as_str(), event.method.as_str());
            i = i + 1;
        }
        if !known {
            return false;
        }
        let gid = match event.gid {
            Some(gid) => gid,
            None => return true,
        };
        if self.gids.len() == 0 {
            return true;
        }
        let mut k: usize = 0;
        while k < self.gids.len()
            invariant
                k <= self.gids.len(),
                self.gids.len() > 0,
                event.gid == Some(gid),
                self@.methods.len() == 0 || self@.methods.contains(event.method@),
                forall|j: int| 0 <= j < k ==> #[trigger] self@.gids[j] != gid,
            decreases self.gids.len() - k,
        {
            if self.gids[k] == gid {
                assert(self@.gids[k as int] == gid);
                return true;
            }
            k = k + 1;
        }
        false
    }
}

} // verus!
