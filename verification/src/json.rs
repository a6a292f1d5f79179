//! JSON values, and what they take when they are owned.
use vstd::prelude::*;
use crate::session::{Gid, HostKeyChallengeId, JournalHash};
use crate::text::{byte_len, same_text};

verus! {

/// A text, and the identities that it spells.
#[derive(Debug, PartialEq, Eq)]
pub struct JsonText {
    pub text: String,
    pub gid: Option<Gid>,
    pub challenge: Option<HostKeyChallengeId>,
    pub fingerprint: Option<JournalHash>,
    /// Whether it is an address that may be persisted.
    pub persistable: bool,
}

/// A JSON value.
#[derive(Debug, PartialEq, Eq)]
pub enum Json {
    Null,
    Bool(bool),
    Unsigned(u64),
    Negative(i64),
    /// Any other number, as it is written.
    Real(String),
    Text(JsonText),
    Array(Vec<Json>),
    /// Fields under names of which none stands twice.
    Object(Vec<JsonField>),
}

/// A field of an object.
#[derive(Debug, PartialEq, Eq)]
pub struct JsonField {
    pub name: String,
    pub value: Json,
}

/// A text that spells no identity.
pub fn plain_text(text: String) -> (r: Json)
    ensures
        r == Json::Text(JsonText { text, gid: None, challenge: None, fingerprint: None, persistable: false }),
{
    Json::Text(JsonText { text, gid: None, challenge: None, fingerprint: None, persistable: false })
}

/// The first field from `from` on of a name.
pub open spec fn field_from(fields: Seq<JsonField>, name: Seq<char>, from: int) -> Option<int>
    decreases fields.len() - from,
{
    if from < 0 || from >= fields.len() {
        None
    } else if fields[from].name@ == name {
        Some(from)
    } else {
        field_from(fields, name, from + 1)
    }
}

/// The field of an object under a name.
pub open spec fn json_field(value: Json, name: Seq<char>) -> Option<Json> {
    match value {
        Json::Object(fields) => match field_from(fields@, name, 0) {
            Some(i) => Some(fields@[i].value),
            None => None,
        },
        _ => None,
    }
}

/// The text of a value, if it is one.
pub open spec fn json_text(value: Json) -> Option<Seq<char>> {
    match value {
        Json::Text(text) => Some(text.text@),
        _ => None,
    }
}

/// The items of a value, if it is an array.
pub open spec fn json_items(value: Json) -> Option<Seq<Json>> {
    match value {
        Json::Array(items) => Some(items@),
        _ => None,
    }
}

/// The fields of a value, if it is an object.
pub open spec fn json_fields(value: Json) -> Option<Seq<JsonField>> {
    match value {
        Json::Object(fields) => Some(fields@),
        _ => None,
    }
}

/// The text of a field.
pub open spec fn field_text(value: Json, name: Seq<char>) -> Option<Seq<char>> {
    match json_field(value, name) {
        Some(field) => json_text(field),
        None => None,
    }
}

/// The GID that a value spells, if it is a text that does.
pub open spec fn json_gid(value: Json) -> Option<Gid> {
    match value {
        Json::Text(text) => text.gid,
        _ => None,
    }
}

impl Json {
    pub fn get(&self, name: &str) -> (r: Option<&Json>)
        ensures
            (match r {
                Some(value) => Some(*value),
                None => None,
            }) == json_field(*self, name@),
    {
        match self {
            Json::Object(fields) => {
                let mut i: usize = 0;
                while i < fields.len()
                    invariant
                        i <= fields.len(),
                        *self == Json::Object(*fields),
                        field_from(fields@, name@, 0) == field_from(fields@, name@, i as int),
                    decreases fields.len() - i,
                {
                    if same_text(fields[i].name.as_str(), name) {
                        return Some(&fields[i].value);
                    }
                    i = i + 1;
                }
                None
            },
            _ => None,
        }
    }

    pub fn as_text(&self) -> (r: Option<&str>)
        ensures
            (match r {
                Some(text) => Some(text@),
                None => None,
            }) == json_text(*self),
    {
        match self {
            Json::Text(text) => Some(text.text.as_str()),
            _ => None,
        }
    }

    pub fn get_text(&self, name: &str) -> (r: Option<&str>)
        ensures
            (match r {
                Some(text) => Some(text@),
                None => None,
            }) == field_text(*self, name@),
    {
        match self.get(name) {
            Some(value) => value.as_text(),
            None => None,
        }
    }

    pub fn as_gid(&self) -> (r: Option<Gid>)
        ensures
            r == json_gid(*self),
    {
        match self {
            Json::Text(text) => text.gid,
            _ => None,
        }
    }
}

/// What a node takes besides its text.
pub const NODE_BYTES: usize = 256;

/// What the first `n` items of a value take.
pub open spec fn items_layout(items: Seq<Json>, n: int) -> int
    decreases items, n,
{
    if n <= 0 || n > items.len() {
        0
    } else {
        items_layout(items, n - 1) + layout(items[n - 1])
    }
}

/// What the first `n` fields of a value take.
pub open spec fn fields_layout(fields: Seq<JsonField>, n: int) -> int
    decreases fields, n,
{
    if n <= 0 || n > fields.len() {
        0
    } else {
        fields_layout(fields, n - 1) + NODE_BYTES + 2 * byte_len(fields[n - 1].name@) + layout(
            fields[n - 1].value,
        )
    }
}

/// What a value may take when it is built: a node for each value and name, and
/// twice each text.
pub open spec fn layout(value: Json) -> int
    decreases value, 0int,
{
    match value {
        Json::Text(text) => NODE_BYTES + 2 * byte_len(text.text@),
        Json::Array(items) => NODE_BYTES + items_layout(items@, items@.len() as int),
        Json::Object(fields) => NODE_BYTES + fields_layout(fields@, fields@.len() as int),
        _ => NODE_BYTES as int,
    }
}

/// How many nodes the first `n` items of a value are.
pub open spec fn items_nodes(items: Seq<Json>, n: int) -> int
    decreases items, n,
{
    if n <= 0 || n > items.len() {
        0
    } else {
        items_nodes(items, n - 1) + nodes(items[n - 1])
    }
}

/// How many nodes the first `n` fields of a value are, their names among them.
pub open spec fn fields_nodes(fields: Seq<JsonField>, n: int) -> int
    decreases fields, n,
{
    if n <= 0 || n > fields.len() {
        0
    } else {
        fields_nodes(fields, n - 1) + 1 + nodes(fields[n - 1].value)
    }
}

/// How many nodes a value is: one for each value and name in it.
pub open spec fn nodes(value: Json) -> int
    decreases value, 0int,
{
    match value {
        Json::Array(items) => 1 + items_nodes(items@, items@.len() as int),
        Json::Object(fields) => 1 + fields_nodes(fields@, fields@.len() as int),
        _ => 1,
    }
}

/// The texts of the first `n` items of a value.
pub open spec fn items_texts(items: Seq<Json>, n: int) -> Seq<Seq<char>>
    decreases items, n,
{
    if n <= 0 || n > items.len() {
        Seq::empty()
    } else {
        items_texts(items, n - 1) + texts_of(items[n - 1])
    }
}

/// The names and texts of the first `n` fields of a value.
pub open spec fn fields_texts(fields: Seq<JsonField>, n: int) -> Seq<Seq<char>>
    decreases fields, n,
{
    if n <= 0 || n > fields.len() {
        Seq::empty()
    } else {
        fields_texts(fields, n - 1).push(fields[n - 1].name@) + texts_of(fields[n - 1].value)
    }
}

/// The texts and the names of fields of a value, in order.
pub open spec fn texts_of(value: Json) -> Seq<Seq<char>>
    decreases value, 0int,
{
    match value {
        Json::Text(text) => seq![text.text@],
        Json::Array(items) => items_texts(items@, items@.len() as int),
        Json::Object(fields) => fields_texts(fields@, fields@.len() as int),
        _ => Seq::empty(),
    }
}

/// How many texts and names of fields a value has.
pub open spec fn text_count(value: Json) -> nat {
    texts_of(value).len()
}

/// How long texts are together.
pub open spec fn text_total(texts: Seq<Seq<char>>) -> int
    decreases texts.len(),
{
    if texts.len() == 0 {
        0
    } else {
        text_total(texts.drop_last()) + byte_len(texts.last())
    }
}

/// How much rooms are together.
pub open spec fn room_total(rooms: Seq<usize>) -> int
    decreases rooms.len(),
{
    if rooms.len() == 0 {
        0
    } else {
        room_total(rooms.drop_last()) + rooms.last()
    }
}

/// What a value owns: a node for each value and name, and for each text and name,
/// in order, the room that it has.
pub open spec fn owned_with(value: Json, rooms: Seq<usize>) -> int {
    NODE_BYTES * nodes(value) + room_total(rooms)
}

/// Whether every text has a room that holds it.
pub open spec fn rooms_suffice(rooms: Seq<usize>, texts: Seq<Seq<char>>) -> bool {
    rooms.len() == texts.len() && forall|i: int| 0 <= i < rooms.len() ==> #[trigger] rooms[i] >= byte_len(texts[i])
}

/// Whether every text has a room of at most twice its bytes.
pub open spec fn rooms_at_most_twice(rooms: Seq<usize>, texts: Seq<Seq<char>>) -> bool {
    rooms.len() == texts.len() && forall|i: int|
        0 <= i < rooms.len() ==> #[trigger] rooms[i] <= 2 * byte_len(texts[i])
}

/// What the first `n` items of a command take.
pub open spec fn items_command(items: Seq<Json>, n: int) -> int
    decreases items, n,
{
    if n <= 0 || n > items.len() {
        0
    } else {
        items_command(items, n - 1) + command(items[n - 1])
    }
}

/// What the first `n` fields of a command take.
pub open spec fn fields_command(fields: Seq<JsonField>, n: int) -> int
    decreases fields, n,
{
    if n <= 0 || n > fields.len() {
        0
    } else {
        fields_command(fields, n - 1) + 1024 + 12 * byte_len(fields[n - 1].name@) + command(
            fields[n - 1].value,
        )
    }
}

/// What a value takes while a command works on it.
pub open spec fn command(value: Json) -> int
    decreases value, 0int,
{
    match value {
        Json::Text(text) => 1024 + 12 * byte_len(text.text@),
        Json::Array(items) => 1024 + items_command(items@, items@.len() as int),
        Json::Object(fields) => 1024 + fields_command(fields@, fields@.len() as int),
        _ => 1024,
    }
}

/// A value owns no more than what it was measured at, where no text has a room of
/// more than twice its bytes.
pub proof fn law_measured_layout_dominates_what_is_owned(value: Json, rooms: Seq<usize>)
    requires
        rooms_at_most_twice(rooms, texts_of(value)),
    ensures
        NODE_BYTES <= owned_with(value, rooms) <= layout(value),
{
    lemma_layout(value);
    lemma_rooms_at_most_twice(rooms, texts_of(value));
    lemma_room_total(rooms);
}

proof fn lemma_rooms_at_most_twice(rooms: Seq<usize>, texts: Seq<Seq<char>>)
    requires
        rooms_at_most_twice(rooms, texts),
    ensures
        room_total(rooms) <= 2 * text_total(texts),
    decreases rooms.len(),
{
    if rooms.len() > 0 {
        let before = rooms.drop_last();
        assert forall|i: int| 0 <= i < before.len() implies #[trigger] before[i] <= 2 * byte_len(
            texts.drop_last()[i],
        ) by {
            assert(rooms[i] <= 2 * byte_len(texts[i]));
        }
        lemma_rooms_at_most_twice(before, texts.drop_last());
    }
}

pub proof fn lemma_room_total(rooms: Seq<usize>)
    ensures
        room_total(rooms) >= 0,
    decreases rooms.len(),
{
    if rooms.len() > 0 {
        lemma_room_total(rooms.drop_last());
    }
}

proof fn lemma_text_total(texts: Seq<Seq<char>>)
    ensures
        text_total(texts) >= 0,
    decreases texts.len(),
{
    if texts.len() > 0 {
        lemma_text_total(texts.drop_last());
    }
}

proof fn lemma_text_total_joined(a: Seq<Seq<char>>, b: Seq<Seq<char>>)
    ensures
        text_total(a + b) == text_total(a) + text_total(b),
    decreases b.len(),
{
    if b.len() == 0 {
        assert(a + b =~= a);
    } else {
        lemma_text_total_joined(a, b.drop_last());
        assert((a + b).drop_last() =~= a + b.drop_last());
        assert((a + b).last() == b.last());
    }
}

/// A value takes its nodes and twice its texts.
pub proof fn lemma_layout(value: Json)
    ensures
        layout(value) == NODE_BYTES * nodes(value) + 2 * text_total(texts_of(value)),
        nodes(value) >= 1,
        layout(value) >= NODE_BYTES,
    decreases value, 0int,
{
    match value {
        Json::Text(text) => {
            assert(texts_of(value).drop_last() =~= Seq::empty());
            assert(text_total(texts_of(value)) == text_total(Seq::empty()) + byte_len(text.text@));
        },
        Json::Array(items) => lemma_items_layout(items@, items@.len() as int),
        Json::Object(fields) => lemma_fields_layout(fields@, fields@.len() as int),
        _ => {},
    }
    lemma_text_total(texts_of(value));
}

proof fn lemma_items_layout(items: Seq<Json>, n: int)
    ensures
        items_layout(items, n) == NODE_BYTES * items_nodes(items, n) + 2 * text_total(items_texts(items, n)),
        items_nodes(items, n) >= 0,
    decreases items, n,
{
    if 0 < n <= items.len() {
        lemma_items_layout(items, n - 1);
        lemma_layout(items[n - 1]);
        lemma_text_total_joined(items_texts(items, n - 1), texts_of(items[n - 1]));
    }
}

proof fn lemma_fields_layout(fields: Seq<JsonField>, n: int)
    ensures
        fields_layout(fields, n) == NODE_BYTES * fields_nodes(fields, n) + 2 * text_total(fields_texts(fields, n)),
        fields_nodes(fields, n) >= 0,
    decreases fields, n,
{
    if 0 < n <= fields.len() {
        lemma_fields_layout(fields, n - 1);
        lemma_layout(fields[n - 1].value);
        let before = fields_texts(fields, n - 1);
        let named = before.push(fields[n - 1].name@);
        lemma_text_total_joined(named, texts_of(fields[n - 1].value));
        assert(named.drop_last() =~= before);
    }
}

/// The room that a text has, by `String::capacity`: at least its bytes.
#[verifier::external_body]
pub(crate) fn text_capacity(text: &String) -> (r: usize)
    ensures
        r >= byte_len(text@),
{
    text.capacity()
}

/// Whether every text has its room.
pub open spec fn texts_hold(rooms: Seq<usize>, texts: Seq<String>) -> bool {
    rooms.len() == texts.len() && forall|i: int|
        0 <= i < rooms.len() ==> #[trigger] rooms[i] >= byte_len(texts[i]@)
}

/// The room that each of a list of texts has.
pub(crate) fn text_rooms(texts: &Vec<String>) -> (r: Vec<usize>)
    ensures
        texts_hold(r@, texts@),
{
    let mut rooms: Vec<usize> = Vec::new();
    let mut i: usize = 0;
    while i < texts.len()
        invariant
            i <= texts.len(),
            rooms@.len() == i,
            forall|k: int| 0 <= k < i ==> #[trigger] rooms@[k] >= byte_len(texts@[k]@),
        decreases texts.len() - i,
    {
        rooms.push(text_capacity(&texts[i]));
        i = i + 1;
    }
    rooms
}

/// A number held within what the machine can count.
pub open spec fn capped(n: int) -> int {
    if n > usize::MAX {
        usize::MAX as int
    } else {
        n
    }
}

/// The bytes of the nodes of a value.
fn node_bytes(value: &Json) -> (r: usize)
    ensures
        r == capped(NODE_BYTES * nodes(*value)),
    decreases value,
{
    match value {
        Json::Array(items) => {
            let mut sum: usize = NODE_BYTES;
            let mut i: usize = 0;
            while i < items.len()
                invariant
                    i <= items.len(),
                    *value == Json::Array(*items),
                    sum == capped(NODE_BYTES * (1 + items_nodes(items@, i as int))),
                decreases items.len() - i,
            {
                proof {
                    lemma_item_smaller(*value, *items, i as int);
                    lemma_items_layout(items@, i as int);
                    lemma_layout(items@[i as int]);
                }
                sum = sum.saturating_add(node_bytes(&items[i]));
                i = i + 1;
            }
            sum
        },
        Json::Object(fields) => {
            let mut sum: usize = NODE_BYTES;
            let mut i: usize = 0;
            while i < fields.len()
                invariant
                    i <= fields.len(),
                    *value == Json::Object(*fields),
                    sum == capped(NODE_BYTES * (1 + fields_nodes(fields@, i as int))),
                decreases fields.len() - i,
            {
                proof {
                    lemma_field_smaller(*value, *fields, i as int);
                    lemma_fields_layout(fields@, i as int);
                    lemma_layout(fields@[i as int].value);
                }
                sum = sum.saturating_add(NODE_BYTES.saturating_add(node_bytes(&fields[i].value)));
                i = i + 1;
            }
            sum
        },
        _ => NODE_BYTES,
    }
}

/// What a value owns whose texts and names have these rooms, as far as the machine
/// can count.
pub fn owned_bytes_of(value: &Json, rooms: &Vec<usize>) -> (r: usize)
    requires
        rooms@.len() == text_count(*value),
    ensures
        r == capped(owned_with(*value, rooms@)),
{
    let mut sum = node_bytes(value);
    proof {
        lemma_layout(*value);
    }
    let mut i: usize = 0;
    while i < rooms.len()
        invariant
            i <= rooms.len(),
            nodes(*value) >= 1,
            sum == capped(NODE_BYTES * nodes(*value) + room_total(rooms@.take(i as int))),
        decreases rooms.len() - i,
    {
        proof {
            lemma_room_total(rooms@.take(i as int));
            assert(rooms@.take(i as int + 1).drop_last() =~= rooms@.take(i as int));
        }
        sum = sum.saturating_add(rooms[i]);
        i = i + 1;
    }
    assert(rooms@.take(i as int) =~= rooms@);
    sum
}

proof fn lemma_rooms_joined(a: Seq<usize>, texts: Seq<Seq<char>>, b: Seq<usize>, more: Seq<Seq<char>>)
    requires
        rooms_suffice(a, texts),
        rooms_suffice(b, more),
    ensures
        rooms_suffice(a + b, texts + more),
{
    let all = a + b;
    assert forall|i: int| 0 <= i < all.len() implies #[trigger] all[i] >= byte_len((texts + more)[i]) by {
        if i < a.len() {
            assert(a[i] >= byte_len(texts[i]));
        } else {
            assert(b[i - a.len()] >= byte_len(more[i - a.len()]));
        }
    }
}

/// Asks each text and name of a value, in order, for its room.
pub(crate) fn value_rooms(value: &Json) -> (r: Vec<usize>)
    ensures
        rooms_suffice(r@, texts_of(*value)),
    decreases value,
{
    let mut rooms: Vec<usize> = Vec::new();
    match value {
        Json::Text(text) => {
            rooms.push(text_capacity(&text.text));
        },
        Json::Array(items) => {
            let mut i: usize = 0;
            while i < items.len()
                invariant
                    i <= items.len(),
                    *value == Json::Array(*items),
                    rooms_suffice(rooms@, items_texts(items@, i as int)),
                decreases items.len() - i,
            {
                proof {
                    lemma_item_smaller(*value, *items, i as int);
                }
                let mut more = value_rooms(&items[i]);
                proof {
                    lemma_rooms_joined(rooms@, items_texts(items@, i as int), more@, texts_of(items@[i as int]));
                }
                rooms.append(&mut more);
                i = i + 1;
            }
        },
        Json::Object(fields) => {
            let mut i: usize = 0;
            while i < fields.len()
                invariant
                    i <= fields.len(),
                    *value == Json::Object(*fields),
                    rooms_suffice(rooms@, fields_texts(fields@, i as int)),
                decreases fields.len() - i,
            {
                proof {
                    lemma_field_smaller(*value, *fields, i as int);
                }
                let ghost before = rooms@;
                let name = text_capacity(&fields[i].name);
                rooms.push(name);
                proof {
                    let texts = fields_texts(fields@, i as int);
                    lemma_rooms_joined(before, texts, seq![name], seq![fields@[i as int].name@]);
                    assert(before + seq![name] =~= rooms@);
                    assert(texts + seq![fields@[i as int].name@] =~= texts.push(fields@[i as int].name@));
                }
                let mut more = value_rooms(&fields[i].value);
                proof {
                    lemma_rooms_joined(
                        rooms@,
                        fields_texts(fields@, i as int).push(fields@[i as int].name@),
                        more@,
                        texts_of(fields@[i as int].value),
                    );
                }
                rooms.append(&mut more);
                i = i + 1;
            }
        },
        _ => {},
    }
    rooms
}

/// What a value owns. Each text and each name is counted with the room that it has,
/// which depends on how it was made and is at least its bytes.
pub fn owned_value_bytes(value: &Json) -> (r: usize)
    ensures
        exists|rooms: Seq<usize>|
            rooms_suffice(rooms, texts_of(*value)) && r == capped(#[trigger] owned_with(*value, rooms)),
        text_count(*value) == 0 ==> r == capped(NODE_BYTES * nodes(*value)),
{
    let rooms = value_rooms(value);
    let r = owned_bytes_of(value, &rooms);
    assert(r == capped(owned_with(*value, rooms@)));
    r
}

/// Twelve times a size, as far as the machine can count.
fn twelvefold(n: usize) -> (r: usize)
    ensures
        r == capped(12 * n),
{
    match n.checked_mul(12) {
        Some(product) => product,
        None => usize::MAX,
    }
}

/// What a value takes while a command works on it, as far as the machine can count.
pub fn command_value_bytes(value: &Json) -> (r: usize)
    ensures
        r == capped(command(*value)),
    decreases value,
{
    match value {
        Json::Text(text) => 1024usize.saturating_add(twelvefold(text.text.as_str().len())),
        Json::Array(items) => {
            let mut sum: usize = 0;
            let mut i: usize = 0;
            while i < items.len()
                invariant
                    i <= items.len(),
                    *value == Json::Array(*items),
                    sum == capped(items_command(items@, i as int)),
                decreases items.len() - i,
            {
                proof {
                    lemma_item_smaller(*value, *items, i as int);
                    lemma_items_command(items@, i as int);
                    lemma_command(items@[i as int]);
                }
                sum = sum.saturating_add(command_value_bytes(&items[i]));
                i = i + 1;
            }
            1024usize.saturating_add(sum)
        },
        Json::Object(fields) => {
            let mut sum: usize = 0;
            let mut i: usize = 0;
            while i < fields.len()
                invariant
                    i <= fields.len(),
                    *value == Json::Object(*fields),
                    sum == capped(fields_command(fields@, i as int)),
                decreases fields.len() - i,
            {
                proof {
                    lemma_field_smaller(*value, *fields, i as int);
                    lemma_fields_command(fields@, i as int);
                    lemma_command(fields@[i as int].value);
                }
                let field = 1024usize.saturating_add(twelvefold(fields[i].name.as_str().len())).saturating_add(
                    command_value_bytes(&fields[i].value),
                );
                sum = sum.saturating_add(field);
                i = i + 1;
            }
            1024usize.saturating_add(sum)
        },
        _ => 1024,
    }
}

proof fn lemma_command(value: Json)
    ensures
        command(value) >= 1024,
    decreases value, 0int,
{
    match value {
        Json::Array(items) => lemma_items_command(items@, items@.len() as int),
        Json::Object(fields) => lemma_fields_command(fields@, fields@.len() as int),
        _ => {},
    }
}

proof fn lemma_items_command(items: Seq<Json>, n: int)
    ensures
        items_command(items, n) >= 0,
    decreases items, n,
{
    if 0 < n <= items.len() {
        lemma_items_command(items, n - 1);
        lemma_command(items[n - 1]);
    }
}

proof fn lemma_fields_command(fields: Seq<JsonField>, n: int)
    ensures
        fields_command(fields, n) >= 0,
    decreases fields, n,
{
    if 0 < n <= fields.len() {
        lemma_fields_command(fields, n - 1);
        lemma_command(fields[n - 1].value);
    }
}

/// How deep a JSON request may nest.
pub const MAX_JSON_DEPTH: usize = 128;

/// The depth of what a value at some depth holds, unless that is too deep.
pub fn child_depth(depth: usize) -> (r: Option<usize>)
    requires
        depth <= MAX_JSON_DEPTH,
    ensures
        r == (if depth == MAX_JSON_DEPTH {
            None
        } else {
            Some((depth + 1) as usize)
        }),
{
    if depth == MAX_JSON_DEPTH {
        None
    } else {
        Some(depth + 1)
    }
}

/// What a text of so many bytes is charged while a request is read.
pub fn text_charge(bytes: usize) -> (r: usize)
    ensures
        r == capped(2 * bytes),
{
    match bytes.checked_mul(2) {
        Some(product) => product,
        None => usize::MAX,
    }
}

/// An item is smaller than its array.
pub proof fn lemma_item_smaller(value: Json, items: Vec<Json>, i: int)
    requires
        value == Json::Array(items),
        0 <= i < items.len(),
    ensures
        decreases_to!(value => items@[i]),
{
    assert(decreases_to!(value => value->Array_0));
    assert(decreases_to!(items => items@));
    assert(decreases_to!(items@ => items@[i]));
}

/// A field's value is smaller than its object.
pub proof fn lemma_field_smaller(value: Json, fields: Vec<JsonField>, i: int)
    requires
        value == Json::Object(fields),
        0 <= i < fields.len(),
    ensures
        decreases_to!(value => fields@[i].value),
{
    assert(decreases_to!(value => value->Object_0));
    assert(decreases_to!(fields => fields@));
    assert(decreases_to!(fields@ => fields@[i]));
    assert(decreases_to!(fields@[i] => fields@[i].value));
}

} // verus!
