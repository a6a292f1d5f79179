//! Preflight of owned JSON layout before it is built.
use vstd::prelude::*;
use crate::json::{
    capped, fields_layout, items_layout, law_measured_layout_dominates_what_is_owned, layout, lemma_field_smaller,
    lemma_item_smaller, lemma_layout, lemma_room_total, nodes, owned_value_bytes, owned_with, rooms_at_most_twice,
    rooms_suffice, text_count, texts_of, Json, JsonField, NODE_BYTES,
};

verus! {

#[derive(Clone, Copy, Debug, PartialEq, Eq, Structural)]
pub struct ResultTooLarge;

impl ResultTooLarge {
    /// The readable form of the error.
    pub fn message(self) -> (r: &'static str)
        ensures
            r@ == "RPC result exceeds the materialization budget"@,
    {
        "RPC result exceeds the materialization budget"
    }
}

/// Counts what a value will take, up to a limit.
#[derive(Clone, Copy, Debug, PartialEq, Eq, Structural)]
pub struct Meter {
    pub used: usize,
    pub limit: usize,
}

impl Meter {
    pub open spec fn valid(self) -> bool {
        self.used <= self.limit
    }

    /// Counts so many bytes.
    pub fn add(&mut self, bytes: usize) -> (r: Result<(), ResultTooLarge>)
        requires
            old(self).valid(),
        ensures
            r is Ok <==> old(self).used + bytes <= old(self).limit,
            r is Ok ==> *final(self) == (Meter { used: (old(self).used + bytes) as usize, ..*old(self) }),
            r is Err ==> *final(self) == *old(self),
            final(self).valid(),
    {
        match self.used.checked_add(bytes) {
            Some(used) => {
                if used <= self.limit {
                    self.used = used;
                    Ok(())
                } else {
                    Err(ResultTooLarge)
                }
            },
            None => Err(ResultTooLarge),
        }
    }

    /// Counts a container, and refuses one whose items alone are too many.
    pub fn container(&mut self, length: Option<usize>) -> (r: Result<(), ResultTooLarge>)
        requires
            old(self).valid(),
        ensures
            final(self).valid(),
            r is Ok <==> old(self).used + NODE_BYTES <= old(self).limit && (length matches Some(length) ==> length
                <= (old(self).limit - old(self).used - NODE_BYTES) / NODE_BYTES as int),
            r is Ok ==> *final(self) == (Meter { used: (old(self).used + NODE_BYTES) as usize, ..*old(self) }),
    {
        match self.add(NODE_BYTES) {
            Ok(_) => {},
            Err(error) => return Err(error),
        }
        match length {
            Some(length) => {
                if length > (self.limit - self.used) / NODE_BYTES {
                    return Err(ResultTooLarge);
                }
            },
            None => {},
        }
        Ok(())
    }

    /// Counts a text.
    pub fn text(&mut self, bytes: usize) -> (r: Result<(), ResultTooLarge>)
        requires
            old(self).valid(),
        ensures
            final(self).valid(),
            r is Ok <==> old(self).used + NODE_BYTES + 2 * bytes <= old(self).limit,
            r is Ok ==> *final(self) == (Meter {
                used: (old(self).used + NODE_BYTES + 2 * bytes) as usize,
                ..*old(self)
            }),
    {
        match bytes.checked_mul(2) {
            Some(doubled) => match doubled.checked_add(NODE_BYTES) {
                Some(total) => self.add(total),
                None => Err(ResultTooLarge),
            },
            None => Err(ResultTooLarge),
        }
    }

    /// Counts a value.
    pub fn value(&mut self, value: &Json) -> (r: Result<(), ResultTooLarge>)
        requires
            old(self).valid(),
        ensures
            final(self).valid(),
            r is Ok <==> old(self).used + layout(*value) <= old(self).limit,
            r is Ok ==> *final(self) == (Meter { used: (old(self).used + layout(*value)) as usize, ..*old(self) }),
        decreases value,
    {
        match value {
            Json::Text(text) => self.text(text.text.as_str().len()),
            Json::Array(items) => {
                proof {
                    lemma_items_floor(items@, items@.len() as int);
                }
                match self.container(Some(items.len())) {
                    Ok(_) => {},
                    Err(error) => return Err(error),
                }
                let ghost start = self.used;
                let mut i: usize = 0;
                while i < items.len()
                    invariant
                        i <= items.len(),
                        *value == Json::Array(*items),
                        self.valid(),
                        self.limit == old(self).limit,
                        start == old(self).used + NODE_BYTES,
                        self.used == start + items_layout(items@, i as int),
                    decreases items.len() - i,
                {
                    proof {
                        lemma_item_smaller(*value, *items, i as int);
                        lemma_items_grow(items@, i as int + 1, items@.len() as int);
                        lemma_layout(items@[i as int]);
                    }
                    match self.value(&items[i]) {
                        Ok(_) => {},
                        Err(error) => return Err(error),
                    }
                    i = i + 1;
                }
                Ok(())
            },
            Json::Object(fields) => {
                proof {
                    lemma_fields_floor(fields@, fields@.len() as int);
                }
                match self.container(Some(fields.len())) {
                    Ok(_) => {},
                    Err(error) => return Err(error),
                }
                let ghost start = self.used;
                let mut i: usize = 0;
                while i < fields.len()
                    invariant
                        i <= fields.len(),
                        *value == Json::Object(*fields),
                        self.valid(),
                        self.limit == old(self).limit,
                        start == old(self).used + NODE_BYTES,
                        self.used == start + fields_layout(fields@, i as int),
                    decreases fields.len() - i,
                {
                    proof {
                        lemma_field_smaller(*value, *fields, i as int);
                        lemma_fields_grow(fields@, i as int + 1, fields@.len() as int);
                        lemma_layout(fields@[i as int].value);
                    }
                    match self.text(fields[i].name.as_str().len()) {
                        Ok(_) => {},
                        Err(error) => return Err(error),
                    }
                    match self.value(&fields[i].value) {
                        Ok(_) => {},
                        Err(error) => return Err(error),
                    }
                    i = i + 1;
                }
                Ok(())
            },
            _ => self.add(NODE_BYTES),
        }
    }
}

/// Items take at least a node each.
proof fn lemma_items_floor(items: Seq<Json>, n: int)
    requires
        0 <= n <= items.len(),
    ensures
        items_layout(items, n) >= NODE_BYTES * n,
    decreases n,
{
    if n > 0 {
        lemma_items_floor(items, n - 1);
        lemma_layout(items[n - 1]);
    }
}

/// Fields take at least a node each.
proof fn lemma_fields_floor(fields: Seq<JsonField>, n: int)
    requires
        0 <= n <= fields.len(),
    ensures
        fields_layout(fields, n) >= NODE_BYTES * n,
    decreases n,
{
    if n > 0 {
        lemma_fields_floor(fields, n - 1);
        lemma_layout(fields[n - 1].value);
    }
}

/// More items take no less.
proof fn lemma_items_grow(items: Seq<Json>, n: int, m: int)
    requires
        0 <= n <= m <= items.len(),
    ensures
        items_layout(items, n) <= items_layout(items, m),
    decreases m - n,
{
    if n < m {
        lemma_items_grow(items, n, m - 1);
        lemma_layout(items[m - 1]);
    }
}

/// More fields take no less.
proof fn lemma_fields_grow(fields: Seq<JsonField>, n: int, m: int)
    requires
        0 <= n <= m <= fields.len(),
    ensures
        fields_layout(fields, n) <= fields_layout(fields, m),
    decreases m - n,
{
    if n < m {
        lemma_fields_grow(fields, n, m - 1);
        lemma_layout(fields[m - 1].value);
    }
}

/// What a value was measured at within a limit.
pub open spec fn measured(value: Json, limit: int) -> Result<usize, ResultTooLarge> {
    if layout(value) <= limit {
        Ok(layout(value) as usize)
    } else {
        Err(ResultTooLarge)
    }
}

/// A value that is handed on within a limit.
pub open spec fn handed_on(value: Json, limit: int) -> Result<Json, ResultTooLarge> {
    if layout(value) <= limit {
        Ok(value)
    } else {
        Err(ResultTooLarge)
    }
}

/// What a value takes, unless that is more than a limit.
pub fn measure(value: &Json, limit: usize) -> (r: Result<usize, ResultTooLarge>)
    ensures
        r == measured(*value, limit as int),
{
    let mut meter = Meter { used: 0, limit };
    proof {
        lemma_layout(*value);
    }
    match meter.value(value) {
        Ok(_) => Ok(meter.used),
        Err(error) => Err(error),
    }
}

/// Hands a value on where it takes no more than a limit.
pub fn to_value(value: Json, limit: usize) -> (r: Result<Json, ResultTooLarge>)
    ensures
        r == handed_on(value, limit as int),
{
    match measure(&value, limit) {
        Ok(_) => Ok(value),
        Err(error) => Err(error),
    }
}

/// What a value was measured at is within the limit, suffices to hand it on, and no
/// less does; and the value owns no more, where no text has a room of more than
/// twice its bytes.
pub proof fn law_what_was_measured_is_exact_and_suffices(value: Json, limit: usize, rooms: Seq<usize>)
    requires
        measured(value, limit as int) is Ok,
        rooms_at_most_twice(rooms, texts_of(value)),
    ensures
        measured(value, limit as int)->Ok_0 <= limit,
        handed_on(value, measured(value, limit as int)->Ok_0 as int) == Ok::<Json, ResultTooLarge>(value),
        handed_on(value, measured(value, limit as int)->Ok_0 - 1) == Err::<Json, ResultTooLarge>(ResultTooLarge),
        owned_with(value, rooms) <= measured(value, limit as int)->Ok_0,
{
    lemma_layout(value);
    law_measured_layout_dominates_what_is_owned(value, rooms);
}

/// A list of results within a limit.
#[derive(Debug, PartialEq, Eq)]
pub struct ResultList {
    pub values: Vec<Json>,
    pub used: usize,
    pub limit: usize,
}

impl ResultList {
    /// An empty list for so many bytes.
    pub fn new(limit: usize) -> (r: Self)
        ensures
            r.values@ == Seq::<Json>::empty(),
            r.used == NODE_BYTES,
            r.limit == limit,
    {
        ResultList { values: Vec::new(), used: NODE_BYTES, limit }
    }

    pub open spec fn spec_remaining(self) -> int {
        if self.limit >= self.used {
            self.limit - self.used
        } else {
            0
        }
    }

    pub fn remaining(&self) -> (r: usize)
        ensures
            r == self.spec_remaining(),
    {
        self.limit.saturating_sub(self.used)
    }

    pub fn is_empty(&self) -> (r: bool)
        ensures
            r == (self.values@.len() == 0),
    {
        self.values.len() == 0
    }

    /// Adds a value where what it takes is left.
    pub fn push(&mut self, value: Json) -> (r: Result<(), ResultTooLarge>)
        ensures
            r is Ok <==> layout(value) <= old(self).spec_remaining(),
            final(self).limit == old(self).limit,
            r is Ok ==> final(self).values@ == old(self).values@.push(value) && final(self).used == old(self).used
                + layout(value),
            r is Err ==> *final(self) == *old(self),
    {
        let remaining = self.remaining();
        proof {
            lemma_layout(value);
        }
        let bytes = match measure(&value, remaining) {
            Ok(bytes) => bytes,
            Err(error) => return Err(error),
        };
        self.used = self.used + bytes;
        self.values.push(value);
        Ok(())
    }

    /// Adds a value that takes so many bytes, where they are left.
    pub fn push_sized(&mut self, value: Json, bytes: usize) -> (r: Result<(), ResultTooLarge>)
        ensures
            r is Ok <==> bytes <= old(self).spec_remaining(),
            final(self).limit == old(self).limit,
            r is Ok ==> final(self).values@ == old(self).values@.push(value) && final(self).used == old(self).used
                + bytes,
            r is Err ==> *final(self) == *old(self),
    {
        if bytes > self.remaining() {
            return Err(ResultTooLarge);
        }
        self.used = self.used + bytes;
        self.values.push(value);
        Ok(())
    }

    /// The list with one more value that takes so many bytes, where they are left.
    pub open spec fn with_sized(self, value: Json, bytes: int, after: ResultList, r: Result<(), ResultTooLarge>) -> bool {
        if bytes <= self.spec_remaining() {
            &&& r is Ok
            &&& after.values@ == self.values@.push(value)
            &&& after.used == self.used + bytes
            &&& after.limit == self.limit
        } else {
            r is Err && after == self
        }
    }

    /// Adds a value that was built already, where what it owns is left. Its texts
    /// and names are counted with the rooms that they have.
    pub fn push_scratch(&mut self, value: Json) -> (r: Result<(), ResultTooLarge>)
        ensures
            exists|rooms: Seq<usize>|
                rooms_suffice(rooms, texts_of(value)) && old(self).with_sized(
                    value,
                    capped(#[trigger] owned_with(value, rooms)),
                    *final(self),
                    r,
                ),
            text_count(value) == 0 ==> old(self).with_sized(value, capped(NODE_BYTES * nodes(value)), *final(self), r),
    {
        let bytes = owned_value_bytes(&value);
        proof {
            lemma_layout(value);
            let rooms = choose|rooms: Seq<usize>|
                rooms_suffice(rooms, texts_of(value)) && bytes == capped(#[trigger] owned_with(value, rooms));
            lemma_room_total(rooms);
        }
        self.push_sized(value, bytes)
    }

    pub fn finish(self) -> (r: Json)
        ensures
            r == Json::Array(self.values),
    {
        Json::Array(self.values)
    }
}

} // verus!
