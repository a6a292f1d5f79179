//! Named option values.
use vstd::prelude::*;
use crate::text::same_text;

verus! {

/// The value of an option.
#[derive(Clone, Debug, PartialEq, Eq)]
pub enum OptionValue {
    Text(String),
    Number(u64),
    Flag(bool),
}

/// What an option value is.
#[verifier::ext_equal]
pub enum OptionScalar {
    Text(Seq<char>),
    Number(u64),
    Flag(bool),
}

impl View for OptionValue {
    type V = OptionScalar;

    open spec fn view(&self) -> OptionScalar {
        match self {
            OptionValue::Text(text) => OptionScalar::Text(text@),
            OptionValue::Number(number) => OptionScalar::Number(*number),
            OptionValue::Flag(flag) => OptionScalar::Flag(*flag),
        }
    }
}

/// A name and its value.
#[derive(Clone, Debug, PartialEq, Eq)]
pub struct OptionEntry {
    pub name: String,
    pub value: OptionValue,
}

/// The first entry from `from` on of a name.
pub open spec fn entry_of(entries: Seq<OptionEntry>, name: Seq<char>, from: int) -> Option<int>
    decreases entries.len() - from,
{
    if from < 0 || from >= entries.len() {
        None
    } else if entries[from].name@ == name {
        Some(from)
    } else {
        entry_of(entries, name, from + 1)
    }
}

/// Options under their names, each once.
#[derive(Debug, PartialEq, Eq)]
pub struct OptionObject {
    pub entries: Vec<OptionEntry>,
}

/// Options by name.
pub type OptionMapView = Map<Seq<char>, OptionScalar>;

impl View for OptionObject {
    type V = OptionMapView;

    open spec fn view(&self) -> OptionMapView {
        Map::new(
            |name: Seq<char>| entry_of(self.entries@, name, 0) is Some,
            |name: Seq<char>| self.entries@[entry_of(self.entries@, name, 0)->0].value@,
        )
    }
}

/// An entry found has the name, and one not found is absent.
pub proof fn lemma_entry_of(entries: Seq<OptionEntry>, name: Seq<char>, from: int)
    requires
        0 <= from,
    ensures
        entry_of(entries, name, from) matches Some(i) ==> from <= i < entries.len() && entries[i].name@ == name
            && forall|k: int| from <= k < i ==> (#[trigger] entries[k]).name@ != name,
        entry_of(entries, name, from) is None ==> forall|k: int|
            from <= k < entries.len() ==> (#[trigger] entries[k]).name@ != name,
    decreases entries.len() - from,
{
    if from < entries.len() && entries[from].name@ != name {
        lemma_entry_of(entries, name, from + 1);
    }
}

/// The first entry of a name is the one that no other goes before.
pub proof fn lemma_entry_is(entries: Seq<OptionEntry>, name: Seq<char>, from: int, at: int)
    requires
        0 <= from <= at < entries.len(),
        entries[at].name@ == name,
        forall|k: int| from <= k < at ==> (#[trigger] entries[k]).name@ != name,
    ensures
        entry_of(entries, name, from) == Some(at),
    decreases at - from,
{
    if from < at {
        lemma_entry_is(entries, name, from + 1, at);
    }
}

/// A name that no entry has is not found.
pub proof fn lemma_entry_absent(entries: Seq<OptionEntry>, name: Seq<char>, from: int)
    requires
        0 <= from,
        forall|k: int| from <= k < entries.len() ==> (#[trigger] entries[k]).name@ != name,
    ensures
        entry_of(entries, name, from) is None,
    decreases entries.len() - from,
{
    if from < entries.len() {
        lemma_entry_absent(entries, name, from + 1);
    }
}

impl OptionObject {
    /// No name stands twice.
    pub open spec fn valid(self) -> bool {
        forall|i: int, j: int|
            0 <= i < j < self.entries.len() ==> (#[trigger] self.entries@[i]).name@ != (
            #[trigger] self.entries@[j]).name@
    }

    pub fn new() -> (r: Self)
        ensures
            r@ == OptionMapView::empty(),
            r.valid(),
            r.entries.len() == 0,
    {
        let r = OptionObject { entries: Vec::new() };
        assert(r@ =~= OptionMapView::empty());
        r
    }

    fn find(&self, name: &str) -> (r: Option<usize>)
        ensures
            r is Some <==> entry_of(self.entries@, name@, 0) is Some,
            r matches Some(i) ==> entry_of(self.entries@, name@, 0) == Some(i as int) && i < self.entries.len(),
    {
        let mut i: usize = 0;
        while i < self.entries.len()
            invariant
                i <= self.entries.len(),
                entry_of(self.entries@, name@, 0) == entry_of(self.entries@, name@, i as int),
            decreases self.entries.len() - i,
        {
            if same_text(self.entries[i].name.as_str(), name) {
                return Some(i);
            }
            i = i + 1;
        }
        None
    }

    pub fn contains(&self, name: &str) -> (r: bool)
        ensures
            r == self@.contains_key(name@),
    {
        self.find(name).is_some()
    }

    pub fn get(&self, name: &str) -> (r: Option<&OptionValue>)
        ensures
            (match r {
                Some(value) => Some(value@),
                None => None,
            }) == (if self@.contains_key(name@) {
                Some(self@[name@])
            } else {
                None
            }),
    {
        match self.find(name) {
            Some(i) => Some(&self.entries[i].value),
            None => None,
        }
    }

    /// Binds a name, over what it was bound to, and reports whether it was not.
    pub fn insert(&mut self, name: String, value: OptionValue) -> (fresh: bool)
        requires
            old(self).valid(),
        ensures
            final(self).valid(),
            final(self)@ == old(self)@.insert(name@, value@),
            fresh == !old(self)@.contains_key(name@),
            final(self).entries.len() == old(self).entries.len() + if fresh {
                1int
            } else {
                0int
            },
    {
        let ghost before = self.entries@;
        let ghost key = name@;
        let ghost bound = value@;
        proof {
            lemma_entry_of(before, key, 0);
        }
        match self.find(name.as_str()) {
            Some(i) => {
                self.entries.set(i, OptionEntry { name, value });
                proof {
                    let after = self.entries@;
                    assert(after =~= before.update(i as int, after[i as int]));
                    assert forall|other: Seq<char>| #[trigger] entry_of(after, other, 0) == entry_of(before, other, 0) by {
                        lemma_same_names(before, after, other, 0);
                    }
                    assert forall|a: int, b: int| 0 <= a < b < after.len() implies (#[trigger] after[a]).name@ != (
                    #[trigger] after[b]).name@ by {
                        assert(before[a].name@ != before[b].name@);
                    }
                    assert forall|other: Seq<char>| old(self)@.contains_key(other) && other != key implies
                        self@[other] == old(self)@[other] by {
                        lemma_entry_of(before, other, 0);
                    }
                    assert(self@ =~= old(self)@.insert(key, bound));
                }
                false
            },
            None => {
                self.entries.push(OptionEntry { name, value });
                proof {
                    let after = self.entries@;
                    lemma_entry_is(after, key, 0, before.len() as int);
                    assert forall|other: Seq<char>| other != key implies #[trigger] entry_of(after, other, 0)
                        == entry_of(before, other, 0) by {
                        lemma_entry_of(before, other, 0);
                        match entry_of(before, other, 0) {
                            Some(at) => {
                                lemma_entry_is(after, other, 0, at);
                            },
                            None => {
                                lemma_entry_absent(after, other, 0);
                            },
                        }
                    }
                    assert forall|other: Seq<char>| old(self)@.contains_key(other) && other != key implies
                        self@[other] == old(self)@[other] by {
                        lemma_entry_of(before, other, 0);
                    }
                    assert(self@ =~= old(self)@.insert(key, bound));
                }
                true
            },
        }
    }

    /// Unbinds a name.
    pub fn remove(&mut self, name: &str)
        requires
            old(self).valid(),
        ensures
            final(self).valid(),
            final(self)@ == old(self)@.remove(name@),
    {
        let ghost before = self.entries@;
        proof {
            lemma_entry_of(before, name@, 0);
        }
        match self.find(name) {
            Some(i) => {
                self.entries.remove(i);
                proof {
                    let after = self.entries@;
                    assert(after =~= before.remove(i as int));
                    assert forall|a: int, b: int| 0 <= a < b < after.len() implies (#[trigger] after[a]).name@ != (
                    #[trigger] after[b]).name@ by {
                        let x = if a < i {
                            a
                        } else {
                            a + 1
                        };
                        let y = if b < i {
                            b
                        } else {
                            b + 1
                        };
                        assert(before[x].name@ != before[y].name@);
                    }
                    assert(entry_of(after, name@, 0) is None) by {
                        assert forall|k: int| 0 <= k < after.len() implies (#[trigger] after[k]).name@
                            != name@ by {
                            let x = if k < i {
                                k
                            } else {
                                k + 1
                            };
                            if x < i {
                                assert(before[x].name@ != before[i as int].name@);
                            } else {
                                assert(before[i as int].name@ != before[x].name@);
                            }
                        }
                        lemma_entry_absent(after, name@, 0);
                    }
                    assert forall|other: Seq<char>| other != name@ implies (entry_of(before, other, 0) is Some
                        <==> #[trigger] entry_of(after, other, 0) is Some) && (entry_of(before, other, 0) is Some
                        ==> after[entry_of(after, other, 0)->0].value@ == before[entry_of(
                        before,
                        other,
                        0,
                    )->0].value@) by {
                        lemma_entry_of(before, other, 0);
                        match entry_of(before, other, 0) {
                            Some(at) => {
                                let moved = if at < i {
                                    at
                                } else {
                                    at - 1
                                };
                                assert(after[moved] == before[at]);
                                assert forall|k: int| 0 <= k < moved implies (#[trigger] after[k]).name@
                                    != other by {
                                    let x = if k < i {
                                        k
                                    } else {
                                        k + 1
                                    };
                                    assert(before[x].name@ != other);
                                }
                                lemma_entry_is(after, other, 0, moved);
                            },
                            None => {
                                assert forall|k: int| 0 <= k < after.len() implies (#[trigger] after[k]).name@
                                    != other by {
                                    let x = if k < i {
                                        k
                                    } else {
                                        k + 1
                                    };
                                    assert(before[x].name@ != other);
                                }
                                lemma_entry_absent(after, other, 0);
                            },
                        }
                    }
                    assert(self@ =~= old(self)@.remove(name@));
                }
            },
            None => {
                assert(self@ =~= old(self)@.remove(name@));
            },
        }
    }
}

/// Entries with the same names are found at the same places.
proof fn lemma_same_names(a: Seq<OptionEntry>, b: Seq<OptionEntry>, name: Seq<char>, from: int)
    requires
        0 <= from,
        a.len() == b.len(),
        forall|k: int| 0 <= k < a.len() ==> (#[trigger] a[k]).name@ == b[k].name@,
    ensures
        entry_of(a, name, from) == entry_of(b, name, from),
    decreases a.len() - from,
{
    if from < a.len() {
        assert(a[from].name@ == b[from].name@);
        lemma_same_names(a, b, name, from + 1);
    }
}

/// Options with one more bound, where there is a value for it.
pub open spec fn with_option(options: OptionMapView, name: Seq<char>, value: Option<OptionScalar>) -> OptionMapView {
    match value {
        Some(value) => options.insert(name, value),
        None => options,
    }
}

/// The options that entries bind.
pub open spec fn entries_map(entries: Seq<OptionEntry>) -> OptionMapView {
    Map::new(
        |name: Seq<char>| entry_of(entries, name, 0) is Some,
        |name: Seq<char>| entries[entry_of(entries, name, 0)->0].value@,
    )
}

proof fn lemma_entries_extend(entries: Seq<OptionEntry>, i: int)
    requires
        0 <= i < entries.len(),
        forall|a: int, b: int|
            0 <= a < b < entries.len() ==> (#[trigger] entries[a]).name@ != (#[trigger] entries[b]).name@,
    ensures
        entries_map(entries.take(i + 1)) == entries_map(entries.take(i)).insert(
            entries[i].name@,
            entries[i].value@,
        ),
{
    let before = entries.take(i);
    let after = entries.take(i + 1);
    let key = entries[i].name@;
    assert forall|k: int| 0 <= k < i implies (#[trigger] after[k]).name@ != key by {
        assert(entries[k].name@ != entries[i].name@);
    }
    lemma_entry_is(after, key, 0, i);
    assert forall|name: Seq<char>| name != key implies #[trigger] entry_of(after, name, 0) == entry_of(
        before,
        name,
        0,
    ) by {
        lemma_entry_of(before, name, 0);
        match entry_of(before, name, 0) {
            Some(at) => {
                assert forall|k: int| 0 <= k < at implies (#[trigger] after[k]).name@ != name by {
                    assert(before[k] == after[k]);
                }
                assert(after[at] == before[at]);
                lemma_entry_is(after, name, 0, at);
            },
            None => {
                assert forall|k: int| 0 <= k < after.len() implies (#[trigger] after[k]).name@ != name by {
                    if k < i {
                        assert(before[k] == after[k]);
                    }
                }
                lemma_entry_absent(after, name, 0);
            },
        }
    }
    assert forall|name: Seq<char>| #[trigger] entries_map(before).contains_key(name) && name != key implies
        entries_map(after)[name] == entries_map(before)[name] by {
        lemma_entry_of(before, name, 0);
    }
    assert(entries_map(after) =~= entries_map(before).insert(key, entries[i].value@));
}

impl OptionObject {
    /// Binds what another binds, over what was bound before.
    pub fn extend(&mut self, other: OptionObject)
        requires
            old(self).valid(),
            other.valid(),
        ensures
            final(self).valid(),
            final(self)@ == old(self)@.union_prefer_right(other@),
    {
        let ghost entries = other.entries@;
        let mut i: usize = 0;
        assert(entries_map(entries.take(0)) =~= OptionMapView::empty());
        assert(self@ =~= old(self)@.union_prefer_right(entries_map(entries.take(0))));
        while i < other.entries.len()
            invariant
                i <= other.entries.len(),
                entries == other.entries@,
                other.valid(),
                self.valid(),
                self@ == old(self)@.union_prefer_right(entries_map(entries.take(i as int))),
            decreases other.entries.len() - i,
        {
            proof {
                lemma_entries_extend(entries, i as int);
            }
            let ghost before = self@;
            let value = match &other.entries[i].value {
                OptionValue::Text(text) => OptionValue::Text(text.clone()),
                OptionValue::Number(number) => OptionValue::Number(*number),
                OptionValue::Flag(flag) => OptionValue::Flag(*flag),
            };
            self.insert(other.entries[i].name.clone(), value);
            assert(self@ =~= old(self)@.union_prefer_right(entries_map(entries.take(i as int + 1))));
            i = i + 1;
        }
        assert(entries.take(i as int) =~= entries);
        assert(entries_map(entries) =~= other@);
    }
}

} // verus!
