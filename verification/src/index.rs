//! Ordered sets and maps keyed by integers.
use std::collections::{BTreeMap, BTreeSet};
use vstd::prelude::*;

verus! {

broadcast use {vstd::std_specs::btree::group_btree_axioms, vstd::laws_cmp::group_laws_cmp};

/// A set of integer identities.
pub struct KeySet {
    keys: BTreeSet<u128>,
}

impl View for KeySet {
    type V = Set<u128>;

    closed spec fn view(&self) -> Set<u128> {
        self.keys@
    }
}

impl KeySet {
    pub fn new() -> (r: Self)
        ensures
            r@ == Set::<u128>::empty(),
    {
        KeySet { keys: BTreeSet::new() }
    }

    /// Adds an identity and reports whether it was absent.
    pub fn insert(&mut self, key: u128) -> (fresh: bool)
        ensures
            final(self)@ == old(self)@.insert(key),
            fresh == !old(self)@.contains(key),
    {
        self.keys.insert(key)
    }

    pub fn remove(&mut self, key: u128)
        ensures
            final(self)@ == old(self)@.remove(key),
    {
        self.keys.remove(&key);
    }

    pub fn contains(&self, key: u128) -> (r: bool)
        ensures
            r == self@.contains(key),
    {
        self.keys.contains(&key)
    }
}

/// A map from integer identities to positions.
pub struct KeyMap {
    positions: BTreeMap<u128, usize>,
}

impl View for KeyMap {
    type V = Map<u128, usize>;

    closed spec fn view(&self) -> Map<u128, usize> {
        self.positions@
    }
}

impl KeyMap {
    pub fn new() -> (r: Self)
        ensures
            r@ == Map::<u128, usize>::empty(),
    {
        KeyMap { positions: BTreeMap::new() }
    }

    /// Binds an identity and reports whether it was unbound.
    pub fn insert(&mut self, key: u128, position: usize) -> (fresh: bool)
        ensures
            final(self)@ == old(self)@.insert(key, position),
            fresh == !old(self)@.contains_key(key),
    {
        self.positions.insert(key, position).is_none()
    }

    pub fn get(&self, key: u128) -> (r: Option<usize>)
        ensures
            r == (if self@.contains_key(key) {
                Some(self@[key])
            } else {
                None
            }),
    {
        match self.positions.get(&key) {
            Some(position) => Some(*position),
            None => None,
        }
    }
}

} // verus!
