//! The trusted boundary around `indexmap::IndexMap`.
//!
//! `Store` pairs the map with a ghost sequence of its entries in insertion
//! order. Every method that touches the map is a trusted wrapper around one
//! `IndexMap` method; its contract states, over the ghost sequence, what the
//! map documents of that method. Everything above this module is verified
//! against these contracts.
//!
//! The contracts render the map's key equality (`Eq` beside `Hash`) as
//! structural equality of `Identifier`. That rendering is sound only for
//! identifier types whose hash is deterministic and whose `==` agrees with
//! structural equality, so the key-dependent wrappers require
//! [`obeys_key_model`]`::<Identifier>()`, the same condition vstd puts on
//! its own hash-map specifications; vstd provides it axiomatically for the
//! primitive types and `Box`es of them.

use vstd::prelude::*;

use core::hash::Hash;
use indexmap::IndexMap;
use std::collections::hash_map::RandomState;

use vstd::std_specs::hash::obeys_key_model;

use crate::model::distinct_ids;
use crate::model::has_id;
use crate::model::index_of_id;
use crate::model::spec_insert;

verus! {

#[verifier::external_type_specification]
#[verifier::external_body]
#[verifier::reject_recursive_types(K)]
#[verifier::reject_recursive_types(V)]
#[verifier::reject_recursive_types(S)]
pub struct ExIndexMap<K, V, S>(IndexMap<K, V, S>);

/// An insertion-ordered map together with the ghost sequence of its entries.
#[verifier::reject_recursive_types(Identifier)]
#[verifier::reject_recursive_types(T)]
pub(crate) struct Store<Identifier, T> {
    map: IndexMap<Identifier, T, RandomState>,
    entries: Ghost<Seq<(Identifier, T)>>,
}

impl<Identifier, T> View for Store<Identifier, T> {
    type V = Seq<(Identifier, T)>;

    closed spec fn view(&self) -> Seq<(Identifier, T)> {
        self.entries@
    }
}

/// Relies on `indexmap::IndexMap::new`: creates an empty map.
#[verifier::external_body]
fn empty_index_map<Identifier: Hash + Eq, T>() -> IndexMap<Identifier, T, RandomState> {
    IndexMap::new()
}

impl<Identifier: Hash + Eq, T> Store<Identifier, T> {
    /// An empty store: an empty map beside an empty ghost sequence.
    pub(crate) fn new() -> (r: Self)
        ensures
            r@ == Seq::<(Identifier, T)>::empty(),
    {
        Store { map: empty_index_map(), entries: Ghost(Seq::empty()) }
    }

    /// Relies on `indexmap::IndexMap::len`: the number of stored pairs.
    #[verifier::external_body]
    pub(crate) fn len(&self) -> (r: usize)
        ensures
            r == self@.len(),
    {
        self.map.len()
    }

    /// Relies on `indexmap::IndexMap::get_index_of`: the position of the
    /// entry whose key equals `id`, if one is present. Requires the key
    /// model so that the map's `Eq`/`Hash` lookup means structural equality.
    #[verifier::external_body]
    pub(crate) fn index_of(&self, id: &Identifier) -> (r: Option<usize>)
        requires
            obeys_key_model::<Identifier>(),
            distinct_ids(self@),
        ensures
            match r {
                Some(i) => has_id(self@, *id) && i < self@.len() && i as int == index_of_id(
                    self@,
                    *id,
                ),
                None => !has_id(self@, *id),
            },
    {
        self.map.get_index_of(id)
    }

    /// Relies on `indexmap::IndexMap::get_index`: the pair at a position
    /// below the map's length.
    #[verifier::external_body]
    pub(crate) fn entry_at<'a>(&'a self, i: usize) -> (r: (&'a Identifier, &'a T))
        requires
            i < self@.len(),
        ensures
            *r.0 == self@[i as int].0,
            *r.1 == self@[i as int].1,
    {
        let (id, value) = self.map.get_index(i).unwrap();
        (id, value)
    }

    /// Relies on `indexmap::IndexMap::get_index_mut`: the pair at a position
    /// below the map's length, with the value borrowed mutably.
    #[verifier::external_body]
    pub(crate) fn entry_at_mut<'a>(&'a mut self, i: usize) -> (r: (&'a Identifier, &'a mut T))
        requires
            i < old(self)@.len(),
        ensures
            *r.0 == old(self)@[i as int].0,
            *r.1 == old(self)@[i as int].1,
            final(self)@ == old(self)@.update(
                i as int,
                (old(self)@[i as int].0, *final(r.1)),
            ),
    {
        let (id, value) = self.map.get_index_mut(i).unwrap();
        (id, value)
    }

    /// Relies on `indexmap::IndexMap::insert`: if a key equal to `id` is
    /// present, its value is replaced in place and the old value returned
    /// (the stored key and its position are kept); otherwise the pair is
    /// appended, last in order. Requires the key model so that the map's
    /// `Eq`/`Hash` lookup means structural equality.
    #[verifier::external_body]
    pub(crate) fn insert(&mut self, id: Identifier, value: T) -> (prev: Option<T>)
        requires
            obeys_key_model::<Identifier>(),
            distinct_ids(old(self)@),
        ensures
            final(self)@ == spec_insert(old(self)@, id, value),
            match prev {
                Some(p) => has_id(old(self)@, id) && p == old(self)@[index_of_id(
                    old(self)@,
                    id,
                )].1,
                None => !has_id(old(self)@, id),
            },
    {
        self.map.insert(id, value)
    }
}

} // verus!
