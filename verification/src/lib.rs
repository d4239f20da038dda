//! A manager of an ordered, identifier-keyed collection with both identifier
//! based and integer-index ticket based value retrieval.
//!
//! The difference between this and a plain ordered map is the ticket based
//! indexing, which adds an extra layer of safety by making it harder to mix
//! the indices of different collections: each collection gets its own ticket
//! type, so the type checker rejects a ticket used against the wrong one.
//!
//! Items in the collection can't be removed, which means that old tickets
//! will never be invalidated.

use vstd::prelude::*;

pub mod iter;
pub mod laws;
pub mod model;
mod store;
pub mod ticket;

pub use iter::Iter;
pub use iter::IterMut;
pub use iter::map_next;
pub use ticket::RegistryTicket;
pub use ticket::TicketBit;
pub use ticket::TicketU16;
pub use ticket::TicketU32;
pub use ticket::TicketU8;
pub use ticket::TicketUsize;

use core::hash::Hash;
use core::marker::PhantomData;

use vstd::std_specs::hash::obeys_key_model;

use crate::model::distinct_ids;
use crate::model::has_id;
use crate::model::index_of_id;
use crate::model::insert_position;
use crate::model::lemma_index_of_id_holds;
use crate::model::lemma_spec_insert_distinct;
use crate::model::lemma_update_value_distinct;
use crate::model::spec_insert;
use crate::store::Store;

verus! {

/// A manager of arbitrary values with both identifier keys and index based
/// tickets.
///
/// Entries live at dense positions `0..len()` in insertion order; a ticket is
/// a typed handle for such a position, minted at insertion time. Nothing is
/// ever removed, so a minted ticket stays valid for the manager's lifetime.
///
/// A ticket type should be used for only *one* registry manager value,
/// otherwise those ticket values might end up getting mixed with each other.
///
/// The manager's view is the sequence of stored `(identifier, value)` pairs
/// in insertion order; [`RegistryManager::wf`] is its well-formedness,
/// established by the constructor for every identifier type that obeys the
/// hash-table key model, and preserved by every method.
#[verifier::reject_recursive_types(T)]
#[verifier::reject_recursive_types(Ticket)]
#[verifier::reject_recursive_types(Identifier)]
pub struct RegistryManager<T, Ticket, Identifier = String> where
    Ticket: RegistryTicket,
    Identifier: Hash + Eq,
 {
    store: Store<Identifier, T>,
    tickets: PhantomData<Ticket>,
}

impl<T, Ticket, Identifier> View for RegistryManager<T, Ticket, Identifier> where
    Ticket: RegistryTicket,
    Identifier: Hash + Eq,
 {
    type V = Seq<(Identifier, T)>;

    closed spec fn view(&self) -> Seq<(Identifier, T)> {
        self.store@
    }
}

impl<T, Ticket, Identifier> RegistryManager<T, Ticket, Identifier> where
    Ticket: RegistryTicket,
    Identifier: Hash + Eq,
 {
    /// Well-formedness: the identifier type obeys the hash-table key model
    /// (deterministic hash, `==` agreeing with structural equality — vstd
    /// provides this axiomatically for primitive types, and a user of
    /// another identifier type states it as an assumption, as for vstd's
    /// own hash maps), the stored identifiers are pairwise distinct, and
    /// every occupied position is representable as a ticket.
    pub open spec fn wf(&self) -> bool {
        &&& obeys_key_model::<Identifier>()
        &&& distinct_ids(self@)
        &&& forall|i: nat| i < self@.len() ==> (#[trigger] Ticket::spec_from_index(i)) is Some
    }

    /// Creates a new empty registry manager. It is well-formed for every
    /// identifier type that obeys the hash-table key model.
    pub fn new() -> (r: Self)
        ensures
            r@ == Seq::<(Identifier, T)>::empty(),
            obeys_key_model::<Identifier>() ==> r.wf(),
    {
        RegistryManager { store: Store::new(), tickets: PhantomData }
    }

    /// Returns the number of stored values.
    pub fn len(&self) -> (r: usize)
        ensures
            r == self@.len(),
    {
        self.store.len()
    }

    /// Returns true if the registry manager is empty.
    pub fn is_empty(&self) -> (r: bool)
        ensures
            r == (self@.len() == 0),
    {
        self.store.len() == 0
    }

    /// Returns whether it is still possible to insert new values, that is,
    /// whether the position the next inserted value would occupy is
    /// representable by the ticket type.
    pub fn can_insert(&self) -> (r: bool)
        ensures
            r == (Ticket::spec_from_index(self@.len()) is Some),
    {
        Ticket::from_index(self.store.len()).is_some()
    }

    /// Returns whether the given identifier (or something equal to it)
    /// exists in the registry.
    pub fn contains_id(&self, id: &Identifier) -> (r: bool)
        requires
            self.wf(),
        ensures
            r == has_id(self@, *id),
    {
        match self.store.index_of(id) {
            Some(_) => true,
            None => false,
        }
    }

    /// Inserts the value into the registry under the given identifier.
    ///
    /// If an entry with an equal identifier already exists, its value is
    /// overwritten in place (same position, same ticket) and returned beside
    /// the ticket; otherwise the value is appended at position `len()` and a
    /// fresh ticket is minted for it.
    ///
    /// Returns `None`, without modifying anything, exactly when the position
    /// the value would occupy is not representable by the ticket type.
    pub fn insert(&mut self, id: Identifier, value: T) -> (r: Option<(Ticket, Option<T>)>)
        requires
            old(self).wf(),
        ensures
            final(self).wf(),
            r is Some == (Ticket::spec_from_index(insert_position(old(self)@, id) as nat)
                is Some),
            r is None ==> final(self)@ == old(self)@,
            r matches Some((t, prev)) ==> {
                &&& Some(t) == Ticket::spec_from_index(insert_position(old(self)@, id) as nat)
                &&& t.spec_index() == insert_position(old(self)@, id) as nat
                &&& final(self)@ == spec_insert(old(self)@, id, value)
                &&& prev == (if has_id(old(self)@, id) {
                    Some(old(self)@[index_of_id(old(self)@, id)].1)
                } else {
                    None::<T>
                })
            },
    {
        let ghost s0 = self@;
        let idx = match self.store.index_of(&id) {
            Some(i) => i,
            None => self.store.len(),
        };
        proof {
            assert(idx as int == insert_position(s0, id));
        }
        match Ticket::from_index(idx) {
            None => None,
            Some(t) => {
                proof {
                    Ticket::lemma_round_trip(idx as nat);
                }
                let prev = self.store.insert(id, value);
                proof {
                    lemma_spec_insert_distinct(s0, id, value);
                    assert forall|i: nat| i < self@.len() implies (#[trigger] Ticket::spec_from_index(
                        i,
                    )) is Some by {
                        if has_id(s0, id) {
                            lemma_index_of_id_holds(s0, id);
                            assert(i < s0.len());
                        } else {
                            if i < s0.len() {
                            } else {
                                assert(i == idx as nat);
                            }
                        }
                    }
                }
                Some((t, prev))
            },
        }
    }

    /// Returns a reference to the value associated with the given id.
    pub fn get_id<'a>(&'a self, id: &Identifier) -> (r: Option<&'a T>)
        requires
            self.wf(),
        ensures
            match r {
                Some(v) => has_id(self@, *id) && *v == self@[index_of_id(self@, *id)].1,
                None => !has_id(self@, *id),
            },
    {
        match self.store.index_of(id) {
            None => None,
            Some(i) => {
                let (_, v) = self.store.entry_at(i);
                Some(v)
            },
        }
    }

    /// Returns the ticket, a reference to the stored identifier, and a
    /// reference to the value associated with the given identifier.
    pub fn get_id_full<'a>(&'a self, id: &Identifier) -> (r: Option<
        (Ticket, &'a Identifier, &'a T),
    >)
        requires
            self.wf(),
        ensures
            match r {
                Some((t, rid, v)) => {
                    &&& has_id(self@, *id)
                    &&& Some(t) == Ticket::spec_from_index(index_of_id(self@, *id) as nat)
                    &&& t.spec_index() == index_of_id(self@, *id) as nat
                    &&& *rid == self@[index_of_id(self@, *id)].0
                    &&& *v == self@[index_of_id(self@, *id)].1
                },
                None => !has_id(self@, *id),
            },
    {
        match self.store.index_of(id) {
            None => None,
            Some(i) => {
                proof {
                    Ticket::lemma_round_trip(i as nat);
                }
                let t = Ticket::from_index(i).unwrap();
                let (rid, v) = self.store.entry_at(i);
                Some((t, rid, v))
            },
        }
    }

    /// Returns a mutable reference to the value associated with the given id.
    pub fn get_id_mut<'a>(&'a mut self, id: &Identifier) -> (r: Option<&'a mut T>)
        requires
            old(self).wf(),
        ensures
            final(self).wf(),
            r is None ==> !has_id(old(self)@, *id) && final(self)@ == old(self)@,
            r is Some ==> {
                &&& has_id(old(self)@, *id)
                &&& *r.unwrap() == old(self)@[index_of_id(old(self)@, *id)].1
                &&& final(self)@ == old(self)@.update(
                    index_of_id(old(self)@, *id),
                    (old(self)@[index_of_id(old(self)@, *id)].0, *final(r.unwrap())),
                )
            },
    {
        let ghost s0 = self@;
        match self.store.index_of(id) {
            None => None,
            Some(i) => {
                let (_, v) = self.store.entry_at_mut(i);
                proof {
                    lemma_update_value_distinct(s0, i as int, *final(v));
                }
                Some(v)
            },
        }
    }

    /// Returns the ticket, a reference to the stored identifier, and a
    /// mutable reference to the value associated with the given identifier.
    pub fn get_id_full_mut<'a>(&'a mut self, id: &Identifier) -> (r: Option<
        (Ticket, &'a Identifier, &'a mut T),
    >)
        requires
            old(self).wf(),
        ensures
            final(self).wf(),
            r is None ==> !has_id(old(self)@, *id) && final(self)@ == old(self)@,
            r is Some ==> {
                &&& has_id(old(self)@, *id)
                &&& Some(r.unwrap().0) == Ticket::spec_from_index(
                    index_of_id(old(self)@, *id) as nat,
                )
                &&& r.unwrap().0.spec_index() == index_of_id(old(self)@, *id) as nat
                &&& *r.unwrap().1 == old(self)@[index_of_id(old(self)@, *id)].0
                &&& *r.unwrap().2 == old(self)@[index_of_id(old(self)@, *id)].1
                &&& final(self)@ == old(self)@.update(
                    index_of_id(old(self)@, *id),
                    (old(self)@[index_of_id(old(self)@, *id)].0, *final(r.unwrap().2)),
                )
            },
    {
        let ghost s0 = self@;
        match self.store.index_of(id) {
            None => None,
            Some(i) => {
                proof {
                    Ticket::lemma_round_trip(i as nat);
                }
                let t = Ticket::from_index(i).unwrap();
                let (rid, v) = self.store.entry_at_mut(i);
                proof {
                    lemma_update_value_distinct(s0, i as int, *final(v));
                }
                Some((t, rid, v))
            },
        }
    }

    /// Returns a reference to the value associated with the given ticket.
    ///
    /// Requires the ticket to be valid for this manager: minted by it (or by
    /// an equivalent manager with identical history), so that its position is
    /// below the current count.
    pub fn get_ticket<'a>(&'a self, ticket: Ticket) -> (r: &'a T)
        requires
            self.wf(),
            ticket.spec_index() < self@.len(),
        ensures
            *r == self@[ticket.spec_index() as int].1,
    {
        let i = ticket.to_index();
        let (_, v) = self.store.entry_at(i);
        v
    }

    /// Returns references to the stored identifier and the value associated
    /// with the given ticket.
    ///
    /// Requires the ticket to be valid for this manager, as in
    /// [`RegistryManager::get_ticket`].
    pub fn get_ticket_full<'a>(&'a self, ticket: Ticket) -> (r: (&'a Identifier, &'a T))
        requires
            self.wf(),
            ticket.spec_index() < self@.len(),
        ensures
            *r.0 == self@[ticket.spec_index() as int].0,
            *r.1 == self@[ticket.spec_index() as int].1,
    {
        let i = ticket.to_index();
        self.store.entry_at(i)
    }

    /// Returns a mutable reference to the value associated with the given
    /// ticket.
    ///
    /// Requires the ticket to be valid for this manager, as in
    /// [`RegistryManager::get_ticket`].
    pub fn get_ticket_mut<'a>(&'a mut self, ticket: Ticket) -> (r: &'a mut T)
        requires
            old(self).wf(),
            ticket.spec_index() < old(self)@.len(),
        ensures
            final(self).wf(),
            *r == old(self)@[ticket.spec_index() as int].1,
            final(self)@ == old(self)@.update(
                ticket.spec_index() as int,
                (old(self)@[ticket.spec_index() as int].0, *final(r)),
            ),
    {
        let ghost s0 = self@;
        let i = ticket.to_index();
        let (_, v) = self.store.entry_at_mut(i);
        proof {
            lemma_update_value_distinct(s0, i as int, *final(v));
        }
        v
    }

    /// Returns a reference to the stored identifier and a mutable reference
    /// to the value associated with the given ticket.
    ///
    /// Requires the ticket to be valid for this manager, as in
    /// [`RegistryManager::get_ticket`].
    pub fn get_ticket_full_mut<'a>(&'a mut self, ticket: Ticket) -> (r: (
        &'a Identifier,
        &'a mut T,
    ))
        requires
            old(self).wf(),
            ticket.spec_index() < old(self)@.len(),
        ensures
            final(self).wf(),
            *r.0 == old(self)@[ticket.spec_index() as int].0,
            *r.1 == old(self)@[ticket.spec_index() as int].1,
            final(self)@ == old(self)@.update(
                ticket.spec_index() as int,
                (old(self)@[ticket.spec_index() as int].0, *final(r.1)),
            ),
    {
        let ghost s0 = self@;
        let i = ticket.to_index();
        let (rid, v) = self.store.entry_at_mut(i);
        proof {
            lemma_update_value_distinct(s0, i as int, *final(v));
        }
        (rid, v)
    }

    /// Returns the ticket of the given identifier, if it exists.
    ///
    /// This is the safe way to turn an identifier into a ticket without
    /// assuming anything about the ticket's validity.
    pub fn get_ticket_of(&self, id: &Identifier) -> (r: Option<Ticket>)
        requires
            self.wf(),
        ensures
            match r {
                Some(t) => {
                    &&& has_id(self@, *id)
                    &&& Some(t) == Ticket::spec_from_index(index_of_id(self@, *id) as nat)
                    &&& t.spec_index() == index_of_id(self@, *id) as nat
                },
                None => !has_id(self@, *id),
            },
    {
        match self.store.index_of(id) {
            None => None,
            Some(i) => {
                proof {
                    Ticket::lemma_round_trip(i as nat);
                }
                Some(Ticket::from_index(i).unwrap())
            },
        }
    }

    /// The identifier and value at the given position.
    pub(crate) fn entry_at<'a>(&'a self, i: usize) -> (r: (&'a Identifier, &'a T))
        requires
            i < self@.len(),
        ensures
            *r.0 == self@[i as int].0,
            *r.1 == self@[i as int].1,
    {
        self.store.entry_at(i)
    }

    /// The identifier and value at the given position, the value borrowed
    /// mutably.
    pub(crate) fn entry_at_mut<'a>(&'a mut self, i: usize) -> (r: (&'a Identifier, &'a mut T))
        requires
            old(self).wf(),
            i < old(self)@.len(),
        ensures
            final(self).wf(),
            *r.0 == old(self)@[i as int].0,
            *r.1 == old(self)@[i as int].1,
            final(self)@ == old(self)@.update(i as int, (old(self)@[i as int].0, *final(r.1))),
    {
        let ghost s0 = self@;
        let (rid, v) = self.store.entry_at_mut(i);
        proof {
            lemma_update_value_distinct(s0, i as int, *final(v));
        }
        (rid, v)
    }
}

impl<T, Ticket, Identifier> Default for RegistryManager<T, Ticket, Identifier> where
    Ticket: RegistryTicket,
    Identifier: Hash + Eq,
 {
    /// Creates a new empty registry manager.
    fn default() -> (r: Self)
        ensures
            r@ == Seq::<(Identifier, T)>::empty(),
            obeys_key_model::<Identifier>() ==> r.wf(),
    {
        Self::new()
    }
}

} // verus!
