//! Iteration adapters over a registry manager's entries.
//!
//! Both adapters walk the entries in insertion order, computing each entry's
//! ticket lazily from a running position cursor: `front` advances from the
//! low end, `back` from the high end, and the entries at positions
//! `front..back` are the ones not yet yielded. Once the two cursors meet the
//! adapter is exhausted and stays so.

use vstd::prelude::*;

use core::hash::Hash;

use crate::RegistryManager;
use crate::ticket::RegistryTicket;

verus! {

/// A helper function to map an indexed entry into a ticket-carrying one.
///
/// The position must be representable by the ticket type.
pub fn map_next<Ticket, Id, T>(input: (usize, (Id, T))) -> (r: (Ticket, Id, T)) where
    Ticket: RegistryTicket,

    requires
        Ticket::spec_from_index(input.0 as nat) is Some,
    ensures
        Some(r.0) == Ticket::spec_from_index(input.0 as nat),
        r.1 == input.1.0,
        r.2 == input.1.1,
{
    let (idx, (id, val)) = input;
    (Ticket::from_index(idx).unwrap(), id, val)
}

/// A referencing iteration adapter over the entries of a [`RegistryManager`].
///
/// Yields `(Ticket, &'a Identifier, &'a T)` triples in insertion order,
/// supports traversal from both ends, exact remaining-length reporting and
/// efficient skipping, and is fused: once exhausted it stays exhausted.
#[derive(Clone)]
#[verifier::reject_recursive_types(T)]
#[verifier::reject_recursive_types(Ticket)]
#[verifier::reject_recursive_types(Identifier)]
pub struct Iter<'a, T, Ticket, Identifier> where Ticket: RegistryTicket, Identifier: Hash + Eq {
    man: &'a RegistryManager<T, Ticket, Identifier>,
    front: usize,
    back: usize,
}

impl<'a, T, Ticket, Identifier> Iter<'a, T, Ticket, Identifier> where
    Ticket: RegistryTicket,
    Identifier: Hash + Eq,
 {
    /// The entries of the underlying manager, in insertion order.
    pub closed spec fn entries(&self) -> Seq<(Identifier, T)> {
        self.man@
    }

    /// The position the next forward step yields.
    pub closed spec fn front(&self) -> int {
        self.front as int
    }

    /// One past the position the next backward step yields.
    pub closed spec fn back(&self) -> int {
        self.back as int
    }

    /// The entries not yet yielded.
    pub open spec fn remaining(&self) -> Seq<(Identifier, T)> {
        self.entries().subrange(self.front(), self.back())
    }

    /// Well-formedness: the underlying manager is well-formed and the two
    /// cursors delimit a range of its positions.
    pub closed spec fn wf(&self) -> bool {
        &&& self.man.wf()
        &&& self.front <= self.back <= self.man@.len()
    }

    /// Yields the next entry from the front, or nothing once the adapter is
    /// exhausted.
    pub fn next(&mut self) -> (r: Option<(Ticket, &'a Identifier, &'a T)>)
        requires
            old(self).wf(),
        ensures
            final(self).wf(),
            final(self).entries() == old(self).entries(),
            final(self).back() == old(self).back(),
            r is None ==> old(self).remaining().len() == 0 && final(self).front() == old(
                self,
            ).front(),
            r is Some ==> {
                &&& old(self).remaining().len() > 0
                &&& final(self).front() == old(self).front() + 1
                &&& Some(r.unwrap().0) == Ticket::spec_from_index(old(self).front() as nat)
                &&& r.unwrap().0.spec_index() == old(self).front() as nat
                &&& *r.unwrap().1 == old(self).entries()[old(self).front()].0
                &&& *r.unwrap().2 == old(self).entries()[old(self).front()].1
            },
    {
        if self.front < self.back {
            let i = self.front;
            let (id, v) = self.man.entry_at(i);
            self.front = i + 1;
            proof {
                Ticket::lemma_round_trip(i as nat);
            }
            Some(map_next((i, (id, v))))
        } else {
            None
        }
    }

    /// Yields the next entry from the back, or nothing once the adapter is
    /// exhausted.
    pub fn next_back(&mut self) -> (r: Option<(Ticket, &'a Identifier, &'a T)>)
        requires
            old(self).wf(),
        ensures
            final(self).wf(),
            final(self).entries() == old(self).entries(),
            final(self).front() == old(self).front(),
            r is None ==> old(self).remaining().len() == 0 && final(self).back() == old(
                self,
            ).back(),
            r is Some ==> {
                &&& old(self).remaining().len() > 0
                &&& final(self).back() == old(self).back() - 1
                &&& Some(r.unwrap().0) == Ticket::spec_from_index((old(self).back() - 1) as nat)
                &&& r.unwrap().0.spec_index() == (old(self).back() - 1) as nat
                &&& *r.unwrap().1 == old(self).entries()[old(self).back() - 1].0
                &&& *r.unwrap().2 == old(self).entries()[old(self).back() - 1].1
            },
    {
        if self.front < self.back {
            let i = self.back - 1;
            let (id, v) = self.man.entry_at(i);
            self.back = i;
            proof {
                Ticket::lemma_round_trip(i as nat);
            }
            Some(map_next((i, (id, v))))
        } else {
            None
        }
    }

    /// The exact number of entries left, as a lower and upper bound.
    pub fn size_hint(&self) -> (r: (usize, Option<usize>))
        requires
            self.wf(),
        ensures
            r.0 == self.remaining().len(),
            r.1 == Some(r.0),
    {
        let n = self.back - self.front;
        (n, Some(n))
    }

    /// The exact number of entries left.
    pub fn len(&self) -> (r: usize)
        requires
            self.wf(),
        ensures
            r == self.remaining().len(),
    {
        self.back - self.front
    }

    /// Consumes the adapter, returning the number of entries it had left.
    pub fn count(self) -> (r: usize)
        requires
            self.wf(),
        ensures
            r == self.remaining().len(),
    {
        self.back - self.front
    }

    /// Skips `n` entries from the front and yields the one after them,
    /// without materializing the skipped ones. Exhausts the adapter when
    /// fewer than `n + 1` entries are left.
    pub fn nth(&mut self, n: usize) -> (r: Option<(Ticket, &'a Identifier, &'a T)>)
        requires
            old(self).wf(),
        ensures
            final(self).wf(),
            final(self).entries() == old(self).entries(),
            final(self).back() == old(self).back(),
            n >= old(self).remaining().len() ==> r is None && final(self).front() == old(
                self,
            ).back(),
            n < old(self).remaining().len() ==> {
                &&& r is Some
                &&& final(self).front() == old(self).front() + n + 1
                &&& Some(r.unwrap().0) == Ticket::spec_from_index((old(self).front() + n) as nat)
                &&& r.unwrap().0.spec_index() == (old(self).front() + n) as nat
                &&& *r.unwrap().1 == old(self).entries()[old(self).front() + n].0
                &&& *r.unwrap().2 == old(self).entries()[old(self).front() + n].1
            },
    {
        let rem = self.back - self.front;
        if n < rem {
            self.front = self.front + n;
            self.next()
        } else {
            self.front = self.back;
            None
        }
    }

    /// Skips `n` entries from the back and yields the one before them,
    /// without materializing the skipped ones. Exhausts the adapter when
    /// fewer than `n + 1` entries are left.
    pub fn nth_back(&mut self, n: usize) -> (r: Option<(Ticket, &'a Identifier, &'a T)>)
        requires
            old(self).wf(),
        ensures
            final(self).wf(),
            final(self).entries() == old(self).entries(),
            final(self).front() == old(self).front(),
            n >= old(self).remaining().len() ==> r is None && final(self).back() == old(
                self,
            ).front(),
            n < old(self).remaining().len() ==> {
                &&& r is Some
                &&& final(self).back() == old(self).back() - n - 1
                &&& Some(r.unwrap().0) == Ticket::spec_from_index(
                    (old(self).back() - n - 1) as nat,
                )
                &&& r.unwrap().0.spec_index() == (old(self).back() - n - 1) as nat
                &&& *r.unwrap().1 == old(self).entries()[old(self).back() - n - 1].0
                &&& *r.unwrap().2 == old(self).entries()[old(self).back() - n - 1].1
            },
    {
        let rem = self.back - self.front;
        if n < rem {
            self.back = self.back - n;
            self.next_back()
        } else {
            self.back = self.front;
            None
        }
    }

    /// Consumes the adapter, collecting everything it has left, in forward
    /// order: the entry at position `front() + k` comes `k`-th, beside its
    /// ticket.
    pub fn collect(self) -> (r: Vec<(Ticket, &'a Identifier, &'a T)>)
        requires
            self.wf(),
        ensures
            r@.len() == self.remaining().len(),
            forall|k: int|
                0 <= k < r@.len() ==> {
                    &&& Some(#[trigger] r@[k].0) == Ticket::spec_from_index(
                        (self.front() + k) as nat,
                    )
                    &&& *r@[k].1 == self.remaining()[k].0
                    &&& *r@[k].2 == self.remaining()[k].1
                },
    {
        let ghost orig = self;
        let mut it = self;
        let mut out: Vec<(Ticket, &'a Identifier, &'a T)> = Vec::new();
        loop
            invariant
                orig == self,
                it.wf(),
                it.entries() == orig.entries(),
                it.back() == orig.back(),
                orig.front() <= it.front() <= orig.back(),
                out@.len() == it.front() - orig.front(),
                forall|k: int|
                    0 <= k < out@.len() ==> {
                        &&& Some(#[trigger] out@[k].0) == Ticket::spec_from_index(
                            (orig.front() + k) as nat,
                        )
                        &&& *out@[k].1 == orig.remaining()[k].0
                        &&& *out@[k].2 == orig.remaining()[k].1
                    },
            decreases it.back() - it.front(),
        {
            match it.next() {
                Some(x) => {
                    out.push(x);
                },
                None => {
                    return out;
                },
            }
        }
    }

    /// Consumes the adapter, collecting everything it has left, in backward
    /// order: the entry at position `back() - 1 - k` comes `k`-th, beside
    /// its ticket.
    pub fn collect_back(self) -> (r: Vec<(Ticket, &'a Identifier, &'a T)>)
        requires
            self.wf(),
        ensures
            r@.len() == self.remaining().len(),
            forall|k: int|
                0 <= k < r@.len() ==> {
                    &&& Some(#[trigger] r@[k].0) == Ticket::spec_from_index(
                        (self.back() - 1 - k) as nat,
                    )
                    &&& *r@[k].1 == self.entries()[self.back() - 1 - k].0
                    &&& *r@[k].2 == self.entries()[self.back() - 1 - k].1
                },
    {
        let ghost orig = self;
        let mut it = self;
        let mut out: Vec<(Ticket, &'a Identifier, &'a T)> = Vec::new();
        loop
            invariant
                orig == self,
                orig.wf(),
                it.wf(),
                it.entries() == orig.entries(),
                it.front() == orig.front(),
                orig.front() <= it.back() <= orig.back(),
                out@.len() == orig.back() - it.back(),
                forall|k: int|
                    0 <= k < out@.len() ==> {
                        &&& Some(#[trigger] out@[k].0) == Ticket::spec_from_index(
                            (orig.back() - 1 - k) as nat,
                        )
                        &&& *out@[k].1 == orig.entries()[orig.back() - 1 - k].0
                        &&& *out@[k].2 == orig.entries()[orig.back() - 1 - k].1
                    },
            decreases it.back() - it.front(),
        {
            match it.next_back() {
                Some(x) => {
                    out.push(x);
                },
                None => {
                    return out;
                },
            }
        }
    }

    /// Consumes the adapter, yielding its last entry: the one just below the
    /// back cursor.
    pub fn last(self) -> (r: Option<(Ticket, &'a Identifier, &'a T)>)
        requires
            self.wf(),
        ensures
            r is None ==> self.remaining().len() == 0,
            r is Some ==> {
                &&& self.remaining().len() > 0
                &&& Some(r.unwrap().0) == Ticket::spec_from_index((self.back() - 1) as nat)
                &&& r.unwrap().0.spec_index() == (self.back() - 1) as nat
                &&& *r.unwrap().1 == self.entries()[self.back() - 1].0
                &&& *r.unwrap().2 == self.entries()[self.back() - 1].1
            },
    {
        let mut it = self;
        it.next_back()
    }
}

impl<T, Ticket, Identifier> RegistryManager<T, Ticket, Identifier> where
    Ticket: RegistryTicket,
    Identifier: Hash + Eq,
 {
    /// A referencing iteration adapter over all entries, in insertion order.
    pub fn iter<'a>(&'a self) -> (r: Iter<'a, T, Ticket, Identifier>)
        requires
            self.wf(),
        ensures
            r.wf(),
            r.entries() == self@,
            r.front() == 0,
            r.back() == self@.len(),
            r.remaining() == self@,
    {
        let n = self.len();
        let r = Iter { man: self, front: 0, back: n };
        proof {
            assert(r.remaining() =~= self@);
        }
        r
    }
}


/// A mutable iteration adapter over the entries of a [`RegistryManager`].
///
/// Yields `(Ticket, &Identifier, &mut T)` triples in insertion order. The
/// adapter holds the manager exclusively for its entire lifetime; each call
/// to [`IterMut::next`] lends a mutable reference to one value, and the
/// adapter's own view of the entries tracks every change written through it.
/// Like [`Iter`] it is double-ended, reports its exact remaining length,
/// skips efficiently, and is fused.
#[verifier::reject_recursive_types(T)]
#[verifier::reject_recursive_types(Ticket)]
#[verifier::reject_recursive_types(Identifier)]
pub struct IterMut<'a, T, Ticket, Identifier> where Ticket: RegistryTicket, Identifier: Hash + Eq {
    man: &'a mut RegistryManager<T, Ticket, Identifier>,
    front: usize,
    back: usize,
}

impl<'a, T, Ticket, Identifier> IterMut<'a, T, Ticket, Identifier> where
    Ticket: RegistryTicket,
    Identifier: Hash + Eq,
 {
    /// The entries of the underlying manager, in insertion order, as the
    /// adapter currently sees them.
    pub closed spec fn entries(&self) -> Seq<(Identifier, T)> {
        self.man@
    }

    /// The position the next forward step yields.
    pub closed spec fn front(&self) -> int {
        self.front as int
    }

    /// One past the position the next backward step yields.
    pub closed spec fn back(&self) -> int {
        self.back as int
    }

    /// The entries not yet yielded.
    pub open spec fn remaining(&self) -> Seq<(Identifier, T)> {
        self.entries().subrange(self.front(), self.back())
    }

    /// Well-formedness: the underlying manager is well-formed and the two
    /// cursors delimit a range of its positions.
    pub closed spec fn wf(&self) -> bool {
        &&& self.man.wf()
        &&& self.front <= self.back <= self.man@.len()
    }

    /// Yields the next entry from the front, its value borrowed mutably, or
    /// nothing once the adapter is exhausted.
    pub fn next<'b>(&'b mut self) -> (r: Option<(Ticket, &'b Identifier, &'b mut T)>)
        requires
            old(self).wf(),
        ensures
            final(self).wf(),
            final(self).back() == old(self).back(),
            r is None ==> {
                &&& old(self).remaining().len() == 0
                &&& final(self).front() == old(self).front()
                &&& final(self).entries() == old(self).entries()
            },
            r is Some ==> {
                &&& old(self).remaining().len() > 0
                &&& final(self).front() == old(self).front() + 1
                &&& Some(r.unwrap().0) == Ticket::spec_from_index(old(self).front() as nat)
                &&& r.unwrap().0.spec_index() == old(self).front() as nat
                &&& *r.unwrap().1 == old(self).entries()[old(self).front()].0
                &&& *r.unwrap().2 == old(self).entries()[old(self).front()].1
                &&& final(self).entries() == old(self).entries().update(
                    old(self).front(),
                    (old(self).entries()[old(self).front()].0, *final(r.unwrap().2)),
                )
            },
    {
        if self.front < self.back {
            let i = self.front;
            proof {
                Ticket::lemma_round_trip(i as nat);
                assert(Ticket::spec_from_index(i as nat) is Some);
            }
            let t = Ticket::from_index(i).unwrap();
            let (id, v) = self.man.entry_at_mut(i);
            self.front = i + 1;
            Some((t, id, v))
        } else {
            None
        }
    }

    /// Yields the next entry from the back, its value borrowed mutably, or
    /// nothing once the adapter is exhausted.
    pub fn next_back<'b>(&'b mut self) -> (r: Option<(Ticket, &'b Identifier, &'b mut T)>)
        requires
            old(self).wf(),
        ensures
            final(self).wf(),
            final(self).front() == old(self).front(),
            r is None ==> {
                &&& old(self).remaining().len() == 0
                &&& final(self).back() == old(self).back()
                &&& final(self).entries() == old(self).entries()
            },
            r is Some ==> {
                &&& old(self).remaining().len() > 0
                &&& final(self).back() == old(self).back() - 1
                &&& Some(r.unwrap().0) == Ticket::spec_from_index((old(self).back() - 1) as nat)
                &&& r.unwrap().0.spec_index() == (old(self).back() - 1) as nat
                &&& *r.unwrap().1 == old(self).entries()[old(self).back() - 1].0
                &&& *r.unwrap().2 == old(self).entries()[old(self).back() - 1].1
                &&& final(self).entries() == old(self).entries().update(
                    old(self).back() - 1,
                    (old(self).entries()[old(self).back() - 1].0, *final(r.unwrap().2)),
                )
            },
    {
        if self.front < self.back {
            let i = self.back - 1;
            proof {
                Ticket::lemma_round_trip(i as nat);
                assert(Ticket::spec_from_index(i as nat) is Some);
            }
            let t = Ticket::from_index(i).unwrap();
            let (id, v) = self.man.entry_at_mut(i);
            self.back = i;
            Some((t, id, v))
        } else {
            None
        }
    }

    /// The exact number of entries left, as a lower and upper bound.
    pub fn size_hint(&self) -> (r: (usize, Option<usize>))
        requires
            self.wf(),
        ensures
            r.0 == self.remaining().len(),
            r.1 == Some(r.0),
    {
        let n = self.back - self.front;
        (n, Some(n))
    }

    /// The exact number of entries left.
    pub fn len(&self) -> (r: usize)
        requires
            self.wf(),
        ensures
            r == self.remaining().len(),
    {
        self.back - self.front
    }

    /// Consumes the adapter, returning the number of entries it had left.
    pub fn count(self) -> (r: usize)
        requires
            self.wf(),
        ensures
            r == self.remaining().len(),
    {
        self.back - self.front
    }

    /// Skips `n` entries from the front and yields the one after them,
    /// without materializing the skipped ones. Exhausts the adapter when
    /// fewer than `n + 1` entries are left.
    pub fn nth<'b>(&'b mut self, n: usize) -> (r: Option<(Ticket, &'b Identifier, &'b mut T)>)
        requires
            old(self).wf(),
        ensures
            final(self).wf(),
            final(self).back() == old(self).back(),
            n >= old(self).remaining().len() ==> {
                &&& r is None
                &&& final(self).front() == old(self).back()
                &&& final(self).entries() == old(self).entries()
            },
            n < old(self).remaining().len() ==> {
                &&& r is Some
                &&& final(self).front() == old(self).front() + n + 1
                &&& Some(r.unwrap().0) == Ticket::spec_from_index((old(self).front() + n) as nat)
                &&& r.unwrap().0.spec_index() == (old(self).front() + n) as nat
                &&& *r.unwrap().1 == old(self).entries()[old(self).front() + n].0
                &&& *r.unwrap().2 == old(self).entries()[old(self).front() + n].1
                &&& final(self).entries() == old(self).entries().update(
                    old(self).front() + n,
                    (old(self).entries()[old(self).front() + n].0, *final(r.unwrap().2)),
                )
            },
    {
        let rem = self.back - self.front;
        if n < rem {
            self.front = self.front + n;
            self.next()
        } else {
            self.front = self.back;
            None
        }
    }

    /// Skips `n` entries from the back and yields the one before them,
    /// without materializing the skipped ones. Exhausts the adapter when
    /// fewer than `n + 1` entries are left.
    pub fn nth_back<'b>(&'b mut self, n: usize) -> (r: Option<(Ticket, &'b Identifier, &'b mut T)>)
        requires
            old(self).wf(),
        ensures
            final(self).wf(),
            final(self).front() == old(self).front(),
            n >= old(self).remaining().len() ==> {
                &&& r is None
                &&& final(self).back() == old(self).front()
                &&& final(self).entries() == old(self).entries()
            },
            n < old(self).remaining().len() ==> {
                &&& r is Some
                &&& final(self).back() == old(self).back() - n - 1
                &&& Some(r.unwrap().0) == Ticket::spec_from_index(
                    (old(self).back() - n - 1) as nat,
                )
                &&& r.unwrap().0.spec_index() == (old(self).back() - n - 1) as nat
                &&& *r.unwrap().1 == old(self).entries()[old(self).back() - n - 1].0
                &&& *r.unwrap().2 == old(self).entries()[old(self).back() - n - 1].1
                &&& final(self).entries() == old(self).entries().update(
                    old(self).back() - n - 1,
                    (old(self).entries()[old(self).back() - n - 1].0, *final(r.unwrap().2)),
                )
            },
    {
        let rem = self.back - self.front;
        if n < rem {
            self.back = self.back - n;
            self.next_back()
        } else {
            self.back = self.front;
            None
        }
    }

    /// Consumes the adapter, yielding its last entry: the one just below the
    /// back cursor, its value borrowed mutably.
    pub fn last(self) -> (r: Option<(Ticket, &'a Identifier, &'a mut T)>)
        requires
            self.wf(),
        ensures
            r is None ==> self.remaining().len() == 0,
            r is Some ==> {
                &&& self.remaining().len() > 0
                &&& Some(r.unwrap().0) == Ticket::spec_from_index((self.back() - 1) as nat)
                &&& r.unwrap().0.spec_index() == (self.back() - 1) as nat
                &&& *r.unwrap().1 == self.entries()[self.back() - 1].0
                &&& *r.unwrap().2 == self.entries()[self.back() - 1].1
            },
    {
        if self.front < self.back {
            let i = self.back - 1;
            proof {
                Ticket::lemma_round_trip(i as nat);
                assert(Ticket::spec_from_index(i as nat) is Some);
            }
            let t = Ticket::from_index(i).unwrap();
            let (id, v) = self.man.entry_at_mut(i);
            Some((t, id, v))
        } else {
            None
        }
    }
    /// Ends the adapter's mutable phase, returning a read-only adapter over
    /// the same manager with the same cursors and the same entries.
    pub fn into_shared(self) -> (r: Iter<'a, T, Ticket, Identifier>)
        requires
            self.wf(),
        ensures
            r.wf(),
            r.entries() == self.entries(),
            r.front() == self.front(),
            r.back() == self.back(),
            r.remaining() == self.remaining(),
    {
        let man: &'a RegistryManager<T, Ticket, Identifier> = self.man;
        Iter { man, front: self.front, back: self.back }
    }
}

impl<T, Ticket, Identifier> RegistryManager<T, Ticket, Identifier> where
    Ticket: RegistryTicket,
    Identifier: Hash + Eq,
 {
    /// A mutable iteration adapter over all entries, in insertion order. It
    /// holds the manager exclusively for its entire lifetime.
    pub fn iter_mut<'a>(&'a mut self) -> (r: IterMut<'a, T, Ticket, Identifier>)
        requires
            old(self).wf(),
        ensures
            r.wf(),
            r.entries() == old(self)@,
            r.front() == 0,
            r.back() == old(self)@.len(),
            r.remaining() == old(self)@,
    {
        let n = self.len();
        let r = IterMut { man: self, front: 0, back: n };
        proof {
            assert(r.remaining() =~= r.entries());
        }
        r
    }
}

} // verus!
