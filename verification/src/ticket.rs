//! The ticket capability: typed integer handles minted from positions.

use vstd::prelude::*;

verus! {

/// A registry manager ticket: a typed handle wrapping a position.
///
/// A ticket translates between a raw position and a strongly typed handle.
/// Conversion from a position is deterministic: it is fully described by the
/// spec function [`RegistryTicket::spec_from_index`], so the same position
/// always yields an equal ticket. Converting back with
/// [`RegistryTicket::to_index`] returns exactly the position the ticket was
/// minted from; implementors discharge that round-trip law once, in
/// [`RegistryTicket::lemma_round_trip`].
///
/// Tickets of one type should only ever be used with one registry manager
/// value, and never mixed.
pub trait RegistryTicket: Sized {
    /// The ticket, if any, that encodes the given position.
    spec fn spec_from_index(index: nat) -> Option<Self>;

    /// The position this ticket encodes.
    spec fn spec_index(&self) -> nat;

    /// Round-trip law: a ticket minted from a position encodes that position.
    proof fn lemma_round_trip(index: nat)
        ensures
            Self::spec_from_index(index) matches Some(t) ==> t.spec_index() == index,
    ;

    /// Converts the given position into a ticket.
    ///
    /// Fails exactly when the position is not representable by this ticket
    /// type, for example when it is outside the range of the wrapped integer.
    fn from_index(index: usize) -> (r: Option<Self>)
        ensures
            r == Self::spec_from_index(index as nat),
    ;

    /// Converts this ticket back into the position it encodes.
    fn to_index(&self) -> (r: usize)
        ensures
            r as nat == self.spec_index(),
    ;
}

/// A ticket backed by a `u8`: positions up to `u8::MAX`.
#[derive(Debug, Clone, Copy, PartialEq, Eq, Structural)]
pub struct TicketU8(pub u8);

impl RegistryTicket for TicketU8 {
    open spec fn spec_from_index(index: nat) -> Option<Self> {
        if index <= u8::MAX as nat {
            Some(TicketU8(index as u8))
        } else {
            None
        }
    }

    open spec fn spec_index(&self) -> nat {
        self.0 as nat
    }

    proof fn lemma_round_trip(index: nat) {
    }

    fn from_index(index: usize) -> (r: Option<Self>) {
        if index <= u8::MAX as usize {
            Some(TicketU8(index as u8))
        } else {
            None
        }
    }

    fn to_index(&self) -> (r: usize) {
        self.0 as usize
    }
}

/// A ticket backed by a `u16`: positions up to `u16::MAX`.
#[derive(Debug, Clone, Copy, PartialEq, Eq, Structural)]
pub struct TicketU16(pub u16);

impl RegistryTicket for TicketU16 {
    open spec fn spec_from_index(index: nat) -> Option<Self> {
        if index <= u16::MAX as nat {
            Some(TicketU16(index as u16))
        } else {
            None
        }
    }

    open spec fn spec_index(&self) -> nat {
        self.0 as nat
    }

    proof fn lemma_round_trip(index: nat) {
    }

    fn from_index(index: usize) -> (r: Option<Self>) {
        if index <= u16::MAX as usize {
            Some(TicketU16(index as u16))
        } else {
            None
        }
    }

    fn to_index(&self) -> (r: usize) {
        self.0 as usize
    }
}

/// A ticket backed by a `u32`: positions up to `u32::MAX`.
#[derive(Debug, Clone, Copy, PartialEq, Eq, Structural)]
pub struct TicketU32(pub u32);

impl RegistryTicket for TicketU32 {
    open spec fn spec_from_index(index: nat) -> Option<Self> {
        if index <= u32::MAX as nat && index <= usize::MAX as nat {
            Some(TicketU32(index as u32))
        } else {
            None
        }
    }

    open spec fn spec_index(&self) -> nat {
        self.0 as nat
    }

    proof fn lemma_round_trip(index: nat) {
    }

    fn from_index(index: usize) -> (r: Option<Self>) {
        if index as u64 <= u32::MAX as u64 {
            Some(TicketU32(index as u32))
        } else {
            None
        }
    }

    fn to_index(&self) -> (r: usize) {
        self.0 as usize
    }
}

/// A ticket backed by a `usize`: every position is representable.
#[derive(Debug, Clone, Copy, PartialEq, Eq, Structural)]
pub struct TicketUsize(pub usize);

impl RegistryTicket for TicketUsize {
    open spec fn spec_from_index(index: nat) -> Option<Self> {
        if index <= usize::MAX as nat {
            Some(TicketUsize(index as usize))
        } else {
            None
        }
    }

    open spec fn spec_index(&self) -> nat {
        self.0 as nat
    }

    proof fn lemma_round_trip(index: nat) {
    }

    fn from_index(index: usize) -> (r: Option<Self>) {
        Some(TicketUsize(index))
    }

    fn to_index(&self) -> (r: usize) {
        self.0
    }
}

/// A ticket backed by a single bit: only positions 0 and 1 are representable.
#[derive(Debug, Clone, Copy, PartialEq, Eq, Structural)]
pub struct TicketBit(pub bool);

impl RegistryTicket for TicketBit {
    open spec fn spec_from_index(index: nat) -> Option<Self> {
        if index == 0 {
            Some(TicketBit(false))
        } else if index == 1 {
            Some(TicketBit(true))
        } else {
            None
        }
    }

    open spec fn spec_index(&self) -> nat {
        if self.0 {
            1
        } else {
            0
        }
    }

    proof fn lemma_round_trip(index: nat) {
    }

    fn from_index(index: usize) -> (r: Option<Self>) {
        if index == 0 {
            Some(TicketBit(false))
        } else if index == 1 {
            Some(TicketBit(true))
        } else {
            None
        }
    }

    fn to_index(&self) -> (r: usize) {
        if self.0 {
            1
        } else {
            0
        }
    }
}

} // verus!
