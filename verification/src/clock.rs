//! The change clock: the one counter that stamps every update of a graph.

use vstd::prelude::*;

verus! {

/// Identifier of one change. Identifiers are handed out in strictly
/// increasing order, so that two notifications carry the same identifier
/// exactly when they stem from the same `emit`.
pub type ChangeId = u64;

/// A monotonic counter that issues change identifiers.
///
/// The clock is an ordinary value: a graph owns one, and a clock that has
/// already ticked can be handed to a new graph so that several graphs share
/// one numbering.
pub struct ChangeClock {
    next: ChangeId,
}

impl View for ChangeClock {
    type V = nat;

    /// The number of identifiers issued so far, which is also the
    /// identifier that the next call of `next` returns.
    closed spec fn view(&self) -> nat {
        self.next as nat
    }
}

impl ChangeClock {
    /// A clock that has issued nothing yet.
    pub fn new() -> (clock: Self)
        ensures
            clock@ == 0,
    {
        ChangeClock { next: 0 }
    }

    /// A clock whose next identifier is `first`.
    pub fn starting_at(first: ChangeId) -> (clock: Self)
        ensures
            clock@ == first,
    {
        ChangeClock { next: first }
    }

    /// Whether the clock can still issue an identifier.
    pub open spec fn can_tick(&self) -> bool {
        self@ < ChangeId::MAX
    }

    /// Every clock stays within the range of `ChangeId`.
    pub proof fn lemma_bounded(&self)
        ensures
            self@ <= ChangeId::MAX,
    {
    }

    /// The identifier that the next tick will return.
    pub fn peek(&self) -> (id: ChangeId)
        ensures
            id == self@,
    {
        self.next
    }

    /// Whether every identifier has been issued.
    pub fn is_exhausted(&self) -> (done: bool)
        ensures
            done == !self.can_tick(),
    {
        self.next == ChangeId::MAX
    }

    /// Issues a fresh identifier: the number of identifiers issued before.
    /// It is therefore greater than every identifier issued earlier.
    pub fn next(&mut self) -> (id: ChangeId)
        requires
            old(self).can_tick(),
        ensures
            id == old(self)@,
            final(self)@ == old(self)@ + 1,
    {
        let id: ChangeId = self.next;
        self.next = id + 1;
        id
    }

    /// Issues a fresh identifier if one is left, and leaves the clock
    /// untouched otherwise.
    pub fn try_next(&mut self) -> (id: Option<ChangeId>)
        ensures
            old(self).can_tick() ==> id == Some(old(self)@ as ChangeId) && final(self)@ == old(
                self,
            )@ + 1,
            !old(self).can_tick() ==> id.is_none() && *final(self) == *old(self),
    {
        if self.next == ChangeId::MAX {
            None
        } else {
            Some(self.next())
        }
    }
}

} // verus!
