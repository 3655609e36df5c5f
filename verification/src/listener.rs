//! Listeners: what a source wakes when it changes.

use vstd::prelude::*;
use crate::clock::ChangeId;
use crate::signal::{in_range, subscribed};
use crate::store::{ListenerId, SourceId, Store};

verus! {

/// A callback that is told the identifier of a change.
///
/// A notification carries no value: a listener that wants the new value
/// pulls it from the store. It may be told of one change several times,
/// once for each registration that the change reaches. It gets the store
/// for reading only, so it can neither emit nor register while a change is
/// being delivered.
pub trait Listener<A>: Sized {
    /// The sources that the listener is registered on, one entry for each
    /// registration, in registration order.
    spec fn sources(&self) -> Seq<SourceId>;

    /// The change that the listener acted on last, if it keeps track of
    /// one.
    spec fn seen(&self) -> Option<ChangeId>;

    /// Whether the listener can be notified while the sources hold
    /// `values`.
    spec fn ready(&self, values: Seq<A>) -> bool;

    /// Whether `after` is a state in which a notification of change `id`
    /// can leave this listener while the sources hold `values`.
    spec fn notified(&self, id: ChangeId, values: Seq<A>, after: Self) -> bool;

    /// Registers the listener, under the name `id`, on each of its
    /// sources.
    fn subscribe(&self, store: &mut Store<A>, id: ListenerId)
        requires
            in_range(self.sources(), old(store)@.len()),
        ensures
            final(store).values() == old(store).values(),
            final(store).subscribers() == subscribed(
                old(store).subscribers(),
                self.sources(),
                id,
            ),
    ;

    /// Tells the listener that change `id` has happened. The store already
    /// holds the values after the change.
    fn notify(&mut self, id: ChangeId, store: &Store<A>)
        requires
            old(self).ready(store.values()),
        ensures
            old(self).notified(id, store.values(), *final(self)),
            final(self).ready(store.values()),
            final(self).seen() == old(self).seen() || final(self).seen() == Some(id),
    ;
}

/// Whether `after` are the listeners `before` once the listener `target`
/// has been notified of change `id`: that one has reacted, the others are
/// untouched.
pub open spec fn notified_at<A, L: Listener<A>>(
    before: Seq<L>,
    target: ListenerId,
    id: ChangeId,
    values: Seq<A>,
    after: Seq<L>,
) -> bool {
    &&& target < before.len()
    &&& after.len() == before.len()
    &&& before[target as int].notified(id, values, after[target as int])
    &&& forall|k: int| 0 <= k < before.len() && k != target ==> after[k] == before[k]
}

/// Whether `after` are the listeners `before` once change `id` has been
/// delivered to `targets`, one notification for each entry, first entry
/// first.
pub open spec fn delivered<A, L: Listener<A>>(
    before: Seq<L>,
    targets: Seq<ListenerId>,
    id: ChangeId,
    values: Seq<A>,
    after: Seq<L>,
) -> bool
    decreases targets.len(),
{
    if targets.len() == 0 {
        after == before
    } else {
        exists|between: Seq<L>|
            delivered(before, targets.drop_last(), id, values, between) && #[trigger] notified_at(
                between,
                targets.last(),
                id,
                values,
                after,
            )
    }
}

/// A delivery neither adds nor removes a listener.
pub proof fn lemma_delivered_len<A, L: Listener<A>>(
    before: Seq<L>,
    targets: Seq<ListenerId>,
    id: ChangeId,
    values: Seq<A>,
    after: Seq<L>,
)
    requires
        delivered(before, targets, id, values, after),
    ensures
        after.len() == before.len(),
    decreases targets.len(),
{
    if targets.len() > 0 {
        let between = choose|between: Seq<L>|
            delivered(before, targets.drop_last(), id, values, between) && #[trigger] notified_at(
                between,
                targets.last(),
                id,
                values,
                after,
            );
        lemma_delivered_len(before, targets.drop_last(), id, values, between);
    }
}

} // verus!
