//! What every node of a graph can do: hand out its current value, and
//! register a listener on the sources it is derived from.

use vstd::prelude::*;
use crate::store::{ListenerId, SourceId, Store};

verus! {

/// Whether every source in `sources` is one of the first `count` sources.
pub open spec fn in_range(sources: Seq<SourceId>, count: nat) -> bool {
    forall|i: int| 0 <= i < sources.len() ==> sources[i] < count
}

/// The listener lists `subscribers` after `listener` has been appended to
/// the list of each source in `sources`, one source after the other. A
/// source that occurs several times receives the listener as often; one
/// that the lists do not reach is passed over.
pub open spec fn subscribed(
    subscribers: Seq<Seq<ListenerId>>,
    sources: Seq<SourceId>,
    listener: ListenerId,
) -> Seq<Seq<ListenerId>>
    decreases sources.len(),
{
    if sources.len() == 0 {
        subscribers
    } else {
        let before = subscribed(subscribers, sources.drop_last(), listener);
        let source = sources.last() as int;
        if source < before.len() {
            before.update(source, before[source].push(listener))
        } else {
            before
        }
    }
}

/// Registering never changes the number of sources.
pub proof fn lemma_subscribed_len(
    subscribers: Seq<Seq<ListenerId>>,
    sources: Seq<SourceId>,
    listener: ListenerId,
)
    ensures
        subscribed(subscribers, sources, listener).len() == subscribers.len(),
    decreases sources.len(),
{
    if sources.len() > 0 {
        lemma_subscribed_len(subscribers, sources.drop_last(), listener);
    }
}

/// Registering on a single source appends the listener to that source's
/// list and leaves the other lists alone.
pub proof fn lemma_subscribed_one(
    subscribers: Seq<Seq<ListenerId>>,
    source: SourceId,
    listener: ListenerId,
)
    requires
        source < subscribers.len(),
    ensures
        subscribed(subscribers, seq![source], listener) == subscribers.update(
            source as int,
            subscribers[source as int].push(listener),
        ),
{
    reveal_with_fuel(subscribed, 2);
    assert(seq![source].drop_last() =~= Seq::<SourceId>::empty());
}

/// Registering on `first + second` is registering on `first` and then on
/// `second`.
pub proof fn lemma_subscribed_concat(
    subscribers: Seq<Seq<ListenerId>>,
    first: Seq<SourceId>,
    second: Seq<SourceId>,
    listener: ListenerId,
)
    ensures
        subscribed(subscribers, first + second, listener) == subscribed(
            subscribed(subscribers, first, listener),
            second,
            listener,
        ),
    decreases second.len(),
{
    if second.len() == 0 {
        assert(first + second =~= first);
    } else {
        assert((first + second).drop_last() =~= first + second.drop_last());
        lemma_subscribed_concat(subscribers, first, second.drop_last(), listener);
    }
}

/// A node of a graph whose sources hold values of type `A`.
///
/// A signal is a description: it holds no value of its own. Values live in
/// the `Store` of the graph, and every operation names the store it works
/// on.
pub trait Signal<A> {
    /// The type of the signal's value.
    type Item;

    /// The sources that feed this signal, one entry for each path from a
    /// source to this node, in the order in which a listener is registered
    /// on them.
    spec fn sources(&self) -> Seq<SourceId>;

    /// Whether the signal can be evaluated while the sources hold `values`:
    /// every transform on the way accepts what reaches it.
    spec fn readable(&self, values: Seq<A>) -> bool;

    /// Whether `value` is a value of the signal while the sources hold
    /// `values`.
    spec fn yields(&self, values: Seq<A>, value: Self::Item) -> bool;

    /// Applies `f` to the signal's current value and returns what `f`
    /// returns. The value is computed for this call and not kept.
    fn with_value<R, G: FnOnce(&Self::Item) -> R>(&self, store: &Store<A>, f: G) -> (out:
        R)
        requires
            in_range(self.sources(), store@.len()),
            self.readable(store.values()),
            forall|value: Self::Item|
                #![trigger self.yields(store.values(), value)]
                #![trigger f.requires((&value,))]
                self.yields(store.values(), value) ==> f.requires((&value,)),
        ensures
            exists|value: Self::Item|
                #![trigger self.yields(store.values(), value)]
                #![trigger f.ensures((&value,), out)]
                self.yields(store.values(), value) && f.ensures((&value,), out),
    ;

    /// Registers `listener` on every source that feeds this signal, once
    /// for each path. Earlier registrations stay as they are, also those
    /// of the same listener.
    fn register_listener(&self, store: &mut Store<A>, listener: ListenerId)
        requires
            in_range(self.sources(), old(store)@.len()),
        ensures
            final(store).values() == old(store).values(),
            final(store).subscribers() == subscribed(
                old(store).subscribers(),
                self.sources(),
                listener,
            ),
    ;
}

} // verus!
