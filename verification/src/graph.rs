//! The graph: the one owner of the clock, the source cells and the
//! listeners.

use vstd::prelude::*;
use crate::clock::{ChangeClock, ChangeId};
use crate::listener::{notified_at, Listener};
use crate::signal::{in_range, lemma_subscribed_len, subscribed, Signal};
use crate::sink::Sink;
use crate::store::{ListenerId, SourceId, Store};

verus! {

/// A signal graph over sources of type `A` and listeners of type `L`.
///
/// The graph owns the clock, the value and the listener list of every
/// source, and the listeners themselves; sources and listeners are named by
/// their index. Whoever holds the graph mutably is the only one who can
/// change it, so a reader always finds the values of the last finished
/// `emit`, and to share a graph between threads is to put it behind a lock.
pub struct Graph<A, L> {
    clock: ChangeClock,
    store: Store<A>,
    listeners: Vec<L>,
}

impl<A, L: Listener<A>> Graph<A, L> {
    /// The number of changes made so far: the identifier of the next one.
    pub closed spec fn ticks(&self) -> nat {
        self.clock@
    }

    /// The source cells.
    pub closed spec fn cells(&self) -> Store<A> {
        self.store
    }

    /// The listeners, indexed by `ListenerId`.
    pub closed spec fn listeners(&self) -> Seq<L> {
        self.listeners@
    }

    /// The current value of every source.
    pub open spec fn values(&self) -> Seq<A> {
        self.cells().values()
    }

    /// The listeners registered on every source, in registration order.
    pub open spec fn subscribers(&self) -> Seq<Seq<ListenerId>> {
        self.cells().subscribers()
    }

    /// Whether the clock can still number a change.
    pub open spec fn can_tick(&self) -> bool {
        self.ticks() < ChangeId::MAX
    }

    /// The invariant of a graph: every registration names a listener of
    /// the graph, and no listener has seen a change that is yet to come.
    pub open spec fn wf(&self) -> bool {
        &&& forall|source: int, at: int|
            0 <= source < self.subscribers().len() && 0 <= at < self.subscribers()[source].len()
                ==> #[trigger] self.subscribers()[source][at] < self.listeners().len()
        &&& forall|k: int|
            0 <= k < self.listeners().len() ==> ((#[trigger] self.listeners()[k]).seen() matches Some(
                id,
            ) ==> id < self.ticks())
    }

    /// The clock of a graph stays within the range of `ChangeId`.
    pub proof fn lemma_ticks_bounded(&self)
        ensures
            self.ticks() <= ChangeId::MAX,
    {
        self.clock.lemma_bounded();
    }

    /// Whether `other` has the same sources, values and registrations.
    pub open spec fn same_cells(&self, other: &Self) -> bool {
        &&& self.values() == other.values()
        &&& self.subscribers() == other.subscribers()
    }

    /// An empty graph whose clock starts at zero.
    pub fn new() -> (graph: Self)
        ensures
            graph.wf(),
            graph.ticks() == 0,
            graph.values().len() == 0,
            graph.listeners().len() == 0,
    {
        Graph { clock: ChangeClock::new(), store: Store::new(), listeners: Vec::new() }
    }

    /// An empty graph that goes on counting where `clock` stands.
    pub fn with_clock(clock: ChangeClock) -> (graph: Self)
        ensures
            graph.wf(),
            graph.ticks() == clock@,
            graph.values().len() == 0,
            graph.listeners().len() == 0,
    {
        Graph { clock, store: Store::new(), listeners: Vec::new() }
    }

    /// The clock.
    pub fn clock(&self) -> (clock: &ChangeClock)
        ensures
            clock@ == self.ticks(),
    {
        &self.clock
    }

    /// The source cells, for reading.
    pub fn store(&self) -> (store: &Store<A>)
        ensures
            *store == self.cells(),
    {
        &self.store
    }

    /// The number of listeners.
    pub fn listener_count(&self) -> (n: usize)
        ensures
            n == self.listeners().len(),
    {
        self.listeners.len()
    }

    /// The listener `id`.
    pub fn listener(&self, id: ListenerId) -> (listener: &L)
        requires
            id < self.listeners().len(),
        ensures
            *listener == self.listeners()[id as int],
    {
        &self.listeners[id]
    }

    /// Adds `listener` to the graph and registers it on its sources. It is
    /// told of every later change of one of them, as long as the graph
    /// lives: nothing removes a registration.
    pub fn register(&mut self, listener: L) -> (id: ListenerId)
        requires
            old(self).wf(),
            in_range(listener.sources(), old(self).values().len()),
            listener.seen() matches Some(seen) ==> seen < old(self).ticks(),
        ensures
            final(self).wf(),
            id == old(self).listeners().len(),
            final(self).listeners() == old(self).listeners().push(listener),
            final(self).subscribers() == subscribed(
                old(self).subscribers(),
                listener.sources(),
                id,
            ),
            final(self).values() == old(self).values(),
            final(self).ticks() == old(self).ticks(),
    {
        let id = self.listeners.len();
        listener.subscribe(&mut self.store, id);
        self.listeners.push(listener);
        proof {
            lemma_subscribed_within(
                old(self).subscribers(),
                listener.sources(),
                id,
                self.listeners().len(),
            );
        }
        id
    }

    /// Registers the listener `id` on every source that feeds `signal`,
    /// once for each path, in addition to the registrations it has. A
    /// listener that is registered twice on a source is notified twice of
    /// each change of that source.
    pub fn subscribe<S: Signal<A>>(&mut self, signal: &S, id: ListenerId)
        requires
            old(self).wf(),
            id < old(self).listeners().len(),
            in_range(signal.sources(), old(self).values().len()),
        ensures
            final(self).wf(),
            final(self).subscribers() == subscribed(old(self).subscribers(), signal.sources(), id),
            final(self).listeners() == old(self).listeners(),
            final(self).values() == old(self).values(),
            final(self).ticks() == old(self).ticks(),
    {
        assert(self.values().len() == self.cells()@.len());
        signal.register_listener(&mut self.store, id);
        proof {
            lemma_subscribed_within(
                old(self).subscribers(),
                signal.sources(),
                id,
                self.listeners().len(),
            );
        }
    }

    /// Adds a source that holds `value`.
    pub(crate) fn push_source(&mut self, value: A) -> (id: SourceId)
        requires
            old(self).wf(),
        ensures
            final(self).wf(),
            id == old(self).values().len(),
            final(self).values() == old(self).values().push(value),
            final(self).subscribers() == old(self).subscribers().push(Seq::empty()),
            final(self).listeners() == old(self).listeners(),
            final(self).ticks() == old(self).ticks(),
    {
        let id = self.store.insert(value);
        assert(self.listeners() == old(self).listeners());
        assert(self.subscribers() == old(self).subscribers().push(Seq::empty()));
        id
    }

    /// Takes the next change identifier from the clock.
    pub(crate) fn tick(&mut self) -> (id: ChangeId)
        requires
            old(self).wf(),
            old(self).can_tick(),
        ensures
            final(self).wf(),
            id == old(self).ticks(),
            final(self).ticks() == old(self).ticks() + 1,
            final(self).same_cells(old(self)),
            final(self).listeners() == old(self).listeners(),
    {
        let id = self.clock.next();
        assert(self.listeners() == old(self).listeners());
        assert(self.subscribers() == old(self).subscribers());
        id
    }

    /// Replaces the value of `source`.
    pub(crate) fn write(&mut self, source: SourceId, value: A)
        requires
            old(self).wf(),
            source < old(self).values().len(),
        ensures
            final(self).wf(),
            final(self).values() == old(self).values().update(source as int, value),
            final(self).subscribers() == old(self).subscribers(),
            final(self).listeners() == old(self).listeners(),
            final(self).ticks() == old(self).ticks(),
    {
        self.store.write(source, value);
        assert(self.listeners() == old(self).listeners());
        assert(self.subscribers() == old(self).subscribers());
    }

    /// Notifies the listener `target` of change `id`.
    pub(crate) fn notify(&mut self, target: ListenerId, id: ChangeId)
        requires
            old(self).wf(),
            target < old(self).listeners().len(),
            old(self).listeners()[target as int].ready(old(self).values()),
            id < old(self).ticks(),
        ensures
            final(self).wf(),
            notified_at(
                old(self).listeners(),
                target,
                id,
                old(self).values(),
                final(self).listeners(),
            ),
            final(self).listeners()[target as int].ready(old(self).values()),
            final(self).same_cells(old(self)),
            final(self).ticks() == old(self).ticks(),
    {
        self.listeners[target].notify(id, &self.store);
        assert(self.subscribers() == old(self).subscribers());
        assert(self.listeners().len() == old(self).listeners().len());
    }
}

impl<A, B, S: Signal<A, Item = B>, R, F: Fn(&B) -> R> Graph<A, Sink<S, F, R>> {
    /// Hands out what the sink `id` has recorded and starts its record
    /// afresh. Nothing else in the graph changes.
    pub fn take_results(&mut self, id: ListenerId) -> (taken: Vec<R>)
        requires
            old(self).wf(),
            id < old(self).listeners().len(),
        ensures
            final(self).wf(),
            taken@ == old(self).listeners()[id as int].outputs(),
            final(self).listeners().len() == old(self).listeners().len(),
            final(self).listeners()[id as int].outputs() == Seq::<R>::empty(),
            final(self).listeners()[id as int].signal() == old(self).listeners()[id as int].signal(),
            final(self).listeners()[id as int].callback()
                == old(self).listeners()[id as int].callback(),
            final(self).listeners()[id as int].last_seen()
                == old(self).listeners()[id as int].last_seen(),
            forall|other: int|
                0 <= other < old(self).listeners().len() && other != id ==> final(self).listeners()[other]
                    == old(self).listeners()[other],
            final(self).same_cells(old(self)),
            final(self).ticks() == old(self).ticks(),
    {
        let taken = self.listeners[id].take_results();
        assert(self.subscribers() == old(self).subscribers());
        taken
    }
}

/// Registrations of a listener below `count` keep every list below
/// `count`.
pub proof fn lemma_subscribed_within(
    subscribers: Seq<Seq<ListenerId>>,
    sources: Seq<SourceId>,
    listener: ListenerId,
    count: nat,
)
    requires
        listener < count,
        forall|source: int, at: int|
            0 <= source < subscribers.len() && 0 <= at < subscribers[source].len()
                ==> #[trigger] subscribers[source][at] < count,
    ensures
        forall|source: int, at: int|
            0 <= source < subscribed(subscribers, sources, listener).len() && 0 <= at < subscribed(
                subscribers,
                sources,
                listener,
            )[source].len() ==> #[trigger] subscribed(subscribers, sources, listener)[source][at]
                < count,
    decreases sources.len(),
{
    if sources.len() > 0 {
        lemma_subscribed_within(subscribers, sources.drop_last(), listener, count);
        lemma_subscribed_len(subscribers, sources.drop_last(), listener);
    }
}

} // verus!
