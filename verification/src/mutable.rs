//! Source nodes: the leaves of a graph, and the only nodes that originate a
//! change.

use vstd::prelude::*;
use std::marker::PhantomData;
use crate::clock::ChangeId;
use crate::graph::Graph;
use crate::listener::{delivered, notified_at, Listener};
use crate::signal::{lemma_subscribed_one, Signal};
use crate::store::{ListenerId, SourceId, Store};

verus! {

/// A handle to one source of a graph.
///
/// The handle names the source; the value lives in the graph. A clone of
/// the handle names the same source, so the value is shared, not copied.
pub struct Mutable<A> {
    id: SourceId,
    marker: PhantomData<A>,
}

/// Whether `after` is the graph `before` once `source` has emitted
/// `value`: the clock has ticked once, the source holds `value`, no
/// registration has changed, and the change has been delivered, under the
/// identifier that the clock showed before, to the listeners of `source` in
/// registration order, each of which found the new value in place.
pub open spec fn emitted<A, L: Listener<A>>(
    before: Graph<A, L>,
    source: SourceId,
    value: A,
    after: Graph<A, L>,
) -> bool {
    &&& after.ticks() == before.ticks() + 1
    &&& after.values() == before.values().update(source as int, value)
    &&& after.subscribers() == before.subscribers()
    &&& delivered(
        before.listeners(),
        before.subscribers()[source as int],
        before.ticks() as ChangeId,
        after.values(),
        after.listeners(),
    )
}

impl<A> Mutable<A> {
    /// The source that the handle names.
    pub closed spec fn source(&self) -> SourceId {
        self.id
    }

    /// Adds a source that holds `value` to `graph`. No listener is
    /// registered on it yet.
    pub fn new<L: Listener<A>>(graph: &mut Graph<A, L>, value: A) -> (handle: Self)
        requires
            old(graph).wf(),
        ensures
            final(graph).wf(),
            handle.source() == old(graph).values().len(),
            final(graph).values() == old(graph).values().push(value),
            final(graph).subscribers() == old(graph).subscribers().push(Seq::empty()),
            final(graph).listeners() == old(graph).listeners(),
            final(graph).ticks() == old(graph).ticks(),
    {
        let id = graph.push_source(value);
        Mutable { id, marker: PhantomData }
    }

    /// Whether `emit` can run on `graph` with `value`: the handle names a
    /// source of the graph, the clock has an identifier left, and every
    /// listener of the source can be notified once the source holds
    /// `value`.
    pub open spec fn can_emit<L: Listener<A>>(&self, graph: &Graph<A, L>, value: A) -> bool {
        &&& self.source() < graph.values().len()
        &&& graph.can_tick()
        &&& forall|at: int|
            0 <= at < graph.subscribers()[self.source() as int].len() ==> (
            #[trigger] graph.listeners()[graph.subscribers()[self.source() as int][at] as int]).ready(
                graph.values().update(self.source() as int, value),
            )
    }

    /// Changes the value of the source to `value` and tells its listeners.
    ///
    /// The change gets a fresh identifier, the value is written, and then
    /// every listener registered on the source is notified with that
    /// identifier, in registration order. The value itself is not passed
    /// on. The call returns when the last listener has returned.
    pub fn emit<L: Listener<A>>(&self, graph: &mut Graph<A, L>, value: A)
        requires
            old(graph).wf(),
            self.can_emit(old(graph), value),
        ensures
            final(graph).wf(),
            emitted(*old(graph), self.source(), value, *final(graph)),
    {
        let ghost before = *graph;
        let ghost targets = graph.subscribers()[self.id as int];
        let id = graph.tick();
        graph.write(self.id, value);
        let ghost values = graph.values();
        assert(graph.values().len() == graph.cells()@.len());
        let count = graph.store().listener_count(self.id);
        let mut at: usize = 0;
        assert(targets.take(0) =~= Seq::<ListenerId>::empty());
        while at < count
            invariant
                graph.wf(),
                at <= count == targets.len(),
                self.id < graph.values().len(),
                targets == graph.subscribers()[self.id as int],
                graph.subscribers() == before.subscribers(),
                graph.values() == values,
                graph.ticks() == before.ticks() + 1,
                id == before.ticks(),
                forall|k: int|
                    0 <= k < targets.len() ==> (#[trigger] graph.listeners()[targets[k] as int]).ready(
                        values,
                    ),
                delivered(before.listeners(), targets.take(at as int), id, values, graph.listeners()),
            decreases count - at,
        {
            let ghost between = graph.listeners();
            assert(graph.values().len() == graph.cells()@.len());
            let target = graph.store().listener_at(self.id, at);
            assert(target == targets[at as int]);
            graph.notify(target, id);
            proof {
                let done = targets.take(at as int + 1);
                assert(done.drop_last() =~= targets.take(at as int));
                assert(done.last() == target);
                assert(notified_at(between, done.last(), id, values, graph.listeners()));
                assert forall|k: int| 0 <= k < targets.len() implies (
                #[trigger] graph.listeners()[targets[k] as int]).ready(values) by {
                    if targets[k] != target {
                        assert(graph.listeners()[targets[k] as int] == between[targets[k] as int]);
                    }
                }
            }
            at = at + 1;
        }
        assert(targets.take(at as int) =~= targets);
    }

    /// The index of the source that the handle names.
    pub fn id(&self) -> (id: SourceId)
        ensures
            id == self.source(),
    {
        self.id
    }
}

impl<A> Clone for Mutable<A> {
    /// Another handle to the same source.
    fn clone(&self) -> (handle: Self)
        ensures
            handle == *self,
    {
        Mutable { id: self.id, marker: PhantomData }
    }
}

impl<A> Signal<A> for Mutable<A> {
    type Item = A;

    open spec fn sources(&self) -> Seq<SourceId> {
        seq![self.source()]
    }

    open spec fn readable(&self, values: Seq<A>) -> bool {
        true
    }

    open spec fn yields(&self, values: Seq<A>, value: A) -> bool {
        value == values[self.source() as int]
    }

    fn with_value<R, G: FnOnce(&A) -> R>(&self, store: &Store<A>, f: G) -> (out: R) {
        assert(self.sources()[0] == self.source());
        let value = store.value(self.id);
        assert(self.yields(store.values(), *value));
        f(value)
    }

    fn register_listener(&self, store: &mut Store<A>, listener: ListenerId) {
        assert(self.sources()[0] == self.source());
        proof {
            lemma_subscribed_one(store.subscribers(), self.id, listener);
        }
        store.subscribe(self.id, listener);
    }
}

} // verus!
