//! Sinks: the consumers at the end of a graph. A sink evaluates its signal
//! once when it is set up and once more for every change it is told of,
//! however many paths the change takes to reach it.

use vstd::prelude::*;
use crate::clock::ChangeId;
use crate::graph::Graph;
use crate::listener::Listener;
use crate::signal::{in_range, subscribed, Signal};
use crate::store::{ListenerId, SourceId, Store};

verus! {

/// Whether `callback` can be run on `signal` while the sources hold
/// `values`: the signal can be evaluated, and the callback accepts every
/// value it may have.
pub open spec fn observable<A, B, S: Signal<A, Item = B>, R, F: Fn(&B) -> R>(
    signal: S,
    callback: F,
    values: Seq<A>,
) -> bool {
    &&& in_range(signal.sources(), values.len())
    &&& signal.readable(values)
    &&& forall|value: B|
        #![trigger signal.yields(values, value)]
        #![trigger callback.requires((&value,))]
        signal.yields(values, value) ==> callback.requires((&value,))
}

/// Whether `out` is what `callback` can return for a value that `signal`
/// has while the sources hold `values`.
pub open spec fn observes<A, B, S: Signal<A, Item = B>, R, F: Fn(&B) -> R>(
    signal: S,
    callback: F,
    values: Seq<A>,
    out: R,
) -> bool {
    exists|value: B|
        #![trigger signal.yields(values, value)]
        #![trigger callback.ensures((&value,), out)]
        signal.yields(values, value) && callback.ensures((&value,), out)
}

/// A running observation of `signal` by `callback`.
///
/// The sink keeps what the callback returned, one entry for each run, and
/// the identifier of the change that caused the last run.
pub struct Sink<S, F, R> {
    signal: S,
    callback: F,
    last_seen: Option<ChangeId>,
    outputs: Vec<R>,
}

impl<S, F, R> Sink<S, F, R> {
    /// The signal observed.
    pub closed spec fn signal(&self) -> S {
        self.signal
    }

    /// The callback that is run on the signal's value.
    pub closed spec fn callback(&self) -> F {
        self.callback
    }

    /// The change that caused the last run; none before the first change.
    pub closed spec fn last_seen(&self) -> Option<ChangeId> {
        self.last_seen
    }

    /// What the callback returned, oldest run first.
    pub closed spec fn outputs(&self) -> Seq<R> {
        self.outputs@
    }

    /// The change that caused the last run, if there was one.
    pub fn last_change(&self) -> (id: Option<ChangeId>)
        ensures
            id == self.last_seen(),
    {
        self.last_seen
    }

    /// What the callback returned, oldest run first.
    pub fn results(&self) -> (outputs: &Vec<R>)
        ensures
            outputs@ == self.outputs(),
    {
        &self.outputs
    }

    /// Hands out what the callback returned so far and starts the record
    /// afresh. What the sink observes and what it has seen stay as they
    /// are.
    pub fn take_results(&mut self) -> (taken: Vec<R>)
        ensures
            taken@ == old(self).outputs(),
            final(self).outputs() == Seq::<R>::empty(),
            final(self).signal() == old(self).signal(),
            final(self).callback() == old(self).callback(),
            final(self).last_seen() == old(self).last_seen(),
    {
        let mut taken = Vec::new();
        std::mem::swap(&mut self.outputs, &mut taken);
        taken
    }
}

impl<S, F, R> Sink<S, F, R> {
    /// Sets up the observation and runs `callback` once, on the value that
    /// `signal` has in `store`.
    pub fn new<A, B>(signal: S, callback: F, store: &Store<A>) -> (sink: Self) where
        S: Signal<A, Item = B>,
        F: Fn(&B) -> R,

        requires
            observable(signal, callback, store.values()),
        ensures
            sink.signal() == signal,
            sink.callback() == callback,
            sink.last_seen().is_none(),
            sink.outputs().len() == 1,
            observes(signal, callback, store.values(), sink.outputs()[0]),
    {
        assert(store.values().len() == store@.len());
        let first = signal.with_value(store, &callback);
        let mut outputs = Vec::new();
        outputs.push(first);
        Sink { signal, callback, last_seen: None, outputs }
    }


    /// What a sink is as a listener, spelled out: it is registered on the
    /// sources of its signal, it keeps track of the change that caused its
    /// last run, and it can be notified exactly when its callback can be
    /// run on its signal.
    pub proof fn lemma_listener<A, B>(&self, values: Seq<A>) where
        S: Signal<A, Item = B>,
        F: Fn(&B) -> R,

        ensures
            self.sources() == self.signal().sources(),
            self.seen() == self.last_seen(),
            self.ready(values) == observable(self.signal(), self.callback(), values),
    {
    }
}

impl<A, B, S: Signal<A, Item = B>, R, F: Fn(&B) -> R> Listener<A> for Sink<S, F, R> {
    open spec fn sources(&self) -> Seq<SourceId> {
        self.signal().sources()
    }

    open spec fn seen(&self) -> Option<ChangeId> {
        self.last_seen()
    }

    open spec fn ready(&self, values: Seq<A>) -> bool {
        observable(self.signal(), self.callback(), values)
    }

    /// A sink that is told of the change it saw last does nothing. Told of
    /// any other, it remembers that change and runs once more.
    open spec fn notified(&self, id: ChangeId, values: Seq<A>, after: Self) -> bool {
        &&& after.signal() == self.signal()
        &&& after.callback() == self.callback()
        &&& if self.last_seen() == Some(id) {
            &&& after.last_seen() == self.last_seen()
            &&& after.outputs() == self.outputs()
        } else {
            &&& after.last_seen() == Some(id)
            &&& after.outputs().len() == self.outputs().len() + 1
            &&& after.outputs().drop_last() == self.outputs()
            &&& observes(self.signal(), self.callback(), values, after.outputs().last())
        }
    }

    fn subscribe(&self, store: &mut Store<A>, id: ListenerId) {
        self.signal.register_listener(store, id);
    }

    fn notify(&mut self, id: ChangeId, store: &Store<A>) {
        let changed = match self.last_seen {
            None => true,
            Some(seen) => seen != id,
        };
        if changed {
            assert(store.values().len() == store@.len());
            self.last_seen = Some(id);
            let out = self.signal.with_value(store, &self.callback);
            self.outputs.push(out);
            assert(self.outputs@.drop_last() =~= old(self).outputs@);
        }
    }
}

/// Whether `after` is the graph `before` once `callback` has been set to
/// observe `signal` as listener `id`: a new sink stands at the end of the
/// listeners, it has run exactly once, on the value that the signal had in
/// `before`, and it is registered on the signal's sources.
pub open spec fn observing<A, B, S: Signal<A, Item = B>, R, F: Fn(&B) -> R>(
    before: Graph<A, Sink<S, F, R>>,
    signal: S,
    callback: F,
    id: ListenerId,
    after: Graph<A, Sink<S, F, R>>,
) -> bool {
    &&& id == before.listeners().len()
    &&& after.listeners().len() == before.listeners().len() + 1
    &&& after.listeners().drop_last() == before.listeners()
    &&& after.listeners()[id as int].signal() == signal
    &&& after.listeners()[id as int].callback() == callback
    &&& after.listeners()[id as int].last_seen().is_none()
    &&& after.listeners()[id as int].outputs().len() == 1
    &&& observes(signal, callback, before.values(), after.listeners()[id as int].outputs()[0])
    &&& after.subscribers() == subscribed(before.subscribers(), signal.sources(), id)
    &&& after.values() == before.values()
    &&& after.ticks() == before.ticks()
}

/// Starts observing `signal`: runs `f` once on the signal's current value,
/// before anything is registered, and then once for every later change of
/// a source that feeds the signal. A change that reaches the sink along
/// several paths still causes one run. Returns the name of the new sink.
pub fn for_each<A, B, S: Signal<A, Item = B>, R, F: Fn(&B) -> R>(
    graph: &mut Graph<A, Sink<S, F, R>>,
    signal: S,
    f: F,
) -> (id: ListenerId)
    requires
        old(graph).wf(),
        observable(signal, f, old(graph).values()),
    ensures
        final(graph).wf(),
        observing(*old(graph), signal, f, id, *final(graph)),
{
    let sink = Sink::new(signal, f, graph.store());
    let id = graph.register(sink);
    assert(graph.listeners().drop_last() =~= old(graph).listeners());
    id
}

} // verus!
