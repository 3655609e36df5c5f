//! What holds of every graph: the laws that relate `for_each`, `emit` and
//! the clock.

use vstd::prelude::*;
use crate::callback::Callback;
use crate::clock::ChangeId;
use crate::combinators::{Map1, Map2};
use crate::graph::Graph;
use crate::listener::{delivered, notified_at, Listener};
use crate::mutable::{emitted, Mutable};
use crate::signal::{subscribed, Signal};
use crate::sink::{observes, observing, Sink};
use crate::store::{ListenerId, SourceId};

verus! {

/// Whether the sink `after` is the sink `before` after exactly one more
/// run, caused by change `id`, on a value that its signal has while the
/// sources hold `values`.
pub open spec fn ran_once<A, B, S: Signal<A, Item = B>, R, F: Fn(&B) -> R>(
    before: Sink<S, F, R>,
    id: ChangeId,
    values: Seq<A>,
    after: Sink<S, F, R>,
) -> bool {
    &&& after.signal() == before.signal()
    &&& after.callback() == before.callback()
    &&& after.last_seen() == Some(id)
    &&& after.outputs().len() == before.outputs().len() + 1
    &&& after.outputs().drop_last() == before.outputs()
    &&& observes(before.signal(), before.callback(), values, after.outputs().last())
}

/// However often a delivery of change `id` reaches a sink that has not
/// seen `id` before, the sink runs once; a sink that the delivery does not
/// reach stays as it is.
pub proof fn lemma_delivery_runs_sink_once<A, B, S: Signal<A, Item = B>, R, F: Fn(&B) -> R>(
    before: Seq<Sink<S, F, R>>,
    targets: Seq<ListenerId>,
    id: ChangeId,
    values: Seq<A>,
    after: Seq<Sink<S, F, R>>,
    sink: ListenerId,
)
    requires
        delivered(before, targets, id, values, after),
        sink < before.len(),
        before[sink as int].last_seen() != Some(id),
    ensures
        after.len() == before.len(),
        targets.contains(sink) ==> ran_once(before[sink as int], id, values, after[sink as int]),
        !targets.contains(sink) ==> after[sink as int] == before[sink as int],
    decreases targets.len(),
{
    if targets.len() > 0 {
        let between = choose|between: Seq<Sink<S, F, R>>|
            delivered(before, targets.drop_last(), id, values, between) && #[trigger] notified_at(
                between,
                targets.last(),
                id,
                values,
                after,
            );
        lemma_delivery_runs_sink_once(before, targets.drop_last(), id, values, between, sink);
        let earlier = targets.drop_last();
        assert(targets =~= earlier.push(targets.last()));
        if earlier.contains(sink) {
            let at = choose|at: int| 0 <= at < earlier.len() && earlier[at] == sink;
            assert(targets[at] == sink);
        }
        if targets.last() == sink {
            assert(targets[targets.len() - 1] == sink);
        }
        if targets.contains(sink) && targets.last() != sink {
            let at = choose|at: int| 0 <= at < targets.len() && targets[at] == sink;
            assert(earlier[at] == sink);
        }
    }
}

/// One `emit`, one run. After a source has emitted, every sink that is
/// registered on it, once or several times, has run exactly once more, on
/// the values after the change; every other sink is as it was.
pub proof fn lemma_emit_runs_each_sink_once<A, B, S: Signal<A, Item = B>, R, F: Fn(&B) -> R>(
    before: Graph<A, Sink<S, F, R>>,
    source: SourceId,
    value: A,
    after: Graph<A, Sink<S, F, R>>,
    sink: ListenerId,
)
    requires
        before.wf(),
        source < before.values().len(),
        emitted(before, source, value, after),
        sink < before.listeners().len(),
    ensures
        after.listeners().len() == before.listeners().len(),
        before.subscribers()[source as int].contains(sink) ==> ran_once(
            before.listeners()[sink as int],
            before.ticks() as ChangeId,
            after.values(),
            after.listeners()[sink as int],
        ),
        !before.subscribers()[source as int].contains(sink) ==> after.listeners()[sink as int]
            == before.listeners()[sink as int],
{
    before.lemma_ticks_bounded();
    lemma_delivery_runs_sink_once(
        before.listeners(),
        before.subscribers()[source as int],
        before.ticks() as ChangeId,
        after.values(),
        after.listeners(),
        sink,
    );
}

/// A source with one sink that observes it directly: each `emit` makes the
/// sink's callback run exactly once more, and on the value emitted.
pub proof fn lemma_direct_sink_sees_emitted_value<A, R, F: Fn(&A) -> R>(
    before: Graph<A, Sink<Mutable<A>, F, R>>,
    source: Mutable<A>,
    value: A,
    after: Graph<A, Sink<Mutable<A>, F, R>>,
    sink: ListenerId,
)
    requires
        before.wf(),
        source.source() < before.values().len(),
        emitted(before, source.source(), value, after),
        before.subscribers()[source.source() as int] == seq![sink],
        before.listeners()[sink as int].signal() == source,
    ensures
        after.listeners()[sink as int].outputs().len() == before.listeners()[sink as int].outputs().len()
            + 1,
        after.listeners()[sink as int].outputs().drop_last()
            == before.listeners()[sink as int].outputs(),
        before.listeners()[sink as int].callback().ensures(
            (&value,),
            after.listeners()[sink as int].outputs().last(),
        ),
{
    let targets = before.subscribers()[source.source() as int];
    assert(targets[0] == sink);
    lemma_emit_runs_each_sink_once(before, source.source(), value, after, sink);
}

/// Change identifiers grow: a change that is made after another one, on
/// the same source or not, is delivered under a greater identifier. No
/// operation sets the clock of a graph back, so `second_before` stands for
/// any state that the graph reaches after the first change.
pub proof fn lemma_change_ids_increase<A, L: Listener<A>>(
    first_before: Graph<A, L>,
    first_source: SourceId,
    first_value: A,
    first_after: Graph<A, L>,
    second_before: Graph<A, L>,
    second_source: SourceId,
    second_value: A,
    second_after: Graph<A, L>,
)
    requires
        emitted(first_before, first_source, first_value, first_after),
        first_after.ticks() <= second_before.ticks(),
        emitted(second_before, second_source, second_value, second_after),
    ensures
        first_before.ticks() < second_before.ticks(),
        second_before.ticks() < second_after.ticks(),
{
}

/// What a sink has seen never goes back: after an `emit`, each sink has
/// either seen what it had seen before or the change just made, which is
/// later than all it had seen.
pub proof fn lemma_sinks_see_later_changes<A, B, S: Signal<A, Item = B>, R, F: Fn(&B) -> R>(
    before: Graph<A, Sink<S, F, R>>,
    source: SourceId,
    value: A,
    after: Graph<A, Sink<S, F, R>>,
    sink: ListenerId,
)
    requires
        before.wf(),
        source < before.values().len(),
        emitted(before, source, value, after),
        sink < before.listeners().len(),
    ensures
        after.listeners()[sink as int].last_seen() == before.listeners()[sink as int].last_seen()
            || after.listeners()[sink as int].last_seen() == Some(before.ticks() as ChangeId),
        before.listeners()[sink as int].last_seen() matches Some(earlier) ==> (
        after.listeners()[sink as int].last_seen() matches Some(later) && earlier <= later),
{
    before.lemma_ticks_bounded();
    lemma_emit_runs_each_sink_once(before, source, value, after, sink);
}

/// Registering a listener removes nothing: the list of every source keeps
/// its entries, in their places.
pub proof fn lemma_subscribed_keeps_registrations(
    subscribers: Seq<Seq<ListenerId>>,
    sources: Seq<SourceId>,
    listener: ListenerId,
    source: SourceId,
)
    requires
        source < subscribers.len(),
    ensures
        subscribed(subscribers, sources, listener).len() == subscribers.len(),
        subscribers[source as int].is_prefix_of(
            subscribed(subscribers, sources, listener)[source as int],
        ),
    decreases sources.len(),
{
    if sources.len() > 0 {
        lemma_subscribed_keeps_registrations(subscribers, sources.drop_last(), listener, source);
    }
}

/// A registration lasts. A sink that is registered on a source runs at
/// each of two successive changes of that source, and the source's
/// listeners are the same after both.
pub proof fn lemma_registration_outlives_emit<A, B, S: Signal<A, Item = B>, R, F: Fn(&B) -> R>(
    before: Graph<A, Sink<S, F, R>>,
    source: SourceId,
    first_value: A,
    between: Graph<A, Sink<S, F, R>>,
    second_value: A,
    after: Graph<A, Sink<S, F, R>>,
    sink: ListenerId,
)
    requires
        before.wf(),
        between.wf(),
        source < before.values().len(),
        emitted(before, source, first_value, between),
        emitted(between, source, second_value, after),
        sink < before.listeners().len(),
        before.subscribers()[source as int].contains(sink),
    ensures
        after.subscribers() == before.subscribers(),
        ran_once(
            before.listeners()[sink as int],
            before.ticks() as ChangeId,
            between.values(),
            between.listeners()[sink as int],
        ),
        ran_once(
            between.listeners()[sink as int],
            between.ticks() as ChangeId,
            after.values(),
            after.listeners()[sink as int],
        ),
        after.listeners()[sink as int].outputs().len() == before.listeners()[sink as int].outputs().len()
            + 2,
{
    lemma_emit_runs_each_sink_once(before, source, first_value, between, sink);
    lemma_emit_runs_each_sink_once(between, source, second_value, after, sink);
}

/// A source holds what it emitted last. After an `emit`, every handle to
/// the source yields the emitted value and nothing else, and every other
/// source holds what it held before.
pub proof fn lemma_source_holds_emitted_value<A, L: Listener<A>>(
    before: Graph<A, L>,
    source: Mutable<A>,
    value: A,
    after: Graph<A, L>,
    other: Mutable<A>,
)
    requires
        source.source() < before.values().len(),
        other.source() < before.values().len(),
        emitted(before, source.source(), value, after),
    ensures
        after.values().len() == before.values().len(),
        forall|found: A| #[trigger] source.yields(after.values(), found) <==> found == value,
        other.source() != source.source() ==> forall|found: A| #[trigger]
            other.yields(after.values(), found) <==> other.yields(before.values(), found),
{
}

/// Pull, not push. The listeners of a source are notified when the source
/// already holds the emitted value, so whatever a listener pulls is the
/// value of that change, never an older one.
pub proof fn lemma_listeners_find_emitted_value<A, L: Listener<A>>(
    before: Graph<A, L>,
    source: SourceId,
    value: A,
    after: Graph<A, L>,
)
    requires
        source < before.values().len(),
        emitted(before, source, value, after),
    ensures
        after.values()[source as int] == value,
        delivered(
            before.listeners(),
            before.subscribers()[source as int],
            before.ticks() as ChangeId,
            before.values().update(source as int, value),
            after.listeners(),
        ),
{
}

/// Setting up a sink runs its callback exactly once, on the value that the
/// signal has at that moment, whether or not a change ever follows.
pub proof fn lemma_for_each_runs_once<A, B, S: Signal<A, Item = B>, R, F: Fn(&B) -> R>(
    before: Graph<A, Sink<S, F, R>>,
    signal: S,
    callback: F,
    id: ListenerId,
    after: Graph<A, Sink<S, F, R>>,
)
    requires
        observing(before, signal, callback, id, after),
    ensures
        after.listeners()[id as int].outputs().len() == 1,
        exists|value: B|
            #![trigger signal.yields(before.values(), value)]
            signal.yields(before.values(), value) && callback.ensures(
                (&value,),
                after.listeners()[id as int].outputs()[0],
            ),
{
}

/// How often `listener` occurs in `targets`.
pub open spec fn occurrences(targets: Seq<ListenerId>, listener: ListenerId) -> nat
    decreases targets.len(),
{
    if targets.len() == 0 {
        0
    } else if targets.last() == listener {
        occurrences(targets.drop_last(), listener) + 1
    } else {
        occurrences(targets.drop_last(), listener)
    }
}

/// Whether the callback `after` is the callback `before` after `runs` more
/// runs, each on the identifier `id`.
pub open spec fn ran_times<R, F: Fn(ChangeId) -> R>(
    before: Callback<F, R>,
    id: ChangeId,
    runs: nat,
    after: Callback<F, R>,
) -> bool {
    &&& after.callback() == before.callback()
    &&& after.outputs().len() == before.outputs().len() + runs
    &&& after.outputs().take(before.outputs().len() as int) == before.outputs()
    &&& forall|at: int|
        before.outputs().len() <= at < after.outputs().len() ==> before.callback().ensures(
            (id,),
            #[trigger] after.outputs()[at],
        )
}

/// Registrations are not merged: a delivery makes a bare callback run once
/// for each time the delivery reaches it.
pub proof fn lemma_delivery_runs_callback_each_time<A, R, F: Fn(ChangeId) -> R>(
    before: Seq<Callback<F, R>>,
    targets: Seq<ListenerId>,
    id: ChangeId,
    values: Seq<A>,
    after: Seq<Callback<F, R>>,
    listener: ListenerId,
)
    requires
        delivered(before, targets, id, values, after),
        listener < before.len(),
    ensures
        after.len() == before.len(),
        ran_times(
            before[listener as int],
            id,
            occurrences(targets, listener),
            after[listener as int],
        ),
    decreases targets.len(),
{
    let start = before[listener as int];
    if targets.len() == 0 {
        assert(start.outputs().take(start.outputs().len() as int) =~= start.outputs());
    } else {
        let between = choose|between: Seq<Callback<F, R>>|
            delivered(before, targets.drop_last(), id, values, between) && #[trigger] notified_at(
                between,
                targets.last(),
                id,
                values,
                after,
            );
        lemma_delivery_runs_callback_each_time(
            before,
            targets.drop_last(),
            id,
            values,
            between,
            listener,
        );
        if targets.last() == listener {
            let middle = between[listener as int];
            let end = after[listener as int];
            assert(Listener::<A>::notified(&middle, id, values, end));
            assert(end.outputs().take(start.outputs().len() as int) =~= middle.outputs().take(
                start.outputs().len() as int,
            )) by {
                assert(end.outputs().drop_last() == middle.outputs());
            }
            assert forall|at: int|
                start.outputs().len() <= at < end.outputs().len() implies start.callback().ensures(
                (id,),
                #[trigger] end.outputs()[at],
            ) by {
                if at < middle.outputs().len() {
                    assert(end.outputs().drop_last()[at] == end.outputs()[at]);
                }
            }
        }
    }
}

/// One `emit` makes a bare callback run once for each of its registrations
/// on the source, with the identifier of the change.
pub proof fn lemma_emit_runs_callback_per_registration<A, R, F: Fn(ChangeId) -> R>(
    before: Graph<A, Callback<F, R>>,
    source: SourceId,
    value: A,
    after: Graph<A, Callback<F, R>>,
    listener: ListenerId,
)
    requires
        before.wf(),
        source < before.values().len(),
        emitted(before, source, value, after),
        listener < before.listeners().len(),
    ensures
        ran_times(
            before.listeners()[listener as int],
            before.ticks() as ChangeId,
            occurrences(before.subscribers()[source as int], listener),
            after.listeners()[listener as int],
        ),
{
    lemma_delivery_runs_callback_each_time(
        before.listeners(),
        before.subscribers()[source as int],
        before.ticks() as ChangeId,
        after.values(),
        after.listeners(),
        listener,
    );
}

/// Whether `signal` has at most one value while the sources hold
/// `values`.
pub open spec fn single_valued<A, B, S: Signal<A, Item = B>>(signal: S, values: Seq<A>) -> bool {
    forall|one: B, other: B|
        #![trigger signal.yields(values, one), signal.yields(values, other)]
        signal.yields(values, one) && signal.yields(values, other) ==> one == other
}

/// A source has one value: the one it holds.
pub proof fn lemma_source_single_valued<A>(source: Mutable<A>, values: Seq<A>)
    ensures
        single_valued(source, values),
{
}

/// A `Map1` keeps nothing of its own: over an upstream with one value and
/// a transform that returns one result for each input, it has one value,
/// so two reads without a change in between find the same.
pub proof fn lemma_map1_single_valued<A, I, S: Signal<A, Item = I>, B, F: Fn(&I) -> B>(
    map: Map1<S, F>,
    values: Seq<A>,
)
    requires
        single_valued(map.upstream(), values),
        forall|input: I, one: B, other: B|
            #![trigger map.transform().ensures((&input,), one), map.transform().ensures((&input,), other)]
            map.transform().ensures((&input,), one) && map.transform().ensures((&input,), other)
                ==> one == other,
    ensures
        single_valued(map, values),
{
}

/// A `Map2` keeps nothing of its own: over upstreams with one value each
/// and a transform that returns one result for each pair of inputs, it has
/// one value.
pub proof fn lemma_map2_single_valued<
    A,
    I1,
    I2,
    S1: Signal<A, Item = I1>,
    S2: Signal<A, Item = I2>,
    C,
    F: Fn(&I1, &I2) -> C,
>(join: Map2<S1, S2, F>, values: Seq<A>)
    requires
        single_valued(join.first(), values),
        single_valued(join.second(), values),
        forall|left: I1, right: I2, one: C, other: C|
            #![trigger join.transform().ensures((&left, &right), one), join.transform().ensures((&left, &right), other)]
            join.transform().ensures((&left, &right), one) && join.transform().ensures(
                (&left, &right),
                other,
            ) ==> one == other,
    ensures
        single_valued(join, values),
{
}

} // verus!
