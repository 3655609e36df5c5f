//! The diamond: one root, two branches derived from it, and a join of the
//! branches that a single sink observes.

use vstd::prelude::*;
use crate::combinators::{Map1, Map2};
use crate::graph::Graph;
use crate::laws::lemma_emit_runs_each_sink_once;
use crate::mutable::Mutable;
use crate::signal::{in_range, lemma_subscribed_concat, lemma_subscribed_one, subscribed, Signal};
use crate::sink::{for_each, observable};
use crate::store::ListenerId;

verus! {

/// The largest root value, in absolute terms, that the diamond is built
/// for.
pub const ROOT_BOUND: i64 = 1000;

/// The left branch: the root plus ten.
fn left_branch(root: &i64) -> (left: i64)
    requires
        -ROOT_BOUND <= *root <= ROOT_BOUND,
    ensures
        left == *root + 10,
{
    *root + 10
}

/// The right branch: the root plus two.
fn right_branch(root: &i64) -> (right: i64)
    requires
        -ROOT_BOUND <= *root <= ROOT_BOUND,
    ensures
        right == *root + 2,
{
    *root + 2
}

/// The join: the sum of the branches.
fn join_branches(left: &i64, right: &i64) -> (sum: i64)
    requires
        -2 * ROOT_BOUND <= *left <= 2 * ROOT_BOUND,
        -2 * ROOT_BOUND <= *right <= 2 * ROOT_BOUND,
    ensures
        sum == *left + *right,
{
    *left + *right
}

/// The observer: it hands the value on as it is.
fn relay(value: &i64) -> (out: i64)
    ensures
        out == *value,
{
    *value
}

/// Whether `join` is the diamond over the first source of a graph: both
/// branches read that source, the left adds ten, the right adds two, and
/// the join adds the branches.
pub open spec fn is_diamond<
    L: Fn(&i64) -> i64,
    R: Fn(&i64) -> i64,
    J: Fn(&i64, &i64) -> i64,
>(join: Map2<Map1<Mutable<i64>, L>, Map1<Mutable<i64>, R>, J>) -> bool {
    &&& join.first().upstream().source() == 0
    &&& join.second().upstream().source() == 0
    &&& forall|root: i64|
        -ROOT_BOUND <= root <= ROOT_BOUND ==> #[trigger] join.first().transform().requires(
            (&root,),
        )
    &&& forall|root: i64|
        -ROOT_BOUND <= root <= ROOT_BOUND ==> #[trigger] join.second().transform().requires(
            (&root,),
        )
    &&& forall|left: i64, right: i64|
        -2 * ROOT_BOUND <= left <= 2 * ROOT_BOUND && -2 * ROOT_BOUND <= right <= 2 * ROOT_BOUND
            ==> #[trigger] join.transform().requires((&left, &right))
    &&& forall|root: i64, left: i64| #[trigger]
        join.first().transform().ensures((&root,), left) ==> left == root + 10
    &&& forall|root: i64, right: i64| #[trigger]
        join.second().transform().ensures((&root,), right) ==> right == root + 2
    &&& forall|left: i64, right: i64, sum: i64| #[trigger]
        join.transform().ensures((&left, &right), sum) ==> sum == left + right
}

/// While the root is within bounds, the join of a diamond can be
/// evaluated, and its only value is twice the root plus twelve.
pub proof fn lemma_diamond_value<
    L: Fn(&i64) -> i64,
    R: Fn(&i64) -> i64,
    J: Fn(&i64, &i64) -> i64,
>(join: Map2<Map1<Mutable<i64>, L>, Map1<Mutable<i64>, R>, J>, values: Seq<i64>)
    requires
        is_diamond(join),
        values.len() == 1,
        -ROOT_BOUND <= values[0] <= ROOT_BOUND,
    ensures
        join.sources() == seq![0usize, 0usize],
        in_range(join.sources(), 1),
        join.readable(values),
        forall|value: i64| #[trigger] join.yields(values, value) ==> value == 2 * values[0] + 12,
{
    let left = join.first();
    let right = join.second();
    assert(join.sources() =~= seq![0usize, 0usize]);
    assert forall|input: i64| #[trigger] left.upstream().yields(values, input) implies input
        == values[0] by {}
    assert forall|input: i64| #[trigger] right.upstream().yields(values, input) implies input
        == values[0] by {}
    assert(left.readable(values));
    assert(right.readable(values));
    assert forall|a: i64| #[trigger] left.yields(values, a) implies a == values[0] + 10 by {}
    assert forall|b: i64| #[trigger] right.yields(values, b) implies b == values[0] + 2 by {}
    assert(join.readable(values));
}

/// Builds the diamond over a root that holds 6, observes the join, lets the
/// root emit 7 and returns what the observer was handed: 24 when it was set
/// up and 26 after the change. The change reaches the observer along both
/// branches and is acted on once.
pub fn diamond() -> (seen: Vec<i64>)
    ensures
        seen@ == seq![24i64, 26i64],
{
    let mut graph = Graph::new();
    let root = Mutable::new(&mut graph, 6i64);
    let left = Map1::new(root.clone(), left_branch);
    let right = Map1::new(root.clone(), right_branch);
    let join = Map2::new(left, right, join_branches);
    let ghost start = graph;
    proof {
        assert(graph.values() =~= seq![6i64]);
        assert(graph.subscribers() =~= seq![Seq::<ListenerId>::empty()]);
        assert(is_diamond(join));
        lemma_diamond_value(join, seq![6i64]);
        lemma_diamond_value(join, seq![7i64]);
        assert(observable(join, relay, seq![6i64]));
        assert(observable(join, relay, seq![7i64]));
    }
    let sink = for_each(&mut graph, join, relay);
    let ghost before = graph;
    proof {
        let once = subscribed(start.subscribers(), seq![0usize], sink);
        lemma_subscribed_one(start.subscribers(), 0, sink);
        lemma_subscribed_one(once, 0, sink);
        lemma_subscribed_concat(start.subscribers(), seq![0usize], seq![0usize], sink);
        assert(seq![0usize] + seq![0usize] =~= seq![0usize, 0usize]);
        assert(graph.subscribers()[0] =~= seq![sink, sink]);
        assert(graph.values().update(0, 7i64) =~= seq![7i64]);
        let watcher = graph.listeners()[0];
        assert(watcher.signal() == join && watcher.callback() == relay);
        watcher.lemma_listener(seq![7i64]);
    }
    root.emit(&mut graph, 7);
    proof {
        assert(before.subscribers()[0][0] == sink);
        lemma_emit_runs_each_sink_once(before, root.source(), 7i64, graph, sink);
        assert(graph.values() =~= seq![7i64]);
    }
    let results = graph.listener(sink).results();
    let mut seen = Vec::new();
    seen.push(results[0]);
    seen.push(results[1]);
    proof {
        let outputs = graph.listeners()[0].outputs();
        assert(outputs.drop_last()[0] == outputs[0]);
    }
    seen
}

} // verus!
