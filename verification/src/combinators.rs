//! Derived nodes: a value computed on demand from one or two upstream
//! signals. A combinator keeps no value and no listeners of its own.

use vstd::prelude::*;
use crate::signal::{lemma_subscribed_concat, lemma_subscribed_len, Signal};
use crate::store::{ListenerId, SourceId, Store};

verus! {

/// The signal whose value is `callback` applied to the value of `signal`.
/// The transform runs at every read; no result is kept.
pub struct Map1<S, F> {
    signal: S,
    callback: F,
}

impl<S, F> Map1<S, F> {
    /// The upstream signal.
    pub closed spec fn upstream(&self) -> S {
        self.signal
    }

    /// The transform.
    pub closed spec fn transform(&self) -> F {
        self.callback
    }

    /// Derives a signal from `signal`. The combinator takes both arguments
    /// over; nothing is evaluated yet.
    pub fn new<A, B>(signal: S, callback: F) -> (map: Self) where
        S: Signal<A>,
        F: Fn(&S::Item) -> B,

        ensures
            map.upstream() == signal,
            map.transform() == callback,
    {
        Map1 { signal, callback }
    }
}

impl<A, S: Signal<A>, B, F: Fn(&S::Item) -> B> Signal<A> for Map1<S, F> {
    type Item = B;

    open spec fn sources(&self) -> Seq<SourceId> {
        self.upstream().sources()
    }

    open spec fn readable(&self, values: Seq<A>) -> bool {
        &&& self.upstream().readable(values)
        &&& forall|input: S::Item| #[trigger]
            self.upstream().yields(values, input) ==> self.transform().requires((&input,))
    }

    open spec fn yields(&self, values: Seq<A>, value: B) -> bool {
        exists|input: S::Item| #[trigger]
            self.upstream().yields(values, input) && self.transform().ensures((&input,), value)
    }

    fn with_value<R, G: FnOnce(&B) -> R>(&self, store: &Store<A>, f: G) -> (out: R) {
        let ghost values = store.values();
        assert(self.upstream() == self.signal && self.transform() == self.callback);
        let pull = |input: &S::Item| -> (out: R)
            requires
                self.callback.requires((input,)),
                forall|value: B| #[trigger]
                    self.callback.ensures((input,), value) ==> f.requires((&value,)),
            ensures
                exists|value: B| #[trigger]
                    self.callback.ensures((input,), value) && f.ensures((&value,), out),
            {
                let value = (self.callback)(input);
                f(&value)
            };
        assert forall|input: S::Item| #[trigger]
            self.signal.yields(values, input) implies pull.requires((&input,)) by {
            assert forall|value: B| #[trigger]
                self.callback.ensures((&input,), value) implies f.requires((&value,)) by {
                assert(self.yields(values, value));
            }
        }
        let out = self.signal.with_value(store, pull);
        proof {
            let input = choose|input: S::Item| #[trigger]
                self.signal.yields(values, input) && pull.ensures((&input,), out);
            let value = choose|value: B| #[trigger]
                self.callback.ensures((&input,), value) && f.ensures((&value,), out);
            assert(self.yields(values, value));
        }
        out
    }

    fn register_listener(&self, store: &mut Store<A>, listener: ListenerId) {
        self.signal.register_listener(store, listener);
    }
}

/// The signal whose value is `callback` applied to the values of `signal1`
/// and `signal2`.
///
/// The first upstream is read before the second. Both are read from one
/// store, which cannot change while it is lent out for reading, so the two
/// values always belong to the same state of the graph.
pub struct Map2<S1, S2, F> {
    signal1: S1,
    signal2: S2,
    callback: F,
}

impl<S1, S2, F> Map2<S1, S2, F> {
    /// The first upstream signal.
    pub closed spec fn first(&self) -> S1 {
        self.signal1
    }

    /// The second upstream signal.
    pub closed spec fn second(&self) -> S2 {
        self.signal2
    }

    /// The transform.
    pub closed spec fn transform(&self) -> F {
        self.callback
    }

    /// Joins `signal1` and `signal2`. The combinator takes its arguments
    /// over; nothing is evaluated yet.
    pub fn new<A, C>(signal1: S1, signal2: S2, callback: F) -> (join: Self) where
        S1: Signal<A>,
        S2: Signal<A>,
        F: Fn(&S1::Item, &S2::Item) -> C,

        ensures
            join.first() == signal1,
            join.second() == signal2,
            join.transform() == callback,
    {
        Map2 { signal1, signal2, callback }
    }
}

impl<A, S1: Signal<A>, S2: Signal<A>, C, F: Fn(&S1::Item, &S2::Item) -> C> Signal<A> for Map2<
    S1,
    S2,
    F,
> {
    type Item = C;

    open spec fn sources(&self) -> Seq<SourceId> {
        self.first().sources() + self.second().sources()
    }

    open spec fn readable(&self, values: Seq<A>) -> bool {
        &&& self.first().readable(values)
        &&& self.second().readable(values)
        &&& forall|left: S1::Item, right: S2::Item|
            #![trigger self.first().yields(values, left), self.second().yields(values, right)]
            self.first().yields(values, left) && self.second().yields(values, right)
                ==> self.transform().requires((&left, &right))
    }

    open spec fn yields(&self, values: Seq<A>, value: C) -> bool {
        exists|left: S1::Item, right: S2::Item|
            #![trigger self.first().yields(values, left), self.second().yields(values, right)]
            self.first().yields(values, left) && self.second().yields(values, right)
                && self.transform().ensures((&left, &right), value)
    }

    fn with_value<R, G: FnOnce(&C) -> R>(&self, store: &Store<A>, f: G) -> (out: R) {
        let ghost values = store.values();
        assert(self.first() == self.signal1 && self.second() == self.signal2 && self.transform()
            == self.callback);
        proof {
            assert forall|i: int| 0 <= i < self.signal1.sources().len() implies
                self.signal1.sources()[i] < store@.len() by {
                assert(self.sources()[i] == self.signal1.sources()[i]);
            }
            assert forall|i: int| 0 <= i < self.signal2.sources().len() implies
                self.signal2.sources()[i] < store@.len() by {
                assert(self.sources()[self.signal1.sources().len() + i]
                    == self.signal2.sources()[i]);
            }
        }
        let pull = |left: &S1::Item| -> (out: R)
            requires
                self.signal1.yields(values, *left),
            ensures
                exists|right: S2::Item, value: C|
                    #![trigger self.signal2.yields(values, right), f.ensures((&value,), out)]
                    self.signal2.yields(values, right) && self.callback.ensures(
                        (left, &right),
                        value,
                    ) && f.ensures((&value,), out),
            {
                let join = |right: &S2::Item| -> (out: R)
                    requires
                        self.signal2.yields(values, *right),
                    ensures
                        exists|value: C| #[trigger]
                            f.ensures((&value,), out) && self.callback.ensures(
                                (left, right),
                                value,
                            ),
                    {
                        assert(self.callback.requires((left, right)));
                        let value = (self.callback)(left, right);
                        assert(self.yields(values, value));
                        f(&value)
                    };
                let out = self.signal2.with_value(store, join);
                proof {
                    let right = choose|right: S2::Item| #[trigger]
                        self.signal2.yields(values, right) && join.ensures((&right,), out);
                    let value = choose|value: C| #[trigger]
                        f.ensures((&value,), out) && self.callback.ensures((left, &right), value);
                    assert(self.signal2.yields(values, right) && self.callback.ensures(
                        (left, &right),
                        value,
                    ) && f.ensures((&value,), out));
                }
                out
            };
        let out = self.signal1.with_value(store, pull);
        proof {
            let left = choose|left: S1::Item| #[trigger]
                self.signal1.yields(values, left) && pull.ensures((&left,), out);
            let (right, value) = choose|right: S2::Item, value: C|
                #![trigger self.signal2.yields(values, right), f.ensures((&value,), out)]
                self.signal2.yields(values, right) && self.callback.ensures(
                    (&left, &right),
                    value,
                ) && f.ensures((&value,), out);
            assert(self.yields(values, value));
        }
        out
    }

    fn register_listener(&self, store: &mut Store<A>, listener: ListenerId) {
        proof {
            assert forall|i: int| 0 <= i < self.signal1.sources().len() implies
                self.signal1.sources()[i] < store@.len() by {
                assert(self.sources()[i] == self.signal1.sources()[i]);
            }
            assert forall|i: int| 0 <= i < self.signal2.sources().len() implies
                self.signal2.sources()[i] < store@.len() by {
                assert(self.sources()[self.signal1.sources().len() + i]
                    == self.signal2.sources()[i]);
            }
            lemma_subscribed_concat(
                store.subscribers(),
                self.signal1.sources(),
                self.signal2.sources(),
                listener,
            );
            lemma_subscribed_len(store.subscribers(), self.signal1.sources(), listener);
        }
        self.signal1.register_listener(store, listener);
        self.signal2.register_listener(store, listener);
    }
}

} // verus!
