//! Bare callbacks: listeners that run on every notification they get.

use vstd::prelude::*;
use crate::clock::ChangeId;
use crate::listener::Listener;
use crate::store::{ListenerId, SourceId, Store};

verus! {

/// A listener that runs its callback on the change identifier each time it
/// is notified, and keeps what the callback returned. It does not look at
/// the identifier: a change that reaches it twice makes it run twice.
///
/// A callback is registered on no source of its own accord; `subscribe` on
/// the graph registers it.
pub struct Callback<F, R> {
    callback: F,
    outputs: Vec<R>,
}

impl<F, R> Callback<F, R> {
    /// The callback.
    pub closed spec fn callback(&self) -> F {
        self.callback
    }

    /// What the callback returned, oldest run first.
    pub closed spec fn outputs(&self) -> Seq<R> {
        self.outputs@
    }

    /// A listener around `callback` that has not run yet.
    pub fn new(callback: F) -> (listener: Self)
        ensures
            listener.callback() == callback,
            listener.outputs() == Seq::<R>::empty(),
    {
        Callback { callback, outputs: Vec::new() }
    }

    /// What the callback returned, oldest run first.
    pub fn results(&self) -> (outputs: &Vec<R>)
        ensures
            outputs@ == self.outputs(),
    {
        &self.outputs
    }
}

impl<R, F: Fn(ChangeId) -> R> Callback<F, R> {
    /// What a callback is as a listener, spelled out: it names no source,
    /// it keeps track of no change, and it can be notified exactly when it
    /// accepts every identifier.
    pub proof fn lemma_listener<A>(&self, values: Seq<A>)
        ensures
            Listener::<A>::sources(self) == Seq::<SourceId>::empty(),
            Listener::<A>::seen(self).is_none(),
            Listener::<A>::ready(self, values) == (forall|id: ChangeId| #[trigger]
                self.callback().requires((id,))),
    {
    }
}

impl<A, R, F: Fn(ChangeId) -> R> Listener<A> for Callback<F, R> {
    open spec fn sources(&self) -> Seq<SourceId> {
        Seq::empty()
    }

    open spec fn seen(&self) -> Option<ChangeId> {
        None
    }

    open spec fn ready(&self, values: Seq<A>) -> bool {
        forall|id: ChangeId| #[trigger] self.callback().requires((id,))
    }

    /// Every notification makes the callback run once more, on the
    /// identifier of the change.
    open spec fn notified(&self, id: ChangeId, values: Seq<A>, after: Self) -> bool {
        &&& after.callback() == self.callback()
        &&& after.outputs().len() == self.outputs().len() + 1
        &&& after.outputs().drop_last() == self.outputs()
        &&& self.callback().ensures((id,), after.outputs().last())
    }

    fn subscribe(&self, store: &mut Store<A>, id: ListenerId) {
    }

    fn notify(&mut self, id: ChangeId, store: &Store<A>) {
        assert(self.callback().requires((id,)));
        let out = (self.callback)(id);
        self.outputs.push(out);
        assert(self.outputs@.drop_last() =~= old(self).outputs@);
    }
}

} // verus!
