//! The cells of a graph's sources: each holds the source's current value and
//! the listeners registered on it.

use vstd::prelude::*;

verus! {

/// Index of a source within its store.
pub type SourceId = usize;

/// Index of a listener within its graph.
pub type ListenerId = usize;

/// The state of one source: its value and the listeners registered on it,
/// oldest registration first. Listeners are only ever appended.
pub struct Inner<A> {
    value: A,
    listeners: Vec<ListenerId>,
}

impl<A> Inner<A> {
    /// The value held.
    pub closed spec fn value(&self) -> A {
        self.value
    }

    /// The registered listeners, in registration order.
    pub closed spec fn listeners(&self) -> Seq<ListenerId> {
        self.listeners@
    }

    /// A cell that holds `value` and has no listener.
    pub fn new(value: A) -> (cell: Self)
        ensures
            cell.value() == value,
            cell.listeners() == Seq::<ListenerId>::empty(),
    {
        Inner { value, listeners: Vec::new() }
    }

    /// The value held.
    pub fn get(&self) -> (value: &A)
        ensures
            *value == self.value(),
    {
        &self.value
    }

    /// The registered listeners, in registration order.
    pub fn registered(&self) -> (listeners: &Vec<ListenerId>)
        ensures
            listeners@ == self.listeners(),
    {
        &self.listeners
    }
}

/// The cells of all sources of one graph, indexed by `SourceId`.
pub struct Store<A> {
    cells: Vec<Inner<A>>,
}

impl<A> View for Store<A> {
    type V = Seq<Inner<A>>;

    closed spec fn view(&self) -> Seq<Inner<A>> {
        self.cells@
    }
}

impl<A> Store<A> {
    /// The current value of every source.
    pub open spec fn values(&self) -> Seq<A> {
        Seq::new(self@.len(), |i: int| self@[i].value())
    }

    /// The listeners registered on every source, in registration order.
    pub open spec fn subscribers(&self) -> Seq<Seq<ListenerId>> {
        Seq::new(self@.len(), |i: int| self@[i].listeners())
    }

    /// A store without sources.
    pub fn new() -> (store: Self)
        ensures
            store@.len() == 0,
    {
        Store { cells: Vec::new() }
    }

    /// The number of sources.
    pub fn len(&self) -> (n: usize)
        ensures
            n == self@.len(),
    {
        self.cells.len()
    }

    /// The cell of source `id`.
    pub fn cell(&self, id: SourceId) -> (cell: &Inner<A>)
        requires
            id < self@.len(),
        ensures
            *cell == self@[id as int],
    {
        &self.cells[id]
    }

    /// The current value of source `id`.
    pub fn value(&self, id: SourceId) -> (value: &A)
        requires
            id < self@.len(),
        ensures
            *value == self.values()[id as int],
    {
        &self.cells[id].value
    }

    /// The number of listeners registered on source `id`.
    pub fn listener_count(&self, id: SourceId) -> (n: usize)
        requires
            id < self@.len(),
        ensures
            n == self.subscribers()[id as int].len(),
    {
        self.cells[id].listeners.len()
    }

    /// The listener that was registered on source `id` in position `at`.
    pub fn listener_at(&self, id: SourceId, at: usize) -> (listener: ListenerId)
        requires
            id < self@.len(),
            at < self.subscribers()[id as int].len(),
        ensures
            listener == self.subscribers()[id as int][at as int],
    {
        self.cells[id].listeners[at]
    }

    /// Adds a source that holds `value` and has no listener yet.
    pub fn insert(&mut self, value: A) -> (id: SourceId)
        ensures
            id == old(self)@.len(),
            final(self).values() == old(self).values().push(value),
            final(self).subscribers() == old(self).subscribers().push(Seq::empty()),
    {
        let id = self.cells.len();
        self.cells.push(Inner::new(value));
        id
    }

    /// Replaces the value of source `id`. Its listeners stay registered.
    pub fn write(&mut self, id: SourceId, value: A)
        requires
            id < old(self)@.len(),
        ensures
            final(self).values() == old(self).values().update(id as int, value),
            final(self).subscribers() == old(self).subscribers(),
    {
        self.cells[id].value = value;
    }

    /// Appends `listener` to the listeners of source `id`. A listener that
    /// is already registered there is registered once more.
    pub fn subscribe(&mut self, id: SourceId, listener: ListenerId)
        requires
            id < old(self)@.len(),
        ensures
            final(self).values() == old(self).values(),
            final(self).subscribers() == old(self).subscribers().update(
                id as int,
                old(self).subscribers()[id as int].push(listener),
            ),
    {
        self.cells[id].listeners.push(listener);
    }
}

} // verus!
