//! A push-pull signal graph.
//!
//! Sources hold values, combinators derive values from them on demand, and
//! sinks observe a signal: a change is pushed as a bare change identifier,
//! and every consumer pulls the current value itself. One clock numbers all
//! changes of a graph, which lets a sink that is reached along several paths
//! react to each change once.
//!
//! A `Graph` holds all state. `Mutable::new` adds a source to it, `Map1` and
//! `Map2` describe derived signals, `for_each` sets a `Sink` to observe a
//! signal, and `Mutable::emit` changes a source and wakes its listeners.
//! The module `laws` states what these operations guarantee together.

pub mod callback;
pub mod clock;
pub mod combinators;
pub mod diamond;
pub mod graph;
pub mod laws;
pub mod listener;
pub mod mutable;
pub mod signal;
pub mod sink;
pub mod store;

pub use crate::callback::Callback;
pub use crate::clock::{ChangeClock, ChangeId};
pub use crate::combinators::{Map1, Map2};
pub use crate::graph::Graph;
pub use crate::listener::Listener;
pub use crate::mutable::Mutable;
pub use crate::signal::Signal;
pub use crate::sink::{for_each, Sink};
pub use crate::store::{Inner, ListenerId, SourceId, Store};
