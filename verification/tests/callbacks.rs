use pushpull_signals::{Callback, ChangeClock, ChangeId, Graph, Map2, Mutable};
use std::cell::RefCell;
use std::rc::Rc;

fn identity(id: ChangeId) -> ChangeId {
    id
}

type Plain = Callback<fn(ChangeId) -> ChangeId, ChangeId>;

#[test]
fn new_callback_has_not_run() {
    let callback: Plain = Callback::new(identity);
    assert!(callback.results().is_empty());
}

#[test]
fn registering_alone_subscribes_to_nothing() {
    let mut graph: Graph<i32, Plain> = Graph::new();
    let source = Mutable::new(&mut graph, 0);
    let id = graph.register(Callback::new(identity));
    assert_eq!(graph.store().listener_count(source.id()), 0);
    source.emit(&mut graph, 1);
    assert!(graph.listener(id).results().is_empty());
}

#[test]
fn callback_is_told_the_change_id_not_the_value() {
    let mut graph: Graph<i32, Plain> = Graph::new();
    let source = Mutable::new(&mut graph, 0);
    let id = graph.register(Callback::new(identity));
    graph.subscribe(&source, id);
    source.emit(&mut graph, 1000);
    source.emit(&mut graph, 2000);
    assert_eq!(graph.listener(id).results(), &vec![0, 1]);
}

#[test]
fn callback_registered_twice_runs_twice_per_change() {
    let mut graph: Graph<i32, Plain> = Graph::new();
    let source = Mutable::new(&mut graph, 0);
    let id = graph.register(Callback::new(identity));
    graph.subscribe(&source, id);
    graph.subscribe(&source, id);
    source.emit(&mut graph, 1);
    assert_eq!(graph.listener(id).results(), &vec![0, 0]);
    source.emit(&mut graph, 2);
    assert_eq!(graph.listener(id).results(), &vec![0, 0, 1, 1]);
}

#[test]
fn diamond_reaches_a_bare_callback_twice_with_one_id() {
    let mut graph: Graph<i32, Plain> = Graph::new();
    let root = Mutable::new(&mut graph, 6);
    let join = Map2::new(root.clone(), root.clone(), |a: &i32, b: &i32| *a + *b);
    let id = graph.register(Callback::new(identity));
    graph.subscribe(&join, id);
    root.emit(&mut graph, 7);
    assert_eq!(graph.listener(id).results(), &vec![0, 0]);
}

#[test]
fn ids_grow_across_sources() {
    let mut graph: Graph<i32, Plain> = Graph::new();
    let first = Mutable::new(&mut graph, 0);
    let second = Mutable::new(&mut graph, 0);
    let id = graph.register(Callback::new(identity));
    graph.subscribe(&first, id);
    graph.subscribe(&second, id);
    second.emit(&mut graph, 1);
    first.emit(&mut graph, 1);
    first.emit(&mut graph, 2);
    second.emit(&mut graph, 2);
    let seen = graph.listener(id).results().clone();
    assert_eq!(seen, vec![0, 1, 2, 3]);
    for pair in seen.windows(2) {
        assert!(pair[0] <= pair[1]);
    }
    assert_eq!(graph.clock().peek(), 4);
}

#[test]
fn emit_ticks_the_clock_even_without_listeners() {
    let mut graph: Graph<i32, Plain> = Graph::new();
    let source = Mutable::new(&mut graph, 0);
    assert_eq!(graph.clock().peek(), 0);
    source.emit(&mut graph, 1);
    source.emit(&mut graph, 2);
    assert_eq!(graph.clock().peek(), 2);
    assert_eq!(*graph.store().value(source.id()), 2);
}

#[test]
fn graph_goes_on_from_an_injected_clock() {
    let mut clock = ChangeClock::new();
    clock.next();
    clock.next();
    clock.next();
    let mut graph: Graph<i32, Plain> = Graph::with_clock(clock);
    let source = Mutable::new(&mut graph, 0);
    let id = graph.register(Callback::new(identity));
    graph.subscribe(&source, id);
    source.emit(&mut graph, 1);
    assert_eq!(graph.listener(id).results(), &vec![3]);
}

#[test]
fn new_graph_is_empty() {
    let graph: Graph<i32, Plain> = Graph::new();
    assert_eq!(graph.store().len(), 0);
    assert_eq!(graph.listener_count(), 0);
    assert_eq!(graph.clock().peek(), 0);
}

#[test]
fn listeners_are_notified_in_registration_order() {
    let order = Rc::new(RefCell::new(Vec::new()));
    let tell = |name: &'static str, order: Rc<RefCell<Vec<(String, ChangeId)>>>| {
        move |id: ChangeId| order.borrow_mut().push((String::from(name), id))
    };
    let mut graph = Graph::new();
    let source = Mutable::new(&mut graph, 0);
    let a = graph.register(Callback::new(tell("a", order.clone())));
    let b = graph.register(Callback::new(tell("b", order.clone())));
    graph.subscribe(&source, b);
    graph.subscribe(&source, a);
    graph.subscribe(&source, b);
    source.emit(&mut graph, 1);
    let told: Vec<(String, ChangeId)> = order.borrow().clone();
    let names: Vec<&str> = told.iter().map(|(name, _)| name.as_str()).collect();
    assert_eq!(names, vec!["b", "a", "b"]);
    assert!(told.iter().all(|(_, id)| *id == 0));
}
