use pushpull_signals::diamond::diamond;
use pushpull_signals::{for_each, Graph, Map1, Map2, Mutable, Sink};
use std::cell::RefCell;
use std::rc::Rc;

fn copy(value: &i32) -> i32 {
    *value
}

fn negate(value: &i32) -> i32 {
    -*value
}

type Watch = Sink<Mutable<i32>, fn(&i32) -> i32, i32>;

#[test]
fn for_each_runs_once_at_once() {
    let mut graph = Graph::new();
    let source = Mutable::new(&mut graph, 5);
    let calls = Rc::new(RefCell::new(Vec::new()));
    let log = calls.clone();
    let sink = for_each(&mut graph, source, move |value: &i32| log.borrow_mut().push(*value));
    assert_eq!(*calls.borrow(), vec![5]);
    assert_eq!(graph.listener(sink).results().len(), 1);
    assert_eq!(graph.listener(sink).last_change(), None);
}

#[test]
fn for_each_sees_the_value_at_registration() {
    let mut graph: Graph<i32, Watch> = Graph::new();
    let source = Mutable::new(&mut graph, 1);
    source.emit(&mut graph, 2);
    source.emit(&mut graph, 3);
    let sink = for_each(&mut graph, source, copy as fn(&i32) -> i32);
    assert_eq!(graph.listener(sink).results(), &vec![3]);
}

#[test]
fn for_each_registers_nothing_before_the_first_run() {
    let mut graph = Graph::new();
    let source = Mutable::new(&mut graph, 1);
    assert_eq!(graph.store().listener_count(source.id()), 0);
    let sink = for_each(&mut graph, source.clone(), |value: &i32| *value);
    assert_eq!(sink, 0);
    assert_eq!(graph.listener_count(), 1);
    assert_eq!(graph.store().listener_count(source.id()), 1);
    assert_eq!(graph.store().listener_at(source.id(), 0), sink);
}

#[test]
fn each_emit_runs_a_direct_sink_once_on_the_new_value() {
    let mut graph = Graph::new();
    let source = Mutable::new(&mut graph, 0);
    let calls = Rc::new(RefCell::new(Vec::new()));
    let log = calls.clone();
    let sink = for_each(&mut graph, source.clone(), move |value: &i32| {
        log.borrow_mut().push(*value);
        *value * 100
    });
    for (round, value) in [4, 8, 15, 16, 23, 42].iter().enumerate() {
        source.emit(&mut graph, *value);
        assert_eq!(calls.borrow().len(), round + 2);
        assert_eq!(*calls.borrow().last().unwrap(), *value);
        assert_eq!(*graph.listener(sink).results().last().unwrap(), *value * 100);
    }
    assert_eq!(*calls.borrow(), vec![0, 4, 8, 15, 16, 23, 42]);
    assert_eq!(graph.listener(sink).results(), &vec![0, 400, 800, 1500, 1600, 2300, 4200]);
}

#[test]
fn emitting_the_same_value_again_still_runs_the_sink() {
    let mut graph: Graph<i32, Watch> = Graph::new();
    let source = Mutable::new(&mut graph, 1);
    let sink = for_each(&mut graph, source.clone(), copy as fn(&i32) -> i32);
    source.emit(&mut graph, 1);
    source.emit(&mut graph, 1);
    assert_eq!(graph.listener(sink).results(), &vec![1, 1, 1]);
}

#[test]
fn sink_observes_the_transform_of_the_emitted_value() {
    let mut graph = Graph::new();
    let source = Mutable::new(&mut graph, 2);
    let squared = Map1::new(source.clone(), |value: &i32| *value * *value);
    let sink = for_each(&mut graph, squared, |value: &i32| *value);
    source.emit(&mut graph, 3);
    source.emit(&mut graph, -4);
    assert_eq!(graph.listener(sink).results(), &vec![4, 9, 16]);
}

#[test]
fn diamond_deduplication() {
    let mut graph = Graph::new();
    let root = Mutable::new(&mut graph, 6);
    let left = Map1::new(root.clone(), |x: &i32| *x + 10);
    let right = Map1::new(root.clone(), |x: &i32| *x + 2);
    let join = Map2::new(left, right, |x: &i32, y: &i32| *x + *y);
    let prints = Rc::new(RefCell::new(Vec::new()));
    let out = prints.clone();
    let sink = for_each(&mut graph, join, move |value: &i32| out.borrow_mut().push(format!("{}", value)));
    assert_eq!(*prints.borrow(), vec!["24"]);
    assert_eq!(graph.store().listener_count(root.id()), 2);
    assert_eq!(graph.store().listener_at(root.id(), 0), sink);
    assert_eq!(graph.store().listener_at(root.id(), 1), sink);
    root.emit(&mut graph, 7);
    assert_eq!(*prints.borrow(), vec!["24", "26"]);
    assert_eq!(graph.listener(sink).results().len(), 2);
}

#[test]
fn diamond_transforms_run_once_per_evaluation() {
    let mut graph = Graph::new();
    let root = Mutable::new(&mut graph, 6);
    let trace = Rc::new(RefCell::new(Vec::new()));
    let (l, r, j) = (trace.clone(), trace.clone(), trace.clone());
    let left = Map1::new(root.clone(), move |x: &i32| {
        l.borrow_mut().push(format!("left changed {}", x));
        *x + 10
    });
    let right = Map1::new(root.clone(), move |x: &i32| {
        r.borrow_mut().push(format!("right changed {}", x));
        *x + 2
    });
    let join = Map2::new(left, right, move |x: &i32, y: &i32| {
        j.borrow_mut().push(format!("join changed {} {}", x, y));
        *x + *y
    });
    for_each(&mut graph, join, |value: &i32| *value);
    root.emit(&mut graph, 7);
    assert_eq!(
        *trace.borrow(),
        vec![
            "left changed 6",
            "right changed 6",
            "join changed 16 8",
            "left changed 7",
            "right changed 7",
            "join changed 17 9",
        ]
    );
}

#[test]
fn verified_diamond_reports_24_then_26() {
    assert_eq!(diamond(), vec![24, 26]);
}

#[test]
fn wide_diamond_still_runs_once() {
    let mut graph = Graph::new();
    let root = Mutable::new(&mut graph, 1);
    let left = Map2::new(root.clone(), root.clone(), |a: &i32, b: &i32| *a + *b);
    let right = Map2::new(root.clone(), root.clone(), |a: &i32, b: &i32| *a * *b);
    let join = Map2::new(left, right, |a: &i32, b: &i32| *a * 10 + *b);
    let sink = for_each(&mut graph, join, |value: &i32| *value);
    assert_eq!(graph.store().listener_count(root.id()), 4);
    root.emit(&mut graph, 3);
    root.emit(&mut graph, 2);
    assert_eq!(graph.listener(sink).results(), &vec![21, 69, 44]);
}

#[test]
fn join_of_two_sources_runs_once_for_each_emit_of_either() {
    let mut graph = Graph::new();
    let first = Mutable::new(&mut graph, 1);
    let second = Mutable::new(&mut graph, 10);
    let join = Map2::new(first.clone(), second.clone(), |a: &i32, b: &i32| *a + *b);
    let sink = for_each(&mut graph, join, |value: &i32| *value);
    first.emit(&mut graph, 2);
    second.emit(&mut graph, 20);
    second.emit(&mut graph, 30);
    first.emit(&mut graph, 3);
    assert_eq!(graph.listener(sink).results(), &vec![11, 12, 22, 32, 33]);
}

#[test]
fn sink_is_not_told_of_other_sources() {
    let mut graph: Graph<i32, Watch> = Graph::new();
    let watched = Mutable::new(&mut graph, 1);
    let other = Mutable::new(&mut graph, 100);
    let sink = for_each(&mut graph, watched.clone(), copy as fn(&i32) -> i32);
    other.emit(&mut graph, 200);
    other.emit(&mut graph, 300);
    assert_eq!(graph.listener(sink).results(), &vec![1]);
    assert_eq!(graph.listener(sink).last_change(), None);
    watched.emit(&mut graph, 2);
    assert_eq!(graph.listener(sink).results(), &vec![1, 2]);
    assert_eq!(graph.listener(sink).last_change(), Some(2));
}

#[test]
fn sinks_run_in_registration_order() {
    let mut graph = Graph::new();
    let source = Mutable::new(&mut graph, 0);
    let order = Rc::new(RefCell::new(Vec::new()));
    let watch = |name: &'static str, order: Rc<RefCell<Vec<String>>>| {
        move |value: &i32| order.borrow_mut().push(format!("{}:{}", name, value))
    };
    let make = watch;
    let a = for_each(&mut graph, source.clone(), make("a", order.clone()));
    let b = for_each(&mut graph, source.clone(), make("b", order.clone()));
    let c = for_each(&mut graph, source.clone(), make("c", order.clone()));
    assert_eq!((a, b, c), (0, 1, 2));
    source.emit(&mut graph, 1);
    assert_eq!(*order.borrow(), vec!["a:0", "b:0", "c:0", "a:1", "b:1", "c:1"]);
}

#[test]
fn several_sinks_each_run_once() {
    let mut graph: Graph<i32, Watch> = Graph::new();
    let source = Mutable::new(&mut graph, 5);
    let plain = for_each(&mut graph, source.clone(), copy as fn(&i32) -> i32);
    let negated = for_each(&mut graph, source.clone(), negate as fn(&i32) -> i32);
    source.emit(&mut graph, 6);
    assert_eq!(graph.listener(plain).results(), &vec![5, 6]);
    assert_eq!(graph.listener(negated).results(), &vec![-5, -6]);
}

#[test]
fn sink_remembers_the_last_change() {
    let mut graph: Graph<i32, Watch> = Graph::new();
    let source = Mutable::new(&mut graph, 5);
    let sink = for_each(&mut graph, source.clone(), copy as fn(&i32) -> i32);
    assert_eq!(graph.listener(sink).last_change(), None);
    source.emit(&mut graph, 6);
    assert_eq!(graph.listener(sink).last_change(), Some(0));
    source.emit(&mut graph, 7);
    assert_eq!(graph.listener(sink).last_change(), Some(1));
}

#[test]
fn registration_is_never_dropped() {
    let mut graph = Graph::new();
    let source = Mutable::new(&mut graph, 0);
    let count = Rc::new(RefCell::new(0usize));
    {
        let seen = count.clone();
        for_each(&mut graph, source.clone(), move |_value: &i32| *seen.borrow_mut() += 1);
    }
    assert_eq!(*count.borrow(), 1);
    for round in 1..=50 {
        source.emit(&mut graph, round);
        assert_eq!(*count.borrow(), 1 + round as usize);
        assert_eq!(graph.store().listener_count(source.id()), 1);
    }
}

#[test]
fn a_sink_added_later_does_not_disturb_earlier_ones() {
    let mut graph: Graph<i32, Watch> = Graph::new();
    let source = Mutable::new(&mut graph, 1);
    let early = for_each(&mut graph, source.clone(), copy as fn(&i32) -> i32);
    source.emit(&mut graph, 2);
    let late = for_each(&mut graph, source.clone(), copy as fn(&i32) -> i32);
    assert_eq!(graph.listener(early).results(), &vec![1, 2]);
    assert_eq!(graph.listener(late).results(), &vec![2]);
    source.emit(&mut graph, 3);
    assert_eq!(graph.listener(early).results(), &vec![1, 2, 3]);
    assert_eq!(graph.listener(late).results(), &vec![2, 3]);
    assert_eq!(graph.store().cell(source.id()).registered(), &vec![early, late]);
}

#[test]
fn listener_pulls_the_value_of_the_change_that_woke_it() {
    let mut graph = Graph::new();
    let source = Mutable::new(&mut graph, String::from("old"));
    let length = Map1::new(source.clone(), |text: &String| text.len());
    let sink = for_each(&mut graph, length, |value: &usize| *value);
    source.emit(&mut graph, String::from("newer"));
    assert_eq!(graph.listener(sink).results(), &vec![3, 5]);
    assert_eq!(*graph.store().value(source.id()), "newer");
}

#[test]
fn taking_the_results_starts_the_record_afresh() {
    let mut graph: Graph<i32, Watch> = Graph::new();
    let source = Mutable::new(&mut graph, 1);
    let sink = for_each(&mut graph, source.clone(), copy as fn(&i32) -> i32);
    let other = for_each(&mut graph, source.clone(), negate as fn(&i32) -> i32);
    source.emit(&mut graph, 2);
    assert_eq!(graph.take_results(sink), vec![1, 2]);
    assert!(graph.listener(sink).results().is_empty());
    assert_eq!(graph.listener(sink).last_change(), Some(0));
    assert_eq!(graph.listener(other).results(), &vec![-1, -2]);
    source.emit(&mut graph, 3);
    assert_eq!(graph.take_results(sink), vec![3]);
    assert_eq!(graph.take_results(sink), Vec::<i32>::new());
    assert_eq!(graph.store().listener_count(source.id()), 2);
}
