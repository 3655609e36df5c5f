use pushpull_signals::{Inner, Store};

#[test]
fn new_cell_holds_value_and_no_listener() {
    let cell = Inner::new(17);
    assert_eq!(*cell.get(), 17);
    assert!(cell.registered().is_empty());
}

#[test]
fn new_store_is_empty() {
    let store: Store<i32> = Store::new();
    assert_eq!(store.len(), 0);
}

#[test]
fn insert_numbers_sources_in_order() {
    let mut store = Store::new();
    assert_eq!(store.insert("a"), 0);
    assert_eq!(store.insert("b"), 1);
    assert_eq!(store.insert("c"), 2);
    assert_eq!(store.len(), 3);
    assert_eq!(*store.value(0), "a");
    assert_eq!(*store.value(1), "b");
    assert_eq!(*store.value(2), "c");
    assert_eq!(store.listener_count(1), 0);
}

#[test]
fn write_replaces_one_value_and_keeps_listeners() {
    let mut store = Store::new();
    store.insert(1);
    store.insert(2);
    store.subscribe(0, 7);
    store.write(0, 10);
    assert_eq!(*store.value(0), 10);
    assert_eq!(*store.value(1), 2);
    assert_eq!(store.listener_count(0), 1);
    assert_eq!(store.listener_at(0, 0), 7);
}

#[test]
fn subscribe_appends_in_registration_order() {
    let mut store = Store::new();
    store.insert(0u8);
    store.insert(0u8);
    store.subscribe(1, 4);
    store.subscribe(1, 2);
    store.subscribe(1, 4);
    assert_eq!(store.listener_count(0), 0);
    assert_eq!(store.listener_count(1), 3);
    assert_eq!(store.listener_at(1, 0), 4);
    assert_eq!(store.listener_at(1, 1), 2);
    assert_eq!(store.listener_at(1, 2), 4);
    assert_eq!(store.cell(1).registered(), &vec![4, 2, 4]);
    assert_eq!(*store.cell(1).get(), 0);
}
