use std::collections::HashMap;
use std::sync::atomic::{AtomicI32, Ordering};
use std::sync::{Arc, Mutex};

use qframework::{
    BindableDictionary, BindableList, BindableProperty, DictAdd, DictClear, DictCountChanged,
    DictRemove, DictReplace, IEventHandler, ListAdd, ListClear, ListCountChanged, ListRemove,
};

struct Sink<T: ?Sized>(Box<dyn Fn(&T) + Send + Sync>);

impl<T: ?Sized> IEventHandler<T> for Sink<T> {
    type Receipt = ();

    fn receipt(&self, _event: &T) {}

    fn handle(&self, event: &T) {
        (self.0)(event)
    }
}

enum ListSink<T> {
    Add(Box<dyn Fn(&ListAdd<T>) + Send + Sync>),
    Remove(Box<dyn Fn(&ListRemove<T>) + Send + Sync>),
    Clear(Box<dyn Fn(&ListClear) + Send + Sync>),
    Count(Box<dyn Fn(&ListCountChanged) + Send + Sync>),
}

impl<T> IEventHandler<ListAdd<T>> for ListSink<T> {
    type Receipt = ();

    fn receipt(&self, _event: &ListAdd<T>) {}

    fn handle(&self, event: &ListAdd<T>) {
        if let ListSink::Add(f) = self {
            f(event)
        }
    }
}

impl<T> IEventHandler<ListRemove<T>> for ListSink<T> {
    type Receipt = ();

    fn receipt(&self, _event: &ListRemove<T>) {}

    fn handle(&self, event: &ListRemove<T>) {
        if let ListSink::Remove(f) = self {
            f(event)
        }
    }
}

impl<T> IEventHandler<ListClear> for ListSink<T> {
    type Receipt = ();

    fn receipt(&self, _event: &ListClear) {}

    fn handle(&self, event: &ListClear) {
        if let ListSink::Clear(f) = self {
            f(event)
        }
    }
}

impl<T> IEventHandler<ListCountChanged> for ListSink<T> {
    type Receipt = ();

    fn receipt(&self, _event: &ListCountChanged) {}

    fn handle(&self, event: &ListCountChanged) {
        if let ListSink::Count(f) = self {
            f(event)
        }
    }
}

enum DictSink<K, V> {
    Add(Box<dyn Fn(&DictAdd<K, V>) + Send + Sync>),
    Remove(Box<dyn Fn(&DictRemove<K, V>) + Send + Sync>),
    Replace(Box<dyn Fn(&DictReplace<K, V>) + Send + Sync>),
    Clear(Box<dyn Fn(&DictClear) + Send + Sync>),
    Count(Box<dyn Fn(&DictCountChanged) + Send + Sync>),
}

impl<K, V> IEventHandler<DictAdd<K, V>> for DictSink<K, V> {
    type Receipt = ();

    fn receipt(&self, _event: &DictAdd<K, V>) {}

    fn handle(&self, event: &DictAdd<K, V>) {
        if let DictSink::Add(f) = self {
            f(event)
        }
    }
}

impl<K, V> IEventHandler<DictRemove<K, V>> for DictSink<K, V> {
    type Receipt = ();

    fn receipt(&self, _event: &DictRemove<K, V>) {}

    fn handle(&self, event: &DictRemove<K, V>) {
        if let DictSink::Remove(f) = self {
            f(event)
        }
    }
}

impl<K, V> IEventHandler<DictReplace<K, V>> for DictSink<K, V> {
    type Receipt = ();

    fn receipt(&self, _event: &DictReplace<K, V>) {}

    fn handle(&self, event: &DictReplace<K, V>) {
        if let DictSink::Replace(f) = self {
            f(event)
        }
    }
}

impl<K, V> IEventHandler<DictClear> for DictSink<K, V> {
    type Receipt = ();

    fn receipt(&self, _event: &DictClear) {}

    fn handle(&self, event: &DictClear) {
        if let DictSink::Clear(f) = self {
            f(event)
        }
    }
}

impl<K, V> IEventHandler<DictCountChanged> for DictSink<K, V> {
    type Receipt = ();

    fn receipt(&self, _event: &DictCountChanged) {}

    fn handle(&self, event: &DictCountChanged) {
        if let DictSink::Count(f) = self {
            f(event)
        }
    }
}

#[test]
fn property_modify_notifies_once_with_written_value() {
    let mut property: BindableProperty<i32, Sink<i32>> = BindableProperty::new(0);

    let calls = Arc::new(AtomicI32::new(0));
    let last = Arc::new(AtomicI32::new(-1));
    let call_sink = Arc::clone(&calls);
    let value_sink = Arc::clone(&last);

    let unregister = property.register(Sink(Box::new(move |value: &i32| {
        call_sink.fetch_add(1, Ordering::SeqCst);
        value_sink.store(*value, Ordering::SeqCst);
    })));

    property.modify(|count| *count + 5);
    assert_eq!(property.get(), 5);
    assert_eq!(calls.load(Ordering::SeqCst), 1);
    assert_eq!(last.load(Ordering::SeqCst), 5);

    property.set(9);
    assert_eq!(calls.load(Ordering::SeqCst), 2);
    assert_eq!(last.load(Ordering::SeqCst), 9);

    unregister.unregister(&mut property);
}

#[test]
fn register_with_init_value_delivers_current_value_first() {
    let mut property: BindableProperty<i32, Sink<i32>> = BindableProperty::new(7);
    let seen = Arc::new(Mutex::new(Vec::new()));
    let sink = Arc::clone(&seen);

    let unregister = property.register_with_init_value(Sink(Box::new(move |value: &i32| {
        sink.lock().unwrap().push(*value);
    })));

    property.set(8);
    unregister.unregister(&mut property);
    property.set(9);

    assert_eq!(*seen.lock().unwrap(), vec![7, 8]);
}

#[test]
fn with_value_reads_without_cloning() {
    let property: BindableProperty<Vec<i32>, Sink<Vec<i32>>> = BindableProperty::new(vec![1, 2, 3]);
    assert_eq!(property.with_value(|values| values.len()), 3);
    assert_eq!(property.with_value(|values| values[1]), 2);
}

#[test]
fn bindable_list_emits_add_remove_and_count_events() {
    let mut list: BindableList<i32, ListSink<i32>> = BindableList::new();

    let adds = Arc::new(AtomicI32::new(0));
    let counts = Arc::new(AtomicI32::new(-1));
    let add_sink = Arc::clone(&adds);
    let count_sink = Arc::clone(&counts);

    let _on_add = list.on_add(ListSink::Add(Box::new(move |event: &ListAdd<i32>| {
        assert_eq!(event.index, 0);
        assert_eq!(event.value, 10);
        add_sink.fetch_add(1, Ordering::SeqCst);
    })));
    let _on_count = list.on_count_changed(ListSink::Count(Box::new(move |event: &ListCountChanged| {
        count_sink.store(event.count as i32, Ordering::SeqCst);
    })));

    assert_eq!(list.add(10), 0);
    assert_eq!(list.len(), 1);
    assert_eq!(adds.load(Ordering::SeqCst), 1);
    assert_eq!(counts.load(Ordering::SeqCst), 1);

    assert_eq!(list.remove_at(0), Some(10));
    assert!(list.is_empty());
    assert_eq!(counts.load(Ordering::SeqCst), 0);
}

#[test]
fn bindable_list_with_items_avoids_snapshot_clone() {
    let mut list: BindableList<i32, ListSink<i32>> = BindableList::from_vec(vec![1, 2, 3]);

    assert_eq!(list.with_items(|items| items.iter().sum::<i32>()), 6);
    assert_eq!(list.snapshot(), vec![1, 2, 3]);

    list.insert(0, 0);
    assert_eq!(list.snapshot(), vec![0, 1, 2, 3]);

    list.clear();
    assert!(list.is_empty());
}

#[test]
fn bindable_dictionary_emits_add_replace_remove() {
    let mut dictionary: BindableDictionary<&'static str, i32, DictSink<&'static str, i32>> =
        BindableDictionary::new();

    let adds = Arc::new(AtomicI32::new(0));
    let replaces = Arc::new(AtomicI32::new(0));
    let add_sink = Arc::clone(&adds);
    let replace_sink = Arc::clone(&replaces);

    let _on_add = dictionary.on_add(DictSink::Add(Box::new(move |_: &DictAdd<&'static str, i32>| {
        add_sink.fetch_add(1, Ordering::SeqCst);
    })));
    let _on_replace = dictionary.on_replace(DictSink::Replace(Box::new(
        move |event: &DictReplace<&'static str, i32>| {
            assert_eq!(event.previous, 1);
            assert_eq!(event.current, 2);
            replace_sink.fetch_add(1, Ordering::SeqCst);
        },
    )));

    dictionary.insert("hp", 1);
    assert_eq!(adds.load(Ordering::SeqCst), 1);
    assert_eq!(dictionary.get(&"hp"), Some(1));

    dictionary.insert("hp", 2);
    assert_eq!(adds.load(Ordering::SeqCst), 1);
    assert_eq!(replaces.load(Ordering::SeqCst), 1);
    assert_eq!(dictionary.get(&"hp"), Some(2));

    assert!(dictionary.contains_key(&"hp"));
    assert_eq!(dictionary.with_entries(HashMap::len), 1);

    assert_eq!(dictionary.remove(&"hp"), Some(2));
    assert!(dictionary.is_empty());
    assert_eq!(dictionary.get(&"hp"), None);
}

#[test]
fn property_set_to_equal_value_still_notifies() {
    let mut property: BindableProperty<i32, Sink<i32>> = BindableProperty::new(3);
    let calls = Arc::new(AtomicI32::new(0));
    let sink = Arc::clone(&calls);
    let _unregister = property.register(Sink(Box::new(move |_: &i32| {
        sink.fetch_add(1, Ordering::SeqCst);
    })));

    property.set(3);
    property.set(3);
    assert_eq!(calls.load(Ordering::SeqCst), 2);
    assert_eq!(property.handler_count(), 1);
}

#[test]
fn property_subscribers_run_in_subscription_order() {
    let mut property: BindableProperty<i32, Sink<i32>> = BindableProperty::new(0);
    let seen = Arc::new(Mutex::new(Vec::new()));
    let first = Arc::clone(&seen);
    let second = Arc::clone(&seen);
    let _a = property.register(Sink(Box::new(move |value: &i32| first.lock().unwrap().push(("a", *value)))));
    let _b = property.register(Sink(Box::new(move |value: &i32| second.lock().unwrap().push(("b", *value)))));

    property.set(4);
    assert_eq!(*seen.lock().unwrap(), vec![("a", 4), ("b", 4)]);
}

#[test]
fn list_insert_past_the_end_appends_and_reports_the_index_used() {
    let mut list: BindableList<i32, ListSink<i32>> = BindableList::from_vec(vec![1, 2]);
    let indices = Arc::new(Mutex::new(Vec::new()));
    let sink = Arc::clone(&indices);
    let _on_add = list.on_add(ListSink::Add(Box::new(move |event: &ListAdd<i32>| {
        sink.lock().unwrap().push((event.index, event.value));
    })));

    list.insert(10, 3);
    list.insert(1, 9);
    assert_eq!(list.snapshot(), vec![1, 9, 2, 3]);
    assert_eq!(*indices.lock().unwrap(), vec![(2, 3), (1, 9)]);
    assert_eq!(list.get(1), Some(9));
    assert_eq!(list.get(4), None);
}

#[test]
fn list_remove_out_of_range_changes_nothing() {
    let mut list: BindableList<i32, ListSink<i32>> = BindableList::from_vec(vec![5]);
    let removes = Arc::new(AtomicI32::new(0));
    let sink = Arc::clone(&removes);
    let _on_remove = list.on_remove(ListSink::Remove(Box::new(move |_: &ListRemove<i32>| {
        sink.fetch_add(1, Ordering::SeqCst);
    })));

    assert_eq!(list.remove_at(1), None);
    assert_eq!(list.snapshot(), vec![5]);
    assert_eq!(removes.load(Ordering::SeqCst), 0);

    assert_eq!(list.remove_at(0), Some(5));
    assert_eq!(removes.load(Ordering::SeqCst), 1);
}

#[test]
fn list_clear_on_empty_sends_nothing() {
    let mut list: BindableList<i32, ListSink<i32>> = BindableList::new();
    let clears = Arc::new(AtomicI32::new(0));
    let counts = Arc::new(AtomicI32::new(0));
    let clear_sink = Arc::clone(&clears);
    let count_sink = Arc::clone(&counts);
    let _on_clear = list.on_clear(ListSink::Clear(Box::new(move |_: &ListClear| {
        clear_sink.fetch_add(1, Ordering::SeqCst);
    })));
    let _on_count = list.on_count_changed(ListSink::Count(Box::new(move |_: &ListCountChanged| {
        count_sink.fetch_add(1, Ordering::SeqCst);
    })));

    list.clear();
    assert_eq!(clears.load(Ordering::SeqCst), 0);
    assert_eq!(counts.load(Ordering::SeqCst), 0);

    list.add(1);
    list.clear();
    assert_eq!(clears.load(Ordering::SeqCst), 1);
    assert_eq!(counts.load(Ordering::SeqCst), 2);
    assert!(list.is_empty());
}

#[test]
fn dictionary_replace_keeps_the_count_and_clear_reports_zero() {
    let mut dictionary: BindableDictionary<u32, i32, DictSink<u32, i32>> = BindableDictionary::new();
    let counts = Arc::new(Mutex::new(Vec::new()));
    let clears = Arc::new(AtomicI32::new(0));
    let removes = Arc::new(Mutex::new(Vec::new()));
    let count_sink = Arc::clone(&counts);
    let clear_sink = Arc::clone(&clears);
    let remove_sink = Arc::clone(&removes);
    let _on_count = dictionary.on_count_changed(DictSink::Count(Box::new(move |event: &DictCountChanged| {
        count_sink.lock().unwrap().push(event.count);
    })));
    let _on_clear = dictionary.on_clear(DictSink::Clear(Box::new(move |_: &DictClear| {
        clear_sink.fetch_add(1, Ordering::SeqCst);
    })));
    let _on_remove = dictionary.on_remove(DictSink::Remove(Box::new(move |event: &DictRemove<u32, i32>| {
        remove_sink.lock().unwrap().push((event.key, event.value));
    })));

    dictionary.insert(1, 10);
    dictionary.insert(2, 20);
    dictionary.insert(1, 11);
    assert_eq!(dictionary.len(), 2);
    assert_eq!(*counts.lock().unwrap(), vec![1, 2]);

    assert_eq!(dictionary.remove(&7), None);
    assert_eq!(dictionary.remove(&2), Some(20));
    assert_eq!(*removes.lock().unwrap(), vec![(2, 20)]);
    assert_eq!(*counts.lock().unwrap(), vec![1, 2, 1]);

    dictionary.clear();
    assert_eq!(clears.load(Ordering::SeqCst), 1);
    assert_eq!(*counts.lock().unwrap(), vec![1, 2, 1, 0]);
    dictionary.clear();
    assert_eq!(clears.load(Ordering::SeqCst), 1);
    assert!(dictionary.snapshot().is_empty());
}
