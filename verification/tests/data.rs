use std::sync::{Arc, Mutex};

use skryn::data::{Action, Observable, Observer, Update};

struct Recorder(Arc<Mutex<Vec<u32>>>);

impl Observer<u32> for Recorder {
    fn notify(&mut self, value: &u32) {
        self.0.lock().unwrap().push(*value);
    }
}

#[test]
fn update_replaces_the_value_and_notifies() {
    let seen = Arc::new(Mutex::new(Vec::new()));
    let mut o = Observable::new(1u32);
    let id = o.observe(Box::new(Recorder(seen.clone())));
    assert_eq!(id, 0);
    o.update(Action::Update(7));
    assert_eq!(o.get_value(), 7);
    assert_eq!(*seen.lock().unwrap(), vec![7]);
}

#[test]
fn add_and_remove_are_ignored() {
    let seen = Arc::new(Mutex::new(Vec::new()));
    let mut o = Observable::new(3u32);
    o.observe(Box::new(Recorder(seen.clone())));
    o.update(Action::Add(9));
    o.update(Action::Remove(3));
    assert_eq!(o.get_value(), 3);
    assert!(seen.lock().unwrap().is_empty());
}

#[test]
fn stopped_observers_are_not_told() {
    let first = Arc::new(Mutex::new(Vec::new()));
    let second = Arc::new(Mutex::new(Vec::new()));
    let mut o = Observable::new(0u32);
    let a = o.observe(Box::new(Recorder(first.clone())));
    let b = o.observe(Box::new(Recorder(second.clone())));
    assert_eq!((a, b), (0, 1));
    o.update(Action::Update(1));
    o.stop(a);
    o.update(Action::Update(2));
    o.stop(a);
    o.stop(42);
    assert_eq!(*first.lock().unwrap(), vec![1]);
    assert_eq!(*second.lock().unwrap(), vec![1, 2]);
    let c = o.observe(Box::new(Recorder(first.clone())));
    assert_eq!(c, 2);
}

#[test]
fn string_values_are_cloned_out() {
    let mut o = Observable::new(String::from("a"));
    o.update(Action::Update(String::from("b")));
    assert_eq!(o.get_value(), "b");
}
