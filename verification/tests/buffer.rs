use luma::buffer::{grown_contents, offset_of, size_of_vec, BufferState, PushStep};
use luma::registry::Registry;

#[test]
fn size_of_vec_counts_bytes() {
    let v: Vec<u32> = vec![1, 2, 3];
    assert_eq!(size_of_vec(&v), 12);
    let w: Vec<[f32; 2]> = vec![[0.0, 1.0]; 5];
    assert_eq!(size_of_vec(&w), 40);
    let e: Vec<u64> = Vec::new();
    assert_eq!(size_of_vec(&e), 0);
}

#[test]
fn offset_after_elements() {
    assert_eq!(offset_of::<u32>(4), 16);
    assert_eq!(offset_of::<[f32; 5]>(3), 60);
    assert_eq!(offset_of::<u8>(0), 0);
}

#[test]
fn push_that_fits_is_written_after_the_stored_values() {
    let mut state = BufferState { len: 2, capacity: 16 };
    assert_eq!(state.push(4), PushStep::Write { offset: 8 });
    assert_eq!(state, BufferState { len: 3, capacity: 16 });
    assert_eq!(state.push(4), PushStep::Write { offset: 12 });
    assert_eq!(state, BufferState { len: 4, capacity: 16 });
}

#[test]
fn push_past_capacity_grows() {
    let mut state = BufferState { len: 4, capacity: 16 };
    assert_eq!(state.push(4), PushStep::Grow { new_capacity: 36 });
    assert_eq!(state, BufferState { len: 5, capacity: 36 });
    assert_eq!(state.push(4), PushStep::Write { offset: 20 });
    let mut empty = BufferState { len: 0, capacity: 0 };
    assert_eq!(empty.push(1), PushStep::Grow { new_capacity: 1 });
    assert_eq!(empty, BufferState { len: 1, capacity: 1 });
}

#[test]
fn growing_appends_right_after_the_stored_values() {
    let mut state = BufferState { len: 1, capacity: 4 };
    let step = state.push(4);
    assert_eq!(step, PushStep::Grow { new_capacity: 12 });
    let grown = grown_contents(&[1, 2, 3, 4], 4, &[9, 9, 9, 9], 12);
    assert_eq!(grown, vec![1, 2, 3, 4, 9, 9, 9, 9, 0, 0, 0, 0]);
}

#[test]
fn growing_drops_bytes_past_the_stored_values() {
    let grown = grown_contents(&[1, 2, 3, 4, 5, 6], 4, &[7], 11);
    assert_eq!(grown, vec![1, 2, 3, 4, 7, 0, 0, 0, 0, 0, 0]);
}

#[test]
fn growing_an_empty_buffer() {
    assert_eq!(grown_contents(&[], 0, &[5, 6], 2), vec![5, 6]);
}

#[test]
fn registry_finds_what_was_inserted() {
    let mut r: Registry<u32> = Registry::new();
    assert!(!r.contains_key("Triangle"));
    assert_eq!(r.get("Triangle"), None);
    r.insert("Triangle", 1);
    r.insert("Quad", 2);
    assert!(r.contains_key("Triangle"));
    assert_eq!(r.get("Triangle"), Some(&1));
    assert_eq!(r.get("Quad"), Some(&2));
    assert_eq!(r.get("Tri"), None);
}

#[test]
fn registry_insert_replaces() {
    let mut r: Registry<String> = Registry::new();
    r.insert("a", "first".to_string());
    r.insert("b", "other".to_string());
    r.insert("a", "second".to_string());
    assert_eq!(r.get("a").map(|s| s.as_str()), Some("second"));
    assert_eq!(r.get("b").map(|s| s.as_str()), Some("other"));
}

#[test]
fn registry_makes_one_resource_per_name() {
    let mut r: Registry<u32> = Registry::new();
    let mut calls = 0;
    let first = r.insert_if_absent_with("Triangle", || {
        calls += 1;
        7
    });
    assert!(first.is_none());
    let second = r.insert_if_absent_with("Triangle", || {
        calls += 1;
        8
    });
    assert!(second.is_some());
    assert_eq!(calls, 1);
    assert_eq!(r.get("Triangle"), Some(&7));
}

#[test]
fn registry_hands_back_the_uncalled_factory() {
    let mut r: Registry<String> = Registry::new();
    r.insert("a", "kept".to_string());
    let unused = r.insert_if_absent_with("a", || "replaced".to_string());
    let make = unused.expect("the name was taken");
    assert_eq!(make(), "replaced");
    assert_eq!(r.get("a").map(|s| s.as_str()), Some("kept"));
}
