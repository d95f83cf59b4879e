use closure_cacher::RefCacher;
use std::cell::Cell;

#[test]
fn length_of_an_owned_string() {
    let hello = String::from("hello");
    let mut cacher = RefCacher::new(|s: &String| s.len());
    assert_eq!(*cacher.get(&hello), 5);
}

#[test]
fn first_request_by_reference_computes() {
    let one = 1;
    let mut cacher = RefCacher::new(|x: &i32| x + 1);
    assert_eq!(cacher.get(&one), &2);
}

#[test]
fn equal_inputs_share_one_entry() {
    // Keys are compared by what they point to, not by where it lives.
    let calls = Cell::new(0u32);
    let first = String::from("hello");
    let second = String::from("hello");
    let other = String::from("hi");
    let mut cacher = RefCacher::new(|s: &String| {
        calls.set(calls.get() + 1);
        s.len()
    });
    assert_eq!(*cacher.get(&first), 5);
    assert_eq!(calls.get(), 1);
    assert_eq!(*cacher.get(&second), 5);
    assert_eq!(calls.get(), 1);
    assert_eq!(*cacher.get(&other), 2);
    assert_eq!(calls.get(), 2);
    assert_eq!(*cacher.get(&first), 5);
    assert_eq!(calls.get(), 2);
}

#[test]
fn stored_output_is_kept_even_if_the_calculator_changes_its_mind() {
    // The entry found for a stored key must hold the first output: a table
    // that handed back a fresh slot would show the second.
    let next = Cell::new(0usize);
    let key = vec![1u8, 2, 3];
    let same = vec![1u8, 2, 3];
    let mut cacher = RefCacher::new(|v: &Vec<u8>| {
        next.set(next.get() + 1);
        v.len() + next.get()
    });
    assert_eq!(*cacher.get(&key), 4);
    assert_eq!(*cacher.get(&same), 4);
    assert_eq!(*cacher.get(&key), 4);
}

#[test]
fn distinct_references_do_not_disturb_each_other() {
    let two = 2i64;
    let three = 3i64;
    let mut cacher = RefCacher::new(|x: &i64| x * x);
    assert_eq!(*cacher.get(&two), 4);
    assert_eq!(*cacher.get(&three), 9);
    assert_eq!(*cacher.get(&two), 4);
}

#[test]
fn answer_by_reference_equals_direct_computation() {
    let words = [String::from(""), String::from("a"), String::from("memo table")];
    let count = |s: &String| s.chars().filter(|c| *c != ' ').count();
    let mut cacher = RefCacher::new(count);
    for w in words.iter() {
        assert_eq!(*cacher.get(w), count(w));
    }
}
