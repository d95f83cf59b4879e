use closure_cacher::Cacher;
use std::cell::Cell;

#[test]
fn returns_closure_output_with_input_copy() {
    let mut cacher = Cacher::new(|x| x + 1);
    assert_eq!(cacher.get(&5), &6);
}

#[test]
fn returns_closure_output_with_input_referenced() {
    let mut cacher = Cacher::new(|x| x + 1);
    assert_eq!(cacher.get(&5), &6);
}

#[test]
fn first_request_computes() {
    let mut cacher = Cacher::new(|x: i32| x + 1);
    assert_eq!(cacher.get(&1), &2);
}

#[test]
fn second_request_does_not_run_the_calculator() {
    let calls = Cell::new(0u32);
    let mut cacher = Cacher::new(|x: i32| {
        calls.set(calls.get() + 1);
        x + 1
    });
    assert_eq!(calls.get(), 0);
    assert_eq!(*cacher.get(&5), 6);
    assert_eq!(calls.get(), 1);
    assert_eq!(*cacher.get(&5), 6);
    assert_eq!(calls.get(), 1);
}

#[test]
fn construction_runs_nothing() {
    let calls = Cell::new(0u32);
    let _cacher: Cacher<u8, u8, _> = Cacher::new(|x: u8| {
        calls.set(calls.get() + 1);
        x
    });
    assert_eq!(calls.get(), 0);
}

#[test]
fn answer_equals_direct_computation() {
    let square = |x: u64| x * x + 3;
    let mut cacher = Cacher::new(square);
    for x in [0u64, 1, 2, 17, 1000] {
        assert_eq!(*cacher.get(&x), square(x));
    }
}

#[test]
fn distinct_inputs_do_not_disturb_each_other() {
    let mut cacher = Cacher::new(|x: i64| x * x);
    assert_eq!(*cacher.get(&2), 4);
    assert_eq!(*cacher.get(&3), 9);
    assert_eq!(*cacher.get(&2), 4);
}

#[test]
fn each_distinct_input_is_computed_once() {
    let calls = Cell::new(0u32);
    let mut cacher = Cacher::new(|x: u16| {
        calls.set(calls.get() + 1);
        x * 2
    });
    for round in 0..3 {
        for x in [4u16, 9, 4, 11, 9] {
            assert_eq!(*cacher.get(&x), x * 2);
        }
        assert_eq!(calls.get(), 3, "round {}", round);
    }
}

#[test]
fn repeated_requests_return_the_first_output() {
    // A calculator that is not deterministic shows where answers come from:
    // every later request repeats the first output.
    let next = Cell::new(10u32);
    let mut cacher = Cacher::new(|_x: u8| {
        next.set(next.get() + 1);
        next.get()
    });
    assert_eq!(*cacher.get(&0), 11);
    assert_eq!(*cacher.get(&1), 12);
    assert_eq!(*cacher.get(&0), 11);
    assert_eq!(*cacher.get(&1), 12);
    assert_eq!(*cacher.get(&0), 11);
    assert_eq!(next.get(), 12);
}

#[test]
fn outputs_need_not_be_copyable() {
    let mut cacher = Cacher::new(|n: usize| "ab".repeat(n));
    assert_eq!(cacher.get(&2), "abab");
    assert_eq!(cacher.get(&0), "");
    assert_eq!(cacher.get(&2), "abab");
}
