use rust_primer::functional::closures::capture;
use rust_primer::functional::closures::generate_workout;
use rust_primer::functional::closures::move_environment;
use rust_primer::functional::closures::Cacher;
use rust_primer::functional::closures::Workout;
use rust_primer::functional::iterators::iterate;
use rust_primer::functional::iterators::Counter;
use rust_primer::functional::shoes_in_my_size;
use rust_primer::functional::Shoe;
use std::cell::Cell;

#[test]
fn iterator_demo() {
    let v1: Vec<i32> = vec![1, 2, 3];
    let mut v1_iter = v1.iter();
    assert_eq!(v1_iter.next(), Some(&1));
    assert_eq!(v1_iter.next(), Some(&2));
    assert_eq!(v1_iter.next(), Some(&3));
    assert_eq!(v1_iter.next(), None);
}

#[test]
fn iterator_sum() {
    let v1 = vec![1, 2, 3];
    let v1_iter = v1.iter();
    let total: i32 = v1_iter.sum();
    assert_eq!(total, 6);
}

#[test]
fn map_sum() {
    let v1 = vec![1, 2, 3];
    let v2: Vec<i32> = v1.iter().map(|x| x + 1).collect();
    assert_eq!(v2, vec![2, 3, 4]);
}

#[test]
fn calling_next_directly() {
    let mut counter = Counter::new();
    assert_eq!(counter.next(), Some(1));
    assert_eq!(counter.next(), Some(2));
    assert_eq!(counter.next(), Some(3));
    assert_eq!(counter.next(), Some(4));
    assert_eq!(counter.next(), Some(5));
    assert_eq!(counter.next(), None);
}

/// Lets the standard adaptors drive a `Counter`.
struct Steps(Counter);

impl Iterator for Steps {
    type Item = u32;

    fn next(&mut self) -> Option<u32> {
        self.0.next()
    }
}

#[test]
fn using_other_iterator_trait_methods() {
    let sum: u32 = Steps(Counter::new())
        .zip(Steps(Counter::new()).skip(1))
        .map(|(a, b)| a * b)
        .filter(|x| x % 3 == 0)
        .sum();
    assert_eq!(18, sum);
}

#[test]
fn filters_by_size() {
    let shoes = vec![
        Shoe { size: 10, style: String::from("sneaker") },
        Shoe { size: 13, style: String::from("sandal") },
        Shoe { size: 10, style: String::from("boot") },
    ];

    let in_my_size = shoes_in_my_size(shoes, 10);

    assert_eq!(
        in_my_size,
        vec![
            Shoe { size: 10, style: String::from("sneaker") },
            Shoe { size: 10, style: String::from("boot") },
        ]
    );
}

#[test]
fn no_shoe_fits_a_size_that_is_not_there() {
    let shoes = vec![
        Shoe { size: 10, style: String::from("sneaker") },
        Shoe { size: 13, style: String::from("sandal") },
    ];
    assert_eq!(shoes_in_my_size(shoes, 11), vec![]);
    assert_eq!(shoes_in_my_size(vec![], 10), vec![]);
}

#[test]
fn counter_stays_exhausted() {
    let mut counter = Counter::new();
    for expected in 1..=5 {
        assert_eq!(counter.next(), Some(expected));
    }
    assert_eq!(counter.next(), None);
    assert_eq!(counter.next(), None);
    assert_eq!(counter.next(), None);
}

#[test]
fn iterate_visits_one_to_three() {
    assert_eq!(iterate(), vec![1, 2, 3]);
    assert_eq!(rust_primer::functional::iterators::run(), vec![1, 2, 3]);
}

#[test]
fn cacher_calculates_once_per_argument() {
    let calls = Cell::new(0u32);
    let mut cacher = Cacher::new(|n: i32| {
        calls.set(calls.get() + 1);
        n * 2
    });
    assert_eq!(cacher.value(4), 8);
    assert_eq!(calls.get(), 1);
    assert_eq!(cacher.value(4), 8);
    assert_eq!(calls.get(), 1);
    assert_eq!(cacher.value(5), 10);
    assert_eq!(calls.get(), 2);
    assert_eq!(cacher.value(4), 8);
    assert_eq!(cacher.value(5), 10);
    assert_eq!(calls.get(), 2);
}

#[test]
fn cacher_keeps_the_first_result() {
    let calls = Cell::new(0i32);
    let mut cacher = Cacher::new(|n: i32| {
        calls.set(calls.get() + 1);
        n + calls.get()
    });
    assert_eq!(cacher.value(10), 11);
    assert_eq!(cacher.value(10), 11);
    assert_eq!(cacher.value(20), 22);
    assert_eq!(cacher.value(10), 11);
}

#[test]
fn strength_day_calculates_once() {
    let calls = Cell::new(0u32);
    let plan = generate_workout(
        |n: i32| {
            calls.set(calls.get() + 1);
            n
        },
        10,
        7,
    );
    assert_eq!(plan, Workout::Strength { pushups: 10, situps: 10 });
    assert_eq!(calls.get(), 1);
}

#[test]
fn day_off_calculates_nothing() {
    let calls = Cell::new(0u32);
    let plan = generate_workout(
        |n: i32| {
            calls.set(calls.get() + 1);
            n
        },
        25,
        3,
    );
    assert_eq!(plan, Workout::Rest);
    assert_eq!(calls.get(), 0);
}

#[test]
fn cardio_day_runs_for_the_calculated_minutes() {
    let plan = generate_workout(|n: i32| n + 1, 25, 4);
    assert_eq!(plan, Workout::Cardio { minutes: 26 });
    let plan = generate_workout(|n: i32| n, 24, 3);
    assert_eq!(plan, Workout::Strength { pushups: 24, situps: 24 });
}

#[test]
fn closures_run_plans_a_strength_day() {
    assert_eq!(
        rust_primer::functional::closures::run(),
        Workout::Strength { pushups: 10, situps: 10 }
    );
    capture();
    move_environment();
}
