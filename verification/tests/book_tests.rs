//! The behaviour tests of the study collection.

use std::cell::RefCell;
use studies::grep::{search, search_case_insensitive};
use studies::iterators::{shoes_in_my_size, CounterTo5, IteratorExample, Shoe};
use studies::keyval::parity_bit;
use studies::testing::{add_two, Rect};
use studies::tracker::{LimitTracker, Messenger};
use studies::workout::Cacher;

#[test]
fn check_parity_bit() {
    let abc = b"abc";
    assert_eq!(abc, &[97u8, 98, 99]);
    assert_eq!(parity_bit(abc), 1);

    let abcd = b"abcd";
    assert_eq!(abcd, &[97u8, 98, 99, 100]);
    assert_eq!(parity_bit(abcd), 0);
}

#[test]
fn case_insensitive() {
    let query = "ruSt";
    let contents = "\
Rust:
safe, fast, productive.
Pick three.
Trust me.";

    assert_eq!(
        vec!["Rust:", "Trust me."],
        search_case_insensitive(query, contents)
    );
}

#[test]
fn case_sensitive() {
    let query = "duct";
    let contents = "\
Rust:
safe, fast, productive.
Pick three.
Duct me.";

    assert_eq!(vec!["safe, fast, productive."], search(query, contents));
}

#[test]
// Cacher should work with different inputs
fn call_with_defferent_values() {
    let mut c = Cacher::new(|a| a);

    let v1 = c.value(1);
    let v2 = c.value(2);

    assert_eq!(v1, 1);
    assert_eq!(v2, 2);
}

#[test]
fn call_iterator_next() {
    let v1 = vec![1, 2, 3];

    let mut v1_iter = v1.iter();

    assert_eq!(v1_iter.next(), Some(&1));
    assert_eq!(v1_iter.next(), Some(&2));
    assert_eq!(v1_iter.next(), Some(&3));
    assert_eq!(v1_iter.next(), None);
}

#[test]
fn call_iterator_sum() {
    let v1 = vec![1, 2, 3];

    let v1_iter = v1.iter();
    let total: i32 = v1_iter.sum();
    assert_eq!(total, 6);
}

#[test]
fn call_iterator_map() {
    let v1 = vec![1, 2, 3];

    let v1_map = v1.iter().map(|x| x + 1);

    let v2: Vec<_> = v1_map.collect();

    assert_eq!(v2, vec![2, 3, 4]);
}

#[test]
fn filters_by_size() {
    let shoes = vec![
        Shoe {
            size: 10,
            style: String::from("sneaker"),
        },
        Shoe {
            size: 13,
            style: String::from("sandal"),
        },
        Shoe {
            size: 10,
            style: String::from("boot"),
        },
    ];

    let in_my_size = shoes_in_my_size(shoes, 10);

    assert_eq!(
        in_my_size,
        vec![
            Shoe {
                size: 10,
                style: String::from("sneaker"),
            },
            Shoe {
                size: 10,
                style: String::from("boot"),
            },
        ]
    );
}

#[test]
fn custom_counter() {
    let mut counter = CounterTo5::new();

    assert_eq!(counter.next(), Some(1));
    assert_eq!(counter.next(), Some(2));
    assert_eq!(counter.next(), Some(3));
    assert_eq!(counter.next(), Some(4));
    assert_eq!(counter.next(), Some(5));
    assert_eq!(counter.next(), None);
}

#[test]
fn methods_with_custom_counter() {
    // The standard adaptors would chain zip, skip, map, filter and sum;
    // the counter here offers `next` alone, so the same pipeline is spelled
    // out: pair this counter with another counter that skips its first
    // element, multiply the pairs, keep the products divisible by three,
    // and add them up.
    let mut first = CounterTo5::new();
    let mut second = CounterTo5::new();
    second.next();

    let mut sum: u32 = 0;
    loop {
        let a = match first.next() {
            Some(a) => a,
            None => break,
        };
        let b = match second.next() {
            Some(b) => b,
            None => break,
        };
        let product = a * b;
        if product % 3 == 0 {
            sum += product;
        }
    }

    assert_eq!(sum, 18);
}

struct MockMessenger {
    sent_messages: RefCell<Vec<String>>,
}

impl MockMessenger {
    fn new() -> MockMessenger {
        MockMessenger {
            sent_messages: RefCell::new(vec![]),
        }
    }
}

impl Messenger for MockMessenger {
    fn send(&self, message: &str) {
        self.sent_messages.borrow_mut().push(String::from(message));
    }
}

#[test]
fn interior_mutability() {
    let mock_messenger = MockMessenger::new();
    let mut limit_tracker = LimitTracker::new(&mock_messenger, 100);

    limit_tracker.set_value(80);

    assert_eq!(mock_messenger.sent_messages.borrow().len(), 1);
}

#[test]
fn lib_can_add_two() {
    assert_eq!(add_two(2), 4);
    assert_ne!(add_two(3), 4);
}

#[test]
fn two_plus_two() -> Result<(), String> {
    if 2 + 2 == 4 {
        Ok(())
    } else {
        Err(String::from("Two plus two is not four"))
    }
}

#[test]
fn smaller_cannot_hold_larger() {
    let a = Rect {
        width: 10,
        height: 9,
    };
    let b = Rect {
        width: 5,
        height: 4,
    };
    assert!(!b.can_hold(&a));
}

#[test]
fn larger_can_hold_smaller() {
    let a = Rect {
        width: 10,
        height: 9,
    };
    let b = Rect {
        width: 5,
        height: 4,
    };
    assert!(a.can_hold(&b));
}
