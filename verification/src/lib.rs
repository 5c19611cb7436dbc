//! A study collection of small verified components, centred on a minimal
//! single-threaded task executor: a waker-driven task queue, a spawner, and
//! a timer future modelled as an explicit state machine.

pub mod adv_functions;
pub mod adv_traits;
pub mod back_of_house;
pub mod blog;
pub mod cpu;
pub mod cubesat;
pub mod enums;
pub mod executor;
pub mod files;
pub mod fixed;
pub mod front_of_house;
pub mod generics;
pub mod grep;
pub mod guessing;
pub mod gui;
pub mod hello_macro;
pub mod iterators;
pub mod keyval;
pub mod mandel;
pub mod ownership;
pub mod patterns;
pub mod rectangles;
pub mod screen;
pub mod stats;
pub mod strconv;
pub mod testing;
pub mod timer;
pub mod tracker;
pub mod types_alias;
pub mod workout;
