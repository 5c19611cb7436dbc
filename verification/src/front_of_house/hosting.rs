//! Hosting: greeting guests and seating them.

use vstd::prelude::*;

verus! {

/// Puts a guest on the waitlist and, in this small restaurant, seats them
/// straight away.
pub fn add_to_waitlist() {
    seat_at_table();
}

/// Walks a guest to a table and hands them over to serving.
pub fn seat_at_table() {
    crate::front_of_house::serving::take_order();
}

} // verus!
