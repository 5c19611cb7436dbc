//! The back of the restaurant: breakfasts and appetizers.

use vstd::prelude::*;

verus! {

/// A breakfast: the toast is the guest's choice, the fruit is the
/// kitchen's.
pub struct Breakfast {
    pub toast: String,
    pub seasonal_fruit: String,
}

impl Breakfast {
    /// The summer breakfast: the chosen toast with raspberries.
    pub fn summer(toast: &str) -> (b: Breakfast)
        ensures
            b.toast@ == toast@,
            b.seasonal_fruit@ == "raspberry"@,
    {
        Breakfast { toast: toast.to_owned(), seasonal_fruit: "raspberry".to_owned() }
    }
}

/// The appetizers on the menu.
#[derive(Debug, Clone, Copy, PartialEq, Eq, Structural)]
pub enum Appetizer {
    Soup,
    Salad,
}

} // verus!
