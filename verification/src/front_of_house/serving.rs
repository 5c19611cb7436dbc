//! Serving: taking orders, serving them, and taking payment.

use vstd::prelude::*;

verus! {

/// Takes the order, then serves it and settles the bill.
pub fn take_order() {
    serve_order();
    take_payment();
}

/// Brings the order to the table.
pub fn serve_order() {
}

/// Settles the bill.
pub fn take_payment() {
}

} // verus!
