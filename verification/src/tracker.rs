//! A quota tracker that warns through a messenger as usage approaches a
//! maximum.

use vstd::prelude::*;

verus! {

/// A box holding one value, reached through a method.
pub struct CustomBox<T>(T);

impl<T> CustomBox<T> {
    /// Boxes a value.
    pub fn new(x: T) -> (b: CustomBox<T>)
        ensures
            b.value() == x,
    {
        CustomBox(x)
    }

    /// The held value.
    pub closed spec fn value(&self) -> T {
        self.0
    }

    /// A borrow of the held value.
    pub fn get(&self) -> (r: &T)
        ensures
            *r == self.value(),
    {
        &self.0
    }
}

/// A sink for outgoing messages.  Library users supply the implementation;
/// a test double records what was sent.
pub trait Messenger {
    /// Sends one message.
    fn send(&self, msg: &str);
}

/// How close a value is to its quota.
#[derive(Clone, Copy, Debug, PartialEq, Eq, Structural)]
pub enum QuotaLevel {
    /// Below three quarters of the quota: nothing to report.
    Fine,
    /// At least three quarters of the quota.
    Warning,
    /// At least nine tenths of the quota.
    Urgent,
    /// The quota is reached or exceeded.
    Exceeded,
}

/// Classifies `value` against `max` by the quotient `value / max`: at
/// least 1 is exceeded, at least 0.9 is urgent, at least 0.75 is a warning.
/// With `max` zero the quotient is infinite for a positive value (exceeded)
/// and undefined for zero (nothing to report).
pub fn quota_level(value: usize, max: usize) -> (level: QuotaLevel)
    ensures
        level == spec_quota_level(value as nat, max as nat),
{
    let v = value as u128;
    let m = max as u128;
    if max == 0 {
        if value > 0 {
            QuotaLevel::Exceeded
        } else {
            QuotaLevel::Fine
        }
    } else if v >= m {
        QuotaLevel::Exceeded
    } else if 10 * v >= 9 * m {
        QuotaLevel::Urgent
    } else if 4 * v >= 3 * m {
        QuotaLevel::Warning
    } else {
        QuotaLevel::Fine
    }
}

/// The quota classification: the comparisons `value / max >= 1`, `>= 9/10`
/// and `>= 3/4`, cleared of the division.
pub open spec fn spec_quota_level(value: nat, max: nat) -> QuotaLevel {
    if max == 0 {
        if value > 0 {
            QuotaLevel::Exceeded
        } else {
            QuotaLevel::Fine
        }
    } else if value >= max {
        QuotaLevel::Exceeded
    } else if 10 * value >= 9 * max {
        QuotaLevel::Urgent
    } else if 4 * value >= 3 * max {
        QuotaLevel::Warning
    } else {
        QuotaLevel::Fine
    }
}

/// Tracks a value against a fixed maximum and messages the owner as the
/// value approaches it.
pub struct LimitTracker<'a, T: Messenger> {
    messenger: &'a T,
    value: usize,
    max: usize,
}

impl<'a, T: Messenger> LimitTracker<'a, T> {
    /// The current value.
    pub closed spec fn value(&self) -> usize {
        self.value
    }

    /// The fixed maximum.
    pub closed spec fn max(&self) -> usize {
        self.max
    }

    /// A tracker starting at zero with the given maximum.
    pub fn new(messenger: &T, max: usize) -> (t: LimitTracker<T>)
        ensures
            t.value() == 0,
            t.max() == max,
    {
        LimitTracker { messenger, value: 0, max }
    }

    /// Records a new value and messages the owner when it stands at three
    /// quarters of the maximum, nine tenths of it, or at or above it.
    pub fn set_value(&mut self, value: usize)
        ensures
            final(self).value() == value,
            final(self).max() == old(self).max(),
    {
        self.value = value;

        match quota_level(self.value, self.max) {
            QuotaLevel::Exceeded => self.messenger.send("Error: over quota"),
            QuotaLevel::Urgent => self.messenger.send("Urgent: over 90% of quota"),
            QuotaLevel::Warning => self.messenger.send("Warning: over 75% of quota"),
            QuotaLevel::Fine => {},
        }
    }
}

} // verus!
