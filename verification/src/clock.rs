//! Answers computed at the time the system clock reads, each carried with
//! the reading it was computed at.

use vstd::prelude::*;
use vstd::std_specs::cmp::PartialEqSpecImpl;

verus! {

/// An answer computed at the time the system clock read: the reading (`None`
/// where the clock reads before the epoch) and the answer at that reading
/// (`None` where there is no reading or none can be computed at it).
#[derive(Debug)]
pub struct ClockAnswer<T> {
    pub reading: Option<i64>,
    pub answer: Option<T>,
}

impl<T> ClockAnswer<T> {
    /// Whether there is an answer.
    pub fn is_some(&self) -> (r: bool)
        ensures
            r == self.answer is Some,
    {
        self.answer.is_some()
    }

    /// The answer, where there is one.
    pub fn unwrap(self) -> (r: T)
        requires
            self.answer is Some,
        ensures
            self.answer == Some(r),
    {
        self.answer.unwrap()
    }

    /// The answer, where there is one (`msg` tells what went wrong otherwise).
    pub fn expect(self, msg: &str) -> (r: T)
        requires
            self.answer is Some,
        ensures
            self.answer == Some(r),
    {
        self.answer.expect(msg)
    }
}

/// A clock answer equals an optional value when its answer is that value.
impl PartialEq<Option<i64>> for ClockAnswer<i64> {
    fn eq(&self, other: &Option<i64>) -> (r: bool) {
        match (&self.answer, other) {
            (Some(a), Some(b)) => *a == *b,
            (None, None) => true,
            _ => false,
        }
    }
}

impl PartialEqSpecImpl<Option<i64>> for ClockAnswer<i64> {
    open spec fn obeys_eq_spec() -> bool {
        true
    }

    open spec fn eq_spec(&self, other: &Option<i64>) -> bool {
        self.answer == *other
    }
}

/// A clock answer equals an optional value when its answer is that value.
impl PartialEq<Option<bool>> for ClockAnswer<bool> {
    fn eq(&self, other: &Option<bool>) -> (r: bool) {
        match (&self.answer, other) {
            (Some(a), Some(b)) => *a == *b,
            (None, None) => true,
            _ => false,
        }
    }
}

impl PartialEqSpecImpl<Option<bool>> for ClockAnswer<bool> {
    open spec fn obeys_eq_spec() -> bool {
        true
    }

    open spec fn eq_spec(&self, other: &Option<bool>) -> bool {
        self.answer == *other
    }
}

} // verus!
