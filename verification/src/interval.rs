//! SQL interval values: millisecond-resolution short intervals and
//! month-resolution long intervals.

use vstd::prelude::*;

verus! {

/// An interval measured in milliseconds, the difference of two timestamps.
#[derive(Clone, Copy, Debug, PartialEq, Eq, Structural, Hash)]
pub struct ShortInterval {
    milliseconds: i64,
}

impl ShortInterval {
    pub closed spec fn spec_milliseconds(&self) -> i64 {
        self.milliseconds
    }

    pub fn new(milliseconds: i64) -> (r: Self)
        ensures
            r.spec_milliseconds() == milliseconds,
    {
        Self { milliseconds }
    }

    pub fn milliseconds(&self) -> (r: i64)
        ensures
            r == self.spec_milliseconds(),
    {
        self.milliseconds
    }
}

/// An interval measured in whole months, the difference of two dates.
#[derive(Clone, Copy, Debug, PartialEq, Eq, Structural, Hash)]
pub struct LongInterval {
    months: i32,
}

impl LongInterval {
    pub closed spec fn spec_months(&self) -> i32 {
        self.months
    }

    pub fn new(months: i32) -> (r: Self)
        ensures
            r.spec_months() == months,
    {
        Self { months }
    }

    pub fn months(&self) -> (r: i32)
        ensures
            r == self.spec_months(),
    {
        self.months
    }
}

} // verus!
