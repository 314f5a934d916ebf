//! The boolean slice of the scalar runtime, as the compiler links it for
//! queries that only need boolean logic and simple aggregation steps.

use vstd::prelude::*;
use vstd::std_specs::cmp::OrdSpec;
use vstd::std_specs::ops::AddSpec;
use crate::sqllib::{and3, or3};

verus! {

pub fn or_b_b(left: bool, right: bool) -> (r: bool)
    ensures
        r == (left || right),
{
    left || right
}

pub fn or_bN_b(left: Option<bool>, right: bool) -> (r: Option<bool>)
    ensures
        r == or3(left, Some(right)),
{
    match (left, right) {
        (Some(l), r) => Some(l || r),
        (_, true) => Some(true),
        (_, _) => None::<bool>,
    }
}

pub fn or_b_bN(left: bool, right: Option<bool>) -> (r: Option<bool>)
    ensures
        r == or3(Some(left), right),
{
    match (left, right) {
        (l, Some(r)) => Some(l || r),
        (true, _) => Some(true),
        (_, _) => None::<bool>,
    }
}

pub fn or_bN_bN(left: Option<bool>, right: Option<bool>) -> (r: Option<bool>)
    ensures
        r == or3(left, right),
{
    match (left, right) {
        (Some(l), Some(r)) => Some(l || r),
        (Some(true), _) => Some(true),
        (_, Some(true)) => Some(true),
        (_, _) => None::<bool>,
    }
}

pub fn and_b_b(left: bool, right: bool) -> (r: bool)
    ensures
        r == (left && right),
{
    left && right
}

pub fn and_bN_b(left: Option<bool>, right: bool) -> (r: Option<bool>)
    ensures
        r == and3(left, Some(right)),
{
    match (left, right) {
        (Some(l), r) => Some(l && r),
        (_, false) => Some(false),
        (_, _) => None::<bool>,
    }
}

pub fn and_b_bN(left: bool, right: Option<bool>) -> (r: Option<bool>)
    ensures
        r == and3(Some(left), right),
{
    match (left, right) {
        (l, Some(r)) => Some(l && r),
        (false, _) => Some(false),
        (_, _) => None::<bool>,
    }
}

pub fn and_bN_bN(left: Option<bool>, right: Option<bool>) -> (r: Option<bool>)
    ensures
        r == and3(left, right),
{
    match (left, right) {
        (Some(l), Some(r)) => Some(l && r),
        (Some(false), _) => Some(false),
        (_, Some(false)) => Some(false),
        (_, _) => None::<bool>,
    }
}

pub fn is_null<T>(value: Option<T>) -> (r: bool)
    ensures
        r == (value is None),
{
    match value {
        Some(_) => false,
        _ => true,
    }
}

pub fn indicator<T>(value: Option<T>) -> (r: i64)
    ensures
        r == (if value is Some { 1int } else { 0int }),
{
    match value {
        None => 0,
        Some(_) => 1,
    }
}

pub fn agg_max_N_N<T: Ord + Copy>(left: Option<T>, right: Option<T>) -> (r: Option<T>)
    ensures
        T::obeys_cmp_spec() ==> r == (match (left, right) {
            (None, _) => right,
            (_, None) => left,
            (Some(x), Some(y)) => Some(
                if y.cmp_spec(&x) is Less {
                    x
                } else {
                    y
                },
            ),
        }),
{
    match (left, right) {
        (None, _) => right,
        (_, None) => left,
        (Some(x), Some(y)) => Some(x.max(y)),
    }
}

pub fn agg_min_N_N<T: Ord + Copy>(left: Option<T>, right: Option<T>) -> (r: Option<T>)
    ensures
        T::obeys_cmp_spec() ==> r == (match (left, right) {
            (None, _) => right,
            (_, None) => left,
            (Some(x), Some(y)) => Some(
                if y.cmp_spec(&x) is Less {
                    y
                } else {
                    x
                },
            ),
        }),
{
    match (left, right) {
        (None, _) => right,
        (_, None) => left,
        (Some(x), Some(y)) => Some(x.min(y)),
    }
}

pub fn agg_max_N_<T: Ord + Copy>(left: Option<T>, right: T) -> (r: Option<T>)
    ensures
        T::obeys_cmp_spec() ==> r == (match left {
            None => Some(right),
            Some(x) => Some(
                if right.cmp_spec(&x) is Less {
                    x
                } else {
                    right
                },
            ),
        }),
{
    match left {
        None => Some(right),
        Some(x) => Some(x.max(right)),
    }
}

pub fn agg_min_N_<T: Ord + Copy>(left: Option<T>, right: T) -> (r: Option<T>)
    ensures
        T::obeys_cmp_spec() ==> r == (match left {
            None => Some(right),
            Some(x) => Some(
                if right.cmp_spec(&x) is Less {
                    right
                } else {
                    x
                },
            ),
        }),
{
    match left {
        None => Some(right),
        Some(x) => Some(x.min(right)),
    }
}

pub fn agg_plus_N_N<T: core::ops::Add<T, Output = T> + Copy>(
    left: Option<T>,
    right: Option<T>,
) -> (r: Option<T>)
    requires
        left is Some && right is Some ==> left.unwrap().add_req(right.unwrap()),
    ensures
        T::obeys_add_spec() ==> r == (match (left, right) {
            (None, _) => right,
            (_, None) => left,
            (Some(x), Some(y)) => Some(x.add_spec(y)),
        }),
{
    match (left, right) {
        (None, _) => right,
        (_, None) => left,
        (Some(x), Some(y)) => Some(x.add(y)),
    }
}

pub fn agg_plus_N_<T: core::ops::Add<T, Output = T> + Copy>(left: Option<T>, right: T) -> (r:
    Option<T>)
    requires
        left is Some ==> left.unwrap().add_req(right),
    ensures
        T::obeys_add_spec() ==> r == (match left {
            None => Some(right),
            Some(x) => Some(x.add_spec(right)),
        }),
{
    match left {
        None => Some(right),
        Some(x) => Some(x.add(right)),
    }
}

pub fn agg_plus__N<T: core::ops::Add<T, Output = T> + Copy>(left: T, right: Option<T>) -> (r:
    Option<T>)
    requires
        right is Some ==> left.add_req(right.unwrap()),
    ensures
        T::obeys_add_spec() ==> r == (match right {
            None => Some(left),
            Some(y) => Some(left.add_spec(y)),
        }),
{
    match right {
        None => Some(left),
        Some(y) => Some(left.add(y)),
    }
}

pub fn agg_plus__<T: core::ops::Add<T, Output = T> + Copy>(left: T, right: T) -> (r: T)
    requires
        left.add_req(right),
    ensures
        T::obeys_add_spec() ==> r == left.add_spec(right),
{
    left.add(right)
}

} // verus!
