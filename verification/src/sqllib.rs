//! Scalar runtime helpers for compiled SQL expressions: three-valued
//! boolean logic, null-propagating arithmetic and comparisons over
//! nullable operands.

use vstd::prelude::*;
use vstd::std_specs::cmp::{OrdSpec, PartialEqSpec};
use vstd::std_specs::ops::AddSpec;
use vstd::string::StringExecFns;
use crate::interval::ShortInterval;

verus! {

/// SQL OR over nullable booleans (Kleene three-valued logic): true wins
/// over NULL, NULL wins over false.
pub open spec fn or3(left: Option<bool>, right: Option<bool>) -> Option<bool> {
    match (left, right) {
        (Some(l), Some(r)) => Some(l || r),
        (Some(true), _) => Some(true),
        (_, Some(true)) => Some(true),
        _ => None,
    }
}

/// SQL AND over nullable booleans (Kleene three-valued logic): false wins
/// over NULL, NULL wins over true.
pub open spec fn and3(left: Option<bool>, right: Option<bool>) -> Option<bool> {
    match (left, right) {
        (Some(l), Some(r)) => Some(l && r),
        (Some(false), _) => Some(false),
        (_, Some(false)) => Some(false),
        _ => None,
    }
}

/// Coerce a nullable boolean to a boolean, reading NULL as false.
pub fn wrap_bool(b: Option<bool>) -> (r: bool)
    ensures
        r == (b == Some(true)),
{
    match b {
        Some(x) => x,
        _ => false,
    }
}

pub fn or_b_b(left: bool, right: bool) -> (r: bool)
    ensures
        r == (left || right),
{
    left || right
}

pub fn or_bN_b(left: Option<bool>, right: bool) -> (r: Option<bool>)
    ensures
        r == or3(left, Some(right)),
{
    match (left, right) {
        (Some(l), r) => Some(l || r),
        (_, true) => Some(true),
        (_, _) => None::<bool>,
    }
}

pub fn or_b_bN(left: bool, right: Option<bool>) -> (r: Option<bool>)
    ensures
        r == or3(Some(left), right),
{
    match (left, right) {
        (l, Some(r)) => Some(l || r),
        (true, _) => Some(true),
        (_, _) => None::<bool>,
    }
}

pub fn or_bN_bN(left: Option<bool>, right: Option<bool>) -> (r: Option<bool>)
    ensures
        r == or3(left, right),
{
    match (left, right) {
        (Some(l), Some(r)) => Some(l || r),
        (Some(true), _) => Some(true),
        (_, Some(true)) => Some(true),
        (_, _) => None::<bool>,
    }
}

pub fn and_b_b(left: bool, right: bool) -> (r: bool)
    ensures
        r == (left && right),
{
    left && right
}

pub fn and_bN_b(left: Option<bool>, right: bool) -> (r: Option<bool>)
    ensures
        r == and3(left, Some(right)),
{
    match (left, right) {
        (Some(l), r) => Some(l && r),
        (_, false) => Some(false),
        (_, _) => None::<bool>,
    }
}

pub fn and_b_bN(left: bool, right: Option<bool>) -> (r: Option<bool>)
    ensures
        r == and3(Some(left), right),
{
    match (left, right) {
        (l, Some(r)) => Some(l && r),
        (false, _) => Some(false),
        (_, _) => None::<bool>,
    }
}

pub fn and_bN_bN(left: Option<bool>, right: Option<bool>) -> (r: Option<bool>)
    ensures
        r == and3(left, right),
{
    match (left, right) {
        (Some(l), Some(r)) => Some(l && r),
        (Some(false), _) => Some(false),
        (_, Some(false)) => Some(false),
        (_, _) => None::<bool>,
    }
}

pub fn is_null<T>(value: Option<T>) -> (r: bool)
    ensures
        r == (value is None),
{
    match value {
        Some(_) => false,
        _ => true,
    }
}

pub fn indicator<T>(value: Option<T>) -> (r: i64)
    ensures
        r == (if value is Some { 1int } else { 0int }),
{
    match value {
        None => 0,
        Some(_) => 1,
    }
}

pub fn is_true_b_(left: bool) -> (r: bool)
    ensures
        r == left,
{
    left
}

pub fn is_true_bN_(left: Option<bool>) -> (r: bool)
    ensures
        r == (left == Some(true)),
{
    match left {
        Some(true) => true,
        _ => false,
    }
}

pub fn is_false_b_(left: bool) -> (r: bool)
    ensures
        r == !left,
{
    !left
}

pub fn is_false_bN_(left: Option<bool>) -> (r: bool)
    ensures
        r == (left == Some(false)),
{
    match left {
        Some(false) => true,
        _ => false,
    }
}

pub fn is_not_true_b_(left: bool) -> (r: bool)
    ensures
        r == !left,
{
    !left
}

pub fn is_not_true_bN_(left: Option<bool>) -> (r: bool)
    ensures
        r == (left != Some(true)),
{
    match left {
        Some(true) => false,
        Some(false) => true,
        _ => true,
    }
}

pub fn is_not_false_b_(left: bool) -> (r: bool)
    ensures
        r == left,
{
    left
}

pub fn is_not_false_bN_(left: Option<bool>) -> (r: bool)
    ensures
        r == (left != Some(false)),
{
    match left {
        Some(true) => true,
        Some(false) => false,
        _ => true,
    }
}

/// SQL IS DISTINCT FROM on non-nullable operands.
pub fn is_distinct__<T: Eq>(left: T, right: T) -> (r: bool)
    ensures
        T::obeys_eq_spec() ==> r == !left.eq_spec(&right),
{
    left != right
}

/// SQL IS DISTINCT FROM: two NULLs are not distinct; a NULL is distinct
/// from every non-NULL value.
pub fn is_distinct_N_N<T: Eq>(left: Option<T>, right: Option<T>) -> (r: bool)
    ensures
        T::obeys_eq_spec() ==> r == (match (left, right) {
            (Some(a), Some(b)) => !a.eq_spec(&b),
            (None, None) => false,
            _ => true,
        }),
{
    match (left, right) {
        (Some(a), Some(b)) => a != b,
        (None, None) => false,
        _ => true,
    }
}

pub fn is_distinct__N<T: Eq>(left: T, right: Option<T>) -> (r: bool)
    ensures
        T::obeys_eq_spec() ==> r == (match right {
            Some(b) => !left.eq_spec(&b),
            None => true,
        }),
{
    match right {
        Some(b) => left != b,
        None => true,
    }
}

pub fn is_distinct_N_<T: Eq>(left: Option<T>, right: T) -> (r: bool)
    ensures
        T::obeys_eq_spec() ==> r == (match left {
            Some(a) => !a.eq_spec(&right),
            None => true,
        }),
{
    match left {
        Some(a) => a != right,
        None => true,
    }
}

/// The single element of a one-element array, NULL otherwise.
pub fn element<T: Copy>(array: Vec<T>) -> (r: Option<T>)
    ensures
        r == (if array@.len() == 1 { Some(array@[0]) } else { None::<T> }),
{
    if array.len() == 1 {
        Some(array[0])
    } else {
        None
    }
}

/// The single element of a one-element array of nullable values, NULL
/// otherwise.
pub fn elementN<T: Copy>(array: Vec<Option<T>>) -> (r: Option<T>)
    ensures
        r == (if array@.len() == 1 { array@[0] } else { None::<T> }),
{
    if array.len() == 1 {
        array[0]
    } else {
        None
    }
}

pub fn concat_s_s(left: String, right: String) -> (r: String)
    ensures
        r@ == left@ + right@,
{
    let result = left.concat(right.as_str());
    result
}

pub fn concat_sN_s(left: Option<String>, right: String) -> (r: Option<String>)
    ensures
        match left {
            Some(l) => r is Some && r.unwrap()@ == l@ + right@,
            None => r is None,
        },
{
    match left {
        Some(l) => Some(concat_s_s(l, right)),
        None => None,
    }
}

pub fn concat_s_sN(left: String, right: Option<String>) -> (r: Option<String>)
    ensures
        match right {
            Some(rr) => r is Some && r.unwrap()@ == left@ + rr@,
            None => r is None,
        },
{
    match right {
        Some(rr) => Some(concat_s_s(left, rr)),
        None => None,
    }
}

pub fn concat_sN_sN(left: Option<String>, right: Option<String>) -> (r: Option<String>)
    ensures
        match (left, right) {
            (Some(l), Some(rr)) => r is Some && r.unwrap()@ == l@ + rr@,
            _ => r is None,
        },
{
    match (left, right) {
        (None, _) => None,
        (_, None) => None,
        (Some(l), Some(rr)) => Some(concat_s_s(l, rr)),
    }
}

pub fn times_ShortInterval_i64(left: ShortInterval, right: i64) -> (r: ShortInterval)
    requires
        i64::MIN <= left.spec_milliseconds() * right <= i64::MAX,
    ensures
        r.spec_milliseconds() == left.spec_milliseconds() * right,
{
    ShortInterval::new(left.milliseconds() * right)
}

pub fn times_ShortIntervalN_i64(left: Option<ShortInterval>, right: i64) -> (r: Option<
    ShortInterval,
>)
    requires
        left is Some ==> i64::MIN <= left.unwrap().spec_milliseconds() * right <= i64::MAX,
    ensures
        match left {
            Some(x) => r is Some && r.unwrap().spec_milliseconds() == x.spec_milliseconds()
                * right,
            None => r is None,
        },
{
    match left {
        None => None,
        Some(x) => Some(times_ShortInterval_i64(x, right)),
    }
}

pub fn times_ShortInterval_i64N(left: ShortInterval, right: Option<i64>) -> (r: Option<
    ShortInterval,
>)
    requires
        right is Some ==> i64::MIN <= left.spec_milliseconds() * right.unwrap() <= i64::MAX,
    ensures
        match right {
            Some(x) => r is Some && r.unwrap().spec_milliseconds() == left.spec_milliseconds()
                * x,
            None => r is None,
        },
{
    match right {
        None => None,
        Some(x) => Some(times_ShortInterval_i64(left, x)),
    }
}

pub fn times_ShortIntervalN_i64N(left: Option<ShortInterval>, right: Option<i64>) -> (r: Option<
    ShortInterval,
>)
    requires
        left is Some && right is Some ==> i64::MIN <= left.unwrap().spec_milliseconds()
            * right.unwrap() <= i64::MAX,
    ensures
        match (left, right) {
            (Some(x), Some(y)) => r is Some && r.unwrap().spec_milliseconds()
                == x.spec_milliseconds() * y,
            _ => r is None,
        },
{
    match (left, right) {
        (None, _) => None,
        (_, None) => None,
        (Some(x), Some(y)) => Some(times_ShortInterval_i64(x, y)),
    }
}

} // verus!

verus! {

proof fn lemma_trunc_div_bounds(x: int, d: int, hi: int)
    requires
        0 < hi,
        -hi - 1 <= x <= hi,
        d != 0,
        !(x == -hi - 1 && d == -1),
    ensures
        x == 0 ==> true,
        x > 0 && d > 0 ==> 0 <= x / d <= hi,
        x < 0 && d < 0 ==> 0 <= (x * -1) / (d * -1) <= hi,
        x < 0 && d > 0 ==> -hi - 1 <= ((x * -1) / d) * -1 <= 0,
        x > 0 && d < 0 ==> -hi - 1 <= (x / (d * -1)) * -1 <= 0,
{
    broadcast use vstd::arithmetic::div_mod::lemma_div_pos_is_pos,
        vstd::arithmetic::div_mod::lemma_div_nonincreasing,
        vstd::arithmetic::div_mod::lemma_div_is_strictly_smaller;

    if x > 0 && d > 0 {
        assert(0 <= x / d <= x);
    } else if x < 0 && d < 0 {
        assert(0 <= (x * -1) / (d * -1) <= x * -1);
        if x == -hi - 1 {
            assert(d * -1 >= 2);
            assert((x * -1) / (d * -1) < x * -1);
        }
    } else if x < 0 {
        assert(0 <= (x * -1) / d <= x * -1);
    } else if x > 0 {
        assert(0 <= x / (d * -1) <= x);
    }
}

/// SQL integer division: NULL on a zero divisor, truncated quotient
/// otherwise.
pub fn div_i16_i16(left: i16, right: i16) -> (r: Option<i16>)
    requires
        !(left == i16::MIN && right == -1),
    ensures
        r is Some <==> right != 0,
        right != 0 ==> r == left.checked_div(right),
{
    if right == 0 {
        None
    } else {
        proof {
            lemma_trunc_div_bounds(left as int, right as int, i16::MAX as int);
        }
        left.checked_div(right)
    }
}

pub fn div_i32_i32(left: i32, right: i32) -> (r: Option<i32>)
    requires
        !(left == i32::MIN && right == -1),
    ensures
        r is Some <==> right != 0,
        right != 0 ==> r == left.checked_div(right),
{
    if right == 0 {
        None
    } else {
        proof {
            lemma_trunc_div_bounds(left as int, right as int, i32::MAX as int);
        }
        left.checked_div(right)
    }
}

pub fn div_i64_i64(left: i64, right: i64) -> (r: Option<i64>)
    requires
        !(left == i64::MIN && right == -1),
    ensures
        r is Some <==> right != 0,
        right != 0 ==> r == left.checked_div(right),
{
    if right == 0 {
        None
    } else {
        proof {
            lemma_trunc_div_bounds(left as int, right as int, i64::MAX as int);
        }
        left.checked_div(right)
    }
}

pub fn div_i16N_i16(left: Option<i16>, right: i16) -> (r: Option<i16>)
    requires
        !(left == Some(i16::MIN) && right == -1),
    ensures
        r is Some <==> (left is Some && right != 0),
        left is Some && right != 0 ==> r == left.unwrap().checked_div(right),
{
    match left {
        Some(l) => div_i16_i16(l, right),
        None => None,
    }
}

pub fn div_i32N_i32(left: Option<i32>, right: i32) -> (r: Option<i32>)
    requires
        !(left == Some(i32::MIN) && right == -1),
    ensures
        r is Some <==> (left is Some && right != 0),
        left is Some && right != 0 ==> r == left.unwrap().checked_div(right),
{
    match left {
        Some(l) => div_i32_i32(l, right),
        None => None,
    }
}

pub fn div_i64N_i64(left: Option<i64>, right: i64) -> (r: Option<i64>)
    requires
        !(left == Some(i64::MIN) && right == -1),
    ensures
        r is Some <==> (left is Some && right != 0),
        left is Some && right != 0 ==> r == left.unwrap().checked_div(right),
{
    match left {
        Some(l) => div_i64_i64(l, right),
        None => None,
    }
}

pub fn div_i16_i16N(left: i16, right: Option<i16>) -> (r: Option<i16>)
    requires
        !(left == i16::MIN && right == Some(-1i16)),
    ensures
        r is Some <==> (right is Some && right != Some(0i16)),
        right is Some && right != Some(0i16) ==> r == left.checked_div(right.unwrap()),
{
    match right {
        Some(rr) => div_i16_i16(left, rr),
        None => None,
    }
}

pub fn div_i32_i32N(left: i32, right: Option<i32>) -> (r: Option<i32>)
    requires
        !(left == i32::MIN && right == Some(-1i32)),
    ensures
        r is Some <==> (right is Some && right != Some(0i32)),
        right is Some && right != Some(0i32) ==> r == left.checked_div(right.unwrap()),
{
    match right {
        Some(rr) => div_i32_i32(left, rr),
        None => None,
    }
}

pub fn div_i64_i64N(left: i64, right: Option<i64>) -> (r: Option<i64>)
    requires
        !(left == i64::MIN && right == Some(-1i64)),
    ensures
        r is Some <==> (right is Some && right != Some(0i64)),
        right is Some && right != Some(0i64) ==> r == left.checked_div(right.unwrap()),
{
    match right {
        Some(rr) => div_i64_i64(left, rr),
        None => None,
    }
}

pub fn div_i16N_i16N(left: Option<i16>, right: Option<i16>) -> (r: Option<i16>)
    requires
        !(left == Some(i16::MIN) && right == Some(-1i16)),
    ensures
        r is Some <==> (left is Some && right is Some && right != Some(0i16)),
        left is Some && right is Some && right != Some(0i16) ==> r == left.unwrap().checked_div(
            right.unwrap(),
        ),
{
    match (left, right) {
        (Some(l), Some(rr)) => div_i16_i16(l, rr),
        _ => None,
    }
}

pub fn div_i32N_i32N(left: Option<i32>, right: Option<i32>) -> (r: Option<i32>)
    requires
        !(left == Some(i32::MIN) && right == Some(-1i32)),
    ensures
        r is Some <==> (left is Some && right is Some && right != Some(0i32)),
        left is Some && right is Some && right != Some(0i32) ==> r == left.unwrap().checked_div(
            right.unwrap(),
        ),
{
    match (left, right) {
        (Some(l), Some(rr)) => div_i32_i32(l, rr),
        _ => None,
    }
}

pub fn div_i64N_i64N(left: Option<i64>, right: Option<i64>) -> (r: Option<i64>)
    requires
        !(left == Some(i64::MIN) && right == Some(-1i64)),
    ensures
        r is Some <==> (left is Some && right is Some && right != Some(0i64)),
        left is Some && right is Some && right != Some(0i64) ==> r == left.unwrap().checked_div(
            right.unwrap(),
        ),
{
    match (left, right) {
        (Some(l), Some(rr)) => div_i64_i64(l, rr),
        _ => None,
    }
}

/// Absolute value; the most negative value has none and is excluded.
pub fn abs_i16_(left: i16) -> (r: i16)
    requires
        left != i16::MIN,
    ensures
        r as int == (if left < 0 {
            -(left as int)
        } else {
            left as int
        }),
{
    if left < 0 {
        -left
    } else {
        left
    }
}

pub fn abs_i32_(left: i32) -> (r: i32)
    requires
        left != i32::MIN,
    ensures
        r as int == (if left < 0 {
            -(left as int)
        } else {
            left as int
        }),
{
    if left < 0 {
        -left
    } else {
        left
    }
}

pub fn abs_i64_(left: i64) -> (r: i64)
    requires
        left != i64::MIN,
    ensures
        r as int == (if left < 0 {
            -(left as int)
        } else {
            left as int
        }),
{
    if left < 0 {
        -left
    } else {
        left
    }
}

pub fn abs_i16N_(left: Option<i16>) -> (r: Option<i16>)
    requires
        left != Some(i16::MIN),
    ensures
        r is Some <==> left is Some,
        left is Some ==> r.unwrap() as int == (if left.unwrap() < 0 {
            -(left.unwrap() as int)
        } else {
            left.unwrap() as int
        }),
{
    match left {
        Some(l) => Some(abs_i16_(l)),
        _ => None::<i16>,
    }
}

pub fn abs_i32N_(left: Option<i32>) -> (r: Option<i32>)
    requires
        left != Some(i32::MIN),
    ensures
        r is Some <==> left is Some,
        left is Some ==> r.unwrap() as int == (if left.unwrap() < 0 {
            -(left.unwrap() as int)
        } else {
            left.unwrap() as int
        }),
{
    match left {
        Some(l) => Some(abs_i32_(l)),
        _ => None::<i32>,
    }
}

pub fn abs_i64N_(left: Option<i64>) -> (r: Option<i64>)
    requires
        left != Some(i64::MIN),
    ensures
        r is Some <==> left is Some,
        left is Some ==> r.unwrap() as int == (if left.unwrap() < 0 {
            -(left.unwrap() as int)
        } else {
            left.unwrap() as int
        }),
{
    match left {
        Some(l) => Some(abs_i64_(l)),
        _ => None::<i64>,
    }
}

} // verus!

verus! {

/// Aggregation step for MAX over two nullable values: NULL is the
/// identity.
pub fn agg_max_N_N<T: Ord + Copy>(left: Option<T>, right: Option<T>) -> (r: Option<T>)
    ensures
        T::obeys_cmp_spec() ==> r == (match (left, right) {
            (None, _) => right,
            (_, None) => left,
            (Some(x), Some(y)) => Some(
                if y.cmp_spec(&x) is Less {
                    x
                } else {
                    y
                },
            ),
        }),
{
    match (left, right) {
        (None, _) => right,
        (_, None) => left,
        (Some(x), Some(y)) => Some(x.max(y)),
    }
}

/// Aggregation step for MIN over two nullable values: NULL is the
/// identity.
pub fn agg_min_N_N<T: Ord + Copy>(left: Option<T>, right: Option<T>) -> (r: Option<T>)
    ensures
        T::obeys_cmp_spec() ==> r == (match (left, right) {
            (None, _) => right,
            (_, None) => left,
            (Some(x), Some(y)) => Some(
                if y.cmp_spec(&x) is Less {
                    y
                } else {
                    x
                },
            ),
        }),
{
    match (left, right) {
        (None, _) => right,
        (_, None) => left,
        (Some(x), Some(y)) => Some(x.min(y)),
    }
}

pub fn agg_max_N_<T: Ord + Copy>(left: Option<T>, right: T) -> (r: Option<T>)
    ensures
        T::obeys_cmp_spec() ==> r == (match left {
            None => Some(right),
            Some(x) => Some(
                if right.cmp_spec(&x) is Less {
                    x
                } else {
                    right
                },
            ),
        }),
{
    match left {
        None => Some(right),
        Some(x) => Some(x.max(right)),
    }
}

pub fn agg_min_N_<T: Ord + Copy>(left: Option<T>, right: T) -> (r: Option<T>)
    ensures
        T::obeys_cmp_spec() ==> r == (match left {
            None => Some(right),
            Some(x) => Some(
                if right.cmp_spec(&x) is Less {
                    right
                } else {
                    x
                },
            ),
        }),
{
    match left {
        None => Some(right),
        Some(x) => Some(x.min(right)),
    }
}

pub fn agg_max__<T: Ord + Copy>(left: T, right: T) -> (r: T)
    ensures
        T::obeys_cmp_spec() ==> r == (if right.cmp_spec(&left) is Less {
            left
        } else {
            right
        }),
{
    left.max(right)
}

pub fn agg_min__<T: Ord + Copy>(left: T, right: T) -> (r: T)
    ensures
        T::obeys_cmp_spec() ==> r == (if right.cmp_spec(&left) is Less {
            right
        } else {
            left
        }),
{
    left.min(right)
}

/// Aggregation step for SUM over two nullable values: NULL is the
/// identity.
pub fn agg_plus_N_N<T: core::ops::Add<T, Output = T> + Copy>(
    left: Option<T>,
    right: Option<T>,
) -> (r: Option<T>)
    requires
        left is Some && right is Some ==> left.unwrap().add_req(right.unwrap()),
    ensures
        T::obeys_add_spec() ==> r == (match (left, right) {
            (None, _) => right,
            (_, None) => left,
            (Some(x), Some(y)) => Some(x.add_spec(y)),
        }),
{
    match (left, right) {
        (None, _) => right,
        (_, None) => left,
        (Some(x), Some(y)) => Some(x.add(y)),
    }
}

pub fn agg_plus_N_<T: core::ops::Add<T, Output = T> + Copy>(left: Option<T>, right: T) -> (r:
    Option<T>)
    requires
        left is Some ==> left.unwrap().add_req(right),
    ensures
        T::obeys_add_spec() ==> r == (match left {
            None => Some(right),
            Some(x) => Some(x.add_spec(right)),
        }),
{
    match left {
        None => Some(right),
        Some(x) => Some(x.add(right)),
    }
}

pub fn agg_plus__N<T: core::ops::Add<T, Output = T> + Copy>(left: T, right: Option<T>) -> (r:
    Option<T>)
    requires
        right is Some ==> left.add_req(right.unwrap()),
    ensures
        T::obeys_add_spec() ==> r == (match right {
            None => Some(left),
            Some(y) => Some(left.add_spec(y)),
        }),
{
    match right {
        None => Some(left),
        Some(y) => Some(left.add(y)),
    }
}

pub fn agg_plus__<T: core::ops::Add<T, Output = T> + Copy>(left: T, right: T) -> (r: T)
    requires
        left.add_req(right),
    ensures
        T::obeys_add_spec() ==> r == left.add_spec(right),
{
    left.add(right)
}

/// A value type with an associative combining step, as the incremental
/// aggregators use it.
pub trait Semigroup<V> {
    /// When the combining step is defined (no overflow).
    spec fn combine_req(left: V, right: V) -> bool;

    /// What the combining step yields.
    spec fn combine_spec(left: V, right: V) -> V;

    fn combine(left: &V, right: &V) -> (r: V)
        requires
            Self::combine_req(*left, *right),
        ensures
            r == Self::combine_spec(*left, *right),
    ;
}

/// Combines nullable values by addition, with NULL absorbing: one NULL
/// operand makes the result NULL.
pub struct DefaultOptSemigroup<T>(core::marker::PhantomData<T>);

impl<T: core::ops::Add<T, Output = T> + Copy> Semigroup<Option<T>> for DefaultOptSemigroup<T> {
    open spec fn combine_req(left: Option<T>, right: Option<T>) -> bool {
        T::obeys_add_spec() && (left is Some && right is Some ==> left.unwrap().add_req(
            right.unwrap(),
        ))
    }

    open spec fn combine_spec(left: Option<T>, right: Option<T>) -> Option<T> {
        match (left, right) {
            (None, _) => None,
            (_, None) => None,
            (Some(x), Some(y)) => Some(x.add_spec(y)),
        }
    }

    fn combine(left: &Option<T>, right: &Option<T>) -> (r: Option<T>) {
        match (*left, *right) {
            (None, _) => None,
            (_, None) => None,
            (Some(x), Some(y)) => Some(x.add(y)),
        }
    }
}

/// Combines pairs componentwise, each component with its own semigroup.
pub struct PairSemigroup<T, R, TS, RS>(core::marker::PhantomData<(T, R, TS, RS)>);

impl<T, R, TS: Semigroup<T>, RS: Semigroup<R>> Semigroup<(T, R)> for PairSemigroup<T, R, TS, RS> {
    open spec fn combine_req(left: (T, R), right: (T, R)) -> bool {
        TS::combine_req(left.0, right.0) && RS::combine_req(left.1, right.1)
    }

    open spec fn combine_spec(left: (T, R), right: (T, R)) -> (T, R) {
        (TS::combine_spec(left.0, right.0), RS::combine_spec(left.1, right.1))
    }

    fn combine(left: &(T, R), right: &(T, R)) -> (r: (T, R)) {
        (TS::combine(&left.0, &right.0), RS::combine(&left.1, &right.1))
    }
}

} // verus!

verus! {

/// Pushes `weight` copies of a value onto a vector, the expansion step
/// callers use when materializing weighted elements.
pub fn weighted_push<T: Copy>(vec: &mut Vec<T>, value: &T, weight: i64)
    requires
        weight >= 0,
    ensures
        final(vec)@ == old(vec)@ + Seq::new(weight as nat, |i: int| *value),
{
    let mut w: i64 = weight;
    while w > 0
        invariant
            0 <= w <= weight,
            vec@ =~= old(vec)@ + Seq::new((weight - w) as nat, |i: int| *value),
        decreases w,
    {
        vec.push(*value);
        w = w - 1;
        proof {
            assert(vec@ =~= old(vec)@ + Seq::new((weight - w) as nat, |i: int| *value));
        }
    }
    proof {
        assert(vec@ =~= old(vec)@ + Seq::new(weight as nat, |i: int| *value));
    }
}

} // verus!
