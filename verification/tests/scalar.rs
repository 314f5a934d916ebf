use sqlrt::interval::ShortInterval;
use sqlrt::sqllib;
use sqlrt::sqllib::{DefaultOptSemigroup, PairSemigroup, Semigroup};
use sqlrt::sqllibbool;

#[test]
fn three_valued_or() {
    assert_eq!(sqllib::or_b_b(false, true), true);
    assert_eq!(sqllib::or_bN_bN(Some(true), None), Some(true));
    assert_eq!(sqllib::or_bN_bN(None, Some(true)), Some(true));
    assert_eq!(sqllib::or_bN_bN(Some(false), None), None);
    assert_eq!(sqllib::or_bN_bN(None, Some(false)), None);
    assert_eq!(sqllib::or_bN_bN(Some(false), Some(false)), Some(false));
    assert_eq!(sqllib::or_bN_b(None, true), Some(true));
    assert_eq!(sqllib::or_b_bN(true, None), Some(true));
}

#[test]
fn three_valued_and() {
    assert_eq!(sqllib::and_b_b(true, false), false);
    assert_eq!(sqllib::and_bN_bN(Some(false), None), Some(false));
    assert_eq!(sqllib::and_bN_bN(None, Some(false)), Some(false));
    assert_eq!(sqllib::and_bN_bN(Some(true), None), None);
    assert_eq!(sqllib::and_bN_bN(Some(true), Some(true)), Some(true));
    assert_eq!(sqllib::and_bN_b(None, false), Some(false));
    assert_eq!(sqllib::and_b_bN(false, None), Some(false));
}

#[test]
fn null_tests() {
    assert!(sqllib::is_null::<i32>(None));
    assert!(!sqllib::is_null(Some(3)));
    assert_eq!(sqllib::indicator::<i32>(None), 0);
    assert_eq!(sqllib::indicator(Some(3)), 1);
    assert_eq!(sqllib::wrap_bool(None), false);
    assert_eq!(sqllib::wrap_bool(Some(true)), true);
}

#[test]
fn truth_predicates() {
    assert!(sqllib::is_true_bN_(Some(true)));
    assert!(!sqllib::is_true_bN_(None));
    assert!(sqllib::is_false_bN_(Some(false)));
    assert!(!sqllib::is_false_bN_(None));
    assert!(sqllib::is_not_true_bN_(None));
    assert!(sqllib::is_not_false_bN_(None));
    assert!(sqllib::is_not_false_b_(true));
    assert!(sqllib::is_not_true_b_(false));
}

#[test]
fn distinctness() {
    assert!(sqllib::is_distinct__(1, 2));
    assert!(!sqllib::is_distinct__(2, 2));
    assert!(!sqllib::is_distinct_N_N::<i32>(None, None));
    assert!(sqllib::is_distinct_N_N(Some(1), None));
    assert!(sqllib::is_distinct__N(1, None));
    assert!(!sqllib::is_distinct_N_(Some(1), 1));
}

#[test]
fn integer_division() {
    assert_eq!(sqllib::div_i32_i32(7, 2), Some(3));
    assert_eq!(sqllib::div_i32_i32(-7, 2), Some(-3));
    assert_eq!(sqllib::div_i32_i32(7, 0), None);
    assert_eq!(sqllib::div_i16_i16(-9, -2), Some(4));
    assert_eq!(sqllib::div_i64_i64(100, -7), Some(-14));
    assert_eq!(sqllib::div_i32N_i32(Some(9), 3), Some(3));
    assert_eq!(sqllib::div_i32N_i32(None, 3), None);
    assert_eq!(sqllib::div_i32_i32N(9, Some(0)), None);
    assert_eq!(sqllib::div_i32N_i32N(Some(9), Some(2)), Some(4));
    assert_eq!(sqllib::div_i16N_i16(Some(8), 0), None);
    assert_eq!(sqllib::div_i64N_i64N(None, Some(2)), None);
}

#[test]
fn absolute_values() {
    assert_eq!(sqllib::abs_i16_(-5), 5);
    assert_eq!(sqllib::abs_i32_(5), 5);
    assert_eq!(sqllib::abs_i64_(-12345678901), 12345678901);
    assert_eq!(sqllib::abs_i16N_(Some(-2)), Some(2));
    assert_eq!(sqllib::abs_i32N_(None), None);
    assert_eq!(sqllib::abs_i64N_(Some(-1)), Some(1));
}

#[test]
fn string_concat() {
    assert_eq!(
        sqllib::concat_s_s(String::from("foo"), String::from("bar")),
        String::from("foobar")
    );
    assert_eq!(
        sqllib::concat_sN_s(Some(String::from("a")), String::from("b")),
        Some(String::from("ab"))
    );
    assert_eq!(sqllib::concat_s_sN(String::from("a"), None), None);
    assert_eq!(sqllib::concat_sN_sN(None, Some(String::from("b"))), None);
}

#[test]
fn array_element() {
    assert_eq!(sqllib::element(vec![5]), Some(5));
    assert_eq!(sqllib::element::<i32>(vec![]), None);
    assert_eq!(sqllib::element(vec![1, 2]), None);
    assert_eq!(sqllib::elementN(vec![Some(5)]), Some(5));
    assert_eq!(sqllib::elementN(vec![None::<i32>]), None);
    assert_eq!(sqllib::elementN(vec![Some(1), Some(2)]), None);
}

#[test]
fn interval_scaling() {
    let iv = ShortInterval::new(1000);
    assert_eq!(sqllib::times_ShortInterval_i64(iv, 3).milliseconds(), 3000);
    assert_eq!(
        sqllib::times_ShortIntervalN_i64(Some(iv), 2).map(|x| x.milliseconds()),
        Some(2000)
    );
    assert_eq!(sqllib::times_ShortInterval_i64N(iv, None), None);
    assert_eq!(
        sqllib::times_ShortIntervalN_i64N(Some(iv), Some(4)).map(|x| x.milliseconds()),
        Some(4000)
    );
}

#[test]
fn aggregation_steps() {
    assert_eq!(sqllib::agg_max_N_N(Some(3), Some(5)), Some(5));
    assert_eq!(sqllib::agg_max_N_N(None, Some(5)), Some(5));
    assert_eq!(sqllib::agg_min_N_N(Some(3), Some(5)), Some(3));
    assert_eq!(sqllib::agg_min_N_N(Some(3), None), Some(3));
    assert_eq!(sqllib::agg_max_N_(None, 4), Some(4));
    assert_eq!(sqllib::agg_min_N_(Some(2), 4), Some(2));
    assert_eq!(sqllib::agg_max__(2, 4), 4);
    assert_eq!(sqllib::agg_min__(2, 4), 2);
    assert_eq!(sqllib::agg_plus_N_N(Some(2), Some(4)), Some(6));
    assert_eq!(sqllib::agg_plus_N_N(None, Some(4)), Some(4));
    assert_eq!(sqllib::agg_plus_N_(None, 4), Some(4));
    assert_eq!(sqllib::agg_plus__N(2, None), Some(2));
    assert_eq!(sqllib::agg_plus__(2, 4), 6);
}

#[test]
fn boolean_library_mirrors_core() {
    assert_eq!(sqllibbool::or_bN_bN(None, Some(true)), Some(true));
    assert_eq!(sqllibbool::and_bN_bN(None, Some(false)), Some(false));
    assert_eq!(sqllibbool::or_bN_b(Some(false), false), Some(false));
    assert_eq!(sqllibbool::and_b_bN(true, Some(true)), Some(true));
    assert!(sqllibbool::is_null::<bool>(None));
    assert_eq!(sqllibbool::indicator(Some(1)), 1);
    assert_eq!(sqllibbool::agg_max_N_N(Some(1), Some(2)), Some(2));
    assert_eq!(sqllibbool::agg_min_N_(None, 7), Some(7));
    assert_eq!(sqllibbool::agg_plus_N_N(Some(1), Some(2)), Some(3));
    assert_eq!(sqllibbool::agg_plus__(1, 2), 3);
}

#[test]
fn semigroup_combines() {
    assert_eq!(DefaultOptSemigroup::<i32>::combine(&Some(2), &Some(3)), Some(5));
    assert_eq!(DefaultOptSemigroup::<i32>::combine(&None, &Some(3)), None);
    assert_eq!(DefaultOptSemigroup::<i32>::combine(&Some(3), &None), None);
    let combined = PairSemigroup::<
        Option<i32>,
        Option<i64>,
        DefaultOptSemigroup<i32>,
        DefaultOptSemigroup<i64>,
    >::combine(&(Some(1), Some(2i64)), &(Some(3), None));
    assert_eq!(combined, (Some(4), None));
}

#[test]
fn weighted_push_expands() {
    let mut v: Vec<i32> = vec![9];
    sqllib::weighted_push(&mut v, &5, 3);
    assert_eq!(v, vec![9, 5, 5, 5]);
    sqllib::weighted_push(&mut v, &1, 0);
    assert_eq!(v, vec![9, 5, 5, 5]);
}
