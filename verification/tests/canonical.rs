use sqlrt::hashing::{
    compare, hash, hash_vectors, weighted_vector_count, zset_of_vectors_to_strings, zset_to_rows,
    zset_to_strings, DataRows, SortOrder, ZSet,
};
use sqlrt::sqlvalue::{
    print_string, InvariantKind, RealValue, SqlError, SqlLogicTestFormat, SqlRow, SqlValue,
};

fn row1(v: SqlValue) -> SqlRow {
    let mut r = SqlRow::new();
    r.push(v);
    r
}

fn row2(a: SqlValue, b: SqlValue) -> SqlRow {
    let mut r = SqlRow::new();
    r.push(a);
    r.push(b);
    r
}

fn str_vec(items: &[&str]) -> Vec<String> {
    items.iter().map(|s| String::from(*s)).collect()
}

#[test]
fn multiplicity_weight_three() {
    for order in [SortOrder::Unordered, SortOrder::Row, SortOrder::Value] {
        let mut set: ZSet<SqlRow> = ZSet::new();
        set.insert(row1(SqlValue::Int(7)), 3);
        let rows = zset_to_strings(&set, String::from("I"), order).unwrap();
        assert_eq!(rows, vec![str_vec(&["7"]), str_vec(&["7"]), str_vec(&["7"])]);
    }
}

#[test]
fn multiplicity_weight_zero() {
    let mut set: ZSet<SqlRow> = ZSet::new();
    set.insert(row1(SqlValue::Int(7)), 0);
    let rows = zset_to_strings(&set, String::from("I"), SortOrder::Row).unwrap();
    assert!(rows.is_empty());
}

#[test]
fn negative_weight_rejected() {
    let mut set: ZSet<SqlRow> = ZSet::new();
    set.insert(row1(SqlValue::Int(1)), 1);
    set.insert(row1(SqlValue::Int(2)), -1);
    assert_eq!(
        zset_to_rows(&set).unwrap_err(),
        SqlError::InvariantViolation(InvariantKind::NegativeWeight)
    );
    assert_eq!(
        zset_to_strings(&set, String::from("I"), SortOrder::Row).unwrap_err(),
        SqlError::InvariantViolation(InvariantKind::NegativeWeight)
    );
    assert_eq!(
        hash(&set, String::from("I"), SortOrder::Row).unwrap_err(),
        SqlError::InvariantViolation(InvariantKind::NegativeWeight)
    );
}

#[test]
fn determinism_across_cursor_orders() {
    let mut a: ZSet<SqlRow> = ZSet::new();
    a.insert(row2(SqlValue::Str(String::from("Mihai")), SqlValue::Int(0)), 1);
    a.insert(row2(SqlValue::Str(String::from("Leonid")), SqlValue::Int(1)), 1);
    let mut b: ZSet<SqlRow> = ZSet::new();
    b.insert(row2(SqlValue::Str(String::from("Leonid")), SqlValue::Int(1)), 1);
    b.insert(row2(SqlValue::Str(String::from("Mihai")), SqlValue::Int(0)), 1);
    let ha = hash(&a, String::from("TI"), SortOrder::Row).unwrap();
    let hb = hash(&b, String::from("TI"), SortOrder::Row).unwrap();
    assert_eq!(ha, hb);
    let ha2 = hash(&a, String::from("TI"), SortOrder::Row).unwrap();
    assert_eq!(ha, ha2);
}

#[test]
fn comparison_shorter_row_first() {
    let ab = str_vec(&["a", "b"]);
    let a = str_vec(&["a"]);
    assert_eq!(compare(&a, &ab), std::cmp::Ordering::Less);
    assert_eq!(compare(&ab, &a), std::cmp::Ordering::Greater);
}

#[test]
fn comparison_second_column_decides() {
    let ab = str_vec(&["a", "b"]);
    let ac = str_vec(&["a", "c"]);
    assert_eq!(compare(&ab, &ac), std::cmp::Ordering::Less);
    assert_eq!(compare(&ac, &ab), std::cmp::Ordering::Greater);
    assert_eq!(compare(&ab, &ab), std::cmp::Ordering::Equal);
}

#[test]
fn null_and_format_rendering() {
    assert_eq!(
        SqlValue::OptReal(None).format_slt(&'R').unwrap(),
        String::from("NULL")
    );
    let real = RealValue::new(false, 3142, 3);
    assert_eq!(
        SqlValue::Real(real).format_slt(&'R').unwrap(),
        String::from("3.142")
    );
    assert_eq!(SqlValue::Real(real).format_slt(&'I').unwrap(), String::from("3"));
    assert_eq!(
        SqlValue::Str(String::new()).format_slt(&'T').unwrap(),
        String::from("(empty)")
    );
    assert_eq!(
        SqlValue::Str(String::from("a\u{1}b")).format_slt(&'T').unwrap(),
        String::from("a@b")
    );
}

#[test]
fn more_value_rendering() {
    assert_eq!(SqlValue::OptInt(None).format_slt(&'I').unwrap(), String::from("NULL"));
    assert_eq!(SqlValue::Int(-45).format_slt(&'I').unwrap(), String::from("-45"));
    assert_eq!(
        SqlValue::Int(i32::MIN).format_slt(&'I').unwrap(),
        String::from("-2147483648")
    );
    assert_eq!(SqlValue::Bool(true).format_slt(&'T').unwrap(), String::from("true"));
    assert_eq!(
        SqlValue::OptBool(Some(false)).format_slt(&'I').unwrap(),
        String::from("false")
    );
    assert_eq!(SqlValue::OptBool(None).format_slt(&'I').unwrap(), String::from("NULL"));
    let neg = RealValue::new(true, 500, 0);
    assert_eq!(SqlValue::Real(neg).format_slt(&'R').unwrap(), String::from("-0.500"));
}

#[test]
fn format_mismatch_on_text_with_integer_class() {
    assert_eq!(
        SqlValue::Str(String::from("x")).format_slt(&'I').unwrap_err(),
        SqlError::FormatMismatch
    );
    let mut set: ZSet<SqlRow> = ZSet::new();
    set.insert(row1(SqlValue::Str(String::from("x"))), 1);
    assert_eq!(
        zset_to_strings(&set, String::from("I"), SortOrder::Row).unwrap_err(),
        SqlError::FormatMismatch
    );
}

#[test]
fn format_length_mismatch() {
    let r = row2(SqlValue::Int(1), SqlValue::Int(2));
    assert_eq!(
        r.to_slt_strings(&String::from("I")).unwrap_err(),
        SqlError::FormatMismatch
    );
}

#[test]
fn to_slt_strings_formats_each_column() {
    let r = row2(SqlValue::Str(String::from("Mihai")), SqlValue::Int(0));
    assert_eq!(r.to_slt_strings(&String::from("TI")).unwrap(), str_vec(&["Mihai", "0"]));
}

#[test]
fn print_string_passthrough_and_replacement() {
    assert_eq!(print_string(&String::from("abc")), String::from("abc"));
    assert_eq!(print_string(&String::from("a\tb")), String::from("a@b"));
    assert_eq!(print_string(&String::from("caf\u{e9}")), String::from("caf@"));
    assert_eq!(print_string(&String::new()), String::from("(empty)"));
}

#[test]
fn vector_result_unit_weight_violation() {
    let mut set: ZSet<Vec<SqlRow>> = ZSet::new();
    set.insert(vec![row1(SqlValue::Int(1))], 2);
    assert_eq!(
        zset_of_vectors_to_strings(&set, String::from("I"), SortOrder::Unordered).unwrap_err(),
        SqlError::InvariantViolation(InvariantKind::ExpectedUnitWeight)
    );
    assert_eq!(
        hash_vectors(&set, String::from("I"), SortOrder::Unordered).unwrap_err(),
        SqlError::InvariantViolation(InvariantKind::ExpectedUnitWeight)
    );
}

#[test]
fn vector_result_preserves_vector_order() {
    let mut set: ZSet<Vec<SqlRow>> = ZSet::new();
    set.insert(vec![row1(SqlValue::Int(3)), row1(SqlValue::Int(1)), row1(SqlValue::Int(2))], 1);
    let rows = zset_of_vectors_to_strings(&set, String::from("I"), SortOrder::Unordered).unwrap();
    assert_eq!(rows, vec![str_vec(&["3"]), str_vec(&["1"]), str_vec(&["2"])]);
    let sorted = zset_of_vectors_to_strings(&set, String::from("I"), SortOrder::Row).unwrap();
    assert_eq!(sorted, vec![str_vec(&["1"]), str_vec(&["2"]), str_vec(&["3"])]);
}

#[test]
fn end_to_end_example() {
    let mut set: ZSet<SqlRow> = ZSet::new();
    set.insert(row2(SqlValue::Str(String::from("Mihai")), SqlValue::Int(0)), 1);
    set.insert(row2(SqlValue::Str(String::from("Leonid")), SqlValue::Int(1)), 1);
    let rows = zset_to_strings(&set, String::from("TI"), SortOrder::Row).unwrap();
    assert_eq!(rows, vec![str_vec(&["Leonid", "1"]), str_vec(&["Mihai", "0"])]);
    let digest = hash(&set, String::from("TI"), SortOrder::Row).unwrap();
    assert_eq!(digest, String::from("75882b126bca14319bb5a64b55de3254"));
}

#[test]
fn hash_of_empty_set() {
    let set: ZSet<SqlRow> = ZSet::new();
    let digest = hash(&set, String::from("I"), SortOrder::Row).unwrap();
    assert_eq!(digest, String::from("d41d8cd98f00b204e9800998ecf8427e"));
}

#[test]
fn hash_weight_three() {
    let mut set: ZSet<SqlRow> = ZSet::new();
    set.insert(row1(SqlValue::Int(7)), 3);
    let digest = hash(&set, String::from("I"), SortOrder::Row).unwrap();
    assert_eq!(digest, String::from("c7c43ce3cd548e197585270d98a6fed1"));
}

#[test]
fn hash_vectors_digest() {
    let mut set: ZSet<Vec<SqlRow>> = ZSet::new();
    set.insert(vec![row1(SqlValue::Int(7))], 1);
    let digest = hash_vectors(&set, String::from("I"), SortOrder::Unordered).unwrap();
    assert_eq!(digest, String::from("84bc3da1b3e33a18e8d5e1bdd7a18d7a"));
}

#[test]
fn value_flattened_explodes_and_sorts() {
    let mut set: ZSet<SqlRow> = ZSet::new();
    set.insert(row2(SqlValue::Str(String::from("b")), SqlValue::Str(String::from("a"))), 1);
    let rows = zset_to_strings(&set, String::from("TT"), SortOrder::Value).unwrap();
    assert_eq!(rows, vec![str_vec(&["a"]), str_vec(&["b"])]);
}

#[test]
fn data_rows_collects_and_sorts() {
    let mut dr = DataRows::new(String::from("I"), SortOrder::Row);
    dr.push(row1(SqlValue::Int(2))).unwrap();
    dr.push(row1(SqlValue::Int(10))).unwrap();
    dr.push(row1(SqlValue::Int(1))).unwrap();
    // String order, not numeric order: "1" < "10" < "2".
    assert_eq!(dr.get(), vec![str_vec(&["1"]), str_vec(&["10"]), str_vec(&["2"])]);
}

#[test]
fn data_rows_unordered_keeps_arrival_order() {
    let mut dr = DataRows::with_capacity(String::from("I"), SortOrder::Unordered, 2);
    dr.push(row1(SqlValue::Int(2))).unwrap();
    dr.push(row1(SqlValue::Int(1))).unwrap();
    assert_eq!(dr.get(), vec![str_vec(&["2"]), str_vec(&["1"])]);
}

#[test]
fn weighted_vector_count_sums() {
    let mut set: ZSet<Vec<SqlRow>> = ZSet::new();
    set.insert(vec![row1(SqlValue::Int(1)), row1(SqlValue::Int(2))], 3);
    set.insert(vec![row1(SqlValue::Int(3))], 5);
    assert_eq!(weighted_vector_count(&set), 11);
}

#[test]
fn hash_vectors_sorts_each_key_separately() {
    let mut set: ZSet<Vec<SqlRow>> = ZSet::new();
    set.insert(vec![row1(SqlValue::Int(2)), row1(SqlValue::Int(1))], 1);
    set.insert(vec![row1(SqlValue::Int(0)), row1(SqlValue::Int(3))], 1);
    // Each key's rows are sorted on their own: "1 2" then "0 3".
    let digest = hash_vectors(&set, String::from("I"), SortOrder::Row).unwrap();
    assert_eq!(digest, String::from("c025f33fe18f124f8e135f2974147dfe"));
}
