//! Dynamically-typed SQL display values.  A `SqlValue` holds one scalar as
//! it appears in a query result; a `SqlRow` holds one result row.  Values
//! are not computed with, only rendered: the formatter turns a row into the
//! display strings of the conformance-test output format.

use vstd::prelude::*;
use vstd::string::{StrSliceExecFns, StringExecFns};
use crate::strutil::{dec_digits, digit_char, i32_to_dec, int_str, push_char, u64_to_dec};

verus! {

/// The invariant a weighted multiset broke when it reached the
/// canonicalizer.
#[derive(Clone, Copy, Debug, PartialEq, Eq, Structural)]
pub enum InvariantKind {
    /// A key carried a negative weight: an un-cancelled retraction.
    NegativeWeight,
    /// A key of an ordered vector result carried a weight other than one.
    ExpectedUnitWeight,
}

/// The fatal errors of the canonicalization pipeline.
#[derive(Clone, Copy, Debug, PartialEq, Eq, Structural)]
pub enum SqlError {
    /// The input multiset broke a weight invariant.
    InvariantViolation(InvariantKind),
    /// A format directive does not match the row it should render: wrong
    /// length, or a display class incompatible with a column's type.
    FormatMismatch,
    /// An ordering policy was requested where it is not supported.
    SortOrderUnsupported,
}

/// A stand-in for a floating-point column value, reduced to what the
/// display formatter reads of it: the sign and magnitude in thousandths of
/// its three-decimal rendering, and its truncation toward zero.
#[derive(Clone, Copy, Debug, PartialEq, Eq, Structural, Hash)]
pub struct RealValue {
    /// Sign of the rendered value; a negative zero renders as `-0.000`.
    pub neg: bool,
    /// Magnitude in thousandths, already rounded to three decimals.
    pub milli: u64,
    /// The value truncated toward zero, as printed for an integer-class
    /// column.
    pub trunc: i32,
}

impl RealValue {
    pub fn new(neg: bool, milli: u64, trunc: i32) -> (r: Self)
        ensures
            r == (RealValue { neg, milli, trunc }),
    {
        RealValue { neg, milli, trunc }
    }
}

/// The mathematical model of a `SqlValue`: strings become character
/// sequences, everything else is already plain data.
pub enum ValV {
    Int(i32),
    Str(Seq<char>),
    Real(RealValue),
    Bool(bool),
    OptInt(Option<i32>),
    OptStr(Option<Seq<char>>),
    OptReal(Option<RealValue>),
    OptBool(Option<bool>),
}

/// A runtime SQL scalar as displayed in a query result.  Floating-point
/// columns are carried as their display reduction (`RealValue`); the
/// conversion from a machine float happens outside this crate.
#[derive(Debug)]
pub enum SqlValue {
    Int(i32),
    Str(String),
    Real(RealValue),
    Bool(bool),
    OptInt(Option<i32>),
    OptStr(Option<String>),
    OptReal(Option<RealValue>),
    OptBool(Option<bool>),
}

impl View for SqlValue {
    type V = ValV;

    open spec fn view(&self) -> ValV {
        match self {
            SqlValue::Int(x) => ValV::Int(*x),
            SqlValue::Str(s) => ValV::Str(s@),
            SqlValue::Real(r) => ValV::Real(*r),
            SqlValue::Bool(b) => ValV::Bool(*b),
            SqlValue::OptInt(o) => ValV::OptInt(*o),
            SqlValue::OptStr(o) => ValV::OptStr(
                match o {
                    Some(s) => Some(s@),
                    None => None,
                },
            ),
            SqlValue::OptReal(o) => ValV::OptReal(*o),
            SqlValue::OptBool(o) => ValV::OptBool(*o),
        }
    }
}

impl DeepView for SqlValue {
    type V = ValV;

    open spec fn deep_view(&self) -> ValV {
        self.view()
    }
}

/// Clones a display value; the copy has the same model.
pub fn clone_value(v: &SqlValue) -> (r: SqlValue)
    ensures
        r@ == v@,
{
    match v {
        SqlValue::Int(x) => SqlValue::Int(*x),
        SqlValue::Str(s) => SqlValue::Str(s.clone()),
        SqlValue::Real(x) => SqlValue::Real(*x),
        SqlValue::Bool(b) => SqlValue::Bool(*b),
        SqlValue::OptInt(o) => SqlValue::OptInt(*o),
        SqlValue::OptStr(o) => SqlValue::OptStr(
            match o {
                Some(s) => Some(s.clone()),
                None => None,
            },
        ),
        SqlValue::OptReal(o) => SqlValue::OptReal(*o),
        SqlValue::OptBool(o) => SqlValue::OptBool(*o),
    }
}

/// The literal shown for an absent value.
pub open spec fn null_str() -> Seq<char> {
    seq!['N', 'U', 'L', 'L']
}

/// The literal shown for a present but empty string.
pub open spec fn empty_marker() -> Seq<char> {
    seq!['(', 'e', 'm', 'p', 't', 'y', ')']
}

pub open spec fn true_str() -> Seq<char> {
    seq!['t', 'r', 'u', 'e']
}

pub open spec fn false_str() -> Seq<char> {
    seq!['f', 'a', 'l', 's', 'e']
}

/// A character as shown in text output: anything outside the printable
/// ASCII range `[0x20, 0x7E]` is replaced by `@`.
pub open spec fn printable(c: char) -> char {
    if c < ' ' || c > '~' {
        '@'
    } else {
        c
    }
}

/// A present string as shown in text output: `(empty)` when empty,
/// otherwise every character made printable.
pub open spec fn clean_str(s: Seq<char>) -> Seq<char> {
    if s.len() == 0 {
        empty_marker()
    } else {
        s.map_values(|c: char| printable(c))
    }
}

/// The three-decimal rendering of a real magnitude in thousandths, with
/// its sign.
pub open spec fn real_str(neg: bool, milli: nat) -> Seq<char> {
    (if neg {
        seq!['-']
    } else {
        Seq::<char>::empty()
    }) + dec_digits(milli / 1000) + seq![
        '.',
        digit_char(((milli / 100) % 10) as int),
        digit_char(((milli / 10) % 10) as int),
        digit_char((milli % 10) as int),
    ]
}

/// Whether a display class character is compatible with a value: strings
/// demand the text class `T`; every other value renders under any class.
pub open spec fn fmt_ok(v: ValV, class: char) -> bool {
    match v {
        ValV::Str(_) => class == 'T',
        ValV::OptStr(_) => class == 'T',
        _ => true,
    }
}

/// What a value renders to under a display class.  Integer-class `I`
/// prints a real value's truncation; any other class prints its
/// three-decimal form.  Absent values print `NULL`.
pub open spec fn fmt_val(v: ValV, class: char) -> Seq<char> {
    match v {
        ValV::Int(x) => int_str(x as int),
        ValV::OptInt(o) => match o {
            None => null_str(),
            Some(x) => int_str(x as int),
        },
        ValV::Real(r) => if class == 'I' {
            int_str(r.trunc as int)
        } else {
            real_str(r.neg, r.milli as nat)
        },
        ValV::OptReal(o) => match o {
            None => null_str(),
            Some(r) => if class == 'I' {
                int_str(r.trunc as int)
            } else {
                real_str(r.neg, r.milli as nat)
            },
        },
        ValV::Str(s) => clean_str(s),
        ValV::OptStr(o) => match o {
            None => null_str(),
            Some(s) => clean_str(s),
        },
        ValV::Bool(b) => if b {
            true_str()
        } else {
            false_str()
        },
        ValV::OptBool(o) => match o {
            None => null_str(),
            Some(b) => if b {
                true_str()
            } else {
                false_str()
            },
        },
    }
}

fn null_string() -> (s: String)
    ensures
        s@ == null_str(),
{
    let s = String::from_str("NULL");
    proof {
        reveal_strlit("NULL");
        assert(s@ =~= null_str());
    }
    s
}

fn bool_string(b: bool) -> (s: String)
    ensures
        s@ == (if b {
            true_str()
        } else {
            false_str()
        }),
{
    if b {
        let s = String::from_str("true");
        proof {
            reveal_strlit("true");
            assert(s@ =~= true_str());
        }
        s
    } else {
        let s = String::from_str("false");
        proof {
            reveal_strlit("false");
            assert(s@ =~= false_str());
        }
        s
    }
}

fn real_string(r: &RealValue) -> (s: String)
    ensures
        s@ == real_str(r.neg, r.milli as nat),
{
    let mut s = String::new();
    if r.neg {
        push_char(&mut s, '-');
    }
    let units = u64_to_dec(r.milli / 1000);
    s.append(units.as_str());
    push_char(&mut s, '.');
    let d1: u8 = ((r.milli / 100) % 10) as u8;
    let d2: u8 = ((r.milli / 10) % 10) as u8;
    let d3: u8 = (r.milli % 10) as u8;
    push_char(&mut s, (48 + d1) as char);
    push_char(&mut s, (48 + d2) as char);
    push_char(&mut s, (48 + d3) as char);
    proof {
        assert(s@ =~= real_str(r.neg, r.milli as nat));
    }
    s
}

/// Renders a present string for text output: `(empty)` when empty,
/// otherwise with every character outside printable ASCII replaced by `@`.
pub fn print_string(s: &String) -> (r: String)
    ensures
        r@ == clean_str(s@),
{
    let n = s.as_str().unicode_len();
    if n == 0 {
        let r = String::from_str("(empty)");
        proof {
            reveal_strlit("(empty)");
            assert(r@ =~= empty_marker());
        }
        return r;
    }
    let mut r = String::new();
    let mut i: usize = 0;
    while i < n
        invariant
            n == s@.len(),
            i <= n,
            r@ =~= s@.take(i as int).map_values(|c: char| printable(c)),
        decreases n - i,
    {
        let c = s.as_str().get_char(i);
        let out = if c < ' ' || c > '~' {
            '@'
        } else {
            c
        };
        push_char(&mut r, out);
        i = i + 1;
        proof {
            assert(r@ =~= s@.take(i as int).map_values(|c: char| printable(c)));
        }
    }
    proof {
        assert(s@.take(n as int) =~= s@);
        assert(r@ =~= clean_str(s@));
    }
    r
}

/// Rendering of one value under one display-class character of the
/// conformance-test output format: `I` integer, `R` real, `T` text.
pub trait SqlLogicTestFormat {
    /// Whether the class is compatible with this value.
    spec fn fmt_class_ok(&self, arg: char) -> bool;

    /// The rendered characters, when compatible.
    spec fn fmt_spec(&self, arg: char) -> Seq<char>;

    /// Renders the value, or reports the class/type mismatch.
    fn format_slt(&self, arg: &char) -> (r: Result<String, SqlError>)
        ensures
            r is Ok <==> self.fmt_class_ok(*arg),
            r is Ok ==> r.unwrap()@ == self.fmt_spec(*arg),
            r is Err ==> r.unwrap_err() == SqlError::FormatMismatch,
    ;
}

impl SqlLogicTestFormat for SqlValue {
    open spec fn fmt_class_ok(&self, arg: char) -> bool {
        fmt_ok(self@, arg)
    }

    open spec fn fmt_spec(&self, arg: char) -> Seq<char> {
        fmt_val(self@, arg)
    }

    fn format_slt(&self, arg: &char) -> (r: Result<String, SqlError>) {
        match self {
            SqlValue::Int(x) => Ok(i32_to_dec(*x)),
            SqlValue::OptInt(o) => match o {
                None => Ok(null_string()),
                Some(x) => Ok(i32_to_dec(*x)),
            },
            SqlValue::Real(v) => if *arg == 'I' {
                Ok(i32_to_dec(v.trunc))
            } else {
                Ok(real_string(v))
            },
            SqlValue::OptReal(o) => match o {
                None => Ok(null_string()),
                Some(v) => if *arg == 'I' {
                    Ok(i32_to_dec(v.trunc))
                } else {
                    Ok(real_string(v))
                },
            },
            SqlValue::Str(s) => if *arg == 'T' {
                Ok(print_string(s))
            } else {
                Err(SqlError::FormatMismatch)
            },
            SqlValue::OptStr(o) => if *arg == 'T' {
                match o {
                    None => Ok(null_string()),
                    Some(s) => Ok(print_string(s)),
                }
            } else {
                Err(SqlError::FormatMismatch)
            },
            SqlValue::Bool(b) => Ok(bool_string(*b)),
            SqlValue::OptBool(o) => match o {
                None => Ok(null_string()),
                Some(b) => Ok(bool_string(*b)),
            },
        }
    }
}

/// Whether a format string renders a whole row: one class character per
/// column, each compatible with its column's value.
pub open spec fn row_fmt_ok(row: Seq<ValV>, f: Seq<char>) -> bool {
    row.len() == f.len() && forall|i: int| 0 <= i < row.len() ==> fmt_ok(row[i], f[i])
}

/// The display strings of a whole row under a format string.
pub open spec fn fmt_row(row: Seq<ValV>, f: Seq<char>) -> Seq<Seq<char>> {
    Seq::new(row.len(), |i: int| fmt_val(row[i], f[i]))
}

/// One result row: an ordered sequence of display values.
#[derive(Debug)]
pub struct SqlRow {
    values: Vec<SqlValue>,
}

impl View for SqlRow {
    type V = Seq<ValV>;

    closed spec fn view(&self) -> Seq<ValV> {
        self.values.deep_view()
    }
}

impl DeepView for SqlRow {
    type V = Seq<ValV>;

    open spec fn deep_view(&self) -> Seq<ValV> {
        self.view()
    }
}

impl SqlRow {
    pub fn new() -> (r: Self)
        ensures
            r@ =~= Seq::<ValV>::empty(),
    {
        SqlRow { values: Vec::new() }
    }

    pub fn push(&mut self, value: SqlValue)
        ensures
            final(self)@ =~= old(self)@.push(value@),
    {
        self.values.push(value);
    }

    /// Renders the row under a format string of the conformance-test
    /// output format: one class character (`I`, `R` or `T`) per column.
    /// Fails with `FormatMismatch` when the lengths disagree or a class
    /// does not fit its column.
    pub fn to_slt_strings(self, format: &String) -> (r: Result<Vec<String>, SqlError>)
        ensures
            r is Ok <==> row_fmt_ok(self@, format@),
            r is Ok ==> r.unwrap().deep_view() == fmt_row(self@, format@),
            r is Err ==> r.unwrap_err() == SqlError::FormatMismatch,
    {
        let n = self.values.len();
        if n != format.as_str().unicode_len() {
            return Err(SqlError::FormatMismatch);
        }
        let mut result: Vec<String> = Vec::new();
        let mut i: usize = 0;
        while i < n
            invariant
                n == self.values@.len(),
                n == format@.len(),
                i <= n,
                result@.len() == i,
                forall|k: int| 0 <= k < i ==> #[trigger] result@[k]@ == fmt_row(self@, format@)[k],
                forall|k: int| 0 <= k < i ==> fmt_ok(self@[k], format@[k]),
            decreases n - i,
        {
            let c = format.as_str().get_char(i);
            match self.values[i].format_slt(&c) {
                Ok(s) => {
                    result.push(s);
                },
                Err(e) => {
                    return Err(e);
                },
            }
            i = i + 1;
        }
        proof {
            assert(result.deep_view() =~= fmt_row(self@, format@));
        }
        Ok(result)
    }
}

impl Default for SqlRow {
    fn default() -> (r: Self)
        ensures
            r@ =~= Seq::<ValV>::empty(),
    {
        SqlRow { values: Vec::new() }
    }
}

/// The capability of a result key to present itself as a display row.
/// The dataflow engine's key types implement this; within this crate a
/// row is its own display row.
pub trait ToSqlRow {
    /// The model of the row this key displays as.
    spec fn row_spec(&self) -> Seq<ValV>;

    /// Builds the display row.
    fn to_row(&self) -> (r: SqlRow)
        ensures
            r@ == self.row_spec(),
    ;
}

impl ToSqlRow for SqlRow {
    open spec fn row_spec(&self) -> Seq<ValV> {
        self@
    }

    fn to_row(&self) -> (r: SqlRow) {
        let n = self.values.len();
        let mut values: Vec<SqlValue> = Vec::new();
        let mut i: usize = 0;
        while i < n
            invariant
                n == self.values@.len(),
                i <= n,
                values@.len() == i,
                forall|k: int| 0 <= k < i ==> #[trigger] values@[k]@ == self@[k],
            decreases n - i,
        {
            values.push(clone_value(&self.values[i]));
            i = i + 1;
        }
        let row = SqlRow { values };
        proof {
            assert(row@ =~= self@);
        }
        row
    }
}

} // verus!
