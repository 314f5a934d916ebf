//! Canonicalization of weighted multisets of result rows.
//!
//! A query's result arrives as a weighted multiset: distinct keys, each
//! with an integer weight.  The functions here expand weights into row
//! multiplicities, render rows with the display formatter, collect them
//! under an ordering policy, and reduce the canonical row list to a stable
//! digest that can be compared against reference expectations.

use vstd::prelude::*;
use vstd::relations::{sorted_by, total_ordering};
use vstd::seq_lib::group_to_multiset_ensures;
use vstd::string::StringExecFns;
use crate::sqlvalue::{
    fmt_row, row_fmt_ok, InvariantKind, SqlError, SqlRow, ToSqlRow, ValV,
};
use crate::strutil::{lemma_seq_cmp_antisym, lemma_seq_cmp_eq, lemma_seq_cmp_trans, push_char,
    seq_cmp, str_compare};

verus! {

/// How collected rows are ordered in the canonical output.
#[derive(Clone, Copy, Debug, PartialEq, Eq, Structural)]
pub enum SortOrder {
    /// Keep arrival order; never sort.
    Unordered,
    /// Keep rows whole and sort the row list.
    Row,
    /// Explode every row into one single-column row per column, then sort.
    Value,
}

/// A weighted multiset of keys, the read-only result of a dataflow
/// computation.  Entries are enumerated in insertion order, standing for
/// the stable but unspecified order of the producer's cursor; each key is
/// expected to appear in one entry only.
pub struct ZSet<K> {
    entries: Vec<(K, i64)>,
}

impl<K> View for ZSet<K> {
    type V = Seq<(K, i64)>;

    closed spec fn view(&self) -> Seq<(K, i64)> {
        self.entries@
    }
}

impl<K> ZSet<K> {
    pub fn new() -> (r: Self)
        ensures
            r@ =~= Seq::<(K, i64)>::empty(),
    {
        ZSet { entries: Vec::new() }
    }

    /// Appends one key with its weight.
    pub fn insert(&mut self, key: K, weight: i64)
        ensures
            final(self)@ == old(self)@.push((key, weight)),
    {
        self.entries.push((key, weight));
    }

    pub fn len(&self) -> (n: usize)
        ensures
            n == self@.len(),
    {
        self.entries.len()
    }
}

/// Three-way comparison of formatted rows: column by column, left to
/// right, up to the length of the shorter row; if every compared column is
/// equal, the shorter row comes first.
pub open spec fn row_cmp(a: Seq<Seq<char>>, b: Seq<Seq<char>>) -> int
    decreases a.len(),
{
    if a.len() == 0 && b.len() == 0 {
        0
    } else if a.len() == 0 {
        -1
    } else if b.len() == 0 {
        1
    } else {
        let c = seq_cmp(a[0], b[0]);
        if c != 0 {
            c
        } else {
            row_cmp(a.drop_first(), b.drop_first())
        }
    }
}

/// The row order used for canonical sorting.
pub open spec fn row_le_fn() -> spec_fn(Seq<Seq<char>>, Seq<Seq<char>>) -> bool {
    |a: Seq<Seq<char>>, b: Seq<Seq<char>>| row_cmp(a, b) <= 0
}

pub proof fn lemma_row_cmp_antisym(a: Seq<Seq<char>>, b: Seq<Seq<char>>)
    ensures
        row_cmp(a, b) == -row_cmp(b, a),
    decreases a.len(),
{
    if a.len() != 0 && b.len() != 0 {
        lemma_seq_cmp_antisym(a[0], b[0]);
        lemma_row_cmp_antisym(a.drop_first(), b.drop_first());
    }
}

pub proof fn lemma_row_cmp_eq(a: Seq<Seq<char>>, b: Seq<Seq<char>>)
    requires
        row_cmp(a, b) == 0,
    ensures
        a == b,
    decreases a.len(),
{
    if a.len() == 0 || b.len() == 0 {
        assert(a =~= b);
    } else {
        lemma_seq_cmp_eq(a[0], b[0]);
        assert(a[0] == b[0]);
        lemma_row_cmp_eq(a.drop_first(), b.drop_first());
        assert forall|i: int| 0 <= i < a.len() implies a[i] == b[i] by {
            if i > 0 {
                assert(a.drop_first()[i - 1] == b.drop_first()[i - 1]);
            }
        }
        assert(a =~= b);
    }
}

pub proof fn lemma_row_cmp_trans(a: Seq<Seq<char>>, b: Seq<Seq<char>>, c: Seq<Seq<char>>)
    requires
        row_cmp(a, b) <= 0,
        row_cmp(b, c) <= 0,
    ensures
        row_cmp(a, c) <= 0,
        row_cmp(a, b) < 0 || row_cmp(b, c) < 0 ==> row_cmp(a, c) < 0,
    decreases a.len() + b.len() + c.len(),
{
    if a.len() != 0 && b.len() != 0 && c.len() != 0 {
        let c1 = seq_cmp(a[0], b[0]);
        let c2 = seq_cmp(b[0], c[0]);
        assert(c1 <= 0);
        assert(c2 <= 0);
        lemma_seq_cmp_trans(a[0], b[0], c[0]);
        if c1 == 0 {
            lemma_seq_cmp_eq(a[0], b[0]);
            assert(a[0] == b[0]);
        }
        if c2 == 0 {
            lemma_seq_cmp_eq(b[0], c[0]);
            assert(b[0] == c[0]);
        }
        if c1 == 0 && c2 == 0 {
            lemma_row_cmp_trans(a.drop_first(), b.drop_first(), c.drop_first());
        }
    }
}

/// The canonical row order is a total order: the sorted form of a row
/// multiset is unique.
pub proof fn lemma_row_le_total()
    ensures
        total_ordering(row_le_fn()),
{
    let leq = row_le_fn();
    assert forall|a: Seq<Seq<char>>, b: Seq<Seq<char>>, c: Seq<Seq<char>>|
        #[trigger] leq(a, b) && #[trigger] leq(b, c) implies #[trigger] leq(a, c) by {
        lemma_row_cmp_trans(a, b, c);
    }
    assert forall|a: Seq<Seq<char>>, b: Seq<Seq<char>>|
        #[trigger] leq(a, b) && #[trigger] leq(b, a) implies a == b by {
        lemma_row_cmp_antisym(a, b);
        lemma_row_cmp_eq(a, b);
    }
    assert forall|a: Seq<Seq<char>>, b: Seq<Seq<char>>| #[trigger] leq(a, b) || #[trigger] leq(
        b,
        a,
    ) by {
        lemma_row_cmp_antisym(a, b);
    }
    assert forall|a: Seq<Seq<char>>| #[trigger] leq(a, a) by {
        lemma_row_cmp_antisym(a, a);
    }
}

/// Compares two formatted rows with the canonical row order.
pub fn compare(left: &Vec<String>, right: &Vec<String>) -> (o: core::cmp::Ordering)
    ensures
        o == core::cmp::Ordering::Less <==> row_cmp(left.deep_view(), right.deep_view()) < 0,
        o == core::cmp::Ordering::Equal <==> row_cmp(left.deep_view(), right.deep_view()) == 0,
        o == core::cmp::Ordering::Greater <==> row_cmp(left.deep_view(), right.deep_view()) > 0,
{
    let llen = left.len();
    let rlen = right.len();
    let min = if llen < rlen {
        llen
    } else {
        rlen
    };
    let ghost ldv = left.deep_view();
    let ghost rdv = right.deep_view();
    proof {
        assert(ldv.skip(0) =~= ldv);
        assert(rdv.skip(0) =~= rdv);
    }
    let mut i: usize = 0;
    while i < min
        invariant
            min <= llen && min <= rlen,
            llen == ldv.len() && rlen == rdv.len(),
            llen == left@.len() && rlen == right@.len(),
            ldv == left.deep_view() && rdv == right.deep_view(),
            i <= min,
            row_cmp(ldv, rdv) == row_cmp(ldv.skip(i as int), rdv.skip(i as int)),
        decreases min - i,
    {
        let cmp = str_compare(&left[i], &right[i]);
        proof {
            assert(ldv.skip(i as int)[0] == ldv[i as int]);
            assert(rdv.skip(i as int)[0] == rdv[i as int]);
            assert(ldv[i as int] == left@[i as int]@);
            assert(rdv[i as int] == right@[i as int]@);
            assert(ldv.skip(i as int).drop_first() =~= ldv.skip(i as int + 1));
            assert(rdv.skip(i as int).drop_first() =~= rdv.skip(i as int + 1));
        }
        match cmp {
            core::cmp::Ordering::Equal => {
                i = i + 1;
            },
            other => {
                return other;
            },
        }
    }
    proof {
        assert(ldv.skip(min as int).len() == 0 || rdv.skip(min as int).len() == 0);
    }
    if llen < rlen {
        core::cmp::Ordering::Less
    } else if rlen < llen {
        core::cmp::Ordering::Greater
    } else {
        core::cmp::Ordering::Equal
    }
}

/// Two sorted sequences with the same multiset of elements are the same
/// sequence: sorting pins the output down.
pub proof fn lemma_sorted_unique<A>(a: Seq<A>, b: Seq<A>, leq: spec_fn(A, A) -> bool)
    requires
        sorted_by(a, leq),
        sorted_by(b, leq),
        total_ordering(leq),
        a.to_multiset() == b.to_multiset(),
    ensures
        a == b,
    decreases a.len(),
{
    broadcast use group_to_multiset_ensures;

    a.to_multiset_ensures();
    b.to_multiset_ensures();
    if a.len() == 0 {
        assert(b.to_multiset().len() == 0);
        assert(a =~= b);
    } else {
        assert(a.to_multiset().len() == b.to_multiset().len());
        assert(b.len() > 0);
        // The heads are equal: each head occurs in the other sequence, and
        // both heads are lower bounds of their own sequence.
        assert(a.to_multiset().count(a[0]) > 0);
        assert(b.to_multiset().count(b[0]) > 0);
        assert(b.contains(a[0]));
        assert(a.contains(b[0]));
        let ia = choose|i: int| 0 <= i < a.len() && a[i] == b[0];
        let ib = choose|i: int| 0 <= i < b.len() && b[i] == a[0];
        assert(leq(a[0], a[ia]));
        assert(leq(b[0], b[ib]));
        assert(a[0] == b[0]);
        // Drop the heads and recurse.
        assert(a.remove(0).to_multiset() =~= a.to_multiset().remove(a[0]));
        assert(b.remove(0).to_multiset() =~= b.to_multiset().remove(b[0]));
        assert(a.remove(0) =~= a.drop_first());
        assert(b.remove(0) =~= b.drop_first());
        assert(sorted_by(a.drop_first(), leq)) by {
            assert forall|i: int, j: int|
                0 <= i < j < a.drop_first().len() implies leq(
                a.drop_first()[i],
                a.drop_first()[j],
            ) by {
                assert(a.drop_first()[i] == a[i + 1]);
                assert(a.drop_first()[j] == a[j + 1]);
            }
        }
        assert(sorted_by(b.drop_first(), leq)) by {
            assert forall|i: int, j: int|
                0 <= i < j < b.drop_first().len() implies leq(
                b.drop_first()[i],
                b.drop_first()[j],
            ) by {
                assert(b.drop_first()[i] == b[i + 1]);
                assert(b.drop_first()[j] == b[j + 1]);
            }
        }
        lemma_sorted_unique(a.drop_first(), b.drop_first(), leq);
        assert forall|i: int| 0 <= i < a.len() implies a[i] == b[i] by {
            if i > 0 {
                assert(a.drop_first()[i - 1] == b.drop_first()[i - 1]);
            }
        }
        assert(a =~= b);
    }
}

proof fn proof_multiset_helpers(
    rdv: Seq<Seq<Seq<char>>>,
    prev_out: Seq<Seq<Seq<char>>>,
    m: int,
    xv: Seq<Seq<char>>,
)
    requires
        0 <= m < rdv.len(),
        xv == rdv[m],
    ensures
        rdv.remove(m).to_multiset() == rdv.to_multiset().remove(xv),
        prev_out.push(xv).to_multiset() == prev_out.to_multiset().insert(xv),
        rdv.to_multiset().count(xv) > 0,
{
    rdv.to_multiset_ensures();
    prev_out.to_multiset_ensures();
    assert(rdv.remove(m).to_multiset() =~= rdv.to_multiset().remove(rdv[m]));
    assert(prev_out.push(xv).to_multiset() =~= prev_out.to_multiset().insert(xv));
    assert(rdv.contains(rdv[m]));
}

/// Sorts formatted rows with the canonical row order.  The result is the
/// (unique) sorted permutation of the input.
pub fn sort_rows(input: Vec<Vec<String>>) -> (r: Vec<Vec<String>>)
    ensures
        r.deep_view() == input.deep_view().sort_by(row_le_fn()),
{
    broadcast use group_to_multiset_ensures;

    let ghost orig = input.deep_view();
    let ghost leq = row_le_fn();
    proof {
        lemma_row_le_total();
    }
    let mut remaining = input;
    let mut out: Vec<Vec<String>> = Vec::new();
    proof {
        assert(out.deep_view() =~= Seq::<Seq<Seq<char>>>::empty());
        assert(out.deep_view().to_multiset().add(remaining.deep_view().to_multiset())
            =~= orig.to_multiset());
    }
    while remaining.len() > 0
        invariant
            total_ordering(leq),
            leq == row_le_fn(),
            out.deep_view().to_multiset().add(remaining.deep_view().to_multiset())
                == orig.to_multiset(),
            sorted_by(out.deep_view(), leq),
            forall|x: int, y: int|
                0 <= x < out.deep_view().len() && 0 <= y < remaining.deep_view().len()
                    ==> #[trigger] leq(out.deep_view()[x], remaining.deep_view()[y]),
        decreases remaining.len(),
    {
        let ghost rdv = remaining.deep_view();
        proof {
            lemma_row_cmp_antisym(rdv[0], rdv[0]);
        }
        // Select a minimal remaining row.
        let mut m: usize = 0;
        let mut j: usize = 1;
        while j < remaining.len()
            invariant
                remaining.deep_view() == rdv,
                remaining@.len() == rdv.len(),
                0 < rdv.len(),
                m < j <= rdv.len(),
                forall|k: int| 0 <= k < j ==> row_cmp(rdv[m as int], #[trigger] rdv[k]) <= 0,
            decreases remaining@.len() - j,
        {
            let c = compare(&remaining[j], &remaining[m]);
            proof {
                assert(remaining[j as int].deep_view() == rdv[j as int]);
                assert(remaining[m as int].deep_view() == rdv[m as int]);
            }
            if matches!(c, core::cmp::Ordering::Less) {
                proof {
                    lemma_row_cmp_antisym(rdv[j as int], rdv[m as int]);
                    lemma_row_cmp_antisym(rdv[j as int], rdv[j as int]);
                    assert forall|k: int| 0 <= k < j implies row_cmp(
                        rdv[j as int],
                        #[trigger] rdv[k],
                    ) <= 0 by {
                        lemma_row_cmp_trans(rdv[j as int], rdv[m as int], rdv[k]);
                    }
                }
                m = j;
            } else {
                proof {
                    lemma_row_cmp_antisym(rdv[j as int], rdv[m as int]);
                }
            }
            j = j + 1;
        }
        let ghost prev_out = out.deep_view();
        let x = remaining.remove(m);
        let ghost xv = x.deep_view();
        proof {
            assert(xv == rdv[m as int]);
            assert(remaining.deep_view() =~= rdv.remove(m as int));
        }
        out.push(x);
        proof {
            proof_multiset_helpers(rdv, prev_out, m as int, xv);
            assert(out.deep_view() =~= prev_out.push(xv));
            // Multiset bookkeeping: moving one element keeps the union.
            assert(rdv.remove(m as int).to_multiset() =~= rdv.to_multiset().remove(xv));
            assert(prev_out.push(xv).to_multiset() =~= prev_out.to_multiset().insert(xv));
            assert(rdv.to_multiset().count(xv) > 0);
            assert(out.deep_view().to_multiset().add(remaining.deep_view().to_multiset())
                =~= orig.to_multiset());
            // The appended row keeps the output sorted.
            assert forall|p: int, q: int|
                0 <= p < q < out.deep_view().len() implies #[trigger] leq(
                out.deep_view()[p],
                out.deep_view()[q],
            ) by {
                if q < prev_out.len() {
                    assert(leq(prev_out[p], prev_out[q]));
                } else {
                    assert(out.deep_view()[q] == xv);
                    assert(leq(prev_out[p], rdv[m as int]));
                }
            }
            // Every output row is still below every remaining row.
            assert forall|p: int, q: int|
                0 <= p < out.deep_view().len() && 0 <= q < remaining.deep_view().len()
                    implies #[trigger] leq(out.deep_view()[p], remaining.deep_view()[q]) by {
                let nv = rdv.remove(m as int)[q];
                assert(nv == if q < m { rdv[q] } else { rdv[q + 1] });
                if p < prev_out.len() {
                    assert(leq(prev_out[p], nv));
                } else {
                    assert(out.deep_view()[p] == xv);
                    assert(row_cmp(rdv[m as int], nv) <= 0);
                }
            }
        }
    }
    proof {
        assert(remaining.deep_view().to_multiset().len() == 0);
        assert(out.deep_view().to_multiset() =~= orig.to_multiset());
        orig.lemma_sort_by_ensures(leq);
        lemma_sorted_unique(out.deep_view(), orig.sort_by(leq), leq);
    }
    out
}

} // verus!

verus! {

/// `w` copies of one row (none when the weight is negative).
pub open spec fn repeat_row(row: Seq<ValV>, w: int) -> Seq<Seq<ValV>> {
    if w >= 0 {
        Seq::new(w as nat, |i: int| row)
    } else {
        Seq::<Seq<ValV>>::empty()
    }
}

/// The model of a weighted multiset: each key as its display row, with
/// its weight.
pub open spec fn zset_model<K: ToSqlRow>(s: Seq<(K, i64)>) -> Seq<(Seq<ValV>, int)> {
    s.map_values(|p: (K, i64)| (p.0.row_spec(), p.1 as int))
}

/// The per-entry expansion function: an entry to its repeated row.
pub open spec fn rep_fn() -> spec_fn((Seq<ValV>, int)) -> Seq<Seq<ValV>> {
    |q: (Seq<ValV>, int)| repeat_row(q.0, q.1)
}

/// The per-row rendering function under a fixed format string.
pub open spec fn fmt_row_fn(f: Seq<char>) -> spec_fn(Seq<ValV>) -> Seq<Seq<char>> {
    |q: Seq<ValV>| fmt_row(q, f)
}

/// The per-row explosion function of the value-flattened policy.
pub open spec fn flat_fn() -> spec_fn(Seq<Seq<char>>) -> Seq<Seq<Seq<char>>> {
    |q: Seq<Seq<char>>| flattened_row(q)
}

/// Weight expansion: each entry contributes as many copies of its row as
/// its weight says.
pub open spec fn expanded(m: Seq<(Seq<ValV>, int)>) -> Seq<Seq<ValV>> {
    m.map_values(rep_fn()).flatten()
}

/// Every weight of the multiset is non-negative.
pub open spec fn weights_ok<K>(s: Seq<(K, i64)>) -> bool {
    forall|i: int| 0 <= i < s.len() ==> (#[trigger] s[i]).1 >= 0
}

/// Every expanded row is renderable under the format string.
pub open spec fn rows_fmt_ok_all(m: Seq<(Seq<ValV>, int)>, f: Seq<char>) -> bool {
    forall|k: int| 0 <= k < expanded(m).len() ==> row_fmt_ok(#[trigger] expanded(m)[k], f)
}

proof fn lemma_expanded_push(s: Seq<(Seq<ValV>, int)>, p: (Seq<ValV>, int))
    ensures
        expanded(s.push(p)) == expanded(s) + repeat_row(p.0, p.1),
{
    let g = rep_fn();
    assert(s.push(p).map_values(g) =~= s.map_values(g).push(repeat_row(p.0, p.1)));
    s.map_values(g).lemma_flatten_push(repeat_row(p.0, p.1));
}

/// Converts a weighted multiset to a vector of display rows: a key with
/// weight `w` appears `w` times.  Fails on any negative weight, which
/// signals an un-cancelled retraction upstream.
pub fn zset_to_rows<K: ToSqlRow>(set: &ZSet<K>) -> (r: Result<Vec<SqlRow>, SqlError>)
    ensures
        r is Ok <==> weights_ok(set@),
        r is Ok ==> r.unwrap().deep_view() == expanded(zset_model(set@)),
        r is Err ==> r.unwrap_err() == SqlError::InvariantViolation(InvariantKind::NegativeWeight),
{
    let ghost model = zset_model(set@);
    let n = set.entries.len();
    let mut result: Vec<SqlRow> = Vec::new();
    proof {
        assert(model.take(0) =~= Seq::<(Seq<ValV>, int)>::empty());
        assert(model.take(0).map_values(rep_fn()) =~= Seq::<Seq<Seq<ValV>>>::empty());
        assert(result.deep_view() =~= expanded(model.take(0)));
    }
    let mut i: usize = 0;
    while i < n
        invariant
            n == set@.len(),
            model == zset_model(set@),
            i <= n,
            forall|k: int| 0 <= k < i ==> (#[trigger] set@[k]).1 >= 0,
            result.deep_view() == expanded(model.take(i as int)),
        decreases n - i,
    {
        let w0 = set.entries[i].1;
        if w0 < 0 {
            return Err(SqlError::InvariantViolation(InvariantKind::NegativeWeight));
        }
        let ghost row = model[i as int].0;
        let ghost base = expanded(model.take(i as int));
        let mut w: i64 = w0;
        while w > 0
            invariant
                0 <= w <= w0,
                n == set@.len(),
                i < n,
                model == zset_model(set@),
                row == model[i as int].0,
                base == expanded(model.take(i as int)),
                result.deep_view() =~= base + repeat_row(row, (w0 - w) as int),
            decreases w,
        {
            let sql_row = set.entries[i].0.to_row();
            let ghost prev = result.deep_view();
            result.push(sql_row);
            proof {
                assert(result.deep_view() =~= prev.push(row));
                assert(prev.push(row) =~= base + repeat_row(row, (w0 - w + 1) as int));
            }
            w = w - 1;
        }
        i = i + 1;
        proof {
            assert(model.take(i as int) =~= model.take(i as int - 1).push(model[i as int - 1]));
            lemma_expanded_push(model.take(i as int - 1), model[i as int - 1]);
            assert(model[i as int - 1].1 == set@[i as int - 1].1 as int);
            assert(result.deep_view() =~= expanded(model.take(i as int)));
        }
    }
    proof {
        assert(model.take(n as int) =~= model);
    }
    Ok(result)
}

/// One row exploded into one single-column row per column.
pub open spec fn flattened_row(fr: Seq<Seq<char>>) -> Seq<Seq<Seq<char>>> {
    Seq::new(fr.len(), |i: int| seq![fr[i]])
}

/// What one formatted row contributes to the collected rows: itself, or,
/// under the value-flattened policy, its exploded columns.
pub open spec fn pushed_rows(fr: Seq<Seq<char>>, order: SortOrder) -> Seq<Seq<Seq<char>>> {
    if order == SortOrder::Value {
        flattened_row(fr)
    } else {
        seq![fr]
    }
}

/// All formatted rows as collected under an ordering policy, before any
/// sort.
pub open spec fn collect_rows(frows: Seq<Seq<Seq<char>>>, order: SortOrder) -> Seq<
    Seq<Seq<char>>,
> {
    if order == SortOrder::Value {
        frows.map_values(flat_fn()).flatten()
    } else {
        frows
    }
}

/// The collected rows, sorted unless the policy keeps arrival order.
pub open spec fn canonical_of(rows: Seq<Seq<Seq<char>>>, order: SortOrder) -> Seq<Seq<Seq<char>>> {
    if order == SortOrder::Unordered {
        rows
    } else {
        rows.sort_by(row_le_fn())
    }
}

/// The canonical output of a sequence of display rows under a format
/// string and ordering policy.
pub open spec fn canonical_formatted(rows: Seq<Seq<ValV>>, f: Seq<char>, order: SortOrder) -> Seq<
    Seq<Seq<char>>,
> {
    canonical_of(collect_rows(rows.map_values(fmt_row_fn(f)), order), order)
}

/// The canonical output of a whole weighted multiset.
pub open spec fn canonical_rows(m: Seq<(Seq<ValV>, int)>, f: Seq<char>, order: SortOrder) -> Seq<
    Seq<Seq<char>>,
> {
    canonical_formatted(expanded(m), f, order)
}

proof fn lemma_collect_snoc(frows: Seq<Seq<Seq<char>>>, fr: Seq<Seq<char>>, order: SortOrder)
    ensures
        collect_rows(frows.push(fr), order) == collect_rows(frows, order) + pushed_rows(fr, order),
{
    if order == SortOrder::Value {
        let g = flat_fn();
        assert(frows.push(fr).map_values(g) =~= frows.map_values(g).push(flattened_row(fr)));
        frows.map_values(g).lemma_flatten_push(flattened_row(fr));
    } else {
        assert(collect_rows(frows.push(fr), order) =~= collect_rows(frows, order) + pushed_rows(
            fr,
            order,
        ));
    }
}

/// Accumulates formatted rows under an ordering policy.  `push` renders
/// and collects one row; `get` finishes the collection, sorting it unless
/// the policy is `Unordered`.
pub struct DataRows {
    rows: Vec<Vec<String>>,
    format: String,
    order: SortOrder,
}

impl DataRows {
    /// The rows collected so far.
    pub closed spec fn spec_rows(&self) -> Seq<Seq<Seq<char>>> {
        self.rows.deep_view()
    }

    /// The format string rows are rendered with.
    pub closed spec fn spec_format(&self) -> Seq<char> {
        self.format@
    }

    /// The ordering policy.
    pub closed spec fn spec_order(&self) -> SortOrder {
        self.order
    }

    pub fn new(format: String, order: SortOrder) -> (r: Self)
        ensures
            r.spec_rows() == Seq::<Seq<Seq<char>>>::empty(),
            r.spec_format() == format@,
            r.spec_order() == order,
    {
        let r = DataRows { rows: Vec::new(), format, order };
        proof {
            assert(r.spec_rows() =~= Seq::<Seq<Seq<char>>>::empty());
        }
        r
    }

    pub fn with_capacity(format: String, order: SortOrder, capacity: usize) -> (r: Self)
        ensures
            r.spec_rows() == Seq::<Seq<Seq<char>>>::empty(),
            r.spec_format() == format@,
            r.spec_order() == order,
    {
        let r = DataRows { rows: Vec::with_capacity(capacity), format, order };
        proof {
            assert(r.spec_rows() =~= Seq::<Seq<Seq<char>>>::empty());
        }
        r
    }

    /// Renders one row and collects it (whole, or exploded per column
    /// under the value-flattened policy).  Fails, leaving the collection
    /// unchanged, when the row does not fit the format string.
    pub fn push(&mut self, sql_row: SqlRow) -> (r: Result<(), SqlError>)
        ensures
            final(self).spec_format() == old(self).spec_format(),
            final(self).spec_order() == old(self).spec_order(),
            r is Ok <==> row_fmt_ok(sql_row@, old(self).spec_format()),
            r is Ok ==> final(self).spec_rows() == old(self).spec_rows() + pushed_rows(
                fmt_row(sql_row@, old(self).spec_format()),
                old(self).spec_order(),
            ),
            r is Err ==> final(self).spec_rows() == old(self).spec_rows() && r.unwrap_err()
                == SqlError::FormatMismatch,
    {
        let ghost rowv = sql_row@;
        let row_vec = match sql_row.to_slt_strings(&self.format) {
            Ok(v) => v,
            Err(e) => {
                return Err(e);
            },
        };
        let ghost fr = fmt_row(rowv, self.format@);
        if matches!(self.order, SortOrder::Value) {
            let n = row_vec.len();
            let ghost base = self.rows.deep_view();
            let ghost fmt0 = self.format@;
            let ghost ord0 = self.order;
            let mut k: usize = 0;
            while k < n
                invariant
                    n == row_vec@.len(),
                    row_vec.deep_view() == fr,
                    k <= n,
                    self.format@ == fmt0,
                    self.order == ord0,
                    ord0 == SortOrder::Value,
                    self.rows.deep_view() =~= base + flattened_row(fr).take(k as int),
                decreases n - k,
            {
                let mut single: Vec<String> = Vec::new();
                single.push(row_vec[k].clone());
                let ghost prev = self.rows.deep_view();
                proof {
                    assert(single.deep_view() =~= seq![fr[k as int]]);
                }
                self.rows.push(single);
                k = k + 1;
                proof {
                    assert(self.rows.deep_view() =~= prev.push(seq![fr[k as int - 1]]));
                    assert(self.rows.deep_view() =~= base + flattened_row(fr).take(k as int));
                }
            }
            proof {
                assert(flattened_row(fr).take(n as int) =~= flattened_row(fr));
                assert(self.rows.deep_view() =~= base + pushed_rows(fr, self.order));
            }
        } else {
            let ghost prev = self.rows.deep_view();
            self.rows.push(row_vec);
            proof {
                assert(self.rows.deep_view() =~= prev.push(fr));
                assert(self.rows.deep_view() =~= prev + pushed_rows(fr, self.order));
            }
        }
        Ok(())
    }

    /// Finishes the collection: the rows as collected, sorted with the
    /// canonical row order unless the policy keeps arrival order.
    pub fn get(self) -> (r: Vec<Vec<String>>)
        ensures
            r.deep_view() == canonical_of(self.spec_rows(), self.spec_order()),
    {
        if matches!(self.order, SortOrder::Unordered) {
            self.rows
        } else {
            sort_rows(self.rows)
        }
    }
}

} // verus!

verus! {

/// One formatted row as serialized for digesting: every column followed
/// by a newline.
pub open spec fn row_chars(fr: Seq<Seq<char>>) -> Seq<char> {
    fr.map_values(|c: Seq<char>| c.push('\n')).flatten()
}

/// A canonical row list as serialized for digesting: row-major,
/// column-minor, a newline after every value, nothing else.
pub open spec fn serialized(rows: Seq<Seq<Seq<char>>>) -> Seq<char> {
    rows.map_values(|fr: Seq<Seq<char>>| row_chars(fr)).flatten()
}

proof fn lemma_row_chars_snoc(fr: Seq<Seq<char>>, col: Seq<char>)
    ensures
        row_chars(fr.push(col)) == row_chars(fr) + col.push('\n'),
{
    let g = |c: Seq<char>| c.push('\n');
    assert(fr.push(col).map_values(g) =~= fr.map_values(g).push(col.push('\n')));
    fr.map_values(g).lemma_flatten_push(col.push('\n'));
}

proof fn lemma_serialized_snoc(rows: Seq<Seq<Seq<char>>>, fr: Seq<Seq<char>>)
    ensures
        serialized(rows.push(fr)) == serialized(rows) + row_chars(fr),
{
    let g = |x: Seq<Seq<char>>| row_chars(x);
    assert(rows.push(fr).map_values(g) =~= rows.map_values(g).push(row_chars(fr)));
    rows.map_values(g).lemma_flatten_push(row_chars(fr));
}

/// Serializes a canonical row list into the digested byte string: each
/// value followed by a newline, row-major.
pub fn serialize_rows(rows: &Vec<Vec<String>>) -> (s: String)
    ensures
        s@ == serialized(rows.deep_view()),
{
    let ghost dv = rows.deep_view();
    let mut s = String::new();
    proof {
        assert(dv.take(0) =~= Seq::<Seq<Seq<char>>>::empty());
        assert(dv.take(0).map_values(|fr: Seq<Seq<char>>| row_chars(fr)) =~= Seq::<
            Seq<char>,
        >::empty());
        assert(s@ =~= serialized(dv.take(0)));
    }
    let n = rows.len();
    let mut i: usize = 0;
    while i < n
        invariant
            n == rows@.len(),
            dv == rows.deep_view(),
            i <= n,
            s@ == serialized(dv.take(i as int)),
        decreases n - i,
    {
        let ghost fr = dv[i as int];
        let ghost base = s@;
        let row = &rows[i];
        let m = row.len();
        proof {
            assert(fr.take(0) =~= Seq::<Seq<char>>::empty());
            assert(fr.take(0).map_values(|c: Seq<char>| c.push('\n')) =~= Seq::<
                Seq<char>,
            >::empty());
            assert(s@ =~= base + row_chars(fr.take(0)));
        }
        let mut j: usize = 0;
        while j < m
            invariant
                m == row@.len(),
                fr == row.deep_view(),
                row == &rows[i as int],
                0 <= i < rows@.len(),
                j <= m,
                s@ == base + row_chars(fr.take(j as int)),
            decreases m - j,
        {
            s.append(row[j].as_str());
            push_char(&mut s, '\n');
            j = j + 1;
            proof {
                assert(fr.take(j as int) =~= fr.take(j as int - 1).push(fr[j as int - 1]));
                lemma_row_chars_snoc(fr.take(j as int - 1), fr[j as int - 1]);
                assert(row@[j as int - 1]@ == fr[j as int - 1]);
            }
        }
        i = i + 1;
        proof {
            assert(fr.take(m as int) =~= fr);
            assert(dv.take(i as int) =~= dv.take(i as int - 1).push(fr));
            lemma_serialized_snoc(dv.take(i as int - 1), fr);
        }
    }
    proof {
        assert(dv.take(n as int) =~= dv);
    }
    s
}

/// The lowercase hexadecimal MD5 digest of a character string's UTF-8
/// bytes, named but not interpreted: the reference digest algorithm.
pub uninterp spec fn md5_hex(s: Seq<char>) -> Seq<char>;

/// Relies on `md5::compute` and the `LowerHex` display of `md5::Digest`:
/// 32 lowercase hexadecimal characters of the 128-bit digest, a function
/// of the input bytes alone.
#[verifier::external_body]
fn md5_hex_string(s: &String) -> (r: String)
    ensures
        r@ == md5_hex(s@),
        r@.len() == 32,
{
    let digest = md5::compute(s.as_bytes());
    format!("{:x}", digest)
}

/// Canonicalizes a weighted multiset into its formatted row list: expand
/// weights, render every row, collect under the ordering policy, sort
/// unless the policy keeps arrival order.
pub fn zset_to_strings<K: ToSqlRow>(set: &ZSet<K>, format: String, order: SortOrder) -> (r: Result<
    Vec<Vec<String>>,
    SqlError,
>)
    ensures
        r is Ok <==> weights_ok(set@) && rows_fmt_ok_all(zset_model(set@), format@),
        r is Ok ==> r.unwrap().deep_view() == canonical_rows(zset_model(set@), format@, order),
        r is Err ==> r.unwrap_err() == (if !weights_ok(set@) {
            SqlError::InvariantViolation(InvariantKind::NegativeWeight)
        } else {
            SqlError::FormatMismatch
        }),
{
    let ghost model = zset_model(set@);
    let ghost exp = expanded(model);
    let rows = match zset_to_rows(set) {
        Ok(v) => v,
        Err(e) => {
            return Err(e);
        },
    };
    let ghost fmtf = format@;
    let mut data_rows = DataRows::with_capacity(format, order, rows.len());
    let n = rows.len();
    proof {
        assert(exp.take(0).map_values(fmt_row_fn(fmtf)) =~= Seq::<
            Seq<Seq<char>>,
        >::empty());
        assert(collect_rows(exp.take(0).map_values(fmt_row_fn(fmtf)), order)
            =~= Seq::<Seq<Seq<char>>>::empty()) by {
            if order == SortOrder::Value {
                assert(Seq::<Seq<Seq<char>>>::empty().map_values(flat_fn()) =~= Seq::<
                    Seq<Seq<Seq<char>>>,
                >::empty());
            }
        }
    }
    let mut i: usize = 0;
    while i < n
        invariant
            n == rows@.len(),
            model == zset_model(set@),
            exp == expanded(model),
            weights_ok(set@),
            fmtf == format@,
            rows.deep_view() == exp,
            data_rows.spec_format() == fmtf,
            data_rows.spec_order() == order,
            i <= n,
            forall|k: int| 0 <= k < i ==> row_fmt_ok(#[trigger] exp[k], fmtf),
            data_rows.spec_rows() == collect_rows(
                exp.take(i as int).map_values(fmt_row_fn(fmtf)),
                order,
            ),
        decreases n - i,
    {
        let row = rows[i].to_row();
        let ghost rv = row@;
        proof {
            assert(rv == exp[i as int]);
        }
        match data_rows.push(row) {
            Ok(_) => {},
            Err(e) => {
                proof {
                    assert(!row_fmt_ok(rv, fmtf));
                    assert(exp.len() == rows@.len());
                    assert(expanded(zset_model(set@)) == exp);
                    assert(!row_fmt_ok(expanded(zset_model(set@))[i as int], fmtf));
                    assert(!rows_fmt_ok_all(zset_model(set@), fmtf));
                }
                return Err(e);
            },
        }
        i = i + 1;
        proof {
            let g = fmt_row_fn(fmtf);
            assert(exp.take(i as int) =~= exp.take(i as int - 1).push(exp[i as int - 1]));
            assert(exp.take(i as int).map_values(g) =~= exp.take(i as int - 1).map_values(g).push(
                fmt_row(exp[i as int - 1], fmtf),
            ));
            lemma_collect_snoc(
                exp.take(i as int - 1).map_values(g),
                fmt_row(exp[i as int - 1], fmtf),
                order,
            );
        }
    }
    proof {
        assert(exp.take(n as int) =~= exp);
    }
    Ok(data_rows.get())
}

/// Canonicalizes a weighted multiset and digests the result: the
/// conformance-test comparison hash.
pub fn hash<K: ToSqlRow>(set: &ZSet<K>, format: String, order: SortOrder) -> (r: Result<
    String,
    SqlError,
>)
    ensures
        r is Ok <==> weights_ok(set@) && rows_fmt_ok_all(zset_model(set@), format@),
        r is Ok ==> r.unwrap()@ == md5_hex(
            serialized(canonical_rows(zset_model(set@), format@, order)),
        ),
        r is Err ==> r.unwrap_err() == (if !weights_ok(set@) {
            SqlError::InvariantViolation(InvariantKind::NegativeWeight)
        } else {
            SqlError::FormatMismatch
        }),
{
    let vec = match zset_to_strings(set, format, order) {
        Ok(v) => v,
        Err(e) => {
            return Err(e);
        },
    };
    let builder = serialize_rows(&vec);
    Ok(md5_hex_string(&builder))
}

} // verus!

verus! {

/// The display rows of one ordered vector key, in vector order.
pub open spec fn vec_rows<K: ToSqlRow>(key: Seq<K>) -> Seq<Seq<ValV>> {
    key.map_values(|k: K| k.row_spec())
}

/// All display rows of a vector-result multiset, keys in entry order,
/// rows in vector order.
pub open spec fn vec_zset_rows<K: ToSqlRow>(s: Seq<(Vec<K>, i64)>) -> Seq<Seq<ValV>> {
    s.map_values(|p: (Vec<K>, i64)| vec_rows(p.0@)).flatten()
}

/// The first fault a traversal of a vector-result multiset meets: a
/// weight other than one, or, for a unit-weight key, a row its format
/// cannot render.
pub open spec fn vec_zset_err<K: ToSqlRow>(s: Seq<(Vec<K>, i64)>, f: Seq<char>) -> Option<
    SqlError,
>
    decreases s.len(),
{
    if s.len() == 0 {
        None
    } else if s[0].1 != 1 {
        Some(SqlError::InvariantViolation(InvariantKind::ExpectedUnitWeight))
    } else if exists|k: int|
        0 <= k < s[0].0@.len() && !row_fmt_ok(#[trigger] vec_rows(s[0].0@)[k], f) {
        Some(SqlError::FormatMismatch)
    } else {
        vec_zset_err(s.drop_first(), f)
    }
}

proof fn lemma_vec_zset_rows_snoc<K: ToSqlRow>(s: Seq<(Vec<K>, i64)>, p: (Vec<K>, i64))
    ensures
        vec_zset_rows(s.push(p)) == vec_zset_rows(s) + vec_rows(p.0@),
{
    let g = |q: (Vec<K>, i64)| vec_rows(q.0@);
    assert(s.push(p).map_values(g) =~= s.map_values(g).push(vec_rows(p.0@)));
    s.map_values(g).lemma_flatten_push(vec_rows(p.0@));
}

proof fn lemma_collect_concat(a: Seq<Seq<Seq<char>>>, b: Seq<Seq<Seq<char>>>, order: SortOrder)
    ensures
        collect_rows(a + b, order) == collect_rows(a, order) + collect_rows(b, order),
{
    if order == SortOrder::Value {
        let g = flat_fn();
        assert((a + b).map_values(g) =~= a.map_values(g) + b.map_values(g));
        vstd::seq_lib::lemma_flatten_concat(a.map_values(g), b.map_values(g));
    } else {
        assert(collect_rows(a + b, order) =~= collect_rows(a, order) + collect_rows(b, order));
    }
}

/// Renders and collects every row of one ordered vector key, preserving
/// vector order.
fn push_vector_rows<K: ToSqlRow>(data_rows: &mut DataRows, key: &Vec<K>) -> (r: Result<
    (),
    SqlError,
>)
    ensures
        final(data_rows).spec_format() == old(data_rows).spec_format(),
        final(data_rows).spec_order() == old(data_rows).spec_order(),
        r is Ok <==> (forall|k: int|
            0 <= k < key@.len() ==> row_fmt_ok(
                #[trigger] vec_rows(key@)[k],
                old(data_rows).spec_format(),
            )),
        r is Ok ==> final(data_rows).spec_rows() == old(data_rows).spec_rows() + collect_rows(
            vec_rows(key@).map_values(fmt_row_fn(old(data_rows).spec_format())),
            old(data_rows).spec_order(),
        ),
        r is Err ==> r.unwrap_err() == SqlError::FormatMismatch && (exists|k: int|
            0 <= k < key@.len() && !row_fmt_ok(
                #[trigger] vec_rows(key@)[k],
                old(data_rows).spec_format(),
            )),
{
    let ghost fmtf = data_rows.spec_format();
    let ghost order = data_rows.spec_order();
    let ghost base = data_rows.spec_rows();
    let ghost krows = vec_rows(key@);
    let ghost g = fmt_row_fn(fmtf);
    let n = key.len();
    proof {
        assert(krows.take(0).map_values(g) =~= Seq::<Seq<Seq<char>>>::empty());
        assert(collect_rows(krows.take(0).map_values(g), order) =~= Seq::<
            Seq<Seq<char>>,
        >::empty()) by {
            if order == SortOrder::Value {
                assert(Seq::<Seq<Seq<char>>>::empty().map_values(flat_fn()) =~= Seq::<
                    Seq<Seq<Seq<char>>>,
                >::empty());
            }
        }
    }
    let mut j: usize = 0;
    while j < n
        invariant
            n == key@.len(),
            krows == vec_rows(key@),
            g == fmt_row_fn(fmtf),
            fmtf == old(data_rows).spec_format(),
            order == old(data_rows).spec_order(),
            base == old(data_rows).spec_rows(),
            data_rows.spec_format() == fmtf,
            data_rows.spec_order() == order,
            j <= n,
            forall|k: int| 0 <= k < j ==> row_fmt_ok(#[trigger] krows[k], fmtf),
            data_rows.spec_rows() == base + collect_rows(krows.take(j as int).map_values(g), order),
        decreases n - j,
    {
        let row = key[j].to_row();
        let ghost rv = row@;
        proof {
            assert(rv == krows[j as int]);
        }
        match data_rows.push(row) {
            Ok(_) => {},
            Err(e) => {
                proof {
                    assert(!row_fmt_ok(krows[j as int], fmtf));
                }
                return Err(e);
            },
        }
        j = j + 1;
        proof {
            assert(krows.take(j as int) =~= krows.take(j as int - 1).push(krows[j as int - 1]));
            assert(krows.take(j as int).map_values(g) =~= krows.take(j as int - 1).map_values(
                g,
            ).push(fmt_row(krows[j as int - 1], fmtf)));
            lemma_collect_snoc(
                krows.take(j as int - 1).map_values(g),
                fmt_row(krows[j as int - 1], fmtf),
                order,
            );
        }
    }
    proof {
        assert(krows.take(n as int) =~= krows);
    }
    Ok(())
}

/// Canonicalizes a vector-result multiset: each key holds one pre-ordered
/// vector of elements and must carry weight exactly one; its elements
/// become rows in vector order.
pub fn zset_of_vectors_to_strings<K: ToSqlRow>(
    set: &ZSet<Vec<K>>,
    format: String,
    order: SortOrder,
) -> (r: Result<Vec<Vec<String>>, SqlError>)
    ensures
        r is Ok <==> vec_zset_err(set@, format@) is None,
        r is Ok ==> r.unwrap().deep_view() == canonical_formatted(
            vec_zset_rows(set@),
            format@,
            order,
        ),
        r is Err ==> Some(r.unwrap_err()) == vec_zset_err(set@, format@),
{
    let ghost fmtf = format@;
    let ghost g = fmt_row_fn(fmtf);
    let mut data_rows = DataRows::new(format, order);
    let n = set.entries.len();
    proof {
        assert(set@.skip(0) =~= set@);
        assert(vec_zset_rows(set@.take(0)).map_values(g) =~= Seq::<Seq<Seq<char>>>::empty()) by {
            assert(set@.take(0).map_values(|p: (Vec<K>, i64)| vec_rows(p.0@)) =~= Seq::<
                Seq<Seq<ValV>>,
            >::empty());
        }
        assert(collect_rows(vec_zset_rows(set@.take(0)).map_values(g), order) =~= Seq::<
            Seq<Seq<char>>,
        >::empty()) by {
            if order == SortOrder::Value {
                assert(Seq::<Seq<Seq<char>>>::empty().map_values(flat_fn()) =~= Seq::<
                    Seq<Seq<Seq<char>>>,
                >::empty());
            }
        }
    }
    let mut i: usize = 0;
    while i < n
        invariant
            n == set@.len(),
            fmtf == format@,
            g == fmt_row_fn(fmtf),
            data_rows.spec_format() == fmtf,
            data_rows.spec_order() == order,
            i <= n,
            vec_zset_err(set@, fmtf) == vec_zset_err(set@.skip(i as int), fmtf),
            data_rows.spec_rows() == collect_rows(
                vec_zset_rows(set@.take(i as int)).map_values(g),
                order,
            ),
        decreases n - i,
    {
        let ghost entry = set@[i as int];
        proof {
            assert(set@.skip(i as int)[0] == entry);
            assert(set@.skip(i as int).drop_first() =~= set@.skip(i as int + 1));
        }
        let w = set.entries[i].1;
        if w != 1 {
            return Err(SqlError::InvariantViolation(InvariantKind::ExpectedUnitWeight));
        }
        let ghost before = data_rows.spec_rows();
        match push_vector_rows(&mut data_rows, &set.entries[i].0) {
            Ok(_) => {},
            Err(e) => {
                return Err(e);
            },
        }
        i = i + 1;
        proof {
            assert(set@.take(i as int) =~= set@.take(i as int - 1).push(entry));
            lemma_vec_zset_rows_snoc(set@.take(i as int - 1), entry);
            assert(vec_zset_rows(set@.take(i as int)).map_values(g) =~= vec_zset_rows(
                set@.take(i as int - 1),
            ).map_values(g) + vec_rows(entry.0@).map_values(g));
            lemma_collect_concat(
                vec_zset_rows(set@.take(i as int - 1)).map_values(g),
                vec_rows(entry.0@).map_values(g),
                order,
            );
        }
    }
    proof {
        assert(set@.take(n as int) =~= set@);
        assert(set@.skip(n as int).len() == 0);
    }
    Ok(data_rows.get())
}

} // verus!

verus! {

/// The byte string that `hash_vectors` digests: each key's rows are
/// canonicalized and serialized on their own, keys in entry order.
pub open spec fn hash_vectors_chars<K: ToSqlRow>(
    s: Seq<(Vec<K>, i64)>,
    f: Seq<char>,
    order: SortOrder,
) -> Seq<char>
    decreases s.len(),
{
    if s.len() == 0 {
        Seq::<char>::empty()
    } else {
        serialized(canonical_formatted(vec_rows(s[0].0@), f, order)) + hash_vectors_chars(
            s.drop_first(),
            f,
            order,
        )
    }
}

proof fn lemma_hvc_snoc<K: ToSqlRow>(
    s: Seq<(Vec<K>, i64)>,
    p: (Vec<K>, i64),
    f: Seq<char>,
    order: SortOrder,
)
    ensures
        hash_vectors_chars(s.push(p), f, order) == hash_vectors_chars(s, f, order) + serialized(
            canonical_formatted(vec_rows(p.0@), f, order),
        ),
    decreases s.len(),
{
    if s.len() == 0 {
        assert(s.push(p)[0] == p);
        assert(s.push(p).drop_first() =~= s);
        assert(hash_vectors_chars(s.push(p), f, order) =~= hash_vectors_chars(s, f, order)
            + serialized(canonical_formatted(vec_rows(p.0@), f, order)));
    } else {
        assert(s.push(p)[0] == s[0]);
        assert(s.push(p).drop_first() =~= s.drop_first().push(p));
        lemma_hvc_snoc(s.drop_first(), p, f, order);
        assert(hash_vectors_chars(s.push(p), f, order) =~= hash_vectors_chars(s, f, order)
            + serialized(canonical_formatted(vec_rows(p.0@), f, order)));
    }
}

/// Digests a vector-result multiset: each unit-weight key's rows are
/// canonicalized and serialized per key, and the concatenation is hashed.
pub fn hash_vectors<K: ToSqlRow>(set: &ZSet<Vec<K>>, format: String, order: SortOrder) -> (r:
    Result<String, SqlError>)
    ensures
        r is Ok <==> vec_zset_err(set@, format@) is None,
        r is Ok ==> r.unwrap()@ == md5_hex(hash_vectors_chars(set@, format@, order)),
        r is Err ==> Some(r.unwrap_err()) == vec_zset_err(set@, format@),
{
    let ghost fmtf = format@;
    let mut builder = String::new();
    let n = set.entries.len();
    proof {
        assert(set@.skip(0) =~= set@);
        assert(builder@ =~= hash_vectors_chars(set@.take(0), fmtf, order));
    }
    let mut i: usize = 0;
    while i < n
        invariant
            n == set@.len(),
            fmtf == format@,
            i <= n,
            vec_zset_err(set@, fmtf) == vec_zset_err(set@.skip(i as int), fmtf),
            builder@ == hash_vectors_chars(set@.take(i as int), fmtf, order),
        decreases n - i,
    {
        let ghost entry = set@[i as int];
        proof {
            assert(set@.skip(i as int)[0] == entry);
            assert(set@.skip(i as int).drop_first() =~= set@.skip(i as int + 1));
        }
        let w = set.entries[i].1;
        if w != 1 {
            return Err(SqlError::InvariantViolation(InvariantKind::ExpectedUnitWeight));
        }
        let key = &set.entries[i].0;
        let mut data_rows = DataRows::with_capacity(format.clone(), order, key.len());
        match push_vector_rows(&mut data_rows, key) {
            Ok(_) => {},
            Err(e) => {
                return Err(e);
            },
        }
        let rows = data_rows.get();
        let piece = serialize_rows(&rows);
        builder.append(piece.as_str());
        i = i + 1;
        proof {
            let g = fmt_row_fn(fmtf);
            assert(Seq::<Seq<Seq<char>>>::empty() + collect_rows(vec_rows(entry.0@).map_values(g),
                order) =~= collect_rows(vec_rows(entry.0@).map_values(g), order));
            assert(set@.take(i as int) =~= set@.take(i as int - 1).push(entry));
            lemma_hvc_snoc(set@.take(i as int - 1), entry, fmtf, order);
        }
    }
    proof {
        assert(set@.take(n as int) =~= set@);
        assert(set@.skip(n as int).len() == 0);
    }
    Ok(md5_hex_string(&builder))
}

/// The weighted element count of a vector-result multiset: each key
/// contributes the length of its vector times its weight.
pub open spec fn weighted_count_sum<K>(s: Seq<(Vec<K>, i64)>) -> int
    decreases s.len(),
{
    if s.len() == 0 {
        0
    } else {
        s[0].0@.len() * s[0].1 + weighted_count_sum(s.drop_first())
    }
}

proof fn lemma_wcs_snoc<K>(s: Seq<(Vec<K>, i64)>, p: (Vec<K>, i64))
    ensures
        weighted_count_sum(s.push(p)) == weighted_count_sum(s) + p.0@.len() * p.1,
    decreases s.len(),
{
    if s.len() == 0 {
        assert(s.push(p)[0] == p);
        assert(s.push(p).drop_first() =~= s);
    } else {
        assert(s.push(p)[0] == s[0]);
        assert(s.push(p).drop_first() =~= s.drop_first().push(p));
        lemma_wcs_snoc(s.drop_first(), p);
    }
}

/// Sums vector length times weight over all keys, for capacity planning.
pub fn weighted_vector_count<K>(set: &ZSet<Vec<K>>) -> (r: isize)
    requires
        forall|i: int| 0 <= i < set@.len() ==> (#[trigger] set@[i]).0@.len() <= isize::MAX,
        forall|i: int|
            0 <= i < set@.len() ==> isize::MIN <= (#[trigger] set@[i]).0@.len() * set@[i].1
                <= isize::MAX,
        forall|i: int|
            0 <= i <= set@.len() ==> isize::MIN <= weighted_count_sum(#[trigger] set@.take(i))
                <= isize::MAX,
    ensures
        r == weighted_count_sum(set@),
{
    let mut sum: i64 = 0;
    let n = set.entries.len();
    proof {
        assert(set@.take(0) =~= Seq::<(Vec<K>, i64)>::empty());
        assert(isize::MIN >= i64::MIN && isize::MAX <= i64::MAX);
    }
    let mut i: usize = 0;
    while i < n
        invariant
            n == set@.len(),
            i <= n,
            sum == weighted_count_sum(set@.take(i as int)),
            isize::MIN <= sum <= isize::MAX,
            forall|k: int| 0 <= k < set@.len() ==> (#[trigger] set@[k]).0@.len() <= isize::MAX,
            forall|k: int|
                0 <= k < set@.len() ==> isize::MIN <= (#[trigger] set@[k]).0@.len() * set@[k].1
                    <= isize::MAX,
            forall|k: int|
                0 <= k <= set@.len() ==> isize::MIN <= weighted_count_sum(#[trigger] set@.take(k))
                    <= isize::MAX,
        decreases n - i,
    {
        let len: usize = set.entries[i].0.len();
        let w: i64 = set.entries[i].1;
        proof {
            assert(set@[i as int].0@.len() * set@[i as int].1 == len as int * w);
            assert(set@.take(i as int + 1) =~= set@.take(i as int).push(set@[i as int]));
            lemma_wcs_snoc(set@.take(i as int), set@[i as int]);
        }
        let prod: i64 = (len as i64) * w;
        sum = sum + prod;
        i = i + 1;
    }
    proof {
        assert(set@.take(n as int) =~= set@);
    }
    sum as isize
}

} // verus!

verus! {

proof fn lemma_map_multiset<A, B>(s1: Seq<A>, s2: Seq<A>, f: spec_fn(A) -> B)
    requires
        s1.to_multiset() == s2.to_multiset(),
    ensures
        s1.map_values(f).to_multiset() == s2.map_values(f).to_multiset(),
    decreases s1.len(),
{
    broadcast use group_to_multiset_ensures;

    s1.to_multiset_ensures();
    s2.to_multiset_ensures();
    if s1.len() == 0 {
        assert(s2.to_multiset().len() == 0);
        assert(s1.map_values(f) =~= s2.map_values(f));
    } else {
        let x = s1[0];
        assert(s1.contains(x));
        assert(s2.to_multiset().count(x) > 0);
        assert(s2.contains(x));
        let j = choose|j: int| 0 <= j < s2.len() && s2[j] == x;
        assert(s1.remove(0).to_multiset() =~= s1.to_multiset().remove(x));
        assert(s2.remove(j).to_multiset() =~= s2.to_multiset().remove(x));
        lemma_map_multiset(s1.remove(0), s2.remove(j), f);
        let m1 = s1.map_values(f);
        let m2 = s2.map_values(f);
        m1.to_multiset_ensures();
        m2.to_multiset_ensures();
        assert(s1.remove(0).map_values(f) =~= m1.remove(0));
        assert(s2.remove(j).map_values(f) =~= m2.remove(j));
        assert(m1.remove(0).to_multiset() =~= m1.to_multiset().remove(f(x)));
        assert(m2.remove(j).to_multiset() =~= m2.to_multiset().remove(f(x)));
        assert(0 <= 0 < m1.len() && m1[0] == f(x));
        assert(m1.contains(f(x)));
        assert(m2[j] == f(x));
        assert(m2.contains(f(x)));
        assert(m1.to_multiset().count(f(x)) > 0);
        assert(m2.to_multiset().count(f(x)) > 0);
        assert forall|v: B| true implies m1.to_multiset().count(v) == m2.to_multiset().count(
            v,
        ) by {
            if v == f(x) {
                assert(m1.to_multiset().remove(f(x)).count(v) == m2.to_multiset().remove(
                    f(x),
                ).count(v));
            } else {
                assert(m1.to_multiset().remove(f(x)).count(v) == m1.to_multiset().count(v));
                assert(m2.to_multiset().remove(f(x)).count(v) == m2.to_multiset().count(v));
            }
        }
        assert(m1.to_multiset() =~= m2.to_multiset());
    }
}

proof fn lemma_flatmap_remove<A, B>(s: Seq<A>, j: int, g: spec_fn(A) -> Seq<B>)
    requires
        0 <= j < s.len(),
    ensures
        s.map_values(g).flatten().to_multiset() == s.remove(j).map_values(
            g,
        ).flatten().to_multiset().add(g(s[j]).to_multiset()),
{
    let a = s.subrange(0, j).map_values(g);
    let b = s.subrange(j + 1, s.len() as int).map_values(g);
    let mid = seq![g(s[j])];
    assert(s.map_values(g) =~= a + mid + b);
    vstd::seq_lib::lemma_flatten_concat(a + mid, b);
    vstd::seq_lib::lemma_flatten_concat(a, mid);
    mid.lemma_flatten_one_element();
    assert((a + mid + b).flatten() == (a + mid).flatten() + b.flatten());
    assert((a + mid).flatten() == a.flatten() + g(s[j]));
    assert(s.remove(j).map_values(g) =~= a + b);
    vstd::seq_lib::lemma_flatten_concat(a, b);
    vstd::seq_lib::lemma_multiset_commutative(a.flatten() + g(s[j]), b.flatten());
    vstd::seq_lib::lemma_multiset_commutative(a.flatten(), g(s[j]));
    vstd::seq_lib::lemma_multiset_commutative(a.flatten(), b.flatten());
    assert(s.map_values(g).flatten().to_multiset() =~= s.remove(j).map_values(
        g,
    ).flatten().to_multiset().add(g(s[j]).to_multiset()));
}

proof fn lemma_flatmap_multiset<A, B>(s1: Seq<A>, s2: Seq<A>, g: spec_fn(A) -> Seq<B>)
    requires
        s1.to_multiset() == s2.to_multiset(),
    ensures
        s1.map_values(g).flatten().to_multiset() == s2.map_values(g).flatten().to_multiset(),
    decreases s1.len(),
{
    broadcast use group_to_multiset_ensures;

    s1.to_multiset_ensures();
    s2.to_multiset_ensures();
    if s1.len() == 0 {
        assert(s2.to_multiset().len() == 0);
        assert(s1.map_values(g) =~= s2.map_values(g));
    } else {
        let x = s1[0];
        assert(s1.contains(x));
        assert(s2.to_multiset().count(x) > 0);
        assert(s2.contains(x));
        let j = choose|j: int| 0 <= j < s2.len() && s2[j] == x;
        assert(s1.remove(0).to_multiset() =~= s1.to_multiset().remove(x));
        assert(s2.remove(j).to_multiset() =~= s2.to_multiset().remove(x));
        lemma_flatmap_multiset(s1.remove(0), s2.remove(j), g);
        lemma_flatmap_remove(s1, 0, g);
        lemma_flatmap_remove(s2, j, g);
        assert(s1.map_values(g).flatten().to_multiset() =~= s2.map_values(
            g,
        ).flatten().to_multiset());
    }
}

/// Canonicalization is deterministic and order-independent: under a
/// sorting policy, two multisets whose entry sequences are permutations
/// of each other — the same keys with the same weights, enumerated in any
/// order — canonicalize to the same row list, and hence to the same
/// serialization and the same digest.
pub proof fn lemma_canonical_order_independent(
    a: Seq<(Seq<ValV>, int)>,
    b: Seq<(Seq<ValV>, int)>,
    f: Seq<char>,
    order: SortOrder,
)
    requires
        a.to_multiset() == b.to_multiset(),
        order != SortOrder::Unordered,
    ensures
        canonical_rows(a, f, order) == canonical_rows(b, f, order),
{
    lemma_flatmap_multiset(a, b, rep_fn());
    assert(expanded(a).to_multiset() == expanded(b).to_multiset());
    lemma_map_multiset(expanded(a), expanded(b), fmt_row_fn(f));
    let fa = expanded(a).map_values(fmt_row_fn(f));
    let fb = expanded(b).map_values(fmt_row_fn(f));
    if order == SortOrder::Value {
        lemma_flatmap_multiset(fa, fb, flat_fn());
    }
    let ca = collect_rows(fa, order);
    let cb = collect_rows(fb, order);
    assert(ca.to_multiset() == cb.to_multiset());
    lemma_row_le_total();
    ca.lemma_sort_by_ensures(row_le_fn());
    cb.lemma_sort_by_ensures(row_le_fn());
    lemma_sorted_unique(ca.sort_by(row_le_fn()), cb.sort_by(row_le_fn()), row_le_fn());
}

/// Multiplicity expansion: a multiset holding one key with non-negative
/// weight `w` and no other key canonicalizes, under the row-preserving
/// policies, to exactly `w` copies of that key's formatted row.
pub proof fn lemma_multiplicity(row: Seq<ValV>, w: int, f: Seq<char>, order: SortOrder)
    requires
        w >= 0,
        order != SortOrder::Value,
    ensures
        canonical_rows(seq![(row, w)], f, order) == Seq::new(w as nat, |i: int| fmt_row(row, f)),
{
    broadcast use group_to_multiset_ensures;

    let m = seq![(row, w)];
    let reps = Seq::new(w as nat, |i: int| fmt_row(row, f));
    assert(m.map_values(rep_fn()) =~= seq![repeat_row(row, w)]);
    seq![repeat_row(row, w)].lemma_flatten_one_element();
    assert(expanded(m) == repeat_row(row, w));
    assert(expanded(m).map_values(fmt_row_fn(f)) =~= reps);
    let c = collect_rows(reps, order);
    assert(c == reps);
    if order == SortOrder::Unordered {
        assert(canonical_rows(m, f, order) == reps);
    } else {
        lemma_row_le_total();
        reps.lemma_sort_by_ensures(row_le_fn());
        assert(sorted_by(reps, row_le_fn())) by {
            assert forall|i: int, j: int| 0 <= i < j < reps.len() implies row_le_fn()(
                reps[i],
                reps[j],
            ) by {
                lemma_row_cmp_antisym(fmt_row(row, f), fmt_row(row, f));
            }
        }
        lemma_sorted_unique(reps.sort_by(row_le_fn()), reps, row_le_fn());
        assert(canonical_rows(m, f, order) == reps);
    }
}

} // verus!

verus! {

proof fn lemma_flatten_constant_multiset<A>(n: nat, x: Seq<A>, v: A)
    ensures
        Seq::new(n, |i: int| x).flatten().to_multiset().count(v) == n * x.to_multiset().count(v),
    decreases n,
{
    broadcast use group_to_multiset_ensures;

    let s = Seq::new(n, |i: int| x);
    if n == 0 {
        assert(s.len() == 0);
        assert(s.flatten() =~= Seq::<A>::empty());
        assert(s.flatten().to_multiset().len() == 0);
    } else {
        let rest = Seq::new((n - 1) as nat, |i: int| x);
        assert(s.drop_first() =~= rest);
        assert(s.flatten() == s.first() + rest.flatten());
        vstd::seq_lib::lemma_multiset_commutative(s.first(), rest.flatten());
        lemma_flatten_constant_multiset((n - 1) as nat, x, v);
        let c = x.to_multiset().count(v) as int;
        assert(n * c == (n - 1) * c + c) by (nonlinear_arith);
    }
}

/// Multiplicity expansion under the value-flattened policy: a multiset
/// holding one key with non-negative weight `w` and no other key
/// canonicalizes to a row list in which every exploded single-column row
/// of that key occurs `w` times as often as in one explosion, and no
/// other row occurs at all.
pub proof fn lemma_multiplicity_value_flattened(
    row: Seq<ValV>,
    w: int,
    f: Seq<char>,
    v: Seq<Seq<char>>,
)
    requires
        w >= 0,
    ensures
        canonical_rows(seq![(row, w)], f, SortOrder::Value).to_multiset().count(v) == w
            * flattened_row(fmt_row(row, f)).to_multiset().count(v),
{
    let m = seq![(row, w)];
    assert(m.map_values(rep_fn()) =~= seq![repeat_row(row, w)]);
    seq![repeat_row(row, w)].lemma_flatten_one_element();
    assert(expanded(m) == repeat_row(row, w));
    let fr = fmt_row(row, f);
    let fx = flattened_row(fr);
    assert(expanded(m).map_values(fmt_row_fn(f)) =~= Seq::new(w as nat, |i: int| fr));
    assert(Seq::new(w as nat, |i: int| fr).map_values(flat_fn()) =~= Seq::new(
        w as nat,
        |i: int| fx,
    ));
    let c = collect_rows(expanded(m).map_values(fmt_row_fn(f)), SortOrder::Value);
    assert(c == Seq::new(w as nat, |i: int| fx).flatten());
    lemma_flatten_constant_multiset(w as nat, fx, v);
    lemma_row_le_total();
    c.lemma_sort_by_ensures(row_le_fn());
    assert(canonical_rows(m, f, SortOrder::Value).to_multiset() == c.to_multiset());
}

} // verus!
