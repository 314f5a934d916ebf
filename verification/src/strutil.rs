//! String helpers shared by the display formatter and the canonicalizer:
//! decimal rendering of integers and lexicographic string comparison.

use vstd::prelude::*;
use vstd::string::{StrSliceExecFns, StringExecFns};

verus! {

/// Relies on std's `String::push`: appends exactly the given character.
#[verifier::external_body]
pub fn push_char(s: &mut String, c: char)
    ensures
        final(s)@ == old(s)@.push(c),
{
    s.push(c);
}

/// The ASCII digit for a value in 0..=9.
pub open spec fn digit_char(d: int) -> char {
    ((48 + d) as u8) as char
}

/// The decimal digits of a non-negative integer, most significant first.
pub open spec fn dec_digits(n: nat) -> Seq<char>
    decreases n,
{
    if n < 10 {
        seq![digit_char(n as int)]
    } else {
        dec_digits(n / 10).push(digit_char((n % 10) as int))
    }
}

/// The decimal rendering of an integer: a minus sign for negative values,
/// then the digits of its magnitude.
pub open spec fn int_str(n: int) -> Seq<char> {
    if n >= 0 {
        dec_digits(n as nat)
    } else {
        seq!['-'] + dec_digits((-n) as nat)
    }
}

/// Renders a non-negative integer in decimal.
pub fn u64_to_dec(n: u64) -> (r: String)
    ensures
        r@ == dec_digits(n as nat),
{
    let mut digits: Vec<char> = Vec::new();
    if n == 0 {
        digits.push(48u8 as char);
        proof {
            assert(dec_digits(0) =~= digits@.reverse());
        }
    }
    let mut m: u64 = n;
    while m > 0
        invariant
            m > 0 ==> dec_digits(n as nat) =~= dec_digits(m as nat) + digits@.reverse(),
            m == 0 ==> digits@.len() > 0 && dec_digits(n as nat) =~= digits@.reverse(),
            m <= n,
        decreases m,
    {
        let ghost prev = m;
        let d: u8 = (m % 10) as u8;
        digits.push((48 + d) as char);
        m = m / 10;
        proof {
            assert(digits@.reverse() =~= seq![digit_char((prev % 10) as int)]
                + digits@.drop_last().reverse());
            if prev < 10 {
                assert(dec_digits(prev as nat) == seq![digit_char(prev as int)]);
            } else {
                assert(dec_digits(prev as nat) == dec_digits((prev / 10) as nat).push(
                    digit_char((prev % 10) as int)));
            }
        }
    }
    let mut s = String::new();
    let len = digits.len();
    let mut j: usize = 0;
    while j < len
        invariant
            len == digits@.len(),
            j <= len,
            dec_digits(n as nat) =~= digits@.reverse(),
            s@ =~= digits@.reverse().take(j as int),
        decreases len - j,
    {
        push_char(&mut s, digits[len - 1 - j]);
        j = j + 1;
        proof {
            assert(s@ =~= digits@.reverse().take(j as int));
        }
    }
    proof {
        assert(s@ =~= digits@.reverse());
        assert(dec_digits(n as nat) =~= digits@.reverse());
        assert(s@ =~= dec_digits(n as nat));
    }
    s
}

/// Renders a signed integer in decimal.
pub fn i64_to_dec(x: i64) -> (r: String)
    ensures
        r@ == int_str(x as int),
{
    if x >= 0 {
        u64_to_dec(x as u64)
    } else {
        let abs: u64 = if x == i64::MIN {
            9223372036854775808u64
        } else {
            (-x) as u64
        };
        let d = u64_to_dec(abs);
        let mut s = String::new();
        push_char(&mut s, '-');
        s.append(d.as_str());
        proof {
            assert(s@ =~= seq!['-'] + dec_digits((-(x as int)) as nat));
        }
        s
    }
}

/// Renders a signed 32-bit integer in decimal.
pub fn i32_to_dec(x: i32) -> (r: String)
    ensures
        r@ == int_str(x as int),
{
    i64_to_dec(x as i64)
}

/// Three-way lexicographic comparison of character sequences, the order in
/// which std compares strings: by code point, a strict prefix first.
pub open spec fn seq_cmp(a: Seq<char>, b: Seq<char>) -> int
    decreases a.len(),
{
    if a.len() == 0 && b.len() == 0 {
        0
    } else if a.len() == 0 {
        -1
    } else if b.len() == 0 {
        1
    } else if a[0] < b[0] {
        -1
    } else if b[0] < a[0] {
        1
    } else {
        seq_cmp(a.drop_first(), b.drop_first())
    }
}

pub proof fn lemma_seq_cmp_eq(a: Seq<char>, b: Seq<char>)
    ensures
        seq_cmp(a, b) == 0 <==> a =~= b,
    decreases a.len(),
{
    if a.len() != 0 && b.len() != 0 {
        lemma_seq_cmp_eq(a.drop_first(), b.drop_first());
        if seq_cmp(a, b) == 0 {
            assert(a =~= seq![a[0]] + a.drop_first());
            assert(b =~= seq![b[0]] + b.drop_first());
        }
        if a =~= b {
            assert(a.drop_first() =~= b.drop_first());
        }
    }
}

pub proof fn lemma_seq_cmp_antisym(a: Seq<char>, b: Seq<char>)
    ensures
        seq_cmp(a, b) == -seq_cmp(b, a),
    decreases a.len(),
{
    if a.len() != 0 && b.len() != 0 {
        lemma_seq_cmp_antisym(a.drop_first(), b.drop_first());
    }
}

pub proof fn lemma_seq_cmp_trans(a: Seq<char>, b: Seq<char>, c: Seq<char>)
    requires
        seq_cmp(a, b) <= 0,
        seq_cmp(b, c) <= 0,
    ensures
        seq_cmp(a, c) <= 0,
        seq_cmp(a, b) < 0 || seq_cmp(b, c) < 0 ==> seq_cmp(a, c) < 0,
    decreases a.len() + b.len() + c.len(),
{
    if a.len() != 0 && b.len() != 0 && c.len() != 0 {
        if a[0] == b[0] && b[0] == c[0] {
            lemma_seq_cmp_trans(a.drop_first(), b.drop_first(), c.drop_first());
        }
    }
}

/// Compares two strings, returning a three-way result that matches
/// `seq_cmp` of their views.
pub fn str_compare(a: &String, b: &String) -> (o: core::cmp::Ordering)
    ensures
        o == core::cmp::Ordering::Less <==> seq_cmp(a@, b@) < 0,
        o == core::cmp::Ordering::Equal <==> seq_cmp(a@, b@) == 0,
        o == core::cmp::Ordering::Greater <==> seq_cmp(a@, b@) > 0,
{
    let alen = a.as_str().unicode_len();
    let blen = b.as_str().unicode_len();
    let min = if alen < blen {
        alen
    } else {
        blen
    };
    proof {
        assert(a@.skip(0) =~= a@);
        assert(b@.skip(0) =~= b@);
    }
    let mut i: usize = 0;
    while i < min
        invariant
            min <= alen && min <= blen,
            alen == a@.len() && blen == b@.len(),
            i <= min,
            seq_cmp(a@, b@) == seq_cmp(a@.skip(i as int), b@.skip(i as int)),
            forall|k: int| 0 <= k < i ==> a@[k] == b@[k],
        decreases min - i,
    {
        let ca = a.as_str().get_char(i);
        let cb = b.as_str().get_char(i);
        proof {
            assert(a@.skip(i as int)[0] == a@[i as int]);
            assert(b@.skip(i as int)[0] == b@[i as int]);
            assert(a@.skip(i as int).drop_first() =~= a@.skip(i as int + 1));
            assert(b@.skip(i as int).drop_first() =~= b@.skip(i as int + 1));
        }
        if ca < cb {
            return core::cmp::Ordering::Less;
        }
        if cb < ca {
            return core::cmp::Ordering::Greater;
        }
        i = i + 1;
    }
    proof {
        assert(a@.skip(min as int).len() == 0 || b@.skip(min as int).len() == 0);
    }
    if alen < blen {
        core::cmp::Ordering::Less
    } else if blen < alen {
        core::cmp::Ordering::Greater
    } else {
        core::cmp::Ordering::Equal
    }
}

} // verus!
