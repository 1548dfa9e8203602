//! Rendering runtime values as the text `print` emits: integers in
//! decimal, booleans as `true`/`false`, the unit value as `unit`, and
//! floats through the trusted float renderer.

use vstd::prelude::*;
use crate::execution::value::Value;
use crate::float::{float_render, float_text};

verus! {

/// The character of a single decimal digit.
pub open spec fn spec_digit_char(d: int) -> char {
    ((d + 48) as u8) as char
}

/// The decimal text of a non-negative integer, no sign and no padding.
pub open spec fn spec_nat_text(n: int) -> Seq<char>
    decreases n,
{
    if n < 10 {
        seq![spec_digit_char(if n < 0 { 0 } else { n })]
    } else {
        spec_nat_text(n / 10).push(spec_digit_char(n % 10))
    }
}

/// The decimal text of an integer: a minus sign for a negative one, then
/// the digits of its magnitude.
pub open spec fn spec_int_text(v: i32) -> Seq<char> {
    if v < 0 {
        seq!['-'] + spec_nat_text(-(v as int))
    } else {
        spec_nat_text(v as int)
    }
}

/// The line `print` emits for a value.
pub open spec fn spec_value_text(v: Value) -> Seq<char> {
    match v {
        Value::IntegerValue(i) => spec_int_text(i),
        Value::FloatValue(b) => float_text(b),
        Value::BooleanValue(b) => if b {
            "true"@
        } else {
            "false"@
        },
        Value::Unit => "unit"@,
    }
}

/// The text of a run of collected digits, most recently collected first.
spec fn rev_digits_text(ds: Seq<u8>) -> Seq<char>
    decreases ds.len(),
{
    if ds.len() == 0 {
        Seq::empty()
    } else {
        seq![spec_digit_char(ds.last() as int)] + rev_digits_text(ds.drop_last())
    }
}

/// Peeling a collected digit from the front of the run appends its
/// character to the text.
proof fn lemma_rev_digits_snoc(ds: Seq<u8>, k: int)
    requires
        0 <= k < ds.len(),
    ensures
        rev_digits_text(ds.subrange(k, ds.len() as int)) == rev_digits_text(
            ds.subrange(k + 1, ds.len() as int),
        ) + seq![spec_digit_char(ds[k] as int)],
    decreases ds.len() - k,
{
    let n = ds.len() as int;
    if k == n - 1 {
        assert(ds.subrange(k, n).last() == ds[k]);
        assert(ds.subrange(k, n).drop_last() =~= Seq::<u8>::empty());
        assert(ds.subrange(k + 1, n) =~= Seq::<u8>::empty());
        assert(rev_digits_text(ds.subrange(k, n)) =~= rev_digits_text(ds.subrange(k + 1, n))
            + seq![spec_digit_char(ds[k] as int)]);
    } else {
        let a = ds.subrange(k, n);
        let b = ds.subrange(k + 1, n);
        assert(a.last() == ds[n - 1] && b.last() == ds[n - 1]);
        assert(a.drop_last() =~= ds.subrange(k, n - 1));
        assert(b.drop_last() =~= ds.subrange(k + 1, n - 1));
        lemma_rev_digits_snoc(ds.subrange(0, n - 1), k);
        assert(ds.subrange(0, n - 1).subrange(k, n - 1) =~= ds.subrange(k, n - 1));
        assert(ds.subrange(0, n - 1).subrange(k + 1, n - 1) =~= ds.subrange(k + 1, n - 1));
        assert(ds.subrange(0, n - 1)[k] == ds[k]);
        assert(rev_digits_text(a) == seq![spec_digit_char(ds[n - 1] as int)] + rev_digits_text(
            ds.subrange(k, n - 1),
        ));
        assert(rev_digits_text(b) == seq![spec_digit_char(ds[n - 1] as int)] + rev_digits_text(
            ds.subrange(k + 1, n - 1),
        ));
        assert(rev_digits_text(a) =~= rev_digits_text(b) + seq![spec_digit_char(ds[k] as int)]);
    }
}

/// The one-character text of a decimal digit.
fn digit_str(d: u8) -> (r: &'static str)
    requires
        d < 10,
    ensures
        r@ == seq![spec_digit_char(d as int)],
{
    let r: &'static str = if d == 0 {
        "0"
    } else if d == 1 {
        "1"
    } else if d == 2 {
        "2"
    } else if d == 3 {
        "3"
    } else if d == 4 {
        "4"
    } else if d == 5 {
        "5"
    } else if d == 6 {
        "6"
    } else if d == 7 {
        "7"
    } else if d == 8 {
        "8"
    } else {
        "9"
    };
    proof {
        reveal_strlit("0");
        reveal_strlit("1");
        reveal_strlit("2");
        reveal_strlit("3");
        reveal_strlit("4");
        reveal_strlit("5");
        reveal_strlit("6");
        reveal_strlit("7");
        reveal_strlit("8");
        reveal_strlit("9");
        assert(r@ =~= seq![spec_digit_char(d as int)]);
    }
    r
}

/// Renders an integer in decimal.
pub fn int_to_string(v: i32) -> (r: String)
    ensures
        r@ == spec_int_text(v),
{
    let neg = v < 0;
    let mut m: u64 = if v < 0 {
        (-(v as i64)) as u64
    } else {
        v as u64
    };
    let ghost m0 = m as int;
    let mut digits: Vec<u8> = Vec::new();
    proof {
        assert(rev_digits_text(digits@) =~= Seq::<char>::empty());
        assert(spec_nat_text(m0) + Seq::<char>::empty() =~= spec_nat_text(m0));
    }
    while m >= 10
        invariant
            0 <= m <= m0 <= 0x8000_0000,
            spec_nat_text(m0) == spec_nat_text(m as int) + rev_digits_text(digits@),
            forall|q: int| 0 <= q < digits@.len() ==> digits@[q] < 10,
        decreases m,
    {
        let ghost m_prev = m as int;
        let d: u8 = (m % 10) as u8;
        let ghost ds0 = digits@;
        digits.push(d);
        m = m / 10;
        proof {
            assert(digits@.drop_last() =~= ds0);
            assert(digits@.last() == d);
            assert(rev_digits_text(digits@) == seq![spec_digit_char(d as int)] + rev_digits_text(
                ds0,
            ));
            assert(spec_nat_text(m_prev) == spec_nat_text(m as int).push(
                spec_digit_char(m_prev % 10),
            ));
            assert(spec_nat_text(m as int).push(spec_digit_char(d as int)) =~= spec_nat_text(
                m as int,
            ) + seq![spec_digit_char(d as int)]);
            assert(spec_nat_text(m0) =~= spec_nat_text(m as int) + rev_digits_text(digits@));
        }
    }
    let mut out = String::new();
    if neg {
        out.append("-");
    }
    let first = digit_str(m as u8);
    out.append(first);
    proof {
        reveal_strlit("-");
        assert(spec_nat_text(m as int) =~= seq![spec_digit_char(m as int)]);
        assert(digits@.subrange(digits@.len() as int, digits@.len() as int) =~= Seq::<u8>::empty());
        assert(out@ =~= (if neg {
            seq!['-']
        } else {
            Seq::<char>::empty()
        }) + spec_nat_text(m as int) + rev_digits_text(
            digits@.subrange(digits@.len() as int, digits@.len() as int),
        ));
    }
    let mut k = digits.len();
    while k > 0
        invariant
            0 <= k <= digits@.len(),
            forall|q: int| 0 <= q < digits@.len() ==> digits@[q] < 10,
            spec_nat_text(m0) == spec_nat_text(m as int) + rev_digits_text(digits@),
            0 <= m < 10,
            m0 == (if neg {
                -(v as int)
            } else {
                v as int
            }),
            neg == (v < 0),
            out@ == (if neg {
                seq!['-']
            } else {
                Seq::<char>::empty()
            }) + spec_nat_text(m as int) + rev_digits_text(
                digits@.subrange(k as int, digits@.len() as int),
            ),
        decreases k,
    {
        k = k - 1;
        let d = digits[k];
        proof {
            lemma_rev_digits_snoc(digits@, k as int);
        }
        assert(d < 10) by {
            assert(digits@[k as int] < 10);
        }
        let ghost out0 = out@;
        out.append(digit_str(d));
        proof {
            assert(out@ =~= (if neg {
                seq!['-']
            } else {
                Seq::<char>::empty()
            }) + spec_nat_text(m as int) + rev_digits_text(
                digits@.subrange(k as int, digits@.len() as int),
            ));
        }
    }
    proof {
        assert(digits@.subrange(0, digits@.len() as int) =~= digits@);
        if neg {
            assert(out@ =~= seq!['-'] + spec_nat_text(-(v as int)));
        } else {
            assert(out@ =~= spec_nat_text(v as int));
        }
    }
    out
}

/// Renders a runtime value as the line `print` emits for it.
pub fn render_value(v: Value) -> (r: String)
    ensures
        r@ == spec_value_text(v),
{
    match v {
        Value::IntegerValue(i) => int_to_string(i),
        Value::FloatValue(b) => float_render(b),
        Value::BooleanValue(true) => "true".to_owned(),
        Value::BooleanValue(false) => "false".to_owned(),
        Value::Unit => "unit".to_owned(),
    }
}

} // verus!
