//! Scalar setting values and their text form: integers in decimal, strings
//! double-quoted verbatim, booleans as the tokens `yes` and `no`.

use vstd::prelude::*;

use crate::text::string_push;

verus! {

/// A value a setting or variable can carry.
pub enum ScalarValue {
    Int(i64),
    Str(String),
    Bool(bool),
}

/// Mathematical form of a scalar value.
pub ghost enum ScalarValueV {
    Int(int),
    Str(Seq<char>),
    Bool(bool),
}

impl DeepView for ScalarValue {
    type V = ScalarValueV;

    open spec fn deep_view(&self) -> ScalarValueV {
        match self {
            ScalarValue::Int(v) => ScalarValueV::Int(*v as int),
            ScalarValue::Str(s) => ScalarValueV::Str(s@),
            ScalarValue::Bool(b) => ScalarValueV::Bool(*b),
        }
    }
}

/// The decimal digit character of `d`.
pub open spec fn digit_char(d: int) -> char {
    if d == 0 {
        '0'
    } else if d == 1 {
        '1'
    } else if d == 2 {
        '2'
    } else if d == 3 {
        '3'
    } else if d == 4 {
        '4'
    } else if d == 5 {
        '5'
    } else if d == 6 {
        '6'
    } else if d == 7 {
        '7'
    } else if d == 8 {
        '8'
    } else {
        '9'
    }
}

/// The decimal digits of `n`, most significant first.
pub open spec fn dec_digits(n: nat) -> Seq<char>
    decreases n,
{
    if n < 10 {
        seq![digit_char(n as int)]
    } else {
        dec_digits(n / 10).push(digit_char((n % 10) as int))
    }
}

/// The decimal text of `v`, with a leading minus sign when negative.
pub open spec fn dec_str(v: int) -> Seq<char> {
    if v < 0 {
        seq!['-'] + dec_digits((-v) as nat)
    } else {
        dec_digits(v as nat)
    }
}

/// One decimal digit character.
fn digit_of(d: u64) -> (c: char)
    requires
        d < 10,
    ensures
        c == digit_char(d as int),
{
    if d == 0 {
        '0'
    } else if d == 1 {
        '1'
    } else if d == 2 {
        '2'
    } else if d == 3 {
        '3'
    } else if d == 4 {
        '4'
    } else if d == 5 {
        '5'
    } else if d == 6 {
        '6'
    } else if d == 7 {
        '7'
    } else if d == 8 {
        '8'
    } else {
        '9'
    }
}

/// Appends the decimal digits of `n` to `out`.
fn push_dec_u64(out: &mut String, n: u64)
    ensures
        final(out)@ == old(out)@ + dec_digits(n as nat),
{
    let mut digits: Vec<char> = Vec::new();
    let ghost mut rev: Seq<char> = Seq::empty();
    let mut m: u64 = n;
    while m >= 10
        invariant
            dec_digits(n as nat) == dec_digits(m as nat) + rev,
            rev.len() == digits@.len(),
            forall|j: int| 0 <= j < digits@.len() ==> rev[j] == digits@[digits@.len() - 1 - j],
        decreases m,
    {
        let d = m % 10;
        digits.push(digit_of(d));
        proof {
            let m2 = (m / 10) as u64;
            assert(m / 10 < m) by (nonlinear_arith)
                requires
                    m >= 10,
            ;
            assert(dec_digits(m as nat) == dec_digits((m as nat) / 10).push(
                digit_char((m as nat % 10) as int),
            ));
            assert((m as nat) / 10 == m2 as nat);
            let rev2 = seq![digit_char(d as int)] + rev;
            assert(dec_digits(m2 as nat) + rev2 =~= (dec_digits(m2 as nat).push(
                digit_char(d as int),
            )) + rev);
            rev = rev2;
        }
        m = m / 10;
    }
    string_push(out, digit_of(m));
    let mut i: usize = digits.len();
    while i > 0
        invariant
            i <= digits@.len(),
            rev.len() == digits@.len(),
            forall|j: int| 0 <= j < digits@.len() ==> rev[j] == digits@[digits@.len() - 1 - j],
            out@ == old(out)@ + seq![digit_char(m as int)] + rev.take(
                digits@.len() - i as int,
            ),
        decreases i,
    {
        i -= 1;
        string_push(out, digits[i]);
        proof {
            assert(out@ =~= old(out)@ + seq![digit_char(m as int)] + rev.take(
                digits@.len() - i as int,
            ));
        }
    }
    proof {
        assert(rev.take(rev.len() as int) =~= rev);
        assert(out@ =~= old(out)@ + dec_digits(n as nat));
    }
}

/// Renders `v` in decimal, with a leading minus sign when negative.
pub fn render_int(v: i64) -> (r: String)
    ensures
        r@ == dec_str(v as int),
{
    let mut out = String::new();
    if v >= 0 {
        push_dec_u64(&mut out, v as u64);
        proof {
            assert(out@ =~= dec_str(v as int));
        }
    } else {
        string_push(&mut out, '-');
        let wide: i128 = -(v as i128);
        let m: u64 = wide as u64;
        proof {
            assert(m as nat == (-(v as int)) as nat);
        }
        push_dec_u64(&mut out, m);
        proof {
            assert(out@ =~= dec_str(v as int));
        }
    }
    out
}

/// The text a scalar value renders to.
pub open spec fn scalar_text(v: ScalarValueV) -> Seq<char> {
    match v {
        ScalarValueV::Int(i) => dec_str(i),
        ScalarValueV::Str(s) => seq!['"'] + s + seq!['"'],
        ScalarValueV::Bool(b) => if b {
            "yes"@
        } else {
            "no"@
        },
    }
}

/// Renders a scalar value: decimal for integers, double-quoted verbatim for
/// strings, `yes` or `no` for booleans.
pub fn render_scalar(v: &ScalarValue) -> (r: String)
    ensures
        r@ == scalar_text(v.deep_view()),
{
    match v {
        ScalarValue::Int(i) => render_int(*i),
        ScalarValue::Str(s) => {
            let mut out = String::new();
            string_push(&mut out, '"');
            out.append(s.as_str());
            string_push(&mut out, '"');
            proof {
                assert(out@ =~= scalar_text(v.deep_view()));
            }
            out
        },
        ScalarValue::Bool(b) => {
            let mut out = String::new();
            if *b {
                out.append("yes");
            } else {
                out.append("no");
            }
            proof {
                assert(out@ =~= scalar_text(v.deep_view()));
            }
            out
        },
    }
}

} // verus!
