//! Decimal rendering of the batch identifier.

use vstd::prelude::*;

verus! {

/// The decimal digit character for `d`.
pub open spec fn digit_char(d: nat) -> char {
    if d == 0 {
        '0'
    } else if d == 1 {
        '1'
    } else if d == 2 {
        '2'
    } else if d == 3 {
        '3'
    } else if d == 4 {
        '4'
    } else if d == 5 {
        '5'
    } else if d == 6 {
        '6'
    } else if d == 7 {
        '7'
    } else if d == 8 {
        '8'
    } else {
        '9'
    }
}

/// The decimal digits of `n`, most significant first, no leading zero
/// except for zero itself.
pub open spec fn dec_digits(n: nat) -> Seq<char>
    decreases n,
{
    if n < 10 {
        seq![digit_char(n)]
    } else {
        dec_digits(n / 10).push(digit_char(n % 10))
    }
}

/// The decimal text of an integer, with a leading minus sign when it
/// is negative.
pub open spec fn int_text(n: int) -> Seq<char> {
    if n < 0 {
        seq!['-'] + dec_digits((-n) as nat)
    } else {
        dec_digits(n as nat)
    }
}

fn digit_to_char(d: u64) -> (r: char)
    requires
        d < 10,
    ensures
        r == digit_char(d as nat),
{
    if d == 0 {
        '0'
    } else if d == 1 {
        '1'
    } else if d == 2 {
        '2'
    } else if d == 3 {
        '3'
    } else if d == 4 {
        '4'
    } else if d == 5 {
        '5'
    } else if d == 6 {
        '6'
    } else if d == 7 {
        '7'
    } else if d == 8 {
        '8'
    } else {
        '9'
    }
}

/// The decimal text of `n`.
pub fn u64_text(n: u64) -> (r: Vec<char>)
    ensures
        r@ == dec_digits(n as nat),
{
    let mut rev: Vec<char> = Vec::new();
    let mut m: u64 = n;
    #[verifier::loop_isolation(false)]
    while m >= 10
        invariant
            dec_digits(n as nat) == dec_digits(m as nat) + rev@.reverse(),
        decreases m,
    {
        let d = m % 10;
        rev.push(digit_to_char(d));
        proof {
            assert(rev@.reverse() =~= seq![digit_char(d as nat)] + rev@.drop_last().reverse());
            assert(dec_digits(m as nat) == dec_digits((m / 10) as nat).push(
                digit_char((m % 10) as nat),
            ));
            assert(dec_digits((m / 10) as nat) + rev@.reverse() =~= dec_digits(n as nat));
        }
        m = m / 10;
    }
    rev.push(digit_to_char(m));
    proof {
        assert(rev@.reverse() =~= seq![digit_char(m as nat)] + rev@.drop_last().reverse());
        assert(dec_digits(m as nat) == seq![digit_char(m as nat)]);
        assert(rev@.reverse() =~= dec_digits(n as nat));
    }
    let mut out: Vec<char> = Vec::new();
    let mut k: usize = 0;
    #[verifier::loop_isolation(false)]
    while k < rev.len()
        invariant
            k <= rev@.len(),
            out@ =~= rev@.reverse().take(k as int),
        decreases rev@.len() - k,
    {
        out.push(rev[rev.len() - 1 - k]);
        proof {
            assert(out@ =~= rev@.reverse().take(k + 1));
        }
        k = k + 1;
    }
    proof {
        assert(rev@.reverse().take(rev@.len() as int) =~= rev@.reverse());
    }
    out
}

/// The decimal text of the batch identifier.
pub fn i32_text(n: i32) -> (r: String)
    ensures
        r@ == int_text(n as int),
{
    if n < 0 {
        let wide: i64 = n as i64;
        let mag: u64 = (-wide) as u64;
        let digits = u64_text(mag);
        let mut out: Vec<char> = Vec::new();
        out.push('-');
        let mut d = digits;
        out.append(&mut d);
        proof {
            assert(out@ =~= int_text(n as int));
        }
        crate::chars::chars_to_string(out.as_slice())
    } else {
        let digits = u64_text(n as u64);
        crate::chars::chars_to_string(digits.as_slice())
    }
}

} // verus!
