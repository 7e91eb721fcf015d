//! Small verified text helpers shared by the lexer, the parser and the
//! evaluator: appending a character to a `String`, and formatting a signed
//! integer as decimal text.

use vstd::prelude::*;

verus! {

/// Relies on `String::push`: appends one character at the end of the string.
#[verifier::external_body]
pub fn push_char(s: &mut String, c: char)
    ensures
        final(s)@ == old(s)@.push(c),
{
    s.push(c);
}

/// The decimal digit character for a value below ten.
pub open spec fn digit_char(d: nat) -> char {
    if d == 0 {
        '0'
    } else if d == 1 {
        '1'
    } else if d == 2 {
        '2'
    } else if d == 3 {
        '3'
    } else if d == 4 {
        '4'
    } else if d == 5 {
        '5'
    } else if d == 6 {
        '6'
    } else if d == 7 {
        '7'
    } else if d == 8 {
        '8'
    } else {
        '9'
    }
}

/// The decimal digits of a non-negative integer, most significant first.
pub open spec fn dec_digits(n: nat) -> Seq<char>
    decreases n,
{
    if n < 10 {
        seq![digit_char(n)]
    } else {
        dec_digits(n / 10).push(digit_char(n % 10))
    }
}

/// The decimal text of a signed integer: a minus sign for negative values,
/// then the digits of the magnitude.
pub open spec fn int_text(i: int) -> Seq<char> {
    if i < 0 {
        seq!['-'] + dec_digits((-i) as nat)
    } else {
        dec_digits(i as nat)
    }
}

fn digit_to_char(d: u64) -> (c: char)
    requires
        d < 10,
    ensures
        c == digit_char(d as nat),
{
    if d == 0 {
        '0'
    } else if d == 1 {
        '1'
    } else if d == 2 {
        '2'
    } else if d == 3 {
        '3'
    } else if d == 4 {
        '4'
    } else if d == 5 {
        '5'
    } else if d == 6 {
        '6'
    } else if d == 7 {
        '7'
    } else if d == 8 {
        '8'
    } else {
        '9'
    }
}

/// Appends the decimal digits of `n` to `s`.
fn push_dec_digits(s: &mut String, n: u64)
    ensures
        final(s)@ == old(s)@ + dec_digits(n as nat),
{
    // Collect the digits least significant first, then append them in reverse.
    let mut digits: Vec<char> = Vec::new();
    let mut m: u64 = n;
    loop
        invariant
            s@ == old(s)@,
            dec_digits(n as nat) == dec_digits(m as nat) + digits@.reverse(),
        decreases m,
    {
        let d = m % 10;
        let q = m / 10;
        if q == 0 {
            proof {
                assert(dec_digits(m as nat) == seq![digit_char((m % 10) as nat)]);
            }
            let c = digit_to_char(d);
            let ghost pre = s@;
            push_char(s, c);
            let mut i: usize = digits.len();
            proof {
                assert(s@ == pre + seq![digit_char((m % 10) as nat)] + digits@.reverse().take(
                    0,
                ));
            }
            while i > 0
                invariant
                    i <= digits.len(),
                    s@ == pre + seq![digit_char((m % 10) as nat)] + digits@.reverse().take(
                        digits@.len() - i,
                    ),
                decreases i,
            {
                i = i - 1;
                let c2 = digits[i];
                push_char(s, c2);
                proof {
                    assert(digits@.reverse().take(digits@.len() - i) == digits@.reverse().take(
                        digits@.len() - (i + 1),
                    ).push(digits@[i as int]));
                }
            }
            proof {
                assert(digits@.reverse().take(digits@.len() - 0) == digits@.reverse());
                assert((pre + seq![digit_char((m % 10) as nat)]) + digits@.reverse() =~= pre + (
                seq![digit_char((m % 10) as nat)] + digits@.reverse()));
                assert(seq![digit_char((m % 10) as nat)] + digits@.reverse() == dec_digits(
                    m as nat,
                ) + digits@.reverse());
                assert(s@ == pre + dec_digits(n as nat));
            }
            return ;
        } else {
            let c = digit_to_char(d);
            let ghost old_digits = digits@;
            digits.push(c);
            m = q;
            proof {
                assert(digits@.reverse() == seq![digit_char(((q * 10 + d) % 10) as nat)]
                    + old_digits.reverse());
                assert(dec_digits((q * 10 + d) as nat) == dec_digits(q as nat).push(
                    digit_char(((q * 10 + d) % 10) as nat),
                ));
                assert(dec_digits(q as nat) + digits@.reverse() == (dec_digits(q as nat).push(
                    digit_char(((q * 10 + d) % 10) as nat),
                )) + old_digits.reverse());
            }
        }
    }
}

/// Formats a signed machine integer as decimal text.
pub fn int_to_text(x: i64) -> (s: String)
    ensures
        s@ == int_text(x as int),
{
    let mut s = String::new();
    if x >= 0 {
        push_dec_digits(&mut s, x as u64);
        proof {
            assert(s@ == Seq::<char>::empty() + dec_digits(x as nat));
            assert(Seq::<char>::empty() + dec_digits(x as nat) == dec_digits(x as nat));
        }
    } else {
        push_char(&mut s, '-');
        // -(x + 1) stays within the signed range even for the smallest value.
        let mag: u64 = ((-(x + 1)) as u64) + 1;
        proof {
            assert(mag == -(x as int));
        }
        push_dec_digits(&mut s, mag);
        proof {
            assert(s@ == (Seq::<char>::empty().push('-')) + dec_digits(mag as nat));
            assert((Seq::<char>::empty().push('-')) + dec_digits(mag as nat) == seq!['-']
                + dec_digits((-(x as int)) as nat));
        }
    }
    s
}

} // verus!
