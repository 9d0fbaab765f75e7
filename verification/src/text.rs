//! Decimal rendering of integers into strings, with its specification:
//! the building blocks of every textual emitter in this crate.

use vstd::prelude::*;

verus! {

/// The character for a single decimal digit value.
pub open spec fn digit_char(d: int) -> char {
    if d == 0 {
        '0'
    } else if d == 1 {
        '1'
    } else if d == 2 {
        '2'
    } else if d == 3 {
        '3'
    } else if d == 4 {
        '4'
    } else if d == 5 {
        '5'
    } else if d == 6 {
        '6'
    } else if d == 7 {
        '7'
    } else if d == 8 {
        '8'
    } else {
        '9'
    }
}

/// Whether a character is a decimal digit.
pub open spec fn is_digit_char(c: char) -> bool {
    c == '0' || c == '1' || c == '2' || c == '3' || c == '4' || c == '5' || c == '6' || c == '7'
        || c == '8' || c == '9'
}

/// The numeric value of a decimal digit character.
pub open spec fn digit_val(c: char) -> int {
    if c == '0' {
        0
    } else if c == '1' {
        1
    } else if c == '2' {
        2
    } else if c == '3' {
        3
    } else if c == '4' {
        4
    } else if c == '5' {
        5
    } else if c == '6' {
        6
    } else if c == '7' {
        7
    } else if c == '8' {
        8
    } else {
        9
    }
}

/// The decimal digit string of a non-negative integer, most significant
/// digit first, with no leading zeros (except for the value zero itself).
pub open spec fn dec_nat(n: nat) -> Seq<char>
    decreases n,
{
    if n < 10 {
        seq![digit_char(n as int)]
    } else {
        dec_nat(n / 10) + seq![digit_char((n % 10) as int)]
    }
}

/// The decimal string of an integer: a leading '-' for negative values.
pub open spec fn dec_int(n: int) -> Seq<char> {
    if n < 0 {
        seq!['-'] + dec_nat((-n) as nat)
    } else {
        dec_nat(n as nat)
    }
}

/// The value of a digit string, read left to right.
pub open spec fn digits_val(s: Seq<char>) -> int
    decreases s.len(),
{
    if s.len() == 0 {
        0
    } else {
        digits_val(s.drop_last()) * 10 + digit_val(s.last())
    }
}

/// Whether every character of `s` is a decimal digit.
pub open spec fn all_digits(s: Seq<char>) -> bool {
    forall|i: int| 0 <= i < s.len() ==> is_digit_char(s[i])
}

/// Whether `s` is a well-formed integer literal: one or more digits,
/// optionally preceded by a single '-'.
pub open spec fn valid_int_text(s: Seq<char>) -> bool {
    if s.len() > 0 && s[0] == '-' {
        s.len() > 1 && all_digits(s.skip(1))
    } else {
        s.len() > 0 && all_digits(s)
    }
}

/// The integer value of a well-formed integer literal.
pub open spec fn int_val(s: Seq<char>) -> int {
    if s.len() > 0 && s[0] == '-' {
        -digits_val(s.skip(1))
    } else {
        digits_val(s)
    }
}

/// A digit-string value is never negative.
pub proof fn lemma_digits_val_nonneg(s: Seq<char>)
    ensures
        digits_val(s) >= 0,
    decreases s.len(),
{
    if s.len() > 0 {
        lemma_digits_val_nonneg(s.drop_last());
    }
}

/// Extending a digit string never shrinks its value.
pub proof fn lemma_digits_val_prefix(s: Seq<char>, k: int)
    requires
        0 <= k <= s.len(),
    ensures
        digits_val(s.take(k)) <= digits_val(s),
    decreases s.len(),
{
    if k == s.len() {
        assert(s.take(k) =~= s);
    } else {
        assert(s.drop_last().take(k) =~= s.take(k));
        lemma_digits_val_prefix(s.drop_last(), k);
        lemma_digits_val_nonneg(s.drop_last());
    }
}

/// The digit string of `n` consists of digit characters only.
pub proof fn lemma_dec_nat_digits(n: nat)
    ensures
        dec_nat(n).len() >= 1,
        all_digits(dec_nat(n)),
    decreases n,
{
    if n >= 10 {
        lemma_dec_nat_digits(n / 10);
    }
}

/// Reading back the digit string of `n` yields `n`.
pub proof fn lemma_dec_nat_val(n: nat)
    ensures
        digits_val(dec_nat(n)) == n,
    decreases n,
{
    if n < 10 {
        assert(dec_nat(n) =~= seq![digit_char(n as int)]);
        assert(dec_nat(n).drop_last() =~= Seq::<char>::empty());
        assert(digits_val(dec_nat(n)) == digits_val(dec_nat(n).drop_last()) * 10 + digit_val(
            dec_nat(n).last(),
        ));
        assert(digits_val(Seq::<char>::empty()) == 0);
        assert(dec_nat(n).last() == digit_char(n as int));
        assert(digit_val(digit_char(n as int)) == n);
    } else {
        lemma_dec_nat_val(n / 10);
        assert(dec_nat(n).drop_last() =~= dec_nat(n / 10));
        assert(dec_nat(n).last() == digit_char((n % 10) as int));
        assert(digits_val(dec_nat(n)) == digits_val(dec_nat(n).drop_last()) * 10 + digit_val(
            dec_nat(n).last(),
        ));
        assert(digit_val(digit_char((n % 10) as int)) == n % 10);
        assert((n / 10) * 10 + n % 10 == n);
    }
}

/// The rendered form of any integer is a well-formed integer literal
/// and reads back to the same value.
pub proof fn lemma_dec_int_val(n: int)
    ensures
        dec_int(n).len() >= 1,
        valid_int_text(dec_int(n)),
        int_val(dec_int(n)) == n,
        dec_int(n)[0] == '-' || is_digit_char(dec_int(n)[0]),
        forall|i: int| 1 <= i < dec_int(n).len() ==> is_digit_char(dec_int(n)[i]),
{
    if n < 0 {
        lemma_dec_nat_digits((-n) as nat);
        lemma_dec_nat_val((-n) as nat);
        assert(dec_int(n).skip(1) =~= dec_nat((-n) as nat));
    } else {
        lemma_dec_nat_digits(n as nat);
        lemma_dec_nat_val(n as nat);
        assert(dec_int(n) =~= dec_nat(n as nat));
        assert(dec_int(n)[0] != '-');
    }
}

/// Relies on `String::push`: appends the given character to the string.
#[verifier::external_body]
pub(crate) fn push_char(s: &mut String, c: char)
    ensures
        final(s)@ == old(s)@.push(c),
{
    s.push(c)
}

/// Appends the decimal digits of `n` to `s`.
fn push_dec_nat(s: &mut String, n: u64)
    ensures
        final(s)@ == old(s)@ + dec_nat(n as nat),
{
    let mut rev: Vec<char> = Vec::new();
    let mut m: u64 = n;
    proof {
        assert(rev@.reverse() =~= Seq::<char>::empty());
        assert(dec_nat(n as nat) =~= dec_nat(m as nat) + rev@.reverse());
    }
    loop
        invariant_except_break
            dec_nat(n as nat) =~= dec_nat(m as nat) + rev@.reverse(),
        ensures
            dec_nat(n as nat) =~= rev@.reverse(),
        decreases m,
    {
        let d: u64 = m % 10;
        let c: char = digit_of(d);
        if m < 10 {
            proof {
                assert(dec_nat(m as nat) =~= seq![digit_char(m as int)]);
            }
            let ghost pre = rev@;
            rev.push(c);
            proof {
                assert(rev@.reverse() =~= seq![c] + pre.reverse());
                assert(dec_nat(n as nat) =~= seq![c] + pre.reverse());
                assert(dec_nat(n as nat) =~= rev@.reverse());
            }
            break;
        } else {
            let ghost pre = rev@;
            rev.push(c);
            proof {
                assert(rev@.reverse() =~= seq![c] + pre.reverse());
                assert(dec_nat(m as nat) =~= dec_nat((m / 10) as nat) + seq![c]);
                assert(dec_nat((m / 10) as nat) + (seq![c] + pre.reverse()) =~= (dec_nat(
                    (m / 10) as nat,
                ) + seq![c]) + pre.reverse());
            }
            m = m / 10;
        }
    }
    let mut i: usize = rev.len();
    proof {
        assert(old(s)@ + dec_nat(n as nat).take(0) =~= old(s)@);
    }
    while i > 0
        invariant
            i <= rev.len(),
            dec_nat(n as nat) =~= rev@.reverse(),
            s@ == old(s)@ + dec_nat(n as nat).take(rev@.len() - i),
        decreases i,
    {
        let c = rev[i - 1];
        proof {
            assert(rev@.reverse()[rev@.len() - i] == rev@[i - 1]);
            assert(old(s)@ + dec_nat(n as nat).take(rev@.len() - i + 1) =~= (old(s)@ + dec_nat(
                n as nat,
            ).take(rev@.len() - i)).push(rev@[i - 1]));
        }
        push_char(s, c);
        i = i - 1;
    }
    proof {
        assert(dec_nat(n as nat).take(rev@.len() as int) =~= dec_nat(n as nat));
    }
}

/// The digit character for a value below ten.
fn digit_of(d: u64) -> (c: char)
    requires
        d < 10,
    ensures
        c == digit_char(d as int),
{
    if d == 0 {
        '0'
    } else if d == 1 {
        '1'
    } else if d == 2 {
        '2'
    } else if d == 3 {
        '3'
    } else if d == 4 {
        '4'
    } else if d == 5 {
        '5'
    } else if d == 6 {
        '6'
    } else if d == 7 {
        '7'
    } else if d == 8 {
        '8'
    } else {
        '9'
    }
}

/// Appends the decimal form of `n` to `s`, with a leading '-' when
/// `n` is negative.
pub(crate) fn push_dec_i64(s: &mut String, n: i64)
    requires
        n > i64::MIN,
    ensures
        final(s)@ == old(s)@ + dec_int(n as int),
{
    if n < 0 {
        push_char(s, '-');
        push_dec_nat(s, (-n) as u64);
        proof {
            assert(s@ =~= old(s)@ + dec_int(n as int));
        }
    } else {
        push_dec_nat(s, n as u64);
    }
}

} // verus!
