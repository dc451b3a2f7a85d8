//! Numbers as text: decimal digits, signed integers, and the tidying of a
//! fixed-point rendering of a result.

use vstd::prelude::*;
use crate::text::{byte_len, lemma_byte_len_push, width};
use crate::std_text::{strip_end, trim_end_char};

verus! {

/// The character of decimal digit `d`.
pub open spec fn digit_char(d: int) -> char {
    if d == 0 {
        '0'
    } else if d == 1 {
        '1'
    } else if d == 2 {
        '2'
    } else if d == 3 {
        '3'
    } else if d == 4 {
        '4'
    } else if d == 5 {
        '5'
    } else if d == 6 {
        '6'
    } else if d == 7 {
        '7'
    } else if d == 8 {
        '8'
    } else {
        '9'
    }
}

/// `c` is one of the decimal digits `0` to `9`.
pub open spec fn is_digit(c: char) -> bool {
    '0' <= c <= '9'
}

/// The value of a decimal digit character.
pub open spec fn digit_value(c: char) -> int {
    (c as u32) as int - ('0' as u32) as int
}

/// The number that a sequence of decimal digits denotes.
pub open spec fn digits_value(s: Seq<char>) -> int
    decreases s.len(),
{
    if s.len() == 0 {
        0
    } else {
        10 * digits_value(s.drop_last()) + digit_value(s.last())
    }
}

/// The number that a text of the form `-digits` or `digits` denotes.
pub open spec fn signed_value(s: Seq<char>) -> int {
    if s.len() > 0 && s[0] == '-' {
        -digits_value(s.drop_first())
    } else {
        digits_value(s)
    }
}

/// The decimal digits of `n`, most significant first, without leading zeros.
pub open spec fn decimal(n: nat) -> Seq<char>
    decreases n,
{
    if n < 10 {
        seq![digit_char(n as int)]
    } else {
        decimal(n / 10).push(digit_char((n % 10) as int))
    }
}

/// An integer as `{}` prints it: a minus sign for negative numbers, then the
/// decimal digits of its magnitude.
pub open spec fn integer_text(n: int) -> Seq<char> {
    if n < 0 {
        seq!['-'] + decimal((-n) as nat)
    } else {
        decimal(n as nat)
    }
}

/// A fixed-point rendering without its trailing zeros, and without the
/// decimal point if nothing is left after it.
pub open spec fn tidy_fixed_point(s: Seq<char>) -> Seq<char> {
    strip_end(strip_end(s, '0'), '.')
}

spec fn pow10(k: nat) -> nat
    decreases k,
{
    if k == 0 {
        1
    } else {
        10 * pow10((k - 1) as nat)
    }
}

proof fn lemma_decimal_len_below(n: nat, k: nat)
    requires
        k >= 1,
        n < pow10(k),
    ensures
        decimal(n).len() <= k,
    decreases k,
{
    if n >= 10 {
        let p = pow10((k - 1) as nat);
        if k == 1 {
            assert(pow10(1) == 10 * pow10(0));
        }
        assert(n / 10 < p) by (nonlinear_arith)
            requires
                n < 10 * p,
                p > 0,
        ;
        if k - 1 == 0 {
            assert(n < 10);
        }
        lemma_decimal_len_below(n / 10, (k - 1) as nat);
    }
}

/// A 64-bit number has at most twenty decimal digits.
pub proof fn lemma_decimal_len(n: nat)
    requires
        n <= u64::MAX,
    ensures
        1 <= decimal(n).len() <= 20,
{
    reveal_with_fuel(pow10, 21);
    assert(pow10(20) == 100000000000000000000);
    lemma_decimal_len_below(n, 20);
}

/// Every character of `decimal(n)` takes one byte.
pub proof fn lemma_decimal_bytes(s: Seq<char>, n: nat)
    ensures
        byte_len(s + decimal(n)) == byte_len(s) + decimal(n).len(),
    decreases n,
{
    let d = if n < 10 { n as int } else { (n % 10) as int };
    assert(width(digit_char(d)) == 1);
    if n < 10 {
        assert(s + decimal(n) =~= s.push(digit_char(d)));
        lemma_byte_len_push(s, digit_char(d));
    } else {
        lemma_decimal_bytes(s, n / 10);
        assert(s + decimal(n) =~= (s + decimal(n / 10)).push(digit_char(d)));
        lemma_byte_len_push(s + decimal(n / 10), digit_char(d));
    }
}

fn digit(d: u64) -> (c: char)
    requires
        d < 10,
    ensures
        c == digit_char(d as int),
{
    match d {
        0 => '0',
        1 => '1',
        2 => '2',
        3 => '3',
        4 => '4',
        5 => '5',
        6 => '6',
        7 => '7',
        8 => '8',
        _ => '9',
    }
}

/// Appends the decimal digits of `n`.
pub fn push_decimal(s: &mut String, n: u64)
    requires
        byte_len(old(s)@) + 20 <= isize::MAX,
    ensures
        final(s)@ == old(s)@ + decimal(n as nat),
        byte_len(final(s)@) == byte_len(old(s)@) + decimal(n as nat).len(),
    decreases n,
{
    proof {
        lemma_decimal_len(n as nat);
        lemma_decimal_bytes(old(s)@, n as nat);
    }
    if n >= 10 {
        proof {
            lemma_decimal_len((n / 10) as nat);
        }
        push_decimal(s, n / 10);
    }
    proof {
        lemma_decimal_len((n / 10) as nat);
        assert(width(digit_char((n % 10) as int)) == 1);
    }
    s.push(digit(n % 10));
    proof {
        if n < 10 {
            assert(n % 10 == n);
            assert(s@ =~= old(s)@ + decimal(n as nat));
        } else {
            assert(s@ =~= old(s)@ + decimal(n as nat));
        }
    }
}

/// The number of decimal digits of `n`.
pub fn decimal_len(n: u64) -> (len: usize)
    ensures
        len == decimal(n as nat).len(),
    decreases n,
{
    proof {
        lemma_decimal_len(n as nat);
    }
    if n < 10 {
        1
    } else {
        proof {
            lemma_decimal_len((n / 10) as nat);
        }
        decimal_len(n / 10) + 1
    }
}

/// An integer as `{}` prints it.
pub fn format_integer(n: i64) -> (t: String)
    ensures
        t@ == integer_text(n as int),
        signed_value(t@) == n,
        t@.len() > 0 && (t@[0] == '-' <==> n < 0),
{
    proof {
        crate::display_laws::law_integer_text_reads_back(n as int);
    }
    let mut t = String::new();
    proof {
        crate::text::lemma_encode_empty();
    }
    let magnitude: u64 = if n < 0 {
        t.push('-');
        proof {
            lemma_byte_len_push(Seq::<char>::empty(), '-');
            assert(width('-') == 1);
        }
        (0 - (n as i128)) as u64
    } else {
        n as u64
    };
    push_decimal(&mut t, magnitude);
    proof {
        if n < 0 {
            assert(t@ =~= seq!['-'] + decimal((-n) as nat));
        } else {
            assert(t@ =~= decimal(n as nat));
        }
    }
    t
}

/// Drops the trailing zeros of a fixed-point rendering, then a trailing
/// decimal point: `2.50000000` becomes `2.5`, `3.00000000` becomes `3`.
pub fn trim_fixed_point(s: &str) -> (t: String)
    ensures
        t@ == tidy_fixed_point(s@),
        t@ == s@.subrange(0, t@.len() as int),
        t@.len() == 0 || t@.last() != '.',
        forall|i: int| t@.len() <= i < s@.len() ==> #[trigger] s@[i] == '0' || s@[i] == '.',
{
    proof {
        crate::display_laws::law_tidy_cuts_zeros_then_points(s@);
    }
    let no_zeros = trim_end_char(s, '0');
    trim_end_char(no_zeros, '.').to_owned()
}

} // verus!
