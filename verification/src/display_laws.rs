//! Laws of what is shown: numbers read back as the values they print,
//! tidying and trimming only cut off the ends of a text, replies are told
//! apart by their kind, labels carry their numbers, and the help window is
//! centred.

use vstd::prelude::*;
use crate::numbers::{
    decimal, digit_char, digit_value, digits_value, integer_text, is_digit, signed_value,
    tidy_fixed_point,
};
use crate::std_text::{is_white_space, strip_end, trim_end, trim_start, trimmed};
use crate::reply::{Reply, reading_of};
use crate::history::{count_text, entry_label_text};
use crate::screen::{Area, help_area};

verus! {

proof fn lemma_digit_char(d: int)
    requires
        0 <= d < 10,
    ensures
        is_digit(digit_char(d)),
        digit_value(digit_char(d)) == d,
{
}

/// The decimal digits of `n` are digits, there is at least one, and they
/// read back as `n`.
pub proof fn law_decimal_reads_back(n: nat)
    ensures
        decimal(n).len() >= 1,
        forall|i: int| 0 <= i < decimal(n).len() ==> is_digit(#[trigger] decimal(n)[i]),
        digits_value(decimal(n)) == n,
    decreases n,
{
    let s = decimal(n);
    if n < 10 {
        lemma_digit_char(n as int);
        assert(s.drop_last() =~= Seq::<char>::empty());
        assert(digits_value(s.drop_last()) == 0);
        assert(s.last() == digit_char(n as int));
        assert(digits_value(s) == 10 * digits_value(s.drop_last()) + digit_value(s.last()));
    } else {
        law_decimal_reads_back(n / 10);
        lemma_digit_char((n % 10) as int);
        assert(s.drop_last() =~= decimal(n / 10));
        assert(n == 10 * (n / 10) + n % 10);
        assert(s.last() == digit_char((n % 10) as int));
        assert(digits_value(s) == 10 * digits_value(s.drop_last()) + digit_value(s.last()));
        assert forall|i: int| 0 <= i < s.len() implies is_digit(#[trigger] s[i]) by {
            if i < s.len() - 1 {
                assert(s[i] == decimal(n / 10)[i]);
            }
        }
    }
}

/// The text of an integer starts with a minus sign exactly when the integer
/// is negative, the rest is digits, and the text reads back as the integer.
pub proof fn law_integer_text_reads_back(n: int)
    ensures
        integer_text(n).len() > 0,
        integer_text(n)[0] == '-' <==> n < 0,
        forall|i: int|
            (if n < 0 { 1int } else { 0int }) <= i < integer_text(n).len() ==> is_digit(
                #[trigger] integer_text(n)[i],
            ),
        signed_value(integer_text(n)) == n,
{
    let t = integer_text(n);
    if n < 0 {
        let d = decimal((-n) as nat);
        law_decimal_reads_back((-n) as nat);
        assert(t.drop_first() =~= d);
        assert forall|i: int| 1 <= i < t.len() implies is_digit(#[trigger] t[i]) by {
            assert(t[i] == d[i - 1]);
        }
    } else {
        law_decimal_reads_back(n as nat);
        assert(is_digit(t[0]));
    }
}

/// Removing every trailing `c` leaves a prefix that does not end in `c`,
/// and only copies of `c` were removed.
pub proof fn lemma_strip_end(s: Seq<char>, c: char)
    ensures
        strip_end(s, c).len() <= s.len(),
        strip_end(s, c) == s.subrange(0, strip_end(s, c).len() as int),
        forall|i: int| strip_end(s, c).len() <= i < s.len() ==> #[trigger] s[i] == c,
        strip_end(s, c).len() == 0 || strip_end(s, c).last() != c,
    decreases s.len(),
{
    if s.len() > 0 && s.last() == c {
        let t = s.drop_last();
        lemma_strip_end(t, c);
        let m = strip_end(t, c).len() as int;
        assert(t.subrange(0, m) =~= s.subrange(0, m));
        assert forall|i: int| m <= i < s.len() implies #[trigger] s[i] == c by {
            if i < s.len() - 1 {
                assert(s[i] == t[i]);
            }
        }
    } else {
        assert(s.subrange(0, s.len() as int) =~= s);
    }
}

/// Tidying a fixed-point text only cuts off its end: all its trailing `0`s
/// (up to position `j`, the length of the text without them), and before
/// them a run of `.`s. What is left ends in no `.`.
pub proof fn law_tidy_cuts_zeros_then_points(s: Seq<char>)
    ensures
        ({
            let r = tidy_fixed_point(s);
            let j = strip_end(s, '0').len() as int;
            &&& r == s.subrange(0, r.len() as int)
            &&& r.len() == 0 || r.last() != '.'
            &&& r.len() <= j <= s.len()
            &&& j == 0 || s[j - 1] != '0'
            &&& forall|i: int| r.len() <= i < j ==> #[trigger] s[i] == '.'
            &&& forall|i: int| j <= i < s.len() ==> #[trigger] s[i] == '0'
        }),
{
    let z = strip_end(s, '0');
    let r = tidy_fixed_point(s);
    lemma_strip_end(s, '0');
    lemma_strip_end(z, '.');
    let j = z.len() as int;
    assert(r =~= s.subrange(0, r.len() as int));
    assert forall|i: int| r.len() <= i < j implies #[trigger] s[i] == '.' by {
        assert(z[i] == '.');
    }
    if j > 0 {
        assert(s[j - 1] == z.last());
    }
}

proof fn lemma_trim_start(s: Seq<char>)
    ensures
        trim_start(s).len() <= s.len(),
        trim_start(s) == s.subrange(s.len() - trim_start(s).len(), s.len() as int),
        forall|i: int|
            0 <= i < s.len() - trim_start(s).len() ==> is_white_space(#[trigger] s[i]),
        trim_start(s).len() == 0 || !is_white_space(trim_start(s)[0]),
    decreases s.len(),
{
    if s.len() > 0 && is_white_space(s[0]) {
        let t = s.drop_first();
        lemma_trim_start(t);
        let m = trim_start(t).len() as int;
        assert(t.subrange(t.len() - m, t.len() as int) =~= s.subrange(
            s.len() - m,
            s.len() as int,
        ));
        assert forall|i: int| 0 <= i < s.len() - m implies is_white_space(#[trigger] s[i]) by {
            if i > 0 {
                assert(s[i] == t[i - 1]);
            }
        }
    } else {
        assert(s.subrange(0, s.len() as int) =~= s);
    }
}

proof fn lemma_trim_end(s: Seq<char>)
    ensures
        trim_end(s).len() <= s.len(),
        trim_end(s) == s.subrange(0, trim_end(s).len() as int),
        forall|i: int| trim_end(s).len() <= i < s.len() ==> is_white_space(#[trigger] s[i]),
        trim_end(s).len() == 0 || !is_white_space(trim_end(s).last()),
    decreases s.len(),
{
    if s.len() > 0 && is_white_space(s.last()) {
        let t = s.drop_last();
        lemma_trim_end(t);
        let m = trim_end(t).len() as int;
        assert(t.subrange(0, m) =~= s.subrange(0, m));
        assert forall|i: int| m <= i < s.len() implies is_white_space(#[trigger] s[i]) by {
            if i < s.len() - 1 {
                assert(s[i] == t[i]);
            }
        }
    } else {
        assert(s.subrange(0, s.len() as int) =~= s);
    }
}

/// Trimming keeps a contiguous part of the text: what it cuts off at either
/// end is white space, and what it keeps neither starts nor ends with white
/// space.
pub proof fn law_trimmed_cuts_white_space(s: Seq<char>)
    ensures
        exists|i: int, j: int|
            #![trigger s.subrange(i, j)]
            {
                &&& 0 <= i <= j <= s.len()
                &&& trimmed(s) == s.subrange(i, j)
                &&& forall|k: int| 0 <= k < i ==> is_white_space(#[trigger] s[k])
                &&& forall|k: int| j <= k < s.len() ==> is_white_space(#[trigger] s[k])
                &&& i < j ==> !is_white_space(s[i]) && !is_white_space(s[j - 1])
            },
{
    let a = trim_start(s);
    lemma_trim_start(s);
    lemma_trim_end(a);
    let i = s.len() - a.len();
    let b = trim_end(a);
    let j = i + b.len();
    assert(trimmed(s) =~= s.subrange(i, j));
    assert forall|k: int| j <= k < s.len() implies is_white_space(#[trigger] s[k]) by {
        assert(s[k] == a[k - i]);
    }
    if i < j {
        assert(s[i] == a[0]);
        assert(s[i] == b[0]);
        assert(s[j - 1] == b.last());
    }
    assert({
        &&& 0 <= i <= j <= s.len()
        &&& trimmed(s) == s.subrange(i, j)
        &&& forall|k: int| 0 <= k < i ==> is_white_space(#[trigger] s[k])
        &&& forall|k: int| j <= k < s.len() ==> is_white_space(#[trigger] s[k])
        &&& i < j ==> !is_white_space(s[i]) && !is_white_space(s[j - 1])
    });
}

/// Every text message is a candidate number, not marked binary, whose text
/// is the message's text with only surrounding white space cut off; every
/// binary message is a candidate marked binary; a close or any other
/// message is a failure.
pub proof fn law_reply_kinds(reply: Reply)
    ensures
        reading_of(reply).0 <==> (reply is Text || reply is Binary),
        reading_of(reply).2 <==> reply is Binary,
        reply is Text ==> exists|i: int, j: int|
            #![trigger reply->Text_0@.subrange(i, j)]
            {
                &&& 0 <= i <= j <= reply->Text_0@.len()
                &&& reading_of(reply).1 == reply->Text_0@.subrange(i, j)
                &&& forall|k: int|
                    0 <= k < i ==> is_white_space(#[trigger] reply->Text_0@[k])
                &&& forall|k: int|
                    j <= k < reply->Text_0@.len() ==> is_white_space(
                        #[trigger] reply->Text_0@[k],
                    )
            },
{
    if let Reply::Text(t) = reply {
        law_trimmed_cuts_white_space(t@);
    }
}

/// The count in the history's title is two spaces, the decimal digits of
/// the count, and ` op. `: the digits read back as the count.
pub proof fn law_count_text_shows_count(n: nat)
    ensures
        ({
            let t = count_text(n);
            let d = t.subrange(2, t.len() - 5);
            &&& t.len() >= 8
            &&& t.subrange(0, 2) == seq![' ', ' ']
            &&& t.subrange(t.len() - 5, t.len() as int) == " op. "@
            &&& forall|i: int| 0 <= i < d.len() ==> is_digit(#[trigger] d[i])
            &&& digits_value(d) == n
        }),
{
    reveal_strlit(" op. ");
    law_decimal_reads_back(n);
    let t = count_text(n);
    assert(t.subrange(2, t.len() - 5) =~= decimal(n));
    assert(t.subrange(0, 2) =~= seq![' ', ' ']);
    assert(t.subrange(t.len() - 5, t.len() as int) =~= " op. "@);
}

/// The label of the `n`-th entry is `│ ` behind a field of at least three
/// characters: spaces, then the digits of `n`, which read back as `n`; the
/// field is wider than three only when the digits need it, and then holds
/// no space.
pub proof fn law_entry_label_shows_number(n: nat)
    ensures
        ({
            let t = entry_label_text(n);
            let f = t.subrange(0, t.len() - 2);
            &&& t.len() >= 5
            &&& t.subrange(t.len() - 2, t.len() as int) == "│ "@
            &&& exists|k: int|
                {
                    &&& 0 <= k < f.len()
                    &&& forall|i: int| 0 <= i < k ==> #[trigger] f[i] == ' '
                    &&& forall|i: int| k <= i < f.len() ==> is_digit(#[trigger] f[i])
                    &&& digits_value(f.subrange(k, f.len() as int)) == n
                    &&& f.len() >= 3
                    &&& f.len() > 3 ==> k == 0
                }
        }),
{
    reveal_strlit("│ ");
    law_decimal_reads_back(n);
    let d = decimal(n);
    let t = entry_label_text(n);
    let f = t.subrange(0, t.len() - 2);
    let k = if d.len() < 3 { 3 - d.len() } else { 0 };
    assert(t.subrange(t.len() - 2, t.len() as int) =~= "│ "@);
    assert(f.subrange(k, f.len() as int) =~= d);
    assert forall|i: int| k <= i < f.len() implies is_digit(#[trigger] f[i]) by {
        assert(f[i] == d[i - k]);
    }
    assert({
        &&& 0 <= k < f.len()
        &&& forall|i: int| 0 <= i < k ==> #[trigger] f[i] == ' '
        &&& forall|i: int| k <= i < f.len() ==> is_digit(#[trigger] f[i])
        &&& digits_value(f.subrange(k, f.len() as int)) == n
        &&& f.len() >= 3
        &&& f.len() > 3 ==> k == 0
    });
}

/// The help window is as large as the area allows up to 56 by 20 cells,
/// and centred: the space on its right exceeds the space on its left by at
/// most one cell, and the space below exceeds the space above by at most one.
pub proof fn law_help_centred(a: Area)
    ensures
        ({
            let (x, y, w, h) = help_area(a);
            &&& w <= 56 && w <= a.width && (w == 56 || w == a.width)
            &&& h <= 20 && h <= a.height && (h == 20 || h == a.height)
            &&& a.x <= x && a.y <= y
            &&& 0 <= (a.x + a.width - (x + w)) - (x - a.x) <= 1
            &&& 0 <= (a.y + a.height - (y + h)) - (y - a.y) <= 1
        }),
{
}

} // verus!
