//! What this crate relies on from std's `String`, `str` and `char`, stated
//! over the byte-level model of `text`.

use vstd::prelude::*;
use vstd::utf8::*;
use crate::text::{byte_len, char_index, is_boundary, width};

verus! {

/// `char::is_whitespace`: the Unicode `White_Space` property.
pub open spec fn is_white_space(c: char) -> bool {
    let u = c as u32;
    ||| 0x9 <= u <= 0xD
    ||| u == 0x20
    ||| u == 0x85
    ||| u == 0xA0
    ||| u == 0x1680
    ||| 0x2000 <= u <= 0x200A
    ||| u == 0x2028
    ||| u == 0x2029
    ||| u == 0x202F
    ||| u == 0x205F
    ||| u == 0x3000
}

/// `s` without its leading white space.
pub open spec fn trim_start(s: Seq<char>) -> Seq<char>
    decreases s.len(),
{
    if s.len() > 0 && is_white_space(s[0]) {
        trim_start(s.drop_first())
    } else {
        s
    }
}

/// `s` without its trailing white space.
pub open spec fn trim_end(s: Seq<char>) -> Seq<char>
    decreases s.len(),
{
    if s.len() > 0 && is_white_space(s.last()) {
        trim_end(s.drop_last())
    } else {
        s
    }
}

/// `s` without leading and trailing white space.
pub open spec fn trimmed(s: Seq<char>) -> Seq<char> {
    trim_end(trim_start(s))
}

/// `s` with every trailing `c` removed.
pub open spec fn strip_end(s: Seq<char>, c: char) -> Seq<char>
    decreases s.len(),
{
    if s.len() > 0 && s.last() == c {
        strip_end(s.drop_last(), c)
    } else {
        s
    }
}

/// What `String::from_utf8_lossy` makes of a byte sequence.
pub uninterp spec fn lossy_utf8(bytes: Seq<u8>) -> Seq<char>;

/// `String::insert` puts `ch` at byte position `idx`, which must be a
/// character boundary; it panics otherwise, and when the string would outgrow
/// `isize::MAX` bytes.
pub assume_specification[ String::insert ](s: &mut String, idx: usize, ch: char)
    requires
        is_boundary(old(s)@, idx as int),
        byte_len(old(s)@) + width(ch) <= isize::MAX,
    ensures
        final(s)@ == old(s)@.insert(char_index(old(s)@, idx as int), ch),
;

/// `String::push` appends `ch`; it panics when the string would outgrow
/// `isize::MAX` bytes.
pub assume_specification[ String::push ](s: &mut String, ch: char)
    requires
        byte_len(old(s)@) + width(ch) <= isize::MAX,
    ensures
        final(s)@ == old(s)@.push(ch),
;

/// `String::clear` leaves the string empty.
pub assume_specification[ String::clear ](s: &mut String)
    ensures
        final(s)@ == Seq::<char>::empty(),
;

/// `char::len_utf8` is the number of bytes of the character's UTF-8 encoding.
pub assume_specification[ char::len_utf8 ](c: char) -> (n: usize)
    ensures
        n == width(c),
;

/// `str::trim` removes leading and trailing white space (`char::is_whitespace`).
pub assume_specification<'a>[ str::trim ](s: &'a str) -> (r: &'a str)
    ensures
        r@ == trimmed(s@),
;

/// `String::drain` over the byte range `start..end`, with the drained
/// characters dropped: both ends must be character boundaries, in order,
/// or it panics.
#[verifier::external_body]
pub fn remove_range(s: &mut String, start: usize, end: usize)
    requires
        start <= end,
        is_boundary(old(s)@, start as int),
        is_boundary(old(s)@, end as int),
    ensures
        final(s)@ == old(s)@.subrange(0, char_index(old(s)@, start as int)) + old(s)@.subrange(
            char_index(old(s)@, end as int),
            old(s)@.len() as int,
        ),
{
    s.drain(start..end);
}

/// `str::trim_end_matches` with a single character as the pattern: every
/// trailing occurrence of `c` is removed.
#[verifier::external_body]
pub fn trim_end_char(s: &str, c: char) -> (r: &str)
    ensures
        r@ == strip_end(s@, c),
{
    s.trim_end_matches(c)
}

/// `String::from_utf8_lossy`: the bytes read as UTF-8, each invalid sequence
/// replaced by U+FFFD. Only the valid case is stated exactly: there the
/// result is the decoding of the bytes.
#[verifier::external_body]
pub fn utf8_lossy(bytes: &[u8]) -> (r: String)
    ensures
        r@ == lossy_utf8(bytes@),
        valid_utf8(bytes@) ==> r@ == decode_utf8(bytes@),
{
    String::from_utf8_lossy(bytes).into_owned()
}

} // verus!
