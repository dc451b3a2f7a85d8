//! The byte-level model of a `String`: a sequence of characters whose UTF-8
//! encoding gives byte offsets, character boundaries and lengths.

use vstd::prelude::*;
use vstd::utf8::*;

verus! {

/// Number of bytes in the UTF-8 encoding of `c`.
pub open spec fn width(c: char) -> int {
    encode_scalar(c as u32).len() as int
}

/// Number of bytes in the UTF-8 encoding of `s`.
pub open spec fn byte_len(s: Seq<char>) -> int {
    encode_utf8(s).len() as int
}

/// Byte offset at which the character of index `k` of `s` starts
/// (the byte length of `s` when `k == s.len()`).
pub open spec fn offset(s: Seq<char>, k: int) -> int {
    encode_utf8(s.subrange(0, k)).len() as int
}

/// Byte position `p` lies between two characters of `s`, or at one of its ends.
pub open spec fn is_boundary(s: Seq<char>, p: int) -> bool {
    is_char_boundary(encode_utf8(s), p)
}

/// The index of the character that starts at byte position `p` of `s`.
pub open spec fn char_index(s: Seq<char>, p: int) -> int {
    choose|k: int| 0 <= k <= s.len() && #[trigger] offset(s, k) == p
}

pub proof fn lemma_width(c: char)
    ensures
        1 <= width(c) <= 4,
{
}

pub proof fn lemma_encode_empty()
    ensures
        encode_utf8(Seq::<char>::empty()) == Seq::<u8>::empty(),
{
    assert(encode_utf8(Seq::<char>::empty()) =~= Seq::<u8>::empty());
}

pub proof fn lemma_encode_concat(a: Seq<char>, b: Seq<char>)
    ensures
        encode_utf8(a + b) == encode_utf8(a) + encode_utf8(b),
    decreases a.len(),
{
    if a.len() == 0 {
        assert(a + b =~= b);
        lemma_encode_empty();
        assert(a =~= Seq::<char>::empty());
        assert(encode_utf8(a) + encode_utf8(b) =~= encode_utf8(b));
    } else {
        assert((a + b).drop_first() =~= a.drop_first() + b);
        lemma_encode_concat(a.drop_first(), b);
        assert((a + b)[0] == a[0]);
        assert(encode_utf8(a + b) =~= encode_utf8(a) + encode_utf8(b));
    }
}

pub proof fn lemma_encode_single(c: char)
    ensures
        encode_utf8(seq![c]) == encode_scalar(c as u32),
        byte_len(seq![c]) == width(c),
{
    assert(seq![c].drop_first() =~= Seq::<char>::empty());
    lemma_encode_empty();
    assert(encode_utf8(seq![c]) =~= encode_scalar(c as u32));
}

pub proof fn lemma_byte_len_concat(a: Seq<char>, b: Seq<char>)
    ensures
        byte_len(a + b) == byte_len(a) + byte_len(b),
{
    lemma_encode_concat(a, b);
}

pub proof fn lemma_byte_len_push(s: Seq<char>, c: char)
    ensures
        byte_len(s.push(c)) == byte_len(s) + width(c),
{
    assert(s.push(c) =~= s + seq![c]);
    lemma_byte_len_concat(s, seq![c]);
    lemma_encode_single(c);
}

pub proof fn lemma_byte_len_remove(s: Seq<char>, k: int)
    requires
        0 <= k < s.len(),
    ensures
        byte_len(s.remove(k)) == byte_len(s) - width(s[k]),
{
    let a = s.subrange(0, k);
    let b = s.subrange(k + 1, s.len() as int);
    assert(s =~= a.push(s[k]) + b);
    assert(s.remove(k) =~= a + b);
    lemma_byte_len_concat(a.push(s[k]), b);
    lemma_byte_len_push(a, s[k]);
    lemma_byte_len_concat(a, b);
}

pub proof fn lemma_byte_len_insert(s: Seq<char>, k: int, c: char)
    requires
        0 <= k <= s.len(),
    ensures
        byte_len(s.insert(k, c)) == byte_len(s) + width(c),
{
    let a = s.subrange(0, k);
    let b = s.subrange(k, s.len() as int);
    assert(s =~= a + b);
    assert(s.insert(k, c) =~= a.push(c) + b);
    lemma_byte_len_concat(a.push(c), b);
    lemma_byte_len_push(a, c);
    lemma_byte_len_concat(a, b);
}

pub proof fn lemma_offset_zero(s: Seq<char>)
    ensures
        offset(s, 0) == 0,
{
    assert(s.subrange(0, 0) =~= Seq::<char>::empty());
    lemma_encode_empty();
}

pub proof fn lemma_offset_full(s: Seq<char>)
    ensures
        offset(s, s.len() as int) == byte_len(s),
{
    assert(s.subrange(0, s.len() as int) =~= s);
}

pub proof fn lemma_offset_step(s: Seq<char>, k: int)
    requires
        0 <= k < s.len(),
    ensures
        offset(s, k + 1) == offset(s, k) + width(s[k]),
{
    assert(s.subrange(0, k + 1) =~= s.subrange(0, k).push(s[k]));
    lemma_byte_len_push(s.subrange(0, k), s[k]);
}

pub proof fn lemma_offset_strict(s: Seq<char>, i: int, j: int)
    requires
        0 <= i < j <= s.len(),
    ensures
        offset(s, i) < offset(s, j),
    decreases j - i,
{
    lemma_offset_step(s, j - 1);
    lemma_width(s[j - 1]);
    if i < j - 1 {
        lemma_offset_strict(s, i, j - 1);
    }
}

pub proof fn lemma_offset_mono(s: Seq<char>, i: int, j: int)
    requires
        0 <= i <= j <= s.len(),
    ensures
        offset(s, i) <= offset(s, j),
{
    if i < j {
        lemma_offset_strict(s, i, j);
    }
}

/// Offsets are ordered as the indices they belong to.
pub proof fn lemma_offset_order(s: Seq<char>, i: int, j: int)
    requires
        0 <= i <= s.len(),
        0 <= j <= s.len(),
    ensures
        offset(s, i) < offset(s, j) <==> i < j,
        offset(s, i) == offset(s, j) <==> i == j,
{
    if i < j {
        lemma_offset_strict(s, i, j);
    } else if j < i {
        lemma_offset_strict(s, j, i);
    }
}

pub proof fn lemma_offset_bounds(s: Seq<char>, k: int)
    requires
        0 <= k <= s.len(),
    ensures
        0 <= offset(s, k) <= byte_len(s),
{
    lemma_offset_mono(s, k, s.len() as int);
    lemma_offset_full(s);
}

/// Offsets in `s` after its first character are offsets in its tail, shifted.
proof fn lemma_offset_cons(s: Seq<char>, k: int)
    requires
        0 <= k < s.len(),
    ensures
        offset(s, k + 1) == width(s[0]) + offset(s.drop_first(), k),
{
    assert(s.subrange(0, k + 1) =~= seq![s[0]] + s.drop_first().subrange(0, k));
    lemma_encode_concat(seq![s[0]], s.drop_first().subrange(0, k));
    lemma_encode_single(s[0]);
}

/// A byte position is a boundary exactly when it is the offset of some character index.
pub proof fn lemma_boundary(s: Seq<char>, p: int)
    ensures
        is_boundary(s, p) <==> exists|k: int| 0 <= k <= s.len() && #[trigger] offset(s, k) == p,
    decreases s.len(),
{
    encode_utf8_valid_utf8(s);
    let bytes = encode_utf8(s);
    lemma_offset_zero(s);
    if p == 0 {
        assert(offset(s, 0) == p);
    } else if p < 0 || bytes.len() < p {
        assert forall|k: int| 0 <= k <= s.len() implies #[trigger] offset(s, k) != p by {
            lemma_offset_bounds(s, k);
        }
    } else {
        if s.len() == 0 {
            assert(s =~= Seq::<char>::empty());
            lemma_encode_empty();
        }
        encode_utf8_first_scalar(s);
        let rest = s.drop_first();
        let w = width(s[0]);
        assert(pop_first_scalar(bytes) =~= encode_utf8(rest));
        lemma_boundary(rest, p - w);
        if is_boundary(s, p) {
            assert(is_char_boundary(encode_utf8(rest), p - w));
            let k2 = choose|k2: int| 0 <= k2 <= rest.len() && #[trigger] offset(rest, k2) == p - w;
            lemma_offset_cons(s, k2);
            assert(offset(s, k2 + 1) == p);
        }
        if exists|k: int| 0 <= k <= s.len() && #[trigger] offset(s, k) == p {
            let k = choose|k: int| 0 <= k <= s.len() && #[trigger] offset(s, k) == p;
            assert(k > 0);
            lemma_offset_cons(s, k - 1);
            assert(offset(rest, k - 1) == p - w);
            assert(is_char_boundary(encode_utf8(rest), p - w));
        }
    }
}

/// The offset of every character index is a boundary, and `char_index` finds that index back.
pub proof fn lemma_index_of_offset(s: Seq<char>, k: int)
    requires
        0 <= k <= s.len(),
    ensures
        is_boundary(s, offset(s, k)),
        char_index(s, offset(s, k)) == k,
{
    lemma_boundary(s, offset(s, k));
    let j = char_index(s, offset(s, k));
    lemma_offset_order(s, j, k);
}

/// A boundary is the offset of the index that `char_index` gives for it.
pub proof fn lemma_offset_of_boundary(s: Seq<char>, p: int)
    requires
        is_boundary(s, p),
    ensures
        0 <= char_index(s, p) <= s.len(),
        offset(s, char_index(s, p)) == p,
{
    lemma_boundary(s, p);
}

/// No byte position strictly inside the encoding of a character is a boundary.
pub proof fn lemma_inside_char(s: Seq<char>, k: int, p: int)
    requires
        0 <= k < s.len(),
        offset(s, k) < p < offset(s, k + 1),
    ensures
        !is_boundary(s, p),
{
    if is_boundary(s, p) {
        lemma_offset_of_boundary(s, p);
        let j = char_index(s, p);
        lemma_offset_order(s, j, k);
        lemma_offset_order(s, j, k + 1);
    }
}

/// Both ends of a sequence are boundaries.
pub proof fn lemma_ends_are_boundaries(s: Seq<char>)
    ensures
        is_boundary(s, 0),
        is_boundary(s, byte_len(s)),
        char_index(s, 0) == 0,
        char_index(s, byte_len(s)) == s.len(),
{
    lemma_offset_zero(s);
    lemma_offset_full(s);
    lemma_index_of_offset(s, 0);
    lemma_index_of_offset(s, s.len() as int);
}

/// Equal encodings come from equal character sequences.
pub proof fn lemma_encode_injective(a: Seq<char>, b: Seq<char>)
    requires
        encode_utf8(a) == encode_utf8(b),
    ensures
        a == b,
{
    encode_utf8_decode_utf8(a);
    encode_utf8_decode_utf8(b);
}

/// Splitting the encoding of `s` at the offset of index `k` splits `s` at `k`.
pub proof fn lemma_split_encoding(s: Seq<char>, k: int)
    requires
        0 <= k <= s.len(),
    ensures
        encode_utf8(s).subrange(0, offset(s, k)) == encode_utf8(s.subrange(0, k)),
        encode_utf8(s).subrange(offset(s, k), byte_len(s)) == encode_utf8(
            s.subrange(k, s.len() as int),
        ),
{
    let a = s.subrange(0, k);
    let b = s.subrange(k, s.len() as int);
    assert(s =~= a + b);
    lemma_encode_concat(a, b);
    assert(encode_utf8(s).subrange(0, offset(s, k)) =~= encode_utf8(a));
    assert(encode_utf8(s).subrange(offset(s, k), byte_len(s)) =~= encode_utf8(b));
}

} // verus!
