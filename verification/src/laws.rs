//! Laws of the prompt line: how its editing operations undo one another.

use vstd::prelude::*;
use crate::text::{
    byte_len, char_index, is_boundary, lemma_index_of_offset, lemma_offset_full,
    lemma_offset_of_boundary, lemma_offset_order, lemma_offset_step, lemma_width, offset, width,
    lemma_byte_len_concat, lemma_encode_single,
};
use crate::editor::{after_backspace, after_delete, after_insert, after_left, after_right};

verus! {

/// Typing `c` at character index `k` leaves the offsets up to `k` alone and
/// puts the next boundary `width(c)` bytes further.
proof fn lemma_insert_offsets(s: Seq<char>, k: int, c: char)
    requires
        0 <= k <= s.len(),
    ensures
        offset(s.insert(k, c), k) == offset(s, k),
        offset(s.insert(k, c), k + 1) == offset(s, k) + width(c),
        char_index(s.insert(k, c), offset(s, k) + width(c)) == k + 1,
        char_index(s.insert(k, c), offset(s, k)) == k,
{
    let t = s.insert(k, c);
    assert(t.subrange(0, k) =~= s.subrange(0, k));
    assert(t[k] == c);
    lemma_offset_step(t, k);
    lemma_index_of_offset(t, k);
    lemma_index_of_offset(t, k + 1);
}

/// Backspace right after typing a character gives back the line as it was.
pub proof fn law_backspace_undoes_insert(s: Seq<char>, cur: int, c: char)
    requires
        is_boundary(s, cur),
    ensures
        after_backspace(after_insert(s, cur, c).0, after_insert(s, cur, c).1) == (s, cur),
{
    lemma_offset_of_boundary(s, cur);
    let k = char_index(s, cur);
    lemma_insert_offsets(s, k, c);
    lemma_width(c);
    assert(s.insert(k, c).remove(k) =~= s);
}

/// Typing a character, stepping back over it and deleting it gives back the
/// line as it was.
pub proof fn law_delete_undoes_insert_after_left(s: Seq<char>, cur: int, c: char)
    requires
        is_boundary(s, cur),
    ensures
        ({
            let (s1, c1) = after_insert(s, cur, c);
            let (s2, c2) = after_left(s1, c1);
            after_delete(s2, c2) == (s, cur)
        }),
{
    lemma_offset_of_boundary(s, cur);
    let k = char_index(s, cur);
    let t = s.insert(k, c);
    lemma_insert_offsets(s, k, c);
    lemma_width(c);
    lemma_offset_full(t);
    lemma_offset_order(t, k, t.len() as int);
    assert(t.remove(k) =~= s);
}

/// From any boundary but the start, moving left then right returns to it.
pub proof fn law_right_undoes_left(s: Seq<char>, cur: int)
    requires
        is_boundary(s, cur),
        cur > 0,
    ensures
        after_right(after_left(s, cur).0, after_left(s, cur).1) == (s, cur),
{
    lemma_offset_of_boundary(s, cur);
    let k = char_index(s, cur);
    lemma_offset_order(s, 0, k);
    lemma_offset_full(s);
    lemma_offset_order(s, k - 1, s.len() as int);
    lemma_index_of_offset(s, k - 1);
    lemma_offset_order(s, k - 1, k);
}

/// From any boundary but the end, moving right then left returns to it.
pub proof fn law_left_undoes_right(s: Seq<char>, cur: int)
    requires
        is_boundary(s, cur),
        cur < byte_len(s),
    ensures
        after_left(after_right(s, cur).0, after_right(s, cur).1) == (s, cur),
{
    lemma_offset_of_boundary(s, cur);
    let k = char_index(s, cur);
    lemma_offset_full(s);
    lemma_offset_order(s, k, s.len() as int);
    lemma_index_of_offset(s, k + 1);
    lemma_offset_order(s, 0, k + 1);
}

/// The line after the characters of `t` are typed one by one at byte cursor `cur`.
pub open spec fn after_typing(s: Seq<char>, cur: int, t: Seq<char>) -> (Seq<char>, int)
    decreases t.len(),
{
    if t.len() == 0 {
        (s, cur)
    } else {
        let (s1, c1) = after_insert(s, cur, t[0]);
        after_typing(s1, c1, t.drop_first())
    }
}

/// Typing a text at the cursor inserts it there and leaves the cursor just
/// after it, on a boundary.
pub proof fn law_typing_inserts_text(s: Seq<char>, cur: int, t: Seq<char>)
    requires
        is_boundary(s, cur),
    ensures
        ({
            let k = char_index(s, cur);
            let (s2, c2) = after_typing(s, cur, t);
            &&& s2 == s.subrange(0, k) + t + s.subrange(k, s.len() as int)
            &&& c2 == cur + byte_len(t)
            &&& is_boundary(s2, c2)
        }),
    decreases t.len(),
{
    lemma_offset_of_boundary(s, cur);
    let k = char_index(s, cur);
    if t.len() == 0 {
        assert(s.subrange(0, k) + t + s.subrange(k, s.len() as int) =~= s);
        crate::text::lemma_encode_empty();
        assert(t =~= Seq::<char>::empty());
    } else {
        let c = t[0];
        let rest = t.drop_first();
        let s1 = s.insert(k, c);
        let c1 = cur + width(c);
        lemma_insert_offsets(s, k, c);
        lemma_index_of_offset(s1, k + 1);
        law_typing_inserts_text(s1, c1, rest);
        assert(s1.subrange(0, k + 1) + rest + s1.subrange(k + 1, s1.len() as int) =~= s.subrange(
            0,
            k,
        ) + t + s.subrange(k, s.len() as int));
        assert(t =~= seq![c] + rest);
        lemma_byte_len_concat(seq![c], rest);
        lemma_encode_single(c);
    }
}

/// A boundary lies within the text: the cursor of a well-formed line is
/// never before its start nor past its end.
pub proof fn law_boundary_within_text(s: Seq<char>, p: int)
    requires
        is_boundary(s, p),
    ensures
        0 <= p <= byte_len(s),
{
    lemma_offset_of_boundary(s, p);
    crate::text::lemma_offset_bounds(s, char_index(s, p));
}

} // verus!
