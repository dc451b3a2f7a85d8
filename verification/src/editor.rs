//! The calculator's state: the prompt line with its byte cursor, the history
//! of evaluated expressions, the animation tick and the help flag.

use vstd::prelude::*;
use crate::text::{
    byte_len, char_index, is_boundary, lemma_byte_len_insert, lemma_byte_len_remove,
    lemma_ends_are_boundaries, lemma_index_of_offset, lemma_inside_char, lemma_offset_bounds,
    lemma_offset_full, lemma_offset_of_boundary, lemma_offset_order, lemma_offset_step,
    lemma_width, offset, width,
};
use crate::std_text::{remove_range, trimmed};
use crate::history::{History, outcome_view};

verus! {

/// Everything the calculator's screen shows.
pub struct App {
    /// The text typed at the prompt.
    pub input: String,
    /// The cursor, as a byte position in `input`.
    pub cursor_pos: usize,
    /// The expressions evaluated so far, with their answers.
    pub history: History,
    /// Animation counter, advanced on every tick.
    pub tick: u64,
    /// Whether the help window is shown.
    pub show_help: bool,
}

/// The line after `c` is typed at byte cursor `cur`.
pub open spec fn after_insert(s: Seq<char>, cur: int, c: char) -> (Seq<char>, int) {
    (s.insert(char_index(s, cur), c), cur + width(c))
}

/// The line after Backspace: the character before the cursor goes, and the
/// cursor moves to where it started.
pub open spec fn after_backspace(s: Seq<char>, cur: int) -> (Seq<char>, int) {
    if cur == 0 {
        (s, cur)
    } else {
        let k = char_index(s, cur);
        (s.remove(k - 1), offset(s, k - 1))
    }
}

/// The line after Delete: the character at the cursor goes, the cursor stays.
pub open spec fn after_delete(s: Seq<char>, cur: int) -> (Seq<char>, int) {
    if cur >= byte_len(s) {
        (s, cur)
    } else {
        (s.remove(char_index(s, cur)), cur)
    }
}

/// The line after moving one character to the left, from a boundary.
pub open spec fn after_left(s: Seq<char>, cur: int) -> (Seq<char>, int) {
    if cur == 0 {
        (s, cur)
    } else {
        (s, offset(s, char_index(s, cur) - 1))
    }
}

/// The line after moving one character to the right, from a boundary.
pub open spec fn after_right(s: Seq<char>, cur: int) -> (Seq<char>, int) {
    if cur >= byte_len(s) {
        (s, cur)
    } else {
        (s, offset(s, char_index(s, cur) + 1))
    }
}

/// Moving left from byte position `from`, wherever it lies, ends at `to`:
/// the closest boundary before it (and nowhere from position 0).
pub open spec fn stepped_left(s: Seq<char>, from: int, to: int) -> bool {
    if from == 0 {
        to == 0
    } else {
        &&& to < from
        &&& is_boundary(s, to)
        &&& forall|p: int| to < p < from ==> !#[trigger] is_boundary(s, p)
    }
}

/// Moving right from byte position `from` ends at `to`: the closest boundary
/// after it, and nowhere from the end of the text or beyond it.
pub open spec fn stepped_right(s: Seq<char>, from: int, to: int) -> bool {
    if from >= byte_len(s) {
        to == from
    } else {
        &&& from < to
        &&& is_boundary(s, to)
        &&& forall|p: int| from < p < to ==> !#[trigger] is_boundary(s, p)
    }
}

impl App {
    /// The cursor sits on a character boundary of the input, whose size is
    /// within what a `String` can hold.
    pub open spec fn wf(&self) -> bool {
        &&& is_boundary(self.input@, self.cursor_pos as int)
        &&& byte_len(self.input@) <= isize::MAX
    }

    /// The prompt line: the input and the byte cursor.
    pub open spec fn line(&self) -> (Seq<char>, int) {
        (self.input@, self.cursor_pos as int)
    }

    /// The same screen state apart from the prompt line.
    pub open spec fn same_but_line(&self, other: &App) -> bool {
        &&& self.history@ == other.history@
        &&& self.tick == other.tick
        &&& self.show_help == other.show_help
    }

    pub fn new() -> (app: App)
        ensures
            app.input@ == Seq::<char>::empty(),
            app.cursor_pos == 0,
            app.history@ == Seq::<(Seq<char>, Result<Seq<char>, Seq<char>>)>::empty(),
            app.tick == 0,
            !app.show_help,
            app.wf(),
    {
        let app = App {
            input: String::new(),
            cursor_pos: 0,
            history: History::new(),
            tick: 0,
            show_help: false,
        };
        proof {
            lemma_ends_are_boundaries(app.input@);
        }
        app
    }

    /// Types `c` at the cursor, which moves past it.
    pub fn insert_char(&mut self, c: char)
        requires
            old(self).wf(),
            byte_len(old(self).input@) + width(c) <= isize::MAX,
        ensures
            final(self).line() == after_insert(old(self).input@, old(self).cursor_pos as int, c),
            final(self).wf(),
            final(self).same_but_line(old(self)),
    {
        let ghost s = self.input@;
        let ghost k = char_index(s, self.cursor_pos as int);
        proof {
            lemma_offset_of_boundary(s, self.cursor_pos as int);
            lemma_offset_bounds(s, k);
        }
        self.input.insert(self.cursor_pos, c);
        self.cursor_pos = self.cursor_pos + c.len_utf8();
        proof {
            let t = self.input@;
            assert(t.subrange(0, k) =~= s.subrange(0, k));
            assert(t[k] == c);
            lemma_byte_len_insert(s, k, c);
            lemma_offset_step(t, k);
            lemma_index_of_offset(t, k + 1);
        }
    }

    /// Backspace: removes the character before the cursor, if there is one.
    pub fn delete_char_before(&mut self)
        requires
            old(self).wf(),
        ensures
            final(self).line() == after_backspace(old(self).input@, old(self).cursor_pos as int),
            final(self).wf(),
            final(self).same_but_line(old(self)),
    {
        if self.cursor_pos == 0 {
            return;
        }
        let ghost s = self.input@;
        let ghost k = char_index(s, self.cursor_pos as int);
        proof {
            lemma_offset_of_boundary(s, self.cursor_pos as int);
            lemma_offset_order(s, 0, k);
            lemma_ends_are_boundaries(s);
            lemma_offset_step(s, k - 1);
            lemma_width(s[k - 1]);
        }
        let mut new_pos = self.cursor_pos - 1;
        while new_pos > 0 && !self.input.as_str().is_char_boundary(new_pos)
            invariant
                self.input@ == s,
                0 <= k - 1 < s.len(),
                offset(s, k - 1) <= new_pos < self.cursor_pos,
                self.cursor_pos == offset(s, k),
                offset(s, k) == offset(s, k - 1) + width(s[k - 1]),
            decreases new_pos,
        {
            proof {
                if new_pos == offset(s, k - 1) {
                    lemma_index_of_offset(s, k - 1);
                }
            }
            new_pos = new_pos - 1;
        }
        proof {
            if new_pos > offset(s, k - 1) {
                lemma_inside_char(s, k - 1, new_pos as int);
            }
            lemma_index_of_offset(s, k - 1);
            lemma_index_of_offset(s, k);
        }
        remove_range(&mut self.input, new_pos, self.cursor_pos);
        self.cursor_pos = new_pos;
        proof {
            let t = self.input@;
            assert(t =~= s.remove(k - 1));
            lemma_byte_len_remove(s, k - 1);
            assert(t.subrange(0, k - 1) =~= s.subrange(0, k - 1));
            lemma_index_of_offset(t, k - 1);
        }
    }

    /// Delete: removes the character at the cursor, if there is one.
    pub fn delete_char_after(&mut self)
        requires
            old(self).cursor_pos >= byte_len(old(self).input@) || old(self).wf(),
            byte_len(old(self).input@) <= isize::MAX,
        ensures
            final(self).line() == after_delete(old(self).input@, old(self).cursor_pos as int),
            old(self).wf() ==> final(self).wf(),
            final(self).same_but_line(old(self)),
    {
        if self.cursor_pos >= self.input.as_str().len() {
            return;
        }
        let ghost s = self.input@;
        let ghost k = char_index(s, self.cursor_pos as int);
        proof {
            lemma_offset_of_boundary(s, self.cursor_pos as int);
            lemma_offset_full(s);
            lemma_offset_order(s, k, s.len() as int);
            lemma_offset_step(s, k);
            lemma_width(s[k]);
            lemma_offset_bounds(s, k + 1);
        }
        let len = self.input.as_str().len();
        let mut end = self.cursor_pos + 1;
        while end < len && !self.input.as_str().is_char_boundary(end)
            invariant
                self.input@ == s,
                len == byte_len(s),
                0 <= k < s.len(),
                self.cursor_pos < end <= offset(s, k + 1),
                self.cursor_pos == offset(s, k),
                offset(s, k + 1) <= len,
            decreases len - end,
        {
            proof {
                if end == offset(s, k + 1) {
                    lemma_index_of_offset(s, k + 1);
                }
            }
            end = end + 1;
        }
        proof {
            if end < offset(s, k + 1) {
                lemma_inside_char(s, k, end as int);
            }
            lemma_index_of_offset(s, k);
            lemma_index_of_offset(s, k + 1);
        }
        remove_range(&mut self.input, self.cursor_pos, end);
        proof {
            let t = self.input@;
            assert(t =~= s.remove(k));
            lemma_byte_len_remove(s, k);
            assert(t.subrange(0, k) =~= s.subrange(0, k));
            lemma_index_of_offset(t, k);
        }
    }

    /// Moves the cursor to the closest character boundary on its left.
    pub fn move_left(&mut self)
        ensures
            final(self).input@ == old(self).input@,
            stepped_left(old(self).input@, old(self).cursor_pos as int, final(self).cursor_pos as int),
            old(self).wf() ==> final(self).line() == after_left(
                old(self).input@,
                old(self).cursor_pos as int,
            ),
            is_boundary(final(self).input@, final(self).cursor_pos as int),
            old(self).wf() ==> final(self).wf(),
            final(self).same_but_line(old(self)),
    {
        let ghost s = self.input@;
        proof {
            lemma_ends_are_boundaries(s);
        }
        if self.cursor_pos == 0 {
            return;
        }
        let ghost from = self.cursor_pos as int;
        self.cursor_pos = self.cursor_pos - 1;
        while self.cursor_pos > 0 && !self.input.as_str().is_char_boundary(self.cursor_pos)
            invariant
                self.input@ == s,
                self.cursor_pos < from,
                is_boundary(s, 0),
                forall|p: int| self.cursor_pos < p < from ==> !#[trigger] is_boundary(s, p),
                self.same_but_line(old(self)),
            decreases self.cursor_pos,
        {
            self.cursor_pos = self.cursor_pos - 1;
        }
        proof {
            if is_boundary(s, from) {
                let k = char_index(s, from);
                lemma_offset_of_boundary(s, from);
                lemma_offset_order(s, 0, k);
                lemma_offset_of_boundary(s, self.cursor_pos as int);
                let j = char_index(s, self.cursor_pos as int);
                lemma_offset_order(s, j, k);
                lemma_offset_order(s, j, k - 1);
                lemma_offset_order(s, k - 1, k);
                lemma_index_of_offset(s, k - 1);
            }
        }
    }

    /// Moves the cursor to the closest character boundary on its right.
    pub fn move_right(&mut self)
        requires
            byte_len(old(self).input@) <= isize::MAX,
        ensures
            final(self).input@ == old(self).input@,
            stepped_right(
                old(self).input@,
                old(self).cursor_pos as int,
                final(self).cursor_pos as int,
            ),
            old(self).wf() ==> final(self).line() == after_right(
                old(self).input@,
                old(self).cursor_pos as int,
            ),
            old(self).wf() || old(self).cursor_pos < byte_len(old(self).input@)
                ==> final(self).wf(),
            final(self).same_but_line(old(self)),
    {
        let ghost s = self.input@;
        proof {
            lemma_ends_are_boundaries(s);
        }
        let len = self.input.as_str().len();
        if self.cursor_pos >= len {
            return;
        }
        let ghost from = self.cursor_pos as int;
        self.cursor_pos = self.cursor_pos + 1;
        while self.cursor_pos < len && !self.input.as_str().is_char_boundary(self.cursor_pos)
            invariant
                self.input@ == s,
                len == byte_len(s),
                from < self.cursor_pos <= len,
                is_boundary(s, byte_len(s)),
                forall|p: int| from < p < self.cursor_pos ==> !#[trigger] is_boundary(s, p),
                self.same_but_line(old(self)),
            decreases len - self.cursor_pos,
        {
            self.cursor_pos = self.cursor_pos + 1;
        }
        proof {
            if is_boundary(s, from) {
                let k = char_index(s, from);
                lemma_offset_of_boundary(s, from);
                lemma_offset_full(s);
                lemma_offset_order(s, k, s.len() as int);
                lemma_offset_of_boundary(s, self.cursor_pos as int);
                let j = char_index(s, self.cursor_pos as int);
                lemma_offset_order(s, j, k);
                lemma_offset_order(s, j, k + 1);
                lemma_offset_order(s, k, k + 1);
                lemma_index_of_offset(s, k + 1);
            }
        }
    }

    /// Empties the prompt.
    pub fn clear_input(&mut self)
        ensures
            final(self).input@ == Seq::<char>::empty(),
            final(self).cursor_pos == 0,
            final(self).wf(),
            final(self).same_but_line(old(self)),
    {
        self.input.clear();
        self.cursor_pos = 0;
        proof {
            lemma_ends_are_boundaries(self.input@);
        }
    }

    /// What Enter sends to the server: the input without its surrounding
    /// white space, or nothing when that leaves no text.
    pub fn pending_expression(&self) -> (e: Option<String>)
        ensures
            trimmed(self.input@).len() == 0 ==> e is None,
            trimmed(self.input@).len() > 0 ==> (e matches Some(t) && t@ == trimmed(self.input@)),
    {
        let t = self.input.as_str().trim();
        if t.is_empty() {
            None
        } else {
            Some(t.to_owned())
        }
    }

    /// Records the answer to the pending expression: the expression and
    /// `result` join the history and the prompt is emptied. Without a pending
    /// expression nothing changes.
    pub fn submit(&mut self, result: Result<String, String>)
        ensures
            trimmed(old(self).input@).len() == 0 ==> *final(self) == *old(self),
            trimmed(old(self).input@).len() > 0 ==> {
                &&& final(self).history@ == old(self).history@.push(
                    (trimmed(old(self).input@), outcome_view(result)),
                )
                &&& final(self).input@ == Seq::<char>::empty()
                &&& final(self).cursor_pos == 0
                &&& final(self).wf()
            },
            final(self).tick == old(self).tick,
            final(self).show_help == old(self).show_help,
    {
        let expr = self.input.as_str().trim().to_owned();
        if expr.as_str().is_empty() {
            return;
        }
        self.history.record(expr, result);
        self.input.clear();
        self.cursor_pos = 0;
        proof {
            lemma_ends_are_boundaries(self.input@);
        }
    }

    /// Advances the animation counter, wrapping around.
    pub fn on_tick(&mut self)
        ensures
            final(self).tick == (old(self).tick + 1) % 0x1_0000_0000_0000_0000,
            final(self).input@ == old(self).input@,
            final(self).cursor_pos == old(self).cursor_pos,
            final(self).history@ == old(self).history@,
            final(self).show_help == old(self).show_help,
    {
        self.tick = self.tick.wrapping_add(1);
    }
}

} // verus!
