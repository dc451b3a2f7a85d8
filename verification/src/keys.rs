//! What each key press does to the calculator.

use vstd::prelude::*;
use crate::text::{byte_len, is_boundary, lemma_ends_are_boundaries, width};
use crate::editor::{
    App, after_backspace, after_delete, after_insert, after_left, after_right, stepped_left,
    stepped_right,
};

verus! {

/// A key as the calculator tells keys apart.
#[derive(Clone, Copy, Debug, PartialEq, Eq, Structural)]
pub enum Key {
    Char(char),
    Enter,
    Esc,
    Backspace,
    Delete,
    Left,
    Right,
    Home,
    End,
    Other,
}

/// What the caller does after a key press.
#[derive(Clone, Copy, Debug, PartialEq, Eq, Structural)]
pub enum Step {
    /// Keep going.
    Continue,
    /// Evaluate the pending expression, then record the answer with `App::submit`.
    Submit,
    /// Leave the program.
    Quit,
}

/// Ctrl+C, with Ctrl the only modifier, quits.
pub open spec fn is_quit(key: Key, control_only: bool) -> bool {
    control_only && key == Key::Char('c')
}

impl App {
    /// What the operation bound to `key` needs of the state.
    pub open spec fn accepts_key(&self, key: Key, control_only: bool) -> bool {
        match key {
            Key::Char(c) => {
                ||| is_quit(key, control_only)
                ||| c == '?'
                ||| self.wf() && byte_len(self.input@) + width(c) <= isize::MAX
            },
            Key::Backspace => self.wf(),
            Key::Delete => {
                &&& self.cursor_pos >= byte_len(self.input@) || self.wf()
                &&& byte_len(self.input@) <= isize::MAX
            },
            Key::Right | Key::End => byte_len(self.input@) <= isize::MAX,
            _ => true,
        }
    }

    /// Applies a key press: Ctrl+C quits, Enter asks for an evaluation, `?`
    /// toggles the help, Esc closes the help or else clears the prompt, and
    /// the other keys edit the prompt line.
    pub fn handle_key(&mut self, key: Key, control_only: bool) -> (step: Step)
        requires
            old(self).accepts_key(key, control_only),
        ensures
            final(self).history@ == old(self).history@,
            final(self).tick == old(self).tick,
            old(self).wf() ==> final(self).wf(),
            is_quit(key, control_only) ==> step == Step::Quit && *final(self) == *old(self),
            !is_quit(key, control_only) ==> match key {
                Key::Enter => step == Step::Submit && *final(self) == *old(self),
                Key::Char(c) => step == Step::Continue && if c == '?' {
                    &&& final(self).show_help == !old(self).show_help
                    &&& final(self).line() == old(self).line()
                } else {
                    &&& final(self).line() == after_insert(
                        old(self).input@,
                        old(self).cursor_pos as int,
                        c,
                    )
                    &&& final(self).show_help == old(self).show_help
                },
                Key::Esc => {
                    &&& step == Step::Continue
                    &&& !final(self).show_help
                    &&& old(self).show_help ==> final(self).line() == old(self).line()
                    &&& !old(self).show_help ==> final(self).input@ == Seq::<char>::empty()
                        && final(self).cursor_pos == 0
                },
                Key::Backspace => {
                    &&& step == Step::Continue
                    &&& final(self).show_help == old(self).show_help
                    &&& final(self).line() == after_backspace(
                        old(self).input@,
                        old(self).cursor_pos as int,
                    )
                },
                Key::Delete => {
                    &&& step == Step::Continue
                    &&& final(self).show_help == old(self).show_help
                    &&& final(self).line() == after_delete(
                        old(self).input@,
                        old(self).cursor_pos as int,
                    )
                },
                Key::Left => {
                    &&& step == Step::Continue
                    &&& final(self).show_help == old(self).show_help
                    &&& final(self).input@ == old(self).input@
                    &&& stepped_left(
                        old(self).input@,
                        old(self).cursor_pos as int,
                        final(self).cursor_pos as int,
                    )
                    &&& old(self).wf() ==> final(self).line() == after_left(
                        old(self).input@,
                        old(self).cursor_pos as int,
                    )
                },
                Key::Right => {
                    &&& step == Step::Continue
                    &&& final(self).show_help == old(self).show_help
                    &&& final(self).input@ == old(self).input@
                    &&& stepped_right(
                        old(self).input@,
                        old(self).cursor_pos as int,
                        final(self).cursor_pos as int,
                    )
                    &&& old(self).wf() ==> final(self).line() == after_right(
                        old(self).input@,
                        old(self).cursor_pos as int,
                    )
                },
                Key::Home => {
                    &&& step == Step::Continue
                    &&& final(self).show_help == old(self).show_help
                    &&& final(self).input@ == old(self).input@
                    &&& final(self).cursor_pos == 0
                },
                Key::End => {
                    &&& step == Step::Continue
                    &&& final(self).show_help == old(self).show_help
                    &&& final(self).input@ == old(self).input@
                    &&& final(self).cursor_pos == byte_len(old(self).input@)
                },
                Key::Other => step == Step::Continue && *final(self) == *old(self),
            },
    {
        if control_only && key == Key::Char('c') {
            return Step::Quit;
        }
        proof {
            lemma_ends_are_boundaries(self.input@);
        }
        match key {
            Key::Enter => {
                return Step::Submit;
            },
            Key::Char('?') => {
                self.show_help = !self.show_help;
            },
            Key::Esc => {
                if self.show_help {
                    self.show_help = false;
                } else {
                    self.clear_input();
                }
            },
            Key::Backspace => self.delete_char_before(),
            Key::Delete => self.delete_char_after(),
            Key::Left => self.move_left(),
            Key::Right => self.move_right(),
            Key::Home => {
                self.cursor_pos = 0;
            },
            Key::End => {
                self.cursor_pos = self.input.as_str().len();
            },
            Key::Char(c) => self.insert_char(c),
            Key::Other => {},
        }
        Step::Continue
    }
}

} // verus!
