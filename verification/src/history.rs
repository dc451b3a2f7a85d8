//! The history of evaluated expressions and the text shown for it.

use vstd::prelude::*;
use crate::text::{byte_len, lemma_byte_len_push, lemma_encode_empty, width};
use crate::numbers::{decimal, decimal_len, lemma_decimal_len, push_decimal};

verus! {

/// The view of an answer: its text, as a number or as an error.
pub open spec fn outcome_view(r: Result<String, String>) -> Result<Seq<char>, Seq<char>> {
    match r {
        Ok(v) => Ok(v@),
        Err(e) => Err(e@),
    }
}

/// An evaluated expression and what the server answered: `Ok` holds the
/// number as it is displayed, `Err` the message of the failure.
struct HistoryEntry {
    expr: String,
    result: Result<String, String>,
}

spec fn entry_view(e: HistoryEntry) -> (Seq<char>, Result<Seq<char>, Seq<char>>) {
    (e.expr@, outcome_view(e.result))
}

/// `t` right-aligned in a field of `w` characters: spaces in front of it
/// make up the difference.
pub open spec fn pad_left(t: Seq<char>, w: int) -> Seq<char> {
    Seq::new(if t.len() < w { (w - t.len()) as nat } else { 0 }, |i: int| ' ') + t
}

/// The label in front of the `n`-th expression of the history (`{:>3}│ `).
pub open spec fn entry_label_text(n: nat) -> Seq<char> {
    pad_left(decimal(n), 3) + "│ "@
}

/// The count shown in the history's title (`  {} op. `).
pub open spec fn count_text(n: nat) -> Seq<char> {
    seq![' ', ' '] + decimal(n) + " op. "@
}

/// One history entry as it is shown: its label, its expression and its answer.
pub struct HistoryRow {
    pub label: String,
    pub expr: String,
    pub result: Result<String, String>,
}

/// The label in front of the `n`-th expression of the history.
pub fn entry_label(n: u64) -> (label: String)
    ensures
        label@ == entry_label_text(n as nat),
{
    let mut label = String::new();
    proof {
        lemma_encode_empty();
        lemma_decimal_len(n as nat);
    }
    let len = decimal_len(n);
    let mut i = len;
    while i < 3
        invariant
            len == decimal(n as nat).len(),
            len <= i <= 3 || (i == len && len > 3),
            label@ == Seq::new((i - len) as nat, |j: int| ' '),
            byte_len(label@) == i - len,
        decreases 3 - i,
    {
        proof {
            lemma_byte_len_push(label@, ' ');
            assert(width(' ') == 1);
        }
        label.push(' ');
        i = i + 1;
        assert(label@ =~= Seq::new((i - len) as nat, |j: int| ' '));
    }
    push_decimal(&mut label, n);
    label.append("│ ");
    assert(label@ =~= entry_label_text(n as nat));
    label
}

fn count_text_of(n: u64) -> (label: String)
    ensures
        label@ == count_text(n as nat),
{
    let mut label = String::new();
    proof {
        lemma_encode_empty();
        assert(width(' ') == 1);
        lemma_byte_len_push(label@, ' ');
        lemma_byte_len_push(seq![' '], ' ');
        assert(seq![' '] =~= Seq::<char>::empty().push(' '));
        assert(seq![' ', ' '] =~= seq![' '].push(' '));
    }
    label.push(' ');
    label.push(' ');
    push_decimal(&mut label, n);
    label.append(" op. ");
    assert(label@ =~= count_text(n as nat));
    label
}

/// The evaluated expressions, oldest first.
pub struct History {
    entries: Vec<HistoryEntry>,
}

impl View for History {
    type V = Seq<(Seq<char>, Result<Seq<char>, Seq<char>>)>;

    closed spec fn view(&self) -> Self::V {
        self.entries@.map_values(|e: HistoryEntry| entry_view(e))
    }
}

impl History {
    pub fn new() -> (h: History)
        ensures
            h@ == Seq::<(Seq<char>, Result<Seq<char>, Seq<char>>)>::empty(),
    {
        let h = History { entries: Vec::new() };
        assert(h@ =~= Seq::<(Seq<char>, Result<Seq<char>, Seq<char>>)>::empty());
        h
    }

    /// Appends an evaluated expression.
    pub fn record(&mut self, expr: String, result: Result<String, String>)
        ensures
            final(self)@ == old(self)@.push((expr@, outcome_view(result))),
    {
        self.entries.push(HistoryEntry { expr, result });
        assert(self@ =~= old(self)@.push((expr@, outcome_view(result))));
    }

    /// The entries as they are shown, each with its label counted from one.
    pub fn rows(&self) -> (rows: Vec<HistoryRow>)
        ensures
            rows@.len() == self@.len(),
            forall|i: int|
                0 <= i < rows@.len() ==> {
                    &&& (#[trigger] rows@[i]).label@ == entry_label_text((i + 1) as nat)
                    &&& rows@[i].expr@ == self@[i].0
                    &&& outcome_view(rows@[i].result) == self@[i].1
                },
    {
        let mut rows: Vec<HistoryRow> = Vec::new();
        let n = self.entries.len();
        let mut i: usize = 0;
        while i < n
            invariant
                n == self.entries@.len(),
                i <= n,
                rows@.len() == i,
                forall|j: int|
                    0 <= j < i ==> {
                        &&& (#[trigger] rows@[j]).label@ == entry_label_text((j + 1) as nat)
                        &&& rows@[j].expr@ == self@[j].0
                        &&& outcome_view(rows@[j].result) == self@[j].1
                    },
            decreases n - i,
        {
            let entry = &self.entries[i];
            let result = match &entry.result {
                Ok(v) => Ok(v.clone()),
                Err(e) => Err(e.clone()),
            };
            let row = HistoryRow {
                label: entry_label((i + 1) as u64),
                expr: entry.expr.clone(),
                result,
            };
            rows.push(row);
            i = i + 1;
        }
        rows
    }

    /// The count shown in the history's title.
    pub fn count_label(&self) -> (label: String)
        ensures
            label@ == count_text(self@.len()),
            label@.len() >= 8,
            crate::numbers::digits_value(label@.subrange(2, label@.len() - 5)) == self@.len(),
    {
        proof {
            crate::display_laws::law_count_text_shows_count(self@.len());
        }
        count_text_of(self.entries.len() as u64)
    }

    /// The number of evaluated expressions.
    pub fn len(&self) -> (n: usize)
        ensures
            n == self@.len(),
    {
        self.entries.len()
    }
}

} // verus!
