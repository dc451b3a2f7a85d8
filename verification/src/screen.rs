//! The plain-value parts of the screen: the calculator logo and the colour
//! of each of its characters, the help window's place, and the prompt line
//! split around its cursor.

use vstd::prelude::*;
use vstd::utf8::encode_utf8;
use crate::text::{
    byte_len, char_index, lemma_encode_injective, lemma_index_of_offset, lemma_offset_full,
    lemma_offset_of_boundary, lemma_offset_order, lemma_offset_step, lemma_offset_zero,
    lemma_split_encoding, offset,
};
use crate::editor::App;

verus! {

/// The rows of the calculator logo, top to bottom.
pub open spec fn logo_rows() -> Seq<Seq<char>> {
    seq![
        "  ╔═════════════════════════╗  "@,
        "  ║  ▓▓▓▓▓▓▓▓▓▓▓▓▓▓▓▓▓▓▓▓▓  ║  "@,
        "  ║  ▓  ┌──────────────┐ ▓  ║  "@,
        "  ║  ▓  │  CALC  TUI   │ ▓  ║  "@,
        "  ║  ▓  │    v 1.0     │ ▓  ║  "@,
        "  ║  ▓  └──────────────┘ ▓  ║  "@,
        "  ║  ▓▓▓▓▓▓▓▓▓▓▓▓▓▓▓▓▓▓▓▓▓  ║  "@,
        "  ║  ░░░░░░░░░░░░░░░░░░░░░  ║  "@,
        "  ║  ░ [7] [8] [9]  [÷]  ░  ║  "@,
        "  ║  ░ [4] [5] [6]  [×]  ░  ║  "@,
        "  ║  ░ [1] [2] [3]  [-]  ░  ║  "@,
        "  ║  ░ [0] [.] [=]  [+]  ░  ║  "@,
        "  ║  ░░░░░░░░░░░░░░░░░░░░░  ║  "@,
        "  ╚═════════════════════════╝  "@,
    ]
}

/// The calculator logo, one string per row.
pub fn calculator_ascii() -> (rows: Vec<&'static str>)
    ensures
        rows@.len() == logo_rows().len(),
        forall|i: int| 0 <= i < rows@.len() ==> (#[trigger] rows@[i])@ == logo_rows()[i],
{
    vec![
        "  ╔═════════════════════════╗  ",
        "  ║  ▓▓▓▓▓▓▓▓▓▓▓▓▓▓▓▓▓▓▓▓▓  ║  ",
        "  ║  ▓  ┌──────────────┐ ▓  ║  ",
        "  ║  ▓  │  CALC  TUI   │ ▓  ║  ",
        "  ║  ▓  │    v 1.0     │ ▓  ║  ",
        "  ║  ▓  └──────────────┘ ▓  ║  ",
        "  ║  ▓▓▓▓▓▓▓▓▓▓▓▓▓▓▓▓▓▓▓▓▓  ║  ",
        "  ║  ░░░░░░░░░░░░░░░░░░░░░  ║  ",
        "  ║  ░ [7] [8] [9]  [÷]  ░  ║  ",
        "  ║  ░ [4] [5] [6]  [×]  ░  ║  ",
        "  ║  ░ [1] [2] [3]  [-]  ░  ║  ",
        "  ║  ░ [0] [.] [=]  [+]  ░  ║  ",
        "  ║  ░░░░░░░░░░░░░░░░░░░░░  ║  ",
        "  ╚═════════════════════════╝  ",
    ]
}

/// How a character of the logo is drawn: its colour and whether it is bold.
#[derive(Clone, Copy, Debug, PartialEq, Eq, Structural)]
pub struct GlyphStyle {
    pub red: u8,
    pub green: u8,
    pub blue: u8,
    pub bold: bool,
}

/// The style of each logo character: the screen and the outer frame in
/// teal, the light shading dark, the inner frame pale, the key brackets in
/// bold green, the operators in bold amber, the digits near white and
/// anything else grey.
pub open spec fn glyph_style(c: char) -> GlyphStyle {
    if c == '▓' || c == '╔' || c == '╚' || c == '╝' || c == '╗' || c == '║' {
        GlyphStyle { red: 0, green: 200, blue: 160, bold: false }
    } else if c == '░' {
        GlyphStyle { red: 30, green: 70, blue: 60, bold: false }
    } else if c == '┌' || c == '└' || c == '┘' || c == '┐' || c == '│' || c == '─' {
        GlyphStyle { red: 160, green: 210, blue: 190, bold: false }
    } else if c == '[' || c == ']' {
        GlyphStyle { red: 0, green: 220, blue: 150, bold: true }
    } else if c == '÷' || c == '×' || c == '+' || c == '-' || c == '=' || c == '.' {
        GlyphStyle { red: 255, green: 180, blue: 80, bold: true }
    } else if '0' <= c <= '9' {
        GlyphStyle { red: 200, green: 230, blue: 220, bold: false }
    } else {
        GlyphStyle { red: 80, green: 110, blue: 100, bold: false }
    }
}

/// The style in which a character of the logo is drawn.
pub fn logo_glyph_style(c: char) -> (s: GlyphStyle)
    ensures
        s == glyph_style(c),
{
    match c {
        '▓' => GlyphStyle { red: 0, green: 200, blue: 160, bold: false },
        '░' => GlyphStyle { red: 30, green: 70, blue: 60, bold: false },
        '╔' | '╚' | '╝' | '╗' | '║' => GlyphStyle { red: 0, green: 200, blue: 160, bold: false },
        '┌' | '└' | '┘' | '┐' | '│' | '─' => GlyphStyle {
            red: 160,
            green: 210,
            blue: 190,
            bold: false,
        },
        '[' | ']' => GlyphStyle { red: 0, green: 220, blue: 150, bold: true },
        '÷' | '×' | '+' | '-' | '=' | '.' => GlyphStyle {
            red: 255,
            green: 180,
            blue: 80,
            bold: true,
        },
        '0'..='9' => GlyphStyle { red: 200, green: 230, blue: 220, bold: false },
        _ => GlyphStyle { red: 80, green: 110, blue: 100, bold: false },
    }
}

/// A rectangle of the terminal, in cells.
#[derive(Clone, Copy, Debug, PartialEq, Eq, Structural)]
pub struct Area {
    pub x: u16,
    pub y: u16,
    pub width: u16,
    pub height: u16,
}

/// The help window: at most 56 by 20 cells, centred in `area`.
pub open spec fn help_area(area: Area) -> (int, int, int, int) {
    let w = if area.width < 56 { area.width as int } else { 56 };
    let h = if area.height < 20 { area.height as int } else { 20 };
    (area.x + (area.width - w) / 2, area.y + (area.height - h) / 2, w, h)
}

/// The help window's corner has coordinates that a cell can have.
pub open spec fn help_fits(area: Area) -> bool {
    help_area(area).0 <= u16::MAX && help_area(area).1 <= u16::MAX
}

/// Where the help window goes in `area`.
pub fn help_popup(area: Area) -> (p: Area)
    requires
        help_fits(area),
    ensures
        (p.x as int, p.y as int, p.width as int, p.height as int) == help_area(area),
        area.x <= p.x,
        p.x + p.width <= area.x + area.width,
        area.y <= p.y,
        p.y + p.height <= area.y + area.height,
        0 <= (area.x + area.width - (p.x + p.width)) - (p.x - area.x) <= 1,
        0 <= (area.y + area.height - (p.y + p.height)) - (p.y - area.y) <= 1,
{
    proof {
        crate::display_laws::law_help_centred(area);
    }
    let width = if area.width < 56 { area.width } else { 56 };
    let height = if area.height < 20 { area.height } else { 20 };
    Area {
        x: area.x + (area.width - width) / 2,
        y: area.y + (area.height - height) / 2,
        width,
        height,
    }
}

impl App {
    /// The prompt line split around the cursor: the text before it, the
    /// character under it (a space at the end of the line) and the text
    /// after that character.
    pub fn prompt_parts(&self) -> (parts: (String, String, String))
        requires
            self.wf(),
        ensures
            ({
                let s = self.input@;
                let k = char_index(s, self.cursor_pos as int);
                &&& parts.0@ == s.subrange(0, k)
                &&& self.cursor_pos >= byte_len(s) ==> parts.0@ == s
                &&& self.cursor_pos >= byte_len(s) ==> parts.1@ == seq![' '] && parts.2@
                    == Seq::<char>::empty()
                &&& self.cursor_pos < byte_len(s) ==> {
                    &&& parts.1@ == seq![s[k]]
                    &&& parts.2@ == s.subrange(k + 1, s.len() as int)
                    &&& parts.0@ + parts.1@ + parts.2@ == s
                }
            }),
    {
        let ghost s = self.input@;
        let ghost k = char_index(s, self.cursor_pos as int);
        let line = self.input.as_str();
        proof {
            lemma_offset_of_boundary(s, self.cursor_pos as int);
            lemma_split_encoding(s, k);
            lemma_offset_full(s);
        }
        let (before, rest) = line.split_at(self.cursor_pos);
        proof {
            lemma_encode_injective(before@, s.subrange(0, k));
            lemma_encode_injective(rest@, s.subrange(k, s.len() as int));
        }
        if self.cursor_pos >= line.len() {
            proof {
                lemma_offset_order(s, k, s.len() as int);
                reveal_strlit(" ");
                assert(rest@ =~= Seq::<char>::empty());
                assert(s.subrange(0, k) =~= s);
            }
            return (before.to_owned(), " ".to_owned(), String::new());
        }
        proof {
            lemma_offset_order(s, k, s.len() as int);
        }
        let c = rest.get_char(0);
        proof {
            let r = rest@;
            lemma_offset_zero(r);
            lemma_offset_step(r, 0);
            lemma_index_of_offset(r, 1);
            lemma_split_encoding(r, 1);
            lemma_offset_full(r);
        }
        let (at, after) = rest.split_at(c.len_utf8());
        proof {
            let r = rest@;
            lemma_encode_injective(at@, r.subrange(0, 1));
            lemma_encode_injective(after@, r.subrange(1, r.len() as int));
            assert(r.subrange(0, 1) =~= seq![s[k]]);
            assert(r.subrange(1, r.len() as int) =~= s.subrange(k + 1, s.len() as int));
            assert(s.subrange(0, k) + seq![s[k]] + s.subrange(k + 1, s.len() as int) =~= s);
        }
        (before.to_owned(), at.to_owned(), after.to_owned())
    }
}

} // verus!
