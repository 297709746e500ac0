use vstd::prelude::*;

use crate::color::Color;

verus! {

/// One character cell of the screen.
///
/// `fg` and `bg` are the colors as displayed: bold brightening and reverse
/// video are already applied. The flags keep the attributes that were in
/// force when the cell was written.
#[derive(Clone, Copy, Debug, PartialEq, Eq)]
pub struct Cell {
    pub ch: char,
    /// The combining marks that followed `ch`, as an index into the
    /// terminal's mark store; `None` if there were none.
    pub marks: Option<usize>,
    /// Display columns of `ch`: 1, or 2 for the left half of a wide glyph.
    pub width: u8,
    /// This cell is the right half of the wide glyph one column left.
    pub cont: bool,
    pub fg: Color,
    pub bg: Color,
    pub bold: bool,
    pub italic: bool,
    pub underline: bool,
    pub reverse: bool,
}

pub open spec fn default_cell() -> Cell {
    Cell {
        ch: ' ',
        marks: None,
        width: 1,
        cont: false,
        fg: Color::Default,
        bg: Color::Default,
        bold: false,
        italic: false,
        underline: false,
        reverse: false,
    }
}

impl Cell {
    pub fn ch(&self) -> (r: char)
        ensures
            r == self.ch,
    {
        self.ch
    }

    pub fn underline(&self) -> (r: bool)
        ensures
            r == self.underline,
    {
        self.underline
    }

    pub fn cont(&self) -> (r: bool)
        ensures
            r == self.cont,
    {
        self.cont
    }
}

impl Default for Cell {
    fn default() -> (r: Cell)
        ensures
            r == default_cell(),
    {
        Cell {
            ch: ' ',
            marks: None,
            width: 1,
            cont: false,
            fg: Color::Default,
            bg: Color::Default,
            bold: false,
            italic: false,
            underline: false,
            reverse: false,
        }
    }
}

/// The SGR state: the template applied to newly written cells.
///
/// `fg` is the base foreground; bold brightens a base index 0..8 only when a
/// cell is written, so clearing bold restores the base color.
#[derive(Clone, Copy, Debug, PartialEq, Eq, Structural)]
pub struct Pen {
    pub fg: Color,
    pub bg: Color,
    pub bold: bool,
    pub italic: bool,
    pub underline: bool,
    pub reverse: bool,
}

pub open spec fn plain_pen() -> Pen {
    Pen {
        fg: Color::Default,
        bg: Color::Default,
        bold: false,
        italic: false,
        underline: false,
        reverse: false,
    }
}

/// The foreground that bold makes of the base foreground.
pub open spec fn effective_fg(p: Pen) -> Color {
    match p.fg {
        Color::Indexed(i) => if p.bold && i < 8 {
            Color::Indexed((i + 8) as u8)
        } else {
            p.fg
        },
        _ => p.fg,
    }
}

/// A cell written with pen `p`.
pub open spec fn pen_cell(p: Pen, ch: char, width: u8, cont: bool) -> Cell {
    let fg = effective_fg(p);
    Cell {
        ch,
        marks: None,
        width,
        cont,
        fg: if p.reverse { p.bg } else { fg },
        bg: if p.reverse { fg } else { p.bg },
        bold: p.bold,
        italic: p.italic,
        underline: p.underline,
        reverse: p.reverse,
    }
}

/// An erased cell: a space in the current background.
pub open spec fn blank_cell(p: Pen) -> Cell {
    Cell {
        ch: ' ',
        marks: None,
        width: 1,
        cont: false,
        fg: Color::Default,
        bg: p.bg,
        bold: false,
        italic: false,
        underline: false,
        reverse: false,
    }
}

impl Pen {
    pub fn plain() -> (r: Pen)
        ensures
            r == plain_pen(),
    {
        Pen {
            fg: Color::Default,
            bg: Color::Default,
            bold: false,
            italic: false,
            underline: false,
            reverse: false,
        }
    }

    pub fn effective_fg(&self) -> (r: Color)
        ensures
            r == effective_fg(*self),
    {
        match self.fg {
            Color::Indexed(i) => if self.bold && i < 8 {
                Color::Indexed(i + 8)
            } else {
                self.fg
            },
            _ => self.fg,
        }
    }

    pub fn cell(&self, ch: char, width: u8, cont: bool) -> (r: Cell)
        ensures
            r == pen_cell(*self, ch, width, cont),
    {
        let fg = self.effective_fg();
        Cell {
            ch,
            marks: None,
            width,
            cont,
            fg: if self.reverse { self.bg } else { fg },
            bg: if self.reverse { fg } else { self.bg },
            bold: self.bold,
            italic: self.italic,
            underline: self.underline,
            reverse: self.reverse,
        }
    }

    pub fn blank(&self) -> (r: Cell)
        ensures
            r == blank_cell(*self),
    {
        Cell {
            ch: ' ',
            marks: None,
            width: 1,
            cont: false,
            fg: Color::Default,
            bg: self.bg,
            bold: false,
            italic: false,
            underline: false,
            reverse: false,
        }
    }
}

/// A character set that can be designated into G0 or G1.
#[derive(Clone, Copy, Debug, PartialEq, Eq, Structural)]
pub enum Charset {
    Ascii,
    DecSpecial,
}

/// The DEC Special Graphics glyph that a character stands for.
pub open spec fn dec_special(ch: char) -> char {
    if ch == 'j' {
        '┘'
    } else if ch == 'k' {
        '┐'
    } else if ch == 'l' {
        '┌'
    } else if ch == 'm' {
        '└'
    } else if ch == 'n' {
        '┼'
    } else if ch == 'q' {
        '─'
    } else if ch == 't' {
        '├'
    } else if ch == 'u' {
        '┤'
    } else if ch == 'v' {
        '┴'
    } else if ch == 'w' {
        '┬'
    } else if ch == 'x' {
        '│'
    } else if ch == 'y' {
        '≤'
    } else if ch == 'z' {
        '≥'
    } else if ch == '{' {
        'π'
    } else if ch == '|' {
        '≠'
    } else if ch == '}' {
        '£'
    } else if ch == '~' {
        '·'
    } else {
        ch
    }
}

pub fn map_dec_special(ch: char) -> (r: char)
    ensures
        r == dec_special(ch),
{
    match ch {
        'j' => '┘',
        'k' => '┐',
        'l' => '┌',
        'm' => '└',
        'n' => '┼',
        'q' => '─',
        't' => '├',
        'u' => '┤',
        'v' => '┴',
        'w' => '┬',
        'x' => '│',
        'y' => '≤',
        'z' => '≥',
        '{' => 'π',
        '|' => '≠',
        '}' => '£',
        '~' => '·',
        _ => ch,
    }
}

} // verus!
