//! Source positions and character classes for the rule-driven parser.

use vstd::prelude::*;
use crate::combo::{Combo, ComboItem};
use crate::text::{push_str, push_decimal, decimal_text};

verus! {

/// A line and column in some text, both starting at 1.
pub struct SourcePos {
    pub line: usize,
    pub col: usize,
}

/// Where reading `c` at `p` leaves the position.
pub open spec fn advanced(p: SourcePos, c: char) -> SourcePos {
    if c == '\n' {
        SourcePos { line: (p.line + 1) as usize, col: 1 }
    } else {
        SourcePos { line: p.line, col: (p.col + 1) as usize }
    }
}

/// How far a position is from overflowing.
pub open spec fn pos_weight(p: SourcePos) -> int {
    p.line + if p.col >= 1 { p.col as int } else { 1 }
}

impl SourcePos {
    /// Line 1, column 1.
    pub fn new() -> (r: SourcePos)
        ensures r == (SourcePos { line: 1, col: 1 }),
    {
        SourcePos { line: 1, col: 1 }
    }

    /// Move past the character `c`.
    pub fn advance_char(&mut self, c: char)
        requires pos_weight(*old(self)) < usize::MAX,
        ensures
            *final(self) == advanced(*old(self), c),
            pos_weight(*final(self)) <= pos_weight(*old(self)) + 1,
    {
        if c == '\n' {
            self.line = self.line + 1;
            self.col = 1;
        } else {
            self.col = self.col + 1;
        }
    }

    /// A copy of this position.
    pub fn copy(&self) -> (r: SourcePos)
        ensures r == *self,
    {
        SourcePos { line: self.line, col: self.col }
    }
}

/// A place in a file: where something started and, while a token is in
/// progress, where it has got to.
pub struct Source {
    pub file: Option<String>,
    pub start: SourcePos,
    pub end: Option<SourcePos>,
}

impl Source {
    /// The position that reading advances.
    pub open spec fn current(&self) -> SourcePos {
        match self.end {
            Some(e) => e,
            None => self.start,
        }
    }

    /// The larger weight of the two positions.
    pub open spec fn weight(&self) -> int {
        match self.end {
            Some(e) => if pos_weight(e) > pos_weight(self.start) { pos_weight(e) } else { pos_weight(self.start) },
            None => pos_weight(self.start),
        }
    }

    /// The start of an unnamed file.
    pub fn new() -> (r: Source)
        ensures r == (Source { file: None, start: SourcePos { line: 1, col: 1 }, end: None }),
    {
        Source { file: None, start: SourcePos::new(), end: None }
    }

    /// Set the file name.
    pub fn with_file(self, f: Option<String>) -> (r: Source)
        ensures r == (Source { file: f, ..self }),
    {
        let mut s = self;
        s.file = f;
        s
    }

    /// Start a token here: the end follows reading from now on.
    pub fn set_started(&mut self)
        ensures *final(self) == (Source { end: Some(old(self).start), ..*old(self) }),
    {
        self.end = Some(self.start.copy());
    }

    /// Finish a token: reading advances the start again.
    pub fn set_ended(&mut self)
        ensures *final(self) == (Source { end: None, ..*old(self) }),
    {
        self.end = None;
    }

    /// Move past the character `c`.
    pub fn read(&mut self, c: char)
        requires old(self).weight() < usize::MAX,
        ensures
            *final(self) == (match old(self).end {
                Some(e) => Source { end: Some(advanced(e, c)), ..*old(self) },
                None => Source { start: advanced(old(self).start, c), ..*old(self) },
            }),
            final(self).weight() <= old(self).weight() + 1,
    {
        match self.end {
            Some(ref e) => {
                let mut e2 = e.copy();
                e2.advance_char(c);
                self.end = Some(e2);
            },
            None => {
                self.start.advance_char(c);
            },
        }
    }

    /// The file, line and column that reading has got to.
    pub fn current_position(&self) -> (r: (Option<String>, usize, usize))
        ensures r == (self.file, self.current().line, self.current().col),
    {
        let pos = match self.end {
            Some(ref e) => e,
            None => &self.start,
        };
        (self.file.clone(), pos.line, pos.col)
    }

    /// A copy of this source.
    pub fn copy(&self) -> (r: Source)
        ensures r == *self,
    {
        Source {
            file: self.file.clone(),
            start: self.start.copy(),
            end: match self.end {
                Some(ref e) => Some(e.copy()),
                None => None,
            },
        }
    }

    /// How this source reads in messages.
    pub open spec fn describe_spec(&self) -> Seq<char> {
        let file = match self.file {
            Some(f) => "file '"@ + f@ + "', "@,
            None => Seq::empty(),
        };
        file + match self.end {
            None => "line "@ + decimal_text(self.start.line as nat) + ", column "@ + decimal_text(self.start.col as nat),
            Some(e) => if self.start.line == e.line {
                "line "@ + decimal_text(self.start.line as nat) + ", "@ + "cols "@ + decimal_text(self.start.col as nat)
                    + "-"@ + decimal_text(e.col as nat)
            } else {
                decimal_text(self.start.line as nat) + ":"@ + decimal_text(self.start.col as nat) + " - "@
                    + decimal_text(e.line as nat) + ":"@ + decimal_text(e.col as nat)
            },
        }
    }

    /// How this source reads in messages, e.g. `file 'x', line 3, column 4`.
    pub fn describe(&self) -> (r: String)
        ensures r@ == self.describe_spec(),
    {
        let mut s = String::new();
        match self.file {
            Some(ref f) => {
                push_str(&mut s, "file '");
                push_str(&mut s, f.as_str());
                push_str(&mut s, "', ");
            },
            None => {},
        }
        let ghost pre = s@;
        match self.end {
            None => {
                push_str(&mut s, "line ");
                push_decimal(&mut s, self.start.line);
                push_str(&mut s, ", column ");
                push_decimal(&mut s, self.start.col);
                assert(s@ == pre + ("line "@ + decimal_text(self.start.line as nat) + ", column "@
                    + decimal_text(self.start.col as nat)));
            },
            Some(ref e) => {
                if self.start.line == e.line {
                    push_str(&mut s, "line ");
                    push_decimal(&mut s, self.start.line);
                    push_str(&mut s, ", ");
                    push_str(&mut s, "cols ");
                    push_decimal(&mut s, self.start.col);
                    push_str(&mut s, "-");
                    push_decimal(&mut s, e.col);
                    assert(s@ == pre + ("line "@ + decimal_text(self.start.line as nat) + ", "@ + "cols "@
                        + decimal_text(self.start.col as nat) + "-"@ + decimal_text(e.col as nat)));
                } else {
                    push_decimal(&mut s, self.start.line);
                    push_str(&mut s, ":");
                    push_decimal(&mut s, self.start.col);
                    push_str(&mut s, " - ");
                    push_decimal(&mut s, e.line);
                    push_str(&mut s, ":");
                    push_decimal(&mut s, e.col);
                    assert(s@ == pre + (decimal_text(self.start.line as nat) + ":"@ + decimal_text(self.start.col as nat)
                        + " - "@ + decimal_text(e.line as nat) + ":"@ + decimal_text(e.col as nat)));
                }
            },
        }
        s
    }
}

/// A class of characters that a parser rule can accept.
#[derive(PartialEq, Eq, Structural, Clone, Copy, Debug)]
pub enum CharClass {
    /// Exactly this character.
    One(char),
    /// Any whitespace.
    Whitespace,
    /// Any alphabetic character.
    Alpha,
    /// Any numeric character.
    Numeric,
    /// Any ASCII punctuation.
    Symbol,
    /// The end of the input.
    Eof,
}

impl ComboItem for CharClass {
    open spec fn same_spec(&self, other: &Self) -> bool {
        *self == *other
    }

    fn same(&self, other: &Self) -> (r: bool) {
        *self == *other
    }

    fn copy_item(&self) -> (r: Self) {
        *self
    }
}

impl CharClass {
    /// The class of exactly one character.
    pub fn from_char(c: char) -> (r: CharClass)
        ensures r == CharClass::One(c),
    {
        CharClass::One(c)
    }
}

} // verus!
