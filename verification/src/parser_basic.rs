//! The basic reader of source text:
//!  - `;` comments to the end of the line, `#! ... !#` block comments
//!  - integers and basic floats
//!  - `"..."` strings, where `\n` is a newline and `\C` is `C`
//!  - `[ ... ]` lists
//!  - whitespace separates words; everything else is a word
//!
//! Each reading step is stated as a function from a position and the
//! remaining input to the new position, the rest of the input and what
//! was read.

use vstd::prelude::*;
use crate::data::{Val, SVal, Datum, SDatum};
use crate::list::List;
use crate::numeric::{IntError, int_syntax, int_value, float_syntax, parse_i64, is_float_syntax};
use crate::text::{char_whitespace, char_numeric, char_alphabetic, is_whitespace, is_numeric, is_alphabetic,
    push_char, push_str, push_decimal, decimal_text, chars_of};

verus! {

/// A line and a column, both counted from 1.
pub struct SourcePos {
    pub line: usize,
    pub col: usize,
}

/// Where reading `c` at `p` leaves the position.
pub open spec fn read_pos(p: SourcePos, c: char) -> SourcePos {
    if c == '\n' {
        SourcePos { line: (p.line + 1) as usize, col: 1 }
    } else {
        SourcePos { line: p.line, col: (p.col + 1) as usize }
    }
}

/// Where reading all of `cs` at `p` leaves the position.
pub open spec fn read_all(p: SourcePos, cs: Seq<char>) -> SourcePos
    decreases cs.len(),
{
    if cs.len() == 0 {
        p
    } else {
        read_all(read_pos(p, cs[0]), cs.drop_first())
    }
}

/// How far a position is from overflowing: each character read adds at
/// most one.
pub open spec fn weight(p: SourcePos) -> int {
    p.line + if p.col >= 1 { p.col as int } else { 1 }
}

/// Whether reading `n` more characters at `p` stays within `usize`.
pub open spec fn fits(p: SourcePos, n: int) -> bool {
    weight(p) + n < usize::MAX
}

/// Whether a character ends a word.
pub open spec fn atomic_end_spec(c: char) -> bool {
    char_whitespace(c) || c == '(' || c == ')' || c == '[' || c == ']' || c == '"' || c == ';'
}

/// The number of leading characters of `s` that satisfy `f`.
pub open spec fn prefix_len(s: Seq<char>, f: spec_fn(char) -> bool) -> nat
    decreases s.len(),
{
    if s.len() > 0 && f(s[0]) {
        1 + prefix_len(s.drop_first(), f)
    } else {
        0
    }
}

/// Whitespace.
pub open spec fn ws_pred() -> spec_fn(char) -> bool {
    |c: char| char_whitespace(c)
}

/// What may follow the first character of a number.
pub open spec fn num_pred() -> spec_fn(char) -> bool {
    |c: char| c == '.' || char_numeric(c)
}

/// What may follow the first character of a word.
pub open spec fn sym_pred() -> spec_fn(char) -> bool {
    |c: char| !atomic_end_spec(c)
}

/// Leading whitespace.
pub open spec fn ws_len(s: Seq<char>) -> nat {
    prefix_len(s, ws_pred())
}

/// Leading digits and dots, the rest of a number.
pub open spec fn num_len(s: Seq<char>) -> nat {
    prefix_len(s, num_pred())
}

/// Leading characters that do not end a word.
pub open spec fn sym_len(s: Seq<char>) -> nat {
    prefix_len(s, sym_pred())
}

/// How many characters up to and including the first `ch` there are
/// (all of them if there is none).
pub open spec fn until_len(s: Seq<char>, ch: char) -> nat
    decreases s.len(),
{
    if s.len() == 0 {
        0
    } else if s[0] == ch {
        1
    } else {
        1 + until_len(s.drop_first(), ch)
    }
}

/// Why a number could not be read.
pub enum ParseError<T> {
    UnbalancedOpenList(T),
    UnbalancedCloseList(T),
    UnbalancedComment(T),
    UnbalancedString(T),
    BadInteger(T, IntError),
    BadFloat(T),
}

/// The value of a number's text: a float if a dot follows its first
/// character, else an integer.
pub open spec fn number_value(text: Seq<char>, float: bool, at: SourcePos) -> Result<SVal, ParseError<SourcePos>> {
    if float {
        if float_syntax(text) {
            Ok(SVal::Float(text))
        } else {
            Err(ParseError::BadFloat(at))
        }
    } else if !int_syntax(text) {
        Err(ParseError::BadInteger(at, IntError::Invalid))
    } else if i64::MIN <= int_value(text) <= i64::MAX {
        Ok(SVal::Int(int_value(text)))
    } else {
        Err(ParseError::BadInteger(at, IntError::Overflow))
    }
}

/// Reading a number whose first character `c` was taken already.
pub open spec fn number_spec(c: char, p: SourcePos, s: Seq<char>)
    -> (SourcePos, Seq<char>, Result<SVal, ParseError<SourcePos>>)
{
    let k = num_len(s) as int;
    let p1 = read_all(p, s.take(k));
    (p1, s.skip(k), number_value(seq![c] + s.take(k), s.take(k).contains('.'), p1))
}

/// Reading a word whose first character `c` was taken already. A quote
/// or a colon is a word of its own.
pub open spec fn symbol_spec(c: char, p: SourcePos, s: Seq<char>) -> (SourcePos, Seq<char>, Seq<char>) {
    if c == '\'' || c == ':' {
        (p, s, seq![c])
    } else {
        let k = sym_len(s) as int;
        (read_all(p, s.take(k)), s.skip(k), seq![c] + s.take(k))
    }
}

/// Reading an atom: a number if it starts with a numeral, else a word.
pub open spec fn atom_spec(p: SourcePos, s: Seq<char>)
    -> (SourcePos, Seq<char>, Result<Option<SVal>, ParseError<SourcePos>>)
{
    if s.len() == 0 {
        (p, s, Ok(None))
    } else if char_numeric(s[0]) {
        let (p1, s1, r) = number_spec(s[0], p, s.drop_first());
        (p1, s1, match r { Ok(v) => Ok(Some(v)), Err(e) => Err(e) })
    } else {
        let (p1, s1, t) = symbol_spec(s[0], p, s.drop_first());
        (p1, s1, Ok(Some(SVal::Symbol(t))))
    }
}

/// Reading the rest of a block comment, up to the first `!#`.
pub open spec fn comment_spec(p: SourcePos, s: Seq<char>) -> (SourcePos, Seq<char>, bool)
    decreases s.len(),
{
    if s.len() == 0 {
        (p, s, false)
    } else {
        let c = s[0];
        let p1 = read_pos(p, c);
        let s1 = s.drop_first();
        if c == '!' && s1.len() > 0 && s1[0] == '#' {
            (read_pos(p1, '#'), s1.drop_first(), true)
        } else {
            comment_spec(p1, s1)
        }
    }
}

/// The value of a hexadecimal digit.
pub open spec fn hex_val(c: char) -> Option<nat> {
    if '0' <= c && c <= '9' {
        Some((c as int - '0' as int) as nat)
    } else if 'a' <= c && c <= 'f' {
        Some((c as int - 'a' as int + 10) as nat)
    } else if 'A' <= c && c <= 'F' {
        Some((c as int - 'A' as int + 10) as nat)
    } else {
        None
    }
}

/// Whether `s` starts with two hexadecimal digits.
pub open spec fn starts_hex2(s: Seq<char>) -> bool {
    s.len() >= 2 && hex_val(s[0]) is Some && hex_val(s[1]) is Some
}

/// The character with the code given by two hexadecimal digits.
pub open spec fn hex2_char(hi: char, lo: char) -> char {
    ((hex_val(hi)->0 * 16 + hex_val(lo)->0) as u8) as char
}

/// Reading the rest of a string, up to `"`: whether it was closed and
/// its characters. A backslash escapes the next character: `\n` is a
/// newline, `\xHH` the character with the hexadecimal code `HH`, and any
/// other escaped character stands for itself (so `\"` and `\\`). A `\x`
/// not followed by two hexadecimal digits is a plain `x`.
pub open spec fn string_spec(p: SourcePos, s: Seq<char>) -> (SourcePos, Seq<char>, bool, Seq<char>)
    decreases s.len(),
{
    if s.len() == 0 {
        (p, s, false, Seq::empty())
    } else {
        let c = s[0];
        let p1 = read_pos(p, c);
        let s1 = s.drop_first();
        if c == '"' {
            (p1, s1, true, Seq::empty())
        } else if c == '\\' {
            if s1.len() == 0 {
                (p1, s1, false, Seq::empty())
            } else {
                let esc = s1[0];
                let p2 = read_pos(p1, esc);
                let s2 = s1.drop_first();
                if esc == 'x' && starts_hex2(s2) {
                    let (p3, s3, ok, t) = string_spec(read_pos(read_pos(p2, s2[0]), s2[1]), s2.skip(2));
                    (p3, s3, ok, seq![hex2_char(s2[0], s2[1])] + t)
                } else {
                    let (p3, s3, ok, t) = string_spec(p2, s2);
                    (p3, s3, ok, seq![if esc == 'n' { '\n' } else { esc }] + t)
                }
            }
        } else {
            let (p2, s2, ok, t) = string_spec(p1, s1);
            (p2, s2, ok, seq![c] + t)
        }
    }
}

/// What the next piece of input is.
pub enum SCmd {
    StartList,
    EndList,
    StartString,
    StartBlockComment,
    Atom(SVal),
}

/// The length of what a prefix function counts is at most the length.
pub proof fn lemma_prefix_len(s: Seq<char>, f: spec_fn(char) -> bool)
    ensures
        prefix_len(s, f) <= s.len(),
        forall|i: int| 0 <= i < prefix_len(s, f) ==> #[trigger] f(s[i]),
        prefix_len(s, f) < s.len() ==> !f(s[prefix_len(s, f) as int]),
    decreases s.len(),
{
    if s.len() > 0 && f(s[0]) {
        lemma_prefix_len(s.drop_first(), f);
        assert forall|i: int| 0 <= i < prefix_len(s, f) implies #[trigger] f(s[i]) by {
            if i > 0 {
                assert(s[i] == s.drop_first()[i - 1]);
            }
        }
    }
}

/// A word runs to the first character that ends a word: when no
/// character of `s` ends a word (digits included), a word starting with
/// `c` (not a quote or a colon) takes all of `s`.
pub proof fn law_word_runs_to_end(c: char, p: SourcePos, s: Seq<char>)
    requires
        c != '\'' && c != ':',
        forall|i: int| 0 <= i < s.len() ==> !atomic_end_spec(#[trigger] s[i]),
    ensures
        symbol_spec(c, p, s).1 == Seq::<char>::empty(),
        symbol_spec(c, p, s).2 == seq![c] + s,
{
    lemma_prefix_len(s, sym_pred());
    if prefix_len(s, sym_pred()) < s.len() {
        assert(!atomic_end_spec(s[prefix_len(s, sym_pred()) as int]));
    }
    assert(s.skip(s.len() as int) =~= Seq::<char>::empty());
    assert(s.take(s.len() as int) =~= s);
}

/// Reading a text `w` that starts with neither a numeral, `#`, a quote nor
/// a colon, and holds no character that ends a word, gives the one word
/// `w` and leaves nothing: digits inside a word do not end it.
pub proof fn law_word_is_one_symbol(p: SourcePos, w: Seq<char>)
    requires
        w.len() > 0,
        !char_numeric(w[0]),
        w[0] != '#' && w[0] != '\'' && w[0] != ':',
        forall|i: int| 0 <= i < w.len() ==> !atomic_end_spec(#[trigger] w[i]),
    ensures
        cmd_spec(p, w).1 == Seq::<char>::empty(),
        cmd_spec(p, w).2 == Ok::<Option<(SourcePos, SCmd)>, ParseError<SourcePos>>(Some((p, SCmd::Atom(SVal::Symbol(w))))),
{
    assert(!atomic_end_spec(w[0]));
    assert(!char_whitespace(w[0]));
    assert(ws_len(w) == 0);
    assert(w.take(0) =~= Seq::<char>::empty());
    assert(w.skip(0) =~= w);
    let s = w.drop_first();
    assert forall|i: int| 0 <= i < s.len() implies !atomic_end_spec(#[trigger] s[i]) by {
        assert(s[i] == w[i + 1]);
    }
    law_word_runs_to_end(w[0], p, s);
    assert(seq![w[0]] + s =~= w);
}

/// At most all of the input is taken up to a character.
pub proof fn lemma_until_len(s: Seq<char>, ch: char)
    ensures until_len(s, ch) <= s.len(),
    decreases s.len(),
{
    if s.len() > 0 && s[0] != ch {
        lemma_until_len(s.drop_first(), ch);
    }
}

/// A comment's end leaves at most the input.
pub proof fn lemma_comment_len(p: SourcePos, s: Seq<char>)
    ensures comment_spec(p, s).1.len() <= s.len(),
    decreases s.len(),
{
    if s.len() > 0 {
        let s1 = s.drop_first();
        if !(s[0] == '!' && s1.len() > 0 && s1[0] == '#') {
            lemma_comment_len(read_pos(p, s[0]), s1);
        }
    }
}

/// A string's end leaves at most the input.
pub proof fn lemma_string_len(p: SourcePos, s: Seq<char>)
    ensures string_spec(p, s).1.len() <= s.len(),
    decreases s.len(),
{
    if s.len() > 0 {
        let p1 = read_pos(p, s[0]);
        let s1 = s.drop_first();
        if s[0] == '\\' {
            if s1.len() > 0 {
                let p2 = read_pos(p1, s1[0]);
                let s2 = s1.drop_first();
                if s1[0] == 'x' && starts_hex2(s2) {
                    lemma_string_len(read_pos(read_pos(p2, s2[0]), s2[1]), s2.skip(2));
                } else {
                    lemma_string_len(p2, s2);
                }
            }
        } else if s[0] != '"' {
            lemma_string_len(p1, s1);
        }
    }
}

/// Reading the next piece of input, skipping whitespace and line comments.
/// The position given with a piece is where it starts.
pub open spec fn cmd_spec(p: SourcePos, s: Seq<char>)
    -> (SourcePos, Seq<char>, Result<Option<(SourcePos, SCmd)>, ParseError<SourcePos>>)
    decreases s.len(),
{
    let k = ws_len(s) as int;
    let p0 = read_all(p, s.take(k));
    let s0 = s.skip(k);
    if s0.len() == 0 {
        (p0, s0, Ok(None))
    } else {
        let c = s0[0];
        let s1 = s0.drop_first();
        if c == ';' {
            let n = until_len(s1, '\n') as int;
            proof {
                lemma_prefix_len(s, ws_pred());
                lemma_until_len(s1, '\n');
            }
            cmd_spec(read_all(read_pos(p0, ';'), s1.take(n)), s1.skip(n))
        } else if c == '[' {
            (read_pos(p0, c), s1, Ok(Some((p0, SCmd::StartList))))
        } else if c == ']' {
            (read_pos(p0, c), s1, Ok(Some((p0, SCmd::EndList))))
        } else if c == '"' {
            (read_pos(p0, c), s1, Ok(Some((p0, SCmd::StartString))))
        } else if c == '#' {
            if s1.len() == 0 {
                (p0, s1, Ok(Some((p0, SCmd::Atom(SVal::Symbol(seq!['#']))))))
            } else if s1[0] == '!' {
                (read_pos(p0, '!'), s1.drop_first(), Ok(Some((p0, SCmd::StartBlockComment))))
            } else if char_numeric(s1[0]) || char_alphabetic(s1[0]) || atomic_end_spec(s1[0]) {
                (p0, s1, Ok(Some((p0, SCmd::Atom(SVal::Symbol(seq!['#']))))))
            } else {
                (p0, s1.drop_first(), Ok(Some((p0, SCmd::Atom(SVal::Symbol(seq!['#', s1[0]]))))))
            }
        } else {
            let (p1, s2, r) = atom_spec(p0, s0);
            (p1, s2, match r {
                Ok(Some(v)) => Ok(Some((p0, SCmd::Atom(v)))),
                Ok(None) => Ok(None),
                Err(e) => Err(e),
            })
        }
    }
}


/// Reading a piece of input leaves at most the input, and less when a
/// piece was read.
pub proof fn lemma_cmd_len(p: SourcePos, s: Seq<char>)
    ensures
        cmd_spec(p, s).1.len() <= s.len(),
        cmd_spec(p, s).2 matches Ok(Some(_)) ==> cmd_spec(p, s).1.len() < s.len(),
    decreases s.len(),
{
    let k = ws_len(s) as int;
    lemma_prefix_len(s, ws_pred());
    let p0 = read_all(p, s.take(k));
    let s0 = s.skip(k);
    if s0.len() > 0 {
        let c = s0[0];
        let s1 = s0.drop_first();
        if c == ';' {
            let n = until_len(s1, '\n') as int;
            lemma_until_len(s1, '\n');
            lemma_cmd_len(read_all(read_pos(p0, ';'), s1.take(n)), s1.skip(n));
        } else if c != '[' && c != ']' && c != '"' && c != '#' {
            let t = s0.drop_first();
            if char_numeric(c) {
                lemma_prefix_len(t, num_pred());
            } else if c != '\'' && c != ':' {
                lemma_prefix_len(t, sym_pred());
            }
        }
    }
}

/// One more value inside the innermost open list.
pub open spec fn add_to_top(nest: Seq<(Seq<SVal>, SourcePos)>, v: SVal) -> Seq<(Seq<SVal>, SourcePos)> {
    nest.update(nest.len() - 1, (nest.last().0.push(v), nest.last().1))
}

/// Reading one top-level value, with `nest` the lists open so far (each
/// with its values so far and where it started). The position given with
/// the value is where it started.
pub open spec fn toplevel_spec(p: SourcePos, s: Seq<char>, nest: Seq<(Seq<SVal>, SourcePos)>)
    -> (SourcePos, Seq<char>, Result<Option<(SourcePos, SVal)>, ParseError<SourcePos>>)
    decreases s.len(),
{
    let (p1, s1, r) = cmd_spec(p, s);
    proof { lemma_cmd_len(p, s); }
    match r {
        Err(e) => (p1, s1, Err(e)),
        Ok(None) => if nest.len() > 0 {
            (p1, s1, Err(ParseError::UnbalancedOpenList(nest.last().1)))
        } else {
            (p1, s1, Ok(None))
        },
        Ok(Some((start, cmd))) => match cmd {
            SCmd::StartList => toplevel_spec(p1, s1, nest.push((Seq::empty(), start))),
            SCmd::EndList => if nest.len() == 0 {
                (p1, s1, Err(ParseError::UnbalancedCloseList(start)))
            } else {
                let top = nest.last();
                let outer = nest.drop_last();
                if outer.len() == 0 {
                    (p1, s1, Ok(Some((top.1, SVal::List(top.0, None)))))
                } else {
                    toplevel_spec(p1, s1, add_to_top(outer, SVal::List(top.0, None)))
                }
            },
            SCmd::StartString => {
                let (p2, s2, ok, t) = string_spec(p1, s1);
                proof { lemma_string_len(p1, s1); }
                if !ok {
                    (p2, s2, Err(ParseError::UnbalancedString(start)))
                } else if nest.len() == 0 {
                    (p2, s2, Ok(Some((start, SVal::Str(t)))))
                } else {
                    toplevel_spec(p2, s2, add_to_top(nest, SVal::Str(t)))
                }
            },
            SCmd::StartBlockComment => {
                let (p2, s2, ok) = comment_spec(p1, s1);
                proof { lemma_comment_len(p1, s1); }
                if ok {
                    toplevel_spec(p2, s2, nest)
                } else {
                    (p2, s2, Err(ParseError::UnbalancedComment(p1)))
                }
            },
            SCmd::Atom(v) => if nest.len() == 0 {
                (p1, s1, Ok(Some((start, v))))
            } else {
                toplevel_spec(p1, s1, add_to_top(nest, v))
            },
        },
    }
}


/// Reading one more character after `cs`.
pub proof fn lemma_read_all_push(p: SourcePos, cs: Seq<char>, c: char)
    ensures read_all(p, cs.push(c)) == read_pos(read_all(p, cs), c),
    decreases cs.len(),
{
    if cs.len() > 0 {
        assert(cs.push(c).drop_first() == cs.drop_first().push(c));
        assert(cs.push(c)[0] == cs[0]);
        lemma_read_all_push(read_pos(p, cs[0]), cs.drop_first(), c);
    } else {
        assert(cs.push(c).drop_first() == cs);
        assert(cs.push(c)[0] == c);
        assert(read_all(read_pos(p, c), cs) == read_pos(p, c));
    }
}

/// Each character read adds at most one to the weight.
pub proof fn lemma_read_all_weight(p: SourcePos, cs: Seq<char>)
    ensures weight(read_all(p, cs)) <= weight(p) + cs.len(),
    decreases cs.len(),
{
    if cs.len() > 0 {
        lemma_read_all_weight(read_pos(p, cs[0]), cs.drop_first());
    }
}

/// Taking one more element of a sequence.
proof fn lemma_take_push(s: Seq<char>, j: int)
    requires 0 <= j < s.len(),
    ensures
        s.take(j + 1) == s.take(j).push(s[j]),
        s.skip(j).drop_first() == s.skip(j + 1),
        s.skip(j)[0] == s[j],
{
    assert(s.take(j + 1) =~= s.take(j).push(s[j]));
    assert(s.skip(j).drop_first() =~= s.skip(j + 1));
}

/// A prefix walk that stops at a character failing `f`, or at the end,
/// has walked the whole prefix.
proof fn lemma_prefix_stop(s: Seq<char>, f: spec_fn(char) -> bool, j: int)
    requires
        0 <= j <= s.len(),
        forall|i: int| 0 <= i < j ==> #[trigger] f(s[i]),
        j == s.len() || !f(s[j]),
    ensures j == prefix_len(s, f),
{
    lemma_prefix_len(s, f);
    let k = prefix_len(s, f) as int;
    if k < j {
        assert(f(s[k]));
    }
    if j < k {
        assert(f(s[j]));
    }
}

impl SourcePos {
    /// Line 1, column 1.
    fn new() -> (r: SourcePos)
        ensures r == (SourcePos { line: 1, col: 1 }),
    {
        SourcePos { line: 1, col: 1 }
    }

    /// Move past the character `c`.
    fn read(&mut self, c: char)
        requires fits(*old(self), 1),
        ensures *final(self) == read_pos(*old(self), c),
    {
        if c == '\n' {
            self.line = self.line + 1;
            self.col = 1;
        } else {
            self.col = self.col + 1;
        }
    }

    /// A copy of this position.
    pub fn copy(&self) -> (r: SourcePos)
        ensures r == *self,
    {
        SourcePos { line: self.line, col: self.col }
    }
}

/// The input still to be read, with room to put back what was taken.
pub struct ReadIter {
    /// The remaining input, last character first.
    stash: Vec<char>,
}

/// What taking the next character of `rest` gives, and what is left.
pub open spec fn take_next(rest: Seq<char>) -> (Option<char>, Seq<char>) {
    if rest.len() == 0 { (None, rest) } else { (Some(rest[0]), rest.drop_first()) }
}

/// What is left to read after putting back the characters `cs`, in order.
pub open spec fn push_back_all(rest: Seq<char>, cs: Seq<char>) -> Seq<char>
    decreases cs.len(),
{
    if cs.len() == 0 { rest } else { push_back_all(seq![cs[0]] + rest, cs.drop_first()) }
}

/// Characters put back come out first, the last put back first, and then
/// what was there before: after putting back `c`, the next character is
/// `c` and the rest is as it was; after putting back several, what is left
/// to read is them reversed, then the old rest.
pub proof fn law_push_back_then_next(rest: Seq<char>, c: char, cs: Seq<char>)
    ensures
        take_next(seq![c] + rest) == (Some(c), rest),
        push_back_all(rest, cs) == cs.reverse() + rest,
    decreases cs.len(),
{
    assert((seq![c] + rest).drop_first() =~= rest);
    if cs.len() == 0 {
        assert(cs.reverse() + rest =~= rest);
    } else {
        law_push_back_then_next(seq![cs[0]] + rest, c, cs.drop_first());
        assert(cs.drop_first().reverse() + (seq![cs[0]] + rest) =~= cs.reverse() + rest);
    }
}

impl ReadIter {
    /// The characters still to be read, in order.
    pub closed spec fn rest(&self) -> Seq<char> {
        self.stash@.reverse()
    }

    /// A reader over the characters of `src`.
    pub fn new(src: &str) -> (r: ReadIter)
        ensures r.rest() == src@,
    {
        let cs = chars_of(src);
        let mut stash: Vec<char> = Vec::new();
        let mut i: usize = cs.len();
        while i > 0
            invariant
                i <= cs@.len(),
                stash@.reverse() == cs@.skip(i as int),
            decreases i,
        {
            i -= 1;
            let ghost before = stash@;
            stash.push(cs[i]);
            proof {
                assert(stash@.reverse() =~= seq![cs@[i as int]] + before.reverse());
                assert(cs@.skip(i as int) =~= seq![cs@[i as int]] + cs@.skip(i + 1));
            }
        }
        proof { assert(cs@.skip(0) == cs@); }
        ReadIter { stash }
    }

    /// Take the next character.
    pub fn next(&mut self) -> (r: Option<char>)
        ensures
            (r, final(self).rest()) == take_next(old(self).rest()),
            match r {
                Some(c) => old(self).rest().len() > 0 && c == old(self).rest()[0]
                    && final(self).rest() == old(self).rest().drop_first(),
                None => old(self).rest().len() == 0 && final(self).rest() == old(self).rest(),
            },
    {
        let ghost s = self.stash@;
        let r = self.stash.pop();
        proof {
            if s.len() > 0 {
                assert(self.stash@.reverse() =~= s.reverse().drop_first());
            }
        }
        r
    }

    /// The character `k` places ahead, if there is one.
    fn peek(&self, k: usize) -> (r: Option<char>)
        ensures
            k < self.rest().len() ==> r == Some(self.rest()[k as int]),
            k >= self.rest().len() ==> r is None,
    {
        let n = self.stash.len();
        if k < n {
            proof { assert(self.stash@.reverse()[k as int] == self.stash@[n - 1 - k]); }
            Some(self.stash[n - 1 - k])
        } else {
            None
        }
    }

    /// Put back a character, to be taken next.
    pub fn push_back(&mut self, c: char)
        ensures final(self).rest() == seq![c] + old(self).rest(),
    {
        let ghost s = self.stash@;
        self.stash.push(c);
        proof { assert(self.stash@.reverse() =~= seq![c] + s.reverse()); }
    }
}

/// Skip whitespace.
fn discard_whitespace(pos: &mut SourcePos, reader: &mut ReadIter)
    requires fits(*old(pos), old(reader).rest().len() as int),
    ensures
        fits(*final(pos), final(reader).rest().len() as int),
        ({
        let s = old(reader).rest();
        let k = ws_len(s) as int;
        &&& *final(pos) == read_all(*old(pos), s.take(k))
        &&& final(reader).rest() == s.skip(k)
    }),
{
    let ghost s = reader.rest();
    let ghost p = *pos;
    let ghost f = ws_pred();
    let ghost mut j: int = 0;
    proof { assert(s.take(0) == Seq::<char>::empty()); assert(s.skip(0) == s); }
    loop
        invariant
            0 <= j <= s.len(),
            reader.rest() == s.skip(j),
            *pos == read_all(p, s.take(j)),
            forall|i: int| 0 <= i < j ==> #[trigger] f(s[i]),
            fits(*pos, reader.rest().len() as int),
            f == ws_pred(),
            s == old(reader).rest(),
            p == *old(pos),
        decreases s.len() - j,
    {
        match reader.next() {
            Some(c) => {
                proof { lemma_take_push(s, j); }
                if !is_whitespace(c) {
                    reader.push_back(c);
                    proof {
                        assert(seq![c] + s.skip(j + 1) =~= s.skip(j));
                        assert(c == s[j]);
                        assert(!f(s[j]));
                        lemma_prefix_stop(s, f, j);
                    }
                    return;
                }
                proof {
                    lemma_read_all_push(p, s.take(j), c);
                }
                pos.read(c);
                proof { j = j + 1; }
            },
            None => {
                proof { lemma_prefix_stop(s, f, j); }
                return;
            },
        }
    }
}


/// Up to the first `ch`, past a stretch without it.
proof fn lemma_until_prefix(s: Seq<char>, ch: char, j: int)
    requires
        0 <= j <= s.len(),
        forall|i: int| 0 <= i < j ==> s[i] != ch,
    ensures until_len(s, ch) == j + until_len(s.skip(j), ch),
    decreases j,
{
    if j == 0 {
        assert(s.skip(0) == s);
    } else {
        let s1 = s.drop_first();
        assert forall|i: int| 0 <= i < j - 1 implies s1[i] != ch by {
            assert(s1[i] == s[i + 1]);
        }
        lemma_until_prefix(s1, ch, j - 1);
        assert(s1.skip(j - 1) == s.skip(j));
    }
}

/// Skip everything up to and including the next `ch`; whether one was
/// found.
fn discard_until(pos: &mut SourcePos, reader: &mut ReadIter, ch: char) -> (r: bool)
    requires fits(*old(pos), old(reader).rest().len() as int),
    ensures
        fits(*final(pos), final(reader).rest().len() as int),
        ({
        let s = old(reader).rest();
        let n = until_len(s, ch) as int;
        &&& *final(pos) == read_all(*old(pos), s.take(n))
        &&& final(reader).rest() == s.skip(n)
        &&& r == (n > 0 && s[n - 1] == ch)
        &&& n <= s.len()
    }),
{
    let ghost s = reader.rest();
    let ghost p = *pos;
    let ghost mut j: int = 0;
    proof { assert(s.take(0) == Seq::<char>::empty()); assert(s.skip(0) == s); }
    loop
        invariant
            0 <= j <= s.len(),
            reader.rest() == s.skip(j),
            *pos == read_all(p, s.take(j)),
            forall|i: int| 0 <= i < j ==> s[i] != ch,
            fits(*pos, reader.rest().len() as int),
            s == old(reader).rest(),
            p == *old(pos),
        decreases s.len() - j,
    {
        match reader.next() {
            Some(c) => {
                proof {
                    lemma_take_push(s, j);
                    lemma_read_all_push(p, s.take(j), c);
                    lemma_until_prefix(s, ch, j);
                }
                pos.read(c);
                if c == ch {
                    proof { lemma_until_prefix(s, ch, j); }
                    return true;
                }
                proof { j = j + 1; }
            },
            None => {
                proof {
                    lemma_until_prefix(s, ch, j);
                    assert(j == s.len());
                    assert(s.take(j) == s);
                }
                return false;
            },
        }
    }
}

/// A character is in a sequence with one more at the end if it is in the
/// sequence or is the one added.
proof fn lemma_contains_push(t: Seq<char>, x: char, c: char)
    ensures t.push(x).contains(c) == (t.contains(c) || x == c),
{
    if t.contains(c) {
        let w = choose|w: int| 0 <= w < t.len() && #[trigger] t[w] == c;
        assert(t.push(x)[w] == c);
    }
    if x == c {
        assert(t.push(x)[t.len() as int] == c);
    }
    if t.push(x).contains(c) && x != c {
        let w = choose|w: int| 0 <= w < t.push(x).len() && #[trigger] t.push(x)[w] == c;
        assert(t[w] == c);
    }
}

/// Read the rest of a number whose first character `c` was taken already.
fn read_number(c: char, pos: &mut SourcePos, reader: &mut ReadIter) -> (r: Result<Datum, ParseError<SourcePos>>)
    requires fits(*old(pos), old(reader).rest().len() as int),
    ensures
        fits(*final(pos), final(reader).rest().len() as int),
        ({
        let (p1, s1, res) = number_spec(c, *old(pos), old(reader).rest());
        &&& *final(pos) == p1
        &&& final(reader).rest() == s1
        &&& match res {
            Ok(v) => r matches Ok(d) && d.model() == (SDatum { value: v, source: None }),
            Err(e) => r == Err::<Datum, ParseError<SourcePos>>(e),
        }
    }),
{
    let ghost s = reader.rest();
    let ghost p = *pos;
    let ghost f = num_pred();
    let ghost mut j: int = 0;
    let mut float = false;
    let mut text: Vec<char> = Vec::new();
    text.push(c);
    proof { assert(s.take(0) == Seq::<char>::empty()); assert(s.skip(0) == s); }
    loop
        invariant
            0 <= j <= s.len(),
            reader.rest() == s.skip(j),
            *pos == read_all(p, s.take(j)),
            forall|i: int| 0 <= i < j ==> #[trigger] f(s[i]),
            fits(*pos, reader.rest().len() as int),
            f == num_pred(),
            s == old(reader).rest(),
            p == *old(pos),
            text@ == seq![c] + s.take(j),
            float == s.take(j).contains('.'),
        ensures j == prefix_len(s, f),
        decreases s.len() - j,
    {
        match reader.next() {
            Some(x) => {
                proof { lemma_take_push(s, j); lemma_read_all_push(p, s.take(j), x); }
                if x == '.' || is_numeric(x) {
                    pos.read(x);
                    text.push(x);
                    if x == '.' {
                        float = true;
                    }
                    proof {
                        assert(text@ =~= seq![c] + s.take(j + 1));
                        lemma_contains_push(s.take(j), x, '.');
                        j = j + 1;
                    }
                } else {
                    reader.push_back(x);
                    proof {
                        assert(seq![x] + s.skip(j + 1) =~= s.skip(j));
                        assert(x == s[j]);
                        assert(!f(s[j]));
                        lemma_prefix_stop(s, f, j);
                    }
                    break;
                }
            },
            None => {
                proof { lemma_prefix_stop(s, f, j); }
                break;
            },
        }
    }
    if float {
        if is_float_syntax(&text) {
            let t = crate::text::string_of(&text);
            Ok(Datum::new(Val::Float(t)))
        } else {
            Err(ParseError::BadFloat(pos.copy()))
        }
    } else {
        match parse_i64(&text) {
            Ok(v) => Ok(Datum::new(Val::Int(v))),
            Err(e) => Err(ParseError::BadInteger(pos.copy(), e)),
        }
    }
}


/// Whether a character ends a word: whitespace, a bracket, a quote or a
/// semicolon.
fn atomic_end(c: char) -> (r: bool)
    ensures r == atomic_end_spec(c),
{
    if is_whitespace(c) {
        true
    } else {
        c == '(' || c == ')' || c == '[' || c == ']' || c == '"' || c == ';'
    }
}

/// Read the rest of a word whose first character `c` was taken already.
fn read_symbol(c: char, pos: &mut SourcePos, reader: &mut ReadIter) -> (r: Datum)
    requires fits(*old(pos), old(reader).rest().len() as int),
    ensures
        fits(*final(pos), final(reader).rest().len() as int),
        ({
        let (p1, s1, t) = symbol_spec(c, *old(pos), old(reader).rest());
        &&& *final(pos) == p1
        &&& final(reader).rest() == s1
        &&& r.model() == (SDatum { value: SVal::Symbol(t), source: None })
    }),
{
    let mut text: Vec<char> = Vec::new();
    text.push(c);
    if c == '\'' || c == ':' {
        let t = crate::text::string_of(&text);
        return Datum::new(Val::Symbol(t));
    }
    let ghost s = reader.rest();
    let ghost p = *pos;
    let ghost f = sym_pred();
    let ghost mut j: int = 0;
    proof { assert(s.take(0) == Seq::<char>::empty()); assert(s.skip(0) == s); }
    loop
        invariant
            0 <= j <= s.len(),
            reader.rest() == s.skip(j),
            *pos == read_all(p, s.take(j)),
            forall|i: int| 0 <= i < j ==> #[trigger] f(s[i]),
            fits(*pos, reader.rest().len() as int),
            f == sym_pred(),
            s == old(reader).rest(),
            p == *old(pos),
            text@ == seq![c] + s.take(j),
        ensures j == prefix_len(s, f),
        decreases s.len() - j,
    {
        match reader.next() {
            Some(x) => {
                proof { lemma_take_push(s, j); lemma_read_all_push(p, s.take(j), x); }
                if atomic_end(x) {
                    reader.push_back(x);
                    proof {
                        assert(seq![x] + s.skip(j + 1) =~= s.skip(j));
                        assert(x == s[j]);
                        assert(!f(s[j]));
                        lemma_prefix_stop(s, f, j);
                    }
                    break;
                } else {
                    pos.read(x);
                    text.push(x);
                    proof {
                        assert(text@ =~= seq![c] + s.take(j + 1));
                        j = j + 1;
                    }
                }
            },
            None => {
                proof { lemma_prefix_stop(s, f, j); }
                break;
            },
        }
    }
    let t = crate::text::string_of(&text);
    Datum::new(Val::Symbol(t))
}

/// Read an atom: a number if it starts with a numeral, else a word.
fn read_atom(pos: &mut SourcePos, reader: &mut ReadIter) -> (r: Result<Option<Datum>, ParseError<SourcePos>>)
    requires fits(*old(pos), old(reader).rest().len() as int),
    ensures
        fits(*final(pos), final(reader).rest().len() as int),
        ({
        let (p1, s1, res) = atom_spec(*old(pos), old(reader).rest());
        &&& *final(pos) == p1
        &&& final(reader).rest() == s1
        &&& match res {
            Ok(Some(v)) => r matches Ok(Some(d)) && d.model() == (SDatum { value: v, source: None }),
            Ok(None) => r matches Ok(None),
            Err(e) => r == Err::<Option<Datum>, ParseError<SourcePos>>(e),
        }
    }),
{
    match reader.next() {
        Some(c) => {
            if is_numeric(c) {
                match read_number(c, pos, reader) {
                    Ok(d) => Ok(Some(d)),
                    Err(e) => Err(e),
                }
            } else {
                Ok(Some(read_symbol(c, pos, reader)))
            }
        },
        None => Ok(None),
    }
}

/// Read the rest of a block comment; whether it was closed.
fn read_block_comment_inner(pos: &mut SourcePos, reader: &mut ReadIter) -> (r: bool)
    requires fits(*old(pos), old(reader).rest().len() as int),
    ensures
        fits(*final(pos), final(reader).rest().len() as int),
        (*final(pos), final(reader).rest(), r) == comment_spec(*old(pos), old(reader).rest()),
{
    loop
        invariant
            comment_spec(*old(pos), old(reader).rest()) == comment_spec(*pos, reader.rest()),
            fits(*pos, reader.rest().len() as int),
        decreases reader.rest().len(),
    {
        match reader.next() {
            Some(c) => {
                pos.read(c);
                if c == '!' {
                    if reader.peek(0) == Some('#') {
                        reader.next();
                        pos.read('#');
                        return true;
                    }
                }
            },
            None => {
                return false;
            },
        }
    }
}

/// The value of a hexadecimal digit.
fn hex_digit(c: char) -> (r: Option<u8>)
    ensures
        hex_val(c) is None ==> r is None,
        hex_val(c) matches Some(v) ==> r == Some(v as u8),
{
    if '0' <= c && c <= '9' {
        Some(((c as u32) - ('0' as u32)) as u8)
    } else if 'a' <= c && c <= 'f' {
        Some(((c as u32) - ('a' as u32) + 10) as u8)
    } else if 'A' <= c && c <= 'F' {
        Some(((c as u32) - ('A' as u32) + 10) as u8)
    } else {
        None
    }
}

/// Where the next two characters are hexadecimal digits: the character
/// with that code, and the two digits.
fn hex_pair(reader: &ReadIter) -> (r: Option<(char, char, char)>)
    ensures
        starts_hex2(reader.rest()) ==> r == Some((hex2_char(reader.rest()[0], reader.rest()[1]),
            reader.rest()[0], reader.rest()[1])),
        !starts_hex2(reader.rest()) ==> r is None,
{
    let hi = match reader.peek(0) { Some(c) => c, None => { return None; } };
    let lo = match reader.peek(1) { Some(c) => c, None => { return None; } };
    match (hex_digit(hi), hex_digit(lo)) {
        (Some(h), Some(l)) => Some((((h * 16 + l) as u8) as char, hi, lo)),
        _ => None,
    }
}

/// Read the rest of a string into `acc`; whether it was closed.
fn read_string_inner(acc: &mut String, pos: &mut SourcePos, reader: &mut ReadIter) -> (r: bool)
    requires fits(*old(pos), old(reader).rest().len() as int),
    ensures
        fits(*final(pos), final(reader).rest().len() as int),
        ({
        let (p1, s1, ok, t) = string_spec(*old(pos), old(reader).rest());
        &&& *final(pos) == p1
        &&& final(reader).rest() == s1
        &&& r == ok
        &&& final(acc)@ == old(acc)@ + t
    }),
{
    loop
        invariant
            ({
                let (p0, s0, ok0, t0) = string_spec(*old(pos), old(reader).rest());
                let (p1, s1, ok1, t1) = string_spec(*pos, reader.rest());
                p0 == p1 && s0 == s1 && ok0 == ok1 && old(acc)@ + t0 == acc@ + t1
            }),
            fits(*pos, reader.rest().len() as int),
        decreases reader.rest().len(),
    {
        let ghost s = reader.rest();
        let ghost a = acc@;
        match reader.next() {
            Some(c) => {
                pos.read(c);
                if c == '"' {
                    proof { assert(a + Seq::<char>::empty() == a); }
                    return true;
                } else if c == '\\' {
                    match reader.next() {
                        Some(esc) => {
                            pos.read(esc);
                            let hex = if esc == 'x' { hex_pair(reader) } else { None };
                            match hex {
                                Some((ch, hi, lo)) => {
                                    let ghost s2 = reader.rest();
                                    reader.next();
                                    reader.next();
                                    pos.read(hi);
                                    pos.read(lo);
                                    push_char(acc, ch);
                                    proof {
                                        assert(reader.rest() == s2.skip(2));
                                        let t = string_spec(*pos, reader.rest()).3;
                                        assert(a + (seq![ch] + t) == acc@ + t);
                                    }
                                },
                                None => {
                                    if esc == 'n' {
                                        push_char(acc, '\n');
                                    } else {
                                        push_char(acc, esc);
                                    }
                                    proof {
                                        let t = string_spec(*pos, reader.rest()).3;
                                        assert(a + (seq![if esc == 'n' { '\n' } else { esc }] + t) == acc@ + t);
                                    }
                                },
                            }
                        },
                        None => {
                            proof { assert(a + Seq::<char>::empty() == a); }
                            return false;
                        },
                    }
                } else {
                    push_char(acc, c);
                    proof {
                        let t = string_spec(*pos, reader.rest()).3;
                        assert(a + (seq![c] + t) == acc@ + t);
                    }
                }
            },
            None => {
                proof { assert(a + Seq::<char>::empty() == a); }
                return false;
            },
        }
    }
}


/// What the next piece of input is.
enum ReadCmd {
    StartList,
    EndList,
    StartString,
    StartBlockComment,
    Atom(Datum),
}

impl ReadCmd {
    /// The model of this piece.
    spec fn model(&self) -> SCmd {
        match self {
            ReadCmd::StartList => SCmd::StartList,
            ReadCmd::EndList => SCmd::EndList,
            ReadCmd::StartString => SCmd::StartString,
            ReadCmd::StartBlockComment => SCmd::StartBlockComment,
            ReadCmd::Atom(d) => SCmd::Atom(d.value.model()),
        }
    }
}

/// The symbol `#`, or `#` followed by `c`.
fn hash_symbol(c: Option<char>) -> (r: Datum)
    ensures
        r.model() == (SDatum {
            value: SVal::Symbol(match c { Some(x) => seq!['#', x], None => seq!['#'] }),
            source: None,
        }),
{
    let mut cs: Vec<char> = Vec::new();
    cs.push('#');
    match c {
        Some(x) => { cs.push(x); },
        None => {},
    }
    proof {
        match c {
            Some(x) => { assert(cs@ =~= seq!['#', x]); },
            None => { assert(cs@ =~= seq!['#']); },
        }
    }
    Datum::new(Val::Symbol(crate::text::string_of(&cs)))
}

/// Read the next piece of input, skipping whitespace and line comments.
fn read_cmd(pos: &mut SourcePos, reader: &mut ReadIter) -> (r: Result<Option<(SourcePos, ReadCmd)>, ParseError<SourcePos>>)
    requires fits(*old(pos), old(reader).rest().len() as int),
    ensures
        fits(*final(pos), final(reader).rest().len() as int),
        ({
            let (p1, s1, res) = cmd_spec(*old(pos), old(reader).rest());
            &&& *final(pos) == p1
            &&& final(reader).rest() == s1
            &&& match res {
                Ok(Some((st, c))) => r matches Ok(Some((st2, c2))) && st2 == st && c2.model() == c,
                Ok(None) => r matches Ok(None),
                Err(e) => r == Err::<Option<(SourcePos, ReadCmd)>, ParseError<SourcePos>>(e),
            }
        }),
{
    loop
        invariant
            cmd_spec(*old(pos), old(reader).rest()) == cmd_spec(*pos, reader.rest()),
            fits(*pos, reader.rest().len() as int),
        decreases reader.rest().len(),
    {
        let ghost s = reader.rest();
        let ghost p = *pos;
        proof { lemma_prefix_len(s, ws_pred()); }
        discard_whitespace(pos, reader);
        let ghost s0 = reader.rest();
        let ghost p0 = *pos;
        match reader.next() {
            Some(c) => {
                let ghost s1 = reader.rest();
                if c == ';' {
                    pos.read(';');
                    proof { lemma_until_len(s1, '\n'); }
                    discard_until(pos, reader, '\n');
                } else if c == '[' {
                    let st = pos.copy();
                    pos.read(c);
                    return Ok(Some((st, ReadCmd::StartList)));
                } else if c == ']' {
                    let st = pos.copy();
                    pos.read(c);
                    return Ok(Some((st, ReadCmd::EndList)));
                } else if c == '"' {
                    let st = pos.copy();
                    pos.read(c);
                    return Ok(Some((st, ReadCmd::StartString)));
                } else if c == '#' {
                    let st = pos.copy();
                    match reader.next() {
                        Some(x) => {
                            if x == '!' {
                                pos.read('!');
                                return Ok(Some((st, ReadCmd::StartBlockComment)));
                            } else if is_numeric(x) || is_alphabetic(x) || atomic_end(x) {
                                reader.push_back(x);
                                proof { assert(seq![x] + s1.drop_first() =~= s1); }
                                return Ok(Some((st, ReadCmd::Atom(hash_symbol(None)))));
                            } else {
                                let d = hash_symbol(Some(x));
                                return Ok(Some((st, ReadCmd::Atom(d))));
                            }
                        },
                        None => {
                            return Ok(Some((st, ReadCmd::Atom(hash_symbol(None)))));
                        },
                    }
                } else {
                    let st = pos.copy();
                    reader.push_back(c);
                    proof { assert(seq![c] + s1 =~= s0); }
                    match read_atom(pos, reader) {
                        Ok(Some(atom)) => { return Ok(Some((st, ReadCmd::Atom(atom)))); },
                        Ok(None) => { return Ok(None); },
                        Err(e) => { return Err(e); },
                    }
                }
            },
            None => {
                return Ok(None);
            },
        }
    }
}

/// The model of the lists open so far.
spec fn nest_model(n: Seq<(Vec<Val>, SourcePos)>) -> Seq<(Seq<SVal>, SourcePos)> {
    n.map_values(|e: (Vec<Val>, SourcePos)| (crate::data::models(e.0@), e.1))
}

/// Hand a finished value to the innermost open list, or, if none is
/// open, give it back as the value read, started at `start`.
fn emit(nesting: &mut Vec<(Vec<Val>, SourcePos)>, start: SourcePos, v: Val) -> (r: Option<(SourcePos, Datum)>)
    ensures
        nest_model(old(nesting)@).len() == 0 ==> (r matches Some((st, d)) && st == start
            && d.model() == (SDatum { value: v.model(), source: None }) && final(nesting)@ == old(nesting)@),
        nest_model(old(nesting)@).len() > 0 ==> (r is None
            && nest_model(final(nesting)@) == add_to_top(nest_model(old(nesting)@), v.model())),
{
    let ghost n0 = nesting@;
    match nesting.pop() {
        None => Some((start, Datum::new(v))),
        Some((data, st)) => {
            let mut data = data;
            let ghost d0 = data@;
            data.push(v);
            proof { crate::data::lemma_models_push(d0, v); }
            nesting.push((data, st));
            proof {
                assert(nest_model(nesting@) =~= add_to_top(nest_model(n0), v.model()));
            }
            None
        },
    }
}

/// Read one top-level value; the position given with it is where it
/// started.
fn read_toplevel_datum(pos: &mut SourcePos, reader: &mut ReadIter)
    -> (r: Result<Option<(SourcePos, Datum)>, ParseError<SourcePos>>)
    requires fits(*old(pos), old(reader).rest().len() as int),
    ensures
        fits(*final(pos), final(reader).rest().len() as int),
        ({
            let (p1, s1, res) = toplevel_spec(*old(pos), old(reader).rest(), Seq::empty());
            &&& *final(pos) == p1
            &&& final(reader).rest() == s1
            &&& match res {
                Ok(Some((st, v))) => r matches Ok(Some((st2, d))) && st2 == st
                    && d.model() == (SDatum { value: v, source: None }),
                Ok(None) => r matches Ok(None),
                Err(e) => r == Err::<Option<(SourcePos, Datum)>, ParseError<SourcePos>>(e),
            }
        }),
{
    let mut nesting: Vec<(Vec<Val>, SourcePos)> = Vec::new();
    proof { assert(nest_model(nesting@) =~= Seq::<(Seq<SVal>, SourcePos)>::empty()); }
    loop
        invariant
            toplevel_spec(*old(pos), old(reader).rest(), Seq::empty())
                == toplevel_spec(*pos, reader.rest(), nest_model(nesting@)),
            fits(*pos, reader.rest().len() as int),
        decreases reader.rest().len(),
    {
        let ghost s = reader.rest();
        let ghost p = *pos;
        let ghost n = nest_model(nesting@);
        proof { lemma_cmd_len(p, s); }
        let cmd = read_cmd(pos, reader);
        match cmd {
            Err(e) => { return Err(e); },
            Ok(None) => {
                let ghost n0 = nesting@;
                match nesting.pop() {
                    Some((_, st)) => {
                        proof { assert(n.last().1 == n0.last().1); }
                        return Err(ParseError::UnbalancedOpenList(st));
                    },
                    None => { return Ok(None); },
                }
            },
            Ok(Some((start, c))) => {
                match c {
                    ReadCmd::StartList => {
                        nesting.push((Vec::new(), start));
                        proof {
                            crate::data::lemma_models_empty(Seq::<Val>::empty());
                            assert(nest_model(nesting@) =~= n.push((Seq::<SVal>::empty(), start)));
                        }
                    },
                    ReadCmd::EndList => {
                        let ghost n0 = nesting@;
                        match nesting.pop() {
                            None => { return Err(ParseError::UnbalancedCloseList(start)); },
                            Some((data, st)) => {
                                proof { assert(nest_model(nesting@) =~= n.drop_last()); }
                                let v = Val::List(List::from_vec(data));
                                match emit(&mut nesting, st, v) {
                                    Some(out) => { return Ok(Some(out)); },
                                    None => {},
                                }
                            },
                        }
                    },
                    ReadCmd::StartString => {
                        let mut text = String::new();
                        let ghost p1 = *pos;
                        let ghost s1 = reader.rest();
                        proof { lemma_string_len(p1, s1); }
                        let ok = read_string_inner(&mut text, pos, reader);
                        proof { assert(Seq::<char>::empty() + string_spec(p1, s1).3 == string_spec(p1, s1).3); }
                        if ok {
                            match emit(&mut nesting, start, Val::Str(text)) {
                                Some(out) => { return Ok(Some(out)); },
                                None => {},
                            }
                        } else {
                            return Err(ParseError::UnbalancedString(start));
                        }
                    },
                    ReadCmd::StartBlockComment => {
                        let st = pos.copy();
                        let ghost p1 = *pos;
                        let ghost s1 = reader.rest();
                        proof { lemma_comment_len(p1, s1); }
                        if !read_block_comment_inner(pos, reader) {
                            return Err(ParseError::UnbalancedComment(st));
                        }
                    },
                    ReadCmd::Atom(d) => {
                        match emit(&mut nesting, start, d.value) {
                            Some(out) => { return Ok(Some(out)); },
                            None => {},
                        }
                    },
                }
            },
        }
    }
}


/// A stretch of a file: where it starts and ends.
pub struct Source {
    pub file: Option<String>,
    pub start: SourcePos,
    pub end: SourcePos,
}

/// A copy of an optional string.
fn copy_name(f: &Option<String>) -> (r: Option<String>)
    ensures r == *f,
{
    match f {
        Some(s) => Some(s.clone()),
        None => None,
    }
}

impl Source {
    /// The start of an unnamed file.
    pub fn new() -> (r: Source)
        ensures r == (Source { file: None, start: SourcePos { line: 1, col: 1 }, end: SourcePos { line: 1, col: 1 } }),
    {
        Source { file: None, start: SourcePos::new(), end: SourcePos::new() }
    }

    /// The same stretch, in the file `f`.
    pub fn with_file(self, f: Option<String>) -> (r: Source)
        ensures r == (Source { file: f, ..self }),
    {
        let mut s = self;
        s.file = f;
        s
    }

    /// The single position `pos`, in no file.
    pub fn from_pos(pos: SourcePos) -> (r: Source)
        ensures r == (Source { file: None, start: pos, end: pos }),
    {
        Source { file: None, start: pos.copy(), end: pos }
    }

    /// How this source reads in messages.
    pub open spec fn describe_spec(&self) -> Seq<char> {
        let file = match self.file {
            Some(f) => "file '"@ + f@ + "', "@,
            None => Seq::empty(),
        };
        file + if self.start.line == self.end.line {
            "line "@ + decimal_text(self.start.line as nat) + ", "@ + if self.start.col == self.end.col {
                "column "@ + decimal_text(self.start.col as nat)
            } else {
                "cols "@ + decimal_text(self.start.col as nat) + "-"@ + decimal_text(self.end.col as nat)
            }
        } else {
            decimal_text(self.start.line as nat) + ":"@ + decimal_text(self.start.col as nat) + " - "@
                + decimal_text(self.end.line as nat) + ":"@ + decimal_text(self.end.col as nat)
        }
    }

    /// How this source reads in messages, e.g. `line 3, column 4`.
    pub fn describe(&self) -> (r: String)
        ensures r@ == self.describe_spec(),
    {
        let mut s = String::new();
        match self.file {
            Some(ref f) => {
                push_str(&mut s, "file '");
                push_str(&mut s, f.as_str());
                push_str(&mut s, "', ");
            },
            None => {},
        }
        let ghost pre = s@;
        if self.start.line == self.end.line {
            push_str(&mut s, "line ");
            push_decimal(&mut s, self.start.line);
            push_str(&mut s, ", ");
            let ghost mid = s@;
            if self.start.col == self.end.col {
                push_str(&mut s, "column ");
                push_decimal(&mut s, self.start.col);
                assert(s@ == mid + ("column "@ + decimal_text(self.start.col as nat)));
            } else {
                push_str(&mut s, "cols ");
                push_decimal(&mut s, self.start.col);
                push_str(&mut s, "-");
                push_decimal(&mut s, self.end.col);
                assert(s@ == mid + ("cols "@ + decimal_text(self.start.col as nat) + "-"@
                    + decimal_text(self.end.col as nat)));
            }
            assert(mid == pre + ("line "@ + decimal_text(self.start.line as nat) + ", "@));
        } else {
            push_decimal(&mut s, self.start.line);
            push_str(&mut s, ":");
            push_decimal(&mut s, self.start.col);
            push_str(&mut s, " - ");
            push_decimal(&mut s, self.end.line);
            push_str(&mut s, ":");
            push_decimal(&mut s, self.end.col);
            assert(s@ == pre + (decimal_text(self.start.line as nat) + ":"@ + decimal_text(self.start.col as nat)
                + " - "@ + decimal_text(self.end.line as nat) + ":"@ + decimal_text(self.end.col as nat)));
        }
        s
    }
}

/// An error at a position, placed in the file `file`.
pub open spec fn located(e: ParseError<SourcePos>, file: Option<String>) -> ParseError<Source> {
    let at = |p: SourcePos| Source { file, start: p, end: p };
    match e {
        ParseError::UnbalancedOpenList(p) => ParseError::UnbalancedOpenList(at(p)),
        ParseError::UnbalancedCloseList(p) => ParseError::UnbalancedCloseList(at(p)),
        ParseError::UnbalancedComment(p) => ParseError::UnbalancedComment(at(p)),
        ParseError::UnbalancedString(p) => ParseError::UnbalancedString(at(p)),
        ParseError::BadInteger(p, k) => ParseError::BadInteger(at(p), k),
        ParseError::BadFloat(p) => ParseError::BadFloat(at(p)),
    }
}

/// Place an error at a position in the file `file`.
fn locate(e: ParseError<SourcePos>, file: &Option<String>) -> (r: ParseError<Source>)
    ensures r == located(e, *file),
{
    match e {
        ParseError::UnbalancedOpenList(p) => ParseError::UnbalancedOpenList(Source::from_pos(p).with_file(copy_name(file))),
        ParseError::UnbalancedCloseList(p) => ParseError::UnbalancedCloseList(Source::from_pos(p).with_file(copy_name(file))),
        ParseError::UnbalancedComment(p) => ParseError::UnbalancedComment(Source::from_pos(p).with_file(copy_name(file))),
        ParseError::UnbalancedString(p) => ParseError::UnbalancedString(Source::from_pos(p).with_file(copy_name(file))),
        ParseError::BadInteger(p, k) => ParseError::BadInteger(Source::from_pos(p).with_file(copy_name(file)), k),
        ParseError::BadFloat(p) => ParseError::BadFloat(Source::from_pos(p).with_file(copy_name(file))),
    }
}

/// How an integer error reads in messages.
pub open spec fn int_error_text(k: IntError) -> Seq<char> {
    match k {
        IntError::Invalid => "invalid digit found in string"@,
        IntError::Overflow => "number too large to fit in target type"@,
    }
}

impl ParseError<Source> {
    /// The message for this error.
    pub open spec fn message_spec(&self) -> Seq<char> {
        "Parse error: "@ + match self {
            ParseError::UnbalancedOpenList(p) => "Unbalanced [ at "@ + p.describe_spec(),
            ParseError::UnbalancedCloseList(p) => "Unbalanced ] at "@ + p.describe_spec(),
            ParseError::UnbalancedComment(p) => "Unclosed open comment at "@ + p.describe_spec(),
            ParseError::UnbalancedString(p) => "Unclosed string at "@ + p.describe_spec(),
            ParseError::BadInteger(p, k) => "Couldn't parse integer at "@ + p.describe_spec() + " ("@
                + int_error_text(*k) + ")"@,
            ParseError::BadFloat(p) => "Couldn't parse number at "@ + p.describe_spec() + " (invalid float literal)"@,
        }
    }

    /// The message for this error, e.g. `Parse error: Unclosed string at line 1, column 1`.
    pub fn message(&self) -> (r: String)
        ensures r@ == self.message_spec(),
    {
        let mut s = String::new();
        push_str(&mut s, "Parse error: ");
        let ghost pre = s@;
        match self {
            ParseError::UnbalancedOpenList(p) => {
                push_str(&mut s, "Unbalanced [ at ");
                push_str(&mut s, p.describe().as_str());
            },
            ParseError::UnbalancedCloseList(p) => {
                push_str(&mut s, "Unbalanced ] at ");
                push_str(&mut s, p.describe().as_str());
            },
            ParseError::UnbalancedComment(p) => {
                push_str(&mut s, "Unclosed open comment at ");
                push_str(&mut s, p.describe().as_str());
            },
            ParseError::UnbalancedString(p) => {
                push_str(&mut s, "Unclosed string at ");
                push_str(&mut s, p.describe().as_str());
            },
            ParseError::BadInteger(p, k) => {
                push_str(&mut s, "Couldn't parse integer at ");
                push_str(&mut s, p.describe().as_str());
                push_str(&mut s, " (");
                match k {
                    IntError::Invalid => push_str(&mut s, "invalid digit found in string"),
                    IntError::Overflow => push_str(&mut s, "number too large to fit in target type"),
                }
                push_str(&mut s, ")");
            },
            ParseError::BadFloat(p) => {
                push_str(&mut s, "Couldn't parse number at ");
                push_str(&mut s, p.describe().as_str());
                push_str(&mut s, " (invalid float literal)");
            },
        }
        s
    }
}

/// A reader of top-level values from source text.
pub struct Parser {
    reader: ReadIter,
    file: Option<String>,
    pos: SourcePos,
}

impl Parser {
    /// The text still to be read.
    pub closed spec fn remaining(&self) -> Seq<char> {
        self.reader.rest()
    }

    /// Where reading has got to.
    pub closed spec fn position(&self) -> SourcePos {
        self.pos
    }

    /// The file being read, if named.
    pub closed spec fn file_name(&self) -> Option<String> {
        self.file
    }

    /// A parser over `src`, at line 1, column 1, in no named file.
    pub fn new(src: &str) -> (r: Parser)
        ensures
            r.remaining() == src@,
            r.position() == (SourcePos { line: 1, col: 1 }),
            r.file_name() is None,
    {
        let reader = ReadIter::new(src);
        let pos = SourcePos::new();
        Parser { reader, pos, file: None }
    }

    /// The same parser, reading the file `file`.
    pub fn with_file(self, file: String) -> (r: Parser)
        ensures
            r.remaining() == self.remaining(),
            r.position() == self.position(),
            r.file_name() == Some(file),
    {
        let mut p = self;
        p.file = Some(file);
        p
    }

    /// Read the next top-level value, `None` at the end of the text.
    pub fn next(&mut self) -> (r: Result<Option<Datum>, ParseError<Source>>)
        requires fits(old(self).position(), old(self).remaining().len() as int),
        ensures
            fits(final(self).position(), final(self).remaining().len() as int),
            final(self).file_name() == old(self).file_name(),
            ({
                let (p1, s1, res) = toplevel_spec(old(self).position(), old(self).remaining(), Seq::empty());
                &&& final(self).position() == p1
                &&& final(self).remaining() == s1
                &&& match res {
                    Ok(Some((_, v))) => r matches Ok(Some(d)) && d.model() == (SDatum { value: v, source: None }),
                    Ok(None) => r matches Ok(None),
                    Err(e) => r == Err::<Option<Datum>, ParseError<Source>>(located(e, old(self).file_name())),
                }
            }),
    {
        match read_toplevel_datum(&mut self.pos, &mut self.reader) {
            Ok(Some((_start, datum))) => Ok(Some(datum)),
            Ok(None) => Ok(None),
            Err(e) => Err(locate(e, &self.file)),
        }
    }
}

} // verus!
