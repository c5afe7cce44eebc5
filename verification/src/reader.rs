//! A [Reader] eats text and produces values, one character at a time.
//!
//! The reader is a state machine: [step_spec] says what one character does
//! to it, and [run_spec] what a whole piece of text does. Reading may be
//! split into chunks at any point ([law_read_in_chunks]).

use vstd::prelude::*;
use crate::data::{Val, SVal, models, lemma_models_push, lemma_models_empty};
use crate::list::List;
use crate::numeric::{int_syntax, int_value, float_syntax, parse_i64, is_float_syntax, IntError};
use crate::text::{char_whitespace, is_whitespace, push_char, chars_of};

verus! {

// ---------------------------------------------------------------------
// The model

/// What the reader is in the middle of.
pub enum SState {
    Space,
    Comment,
    Hash,
    Atom(Seq<char>),
    Str(Seq<char>, bool),
}

/// A list that has been opened but not yet closed.
pub struct SList {
    pub begin: char,
    pub end: char,
    pub data: Seq<SVal>,
}

/// The model of a [Reader].
pub struct SReader {
    pub lists: Seq<SList>,
    pub state: SState,
}

/// The model of a [ReadError].
pub enum SReadError {
    UnclosedString,
    UnmatchedHash,
    UnknownHash(char),
    UnmatchedList(char),
    UnparseableNumber(Seq<char>),
}

/// The outcome of reading some text: the reader afterwards, the values
/// produced at top level, and the error that stopped reading, if any.
pub struct SStep {
    pub reader: SReader,
    pub out: Seq<SVal>,
    pub err: Option<SReadError>,
}

/// A reader with nothing read.
pub open spec fn initial_reader() -> SReader {
    SReader { lists: Seq::empty(), state: SState::Space }
}

/// `r` with its state replaced.
pub open spec fn with_state(r: SReader, st: SState) -> SReader {
    SReader { lists: r.lists, state: st }
}

/// Hand a finished value to the innermost open list, or out if none is open.
pub open spec fn emit_spec(r: SReader, v: SVal) -> (SReader, Seq<SVal>) {
    if r.lists.len() > 0 {
        let k = r.lists.len() - 1;
        let ls = r.lists[k];
        (SReader { lists: r.lists.update(k, SList { begin: ls.begin, end: ls.end, data: ls.data.push(v) }), state: r.state },
         Seq::empty())
    } else {
        (r, seq![v])
    }
}

/// The value of an atom: an integer, a float, or otherwise a symbol.
/// Integer text that does not fit in 64 bits is an error.
pub open spec fn atom_value(a: Seq<char>) -> Result<SVal, SReadError> {
    if int_syntax(a) {
        if i64::MIN <= int_value(a) <= i64::MAX {
            Ok(SVal::Int(int_value(a)))
        } else {
            Err(SReadError::UnparseableNumber(a))
        }
    } else if float_syntax(a) {
        Ok(SVal::Float(a))
    } else {
        Ok(SVal::Symbol(a))
    }
}

/// Close the innermost list with character `c`.
pub open spec fn end_list_spec(r: SReader, c: char) -> (SReader, Result<Seq<SVal>, SReadError>) {
    if r.lists.len() > 0 {
        let ls = r.lists.last();
        let r2 = SReader { lists: r.lists.drop_last(), state: r.state };
        if c == ls.end {
            (r2, Ok(ls.data))
        } else {
            (r2, Err(SReadError::UnmatchedList(ls.begin)))
        }
    } else {
        (r, Err(SReadError::UnmatchedList(c)))
    }
}

/// Open a list delimited by `begin` and `end`.
pub open spec fn start_list_spec(r: SReader, begin: char, end: char) -> SReader {
    SReader { lists: r.lists.push(SList { begin, end, data: Seq::empty() }), state: r.state }
}

/// What a character that starts something does, including emitting a
/// list that it closes.
pub open spec fn char_state_spec(r: SReader, c: char) -> SStep {
    if c == ';' {
        SStep { reader: with_state(r, SState::Comment), out: Seq::empty(), err: None }
    } else if c == '"' {
        SStep { reader: with_state(r, SState::Str(Seq::empty(), false)), out: Seq::empty(), err: None }
    } else if c == '#' {
        SStep { reader: with_state(r, SState::Hash), out: Seq::empty(), err: None }
    } else if c == '(' {
        SStep { reader: start_list_spec(r, '(', ')'), out: Seq::empty(), err: None }
    } else if c == '[' {
        SStep { reader: start_list_spec(r, '[', ']'), out: Seq::empty(), err: None }
    } else if c == '{' {
        SStep { reader: start_list_spec(r, '{', '}'), out: Seq::empty(), err: None }
    } else if c == ')' || c == ']' || c == '}' {
        let (r2, l) = end_list_spec(r, c);
        match l {
            Ok(data) => {
                let (r3, o) = emit_spec(r2, SVal::List(data, None));
                SStep { reader: r3, out: o, err: None }
            },
            Err(e) => SStep { reader: r2, out: Seq::empty(), err: Some(e) },
        }
    } else {
        SStep { reader: with_state(r, SState::Atom(seq![c])), out: Seq::empty(), err: None }
    }
}

/// A character that ends an atom and then starts something else.
pub open spec fn atom_delimiter(c: char) -> bool {
    c == ';' || c == '"' || c == '(' || c == ')' || c == '[' || c == ']' || c == '{' || c == '}'
}

/// The character that a string escape `\c` stands for.
pub open spec fn escape_spec(c: char) -> char {
    if c == 'e' {
        '\u{1b}'
    } else if c == 'n' {
        '\n'
    } else if c == 'r' {
        '\r'
    } else if c == 't' {
        '\t'
    } else {
        c
    }
}

/// Finish an atom `a` (the reader is already back in the space state).
pub open spec fn finish_atom(r: SReader, a: Seq<char>) -> SStep {
    match atom_value(a) {
        Ok(v) => {
            let (r1, o) = emit_spec(r, v);
            SStep { reader: r1, out: o, err: None }
        },
        Err(e) => SStep { reader: r, out: Seq::empty(), err: Some(e) },
    }
}

/// What reading one character does.
pub open spec fn step_spec(r: SReader, c: char) -> SStep {
    match r.state {
        SState::Space => {
            if char_whitespace(c) {
                SStep { reader: r, out: Seq::empty(), err: None }
            } else {
                char_state_spec(r, c)
            }
        },
        SState::Comment => {
            if c == '\n' {
                SStep { reader: with_state(r, SState::Space), out: Seq::empty(), err: None }
            } else {
                SStep { reader: r, out: Seq::empty(), err: None }
            }
        },
        SState::Hash => {
            if c == '!' {
                SStep { reader: with_state(r, SState::Comment), out: Seq::empty(), err: None }
            } else if c == 't' || c == 'f' {
                let (r1, o) = emit_spec(r, SVal::Bool(c == 't'));
                SStep { reader: with_state(r1, SState::Space), out: o, err: None }
            } else {
                SStep { reader: r, out: Seq::empty(), err: Some(SReadError::UnknownHash(c)) }
            }
        },
        SState::Atom(a) => {
            if atom_delimiter(c) {
                let s1 = finish_atom(with_state(r, SState::Space), a);
                if s1.err is Some {
                    s1
                } else {
                    let s2 = char_state_spec(s1.reader, c);
                    SStep { reader: s2.reader, out: s1.out + s2.out, err: s2.err }
                }
            } else if char_whitespace(c) {
                finish_atom(with_state(r, SState::Space), a)
            } else {
                SStep { reader: with_state(r, SState::Atom(a.push(c))), out: Seq::empty(), err: None }
            }
        },
        SState::Str(buf, escaping) => {
            if escaping {
                SStep { reader: with_state(r, SState::Str(buf.push(escape_spec(c)), false)), out: Seq::empty(), err: None }
            } else if c == '"' {
                let (r1, o) = emit_spec(r, SVal::Str(buf));
                SStep { reader: with_state(r1, SState::Space), out: o, err: None }
            } else if c == '\\' {
                SStep { reader: with_state(r, SState::Str(buf, true)), out: Seq::empty(), err: None }
            } else {
                SStep { reader: with_state(r, SState::Str(buf.push(c), false)), out: Seq::empty(), err: None }
            }
        },
    }
}

/// What reading a sequence of characters does: one step at a time,
/// stopping at the first error.
pub open spec fn run_spec(r: SReader, cs: Seq<char>) -> SStep
    decreases cs.len(),
{
    if cs.len() == 0 {
        SStep { reader: r, out: Seq::empty(), err: None }
    } else {
        let s1 = step_spec(r, cs[0]);
        if s1.err is Some {
            s1
        } else {
            let s2 = run_spec(s1.reader, cs.drop_first());
            SStep { reader: s2.reader, out: s1.out + s2.out, err: s2.err }
        }
    }
}

/// What [Reader::complete] gives for a reader at the end of the input.
pub open spec fn complete_spec(r: SReader) -> Result<Option<SVal>, SReadError> {
    if r.lists.len() > 0 {
        Err(SReadError::UnmatchedList(r.lists.last().begin))
    } else {
        match r.state {
            SState::Space => Ok(None),
            SState::Comment => Ok(None),
            SState::Hash => Err(SReadError::UnmatchedHash),
            SState::Atom(a) => match atom_value(a) {
                Ok(v) => Ok(Some(v)),
                Err(e) => Err(e),
            },
            SState::Str(_, _) => Err(SReadError::UnclosedString),
        }
    }
}

/// What [read_all] gives for a whole text.
pub open spec fn read_all_spec(cs: Seq<char>) -> Result<Seq<SVal>, SReadError> {
    let s = run_spec(initial_reader(), cs);
    match s.err {
        Some(e) => Err(e),
        None => match complete_spec(s.reader) {
            Err(e) => Err(e),
            Ok(None) => Ok(s.out),
            Ok(Some(v)) => Ok(s.out.push(v)),
        },
    }
}

// ---------------------------------------------------------------------
// Laws

/// A delimiter that ends an atom still acts as that delimiter: in the
/// middle of an atom, reading a delimiter `c` does what reading a space
/// and then `c` does (the atom is finished, then `c` is read).
pub proof fn law_delimiter_after_atom(r: SReader, c: char)
    requires
        r.state is Atom,
        atom_delimiter(c),
    ensures
        run_spec(r, seq![c]) == run_spec(r, seq![' ', c]),
{
    let a = r.state->Atom_0;
    assert(char_whitespace(' '));
    assert(!char_whitespace(c));
    let s1 = step_spec(r, ' ');
    assert(s1 == finish_atom(with_state(r, SState::Space), a));
    assert(s1.reader.state == SState::Space);
    assert(seq![' ', c].drop_first() =~= seq![c]);
    assert(seq![c].drop_first() =~= Seq::<char>::empty());
    reveal_with_fuel(run_spec, 3);
    let f = s1;
    if f.err is None {
        let g = char_state_spec(f.reader, c);
        assert(step_spec(f.reader, c) == g);
        if g.err is None {
            assert((f.out + g.out) + Seq::<SVal>::empty() =~= f.out + (g.out + Seq::<SVal>::empty()));
        }
    }
}

/// Reading `a` and then `b` is the same as reading `a + b`: the reader
/// may be fed text in chunks split anywhere.
pub proof fn law_read_in_chunks(r: SReader, a: Seq<char>, b: Seq<char>)
    ensures
        run_spec(r, a + b) == ({
            let s1 = run_spec(r, a);
            if s1.err is Some {
                s1
            } else {
                let s2 = run_spec(s1.reader, b);
                SStep { reader: s2.reader, out: s1.out + s2.out, err: s2.err }
            }
        }),
    decreases a.len(),
{
    if a.len() == 0 {
        assert(a + b == b);
        let s2 = run_spec(r, b);
        assert(Seq::<SVal>::empty() + s2.out == s2.out);
    } else {
        let s1 = step_spec(r, a[0]);
        assert((a + b)[0] == a[0]);
        assert((a + b).drop_first() == a.drop_first() + b);
        if s1.err is None {
            law_read_in_chunks(s1.reader, a.drop_first(), b);
            let t = run_spec(s1.reader, a.drop_first());
            if t.err is None {
                let u = run_spec(t.reader, b);
                assert(s1.out + (t.out + u.out) == (s1.out + t.out) + u.out);
            }
        }
    }
}

/// Running one character more after a successful prefix.
proof fn lemma_run_snoc(r: SReader, a: Seq<char>, c: char)
    requires run_spec(r, a).err is None,
    ensures
        run_spec(r, a.push(c)) == ({
            let s1 = run_spec(r, a);
            let s2 = step_spec(s1.reader, c);
            SStep { reader: s2.reader, out: s1.out + s2.out, err: s2.err }
        }),
{
    law_read_in_chunks(r, a, seq![c]);
    assert(a + seq![c] == a.push(c));
    let s1 = run_spec(r, a);
    let s2 = step_spec(s1.reader, c);
    let one = seq![c];
    assert(one[0] == c);
    assert(one.drop_first() =~= Seq::<char>::empty());
    let t = run_spec(s1.reader, one);
    if s2.err is None {
        assert(s2.out + Seq::<SVal>::empty() == s2.out);
        assert(run_spec(s2.reader, one.drop_first()) == SStep { reader: s2.reader, out: Seq::<SVal>::empty(), err: None });
        assert(t == SStep { reader: s2.reader, out: s2.out, err: s2.err });
    } else {
        assert(t == s2);
    }
}

// ---------------------------------------------------------------------
// The executable reader

/// What the reader is in the middle of.
pub enum BasicState {
    /// Between values.
    Space,
    /// In a comment, until the end of the line.
    Comment,
    /// Just after `#`.
    Hash,
    /// In an atom (a number or a symbol).
    Atom(String),
    /// In a string.
    String { buf: String, escaping: bool },
}

impl BasicState {
    /// The model of this state.
    pub open spec fn model(&self) -> SState {
        match self {
            BasicState::Space => SState::Space,
            BasicState::Comment => SState::Comment,
            BasicState::Hash => SState::Hash,
            BasicState::Atom(a) => SState::Atom(a@),
            BasicState::String { buf, escaping } => SState::Str(buf@, *escaping),
        }
    }
}

/// A list that has been opened but not yet closed.
pub struct ListState {
    pub begin: char,
    pub end: char,
    pub data: Vec<Val>,
}

impl ListState {
    /// The model of this open list.
    pub open spec fn model(&self) -> SList {
        SList { begin: self.begin, end: self.end, data: models(self.data@) }
    }
}

/// The current state of reading some code.
pub struct Reader {
    lists: Vec<ListState>,
    state: BasicState,
}

/// Various ways reading could fail.
pub enum ReadError {
    /// An odd number of `"`
    UnclosedString,
    /// A `#` right at the end of input
    UnmatchedHash,
    /// A `#` followed by something unexpected
    UnknownHash(char),
    /// An unbalanced list delimiter
    UnmatchedList(char),
    /// A number that looked like it was but isn't
    UnparseableNumber(String),
}

impl ReadError {
    /// The model of this error.
    pub open spec fn model(&self) -> SReadError {
        match self {
            ReadError::UnclosedString => SReadError::UnclosedString,
            ReadError::UnmatchedHash => SReadError::UnmatchedHash,
            ReadError::UnknownHash(c) => SReadError::UnknownHash(*c),
            ReadError::UnmatchedList(c) => SReadError::UnmatchedList(*c),
            ReadError::UnparseableNumber(s) => SReadError::UnparseableNumber(s@),
        }
    }
}

impl Default for Reader {
    fn default() -> (r: Reader)
        ensures r.model() == initial_reader(),
    {
        let r = Reader { lists: Vec::new(), state: BasicState::Space };
        assert(r.model().lists =~= Seq::<SList>::empty());
        r
    }
}

/// Read an atom's text as a value.
fn parse_atom(s: String) -> (r: Result<Val, ReadError>)
    ensures
        match atom_value(s@) {
            Ok(v) => r matches Ok(x) && x.model() == v,
            Err(e) => r matches Err(x) && x.model() == e,
        },
{
    let cs = chars_of(s.as_str());
    match parse_i64(&cs) {
        Ok(v) => Ok(Val::Int(v)),
        Err(IntError::Overflow) => Err(ReadError::UnparseableNumber(s)),
        Err(IntError::Invalid) => {
            if is_float_syntax(&cs) {
                Ok(Val::Float(s))
            } else {
                Ok(Val::Symbol(s))
            }
        },
    }
}

impl Reader {
    /// The model of this reader.
    pub closed spec fn model(&self) -> SReader {
        SReader { lists: self.lists@.map_values(|l: ListState| l.model()), state: self.state.model() }
    }

    /// A reader with nothing read.
    pub fn new() -> (r: Reader)
        ensures r.model() == initial_reader(),
    {
        Reader::default()
    }

    /// Hand `v` to the innermost open list, or to `out`.
    fn emit(&mut self, v: Val, out: &mut Vec<Val>)
        ensures
            final(self).model() == emit_spec(old(self).model(), v.model()).0,
            models(final(out)@) == models(old(out)@) + emit_spec(old(self).model(), v.model()).1,
    {
        let ghost r = self.model();
        match self.lists.pop() {
            Some(ls) => {
                let mut ls = ls;
                let ghost d = ls.data@;
                ls.data.push(v);
                proof { lemma_models_push(d, v); }
                self.lists.push(ls);
                assert(self.model().lists =~= emit_spec(r, v.model()).0.lists);
                assert(models(old(out)@) + Seq::<SVal>::empty() == models(old(out)@));
            },
            None => {
                let ghost o = out@;
                out.push(v);
                proof { lemma_models_push(o, v); }
                assert(self.model().lists =~= r.lists);
                assert(models(o) + seq![v.model()] =~= models(o).push(v.model()));
            },
        }
    }

    /// Open a list.
    fn start_list(&mut self, begin: char, end: char)
        ensures final(self).model() == start_list_spec(old(self).model(), begin, end),
    {
        let ghost r = self.model();
        let v: Vec<Val> = Vec::new();
        proof { lemma_models_empty(v@); }
        self.lists.push(ListState { begin, end, data: v });
        assert(self.model().lists =~= start_list_spec(r, begin, end).lists);
    }

    /// Close the innermost list with `c`.
    fn end_list(&mut self, c: char) -> (res: Result<List, ReadError>)
        ensures
            final(self).model() == end_list_spec(old(self).model(), c).0,
            match end_list_spec(old(self).model(), c).1 {
                Ok(d) => res matches Ok(l) && l.model() == d && l.env is None,
                Err(e) => res matches Err(x) && x.model() == e,
            },
    {
        let ghost r = self.model();
        match self.lists.pop() {
            Some(ls) => {
                assert(self.model().lists =~= r.lists.drop_last());
                if c == ls.end {
                    Ok(List::from_vec(ls.data))
                } else {
                    Err(ReadError::UnmatchedList(ls.begin))
                }
            },
            None => Err(ReadError::UnmatchedList(c)),
        }
    }

    /// Set the state.
    fn set_state(&mut self, st: BasicState)
        ensures final(self).model() == with_state(old(self).model(), st.model()),
    {
        self.state = st;
    }

    /// React to a character that starts something, emitting a list that it
    /// closes.
    fn read_char_state(&mut self, c: char, acc: &mut Vec<Val>) -> (res: Result<(), ReadError>)
        ensures ({
            let s = char_state_spec(old(self).model(), c);
            &&& final(self).model() == s.reader
            &&& models(final(acc)@) == models(old(acc)@) + s.out
            &&& match s.err {
                None => res is Ok,
                Some(e) => res matches Err(x) && x.model() == e,
            }
        }),
    {
        let ghost a0 = models(acc@);
        if c == ';' {
            self.set_state(BasicState::Comment);
        } else if c == '"' {
            self.set_state(BasicState::String { buf: String::new(), escaping: false });
        } else if c == '#' {
            self.set_state(BasicState::Hash);
        } else if c == '(' {
            self.start_list('(', ')');
        } else if c == '[' {
            self.start_list('[', ']');
        } else if c == '{' {
            self.start_list('{', '}');
        } else if c == ')' || c == ']' || c == '}' {
            match self.end_list(c) {
                Ok(l) => {
                    self.emit(Val::List(l), acc);
                    return Ok(());
                },
                Err(e) => {
                    return Err(e);
                },
            }
        } else {
            let mut a = String::new();
            push_char(&mut a, c);
            assert(a@ == seq![c]);
            self.set_state(BasicState::Atom(a));
        }
        assert(a0 + Seq::<SVal>::empty() == a0);
        Ok(())
    }

    /// Finish the atom `a`; the state is already back to space.
    fn finish_atom(&mut self, a: String, acc: &mut Vec<Val>) -> (res: Result<(), ReadError>)
        ensures ({
            let s = finish_atom(old(self).model(), a@);
            &&& final(self).model() == s.reader
            &&& models(final(acc)@) == models(old(acc)@) + s.out
            &&& match s.err {
                None => res is Ok,
                Some(e) => res matches Err(x) && x.model() == e,
            }
        }),
    {
        let ghost a0 = models(acc@);
        match parse_atom(a) {
            Ok(v) => {
                self.emit(v, acc);
                Ok(())
            },
            Err(e) => {
                assert(a0 + Seq::<SVal>::empty() == a0);
                Err(e)
            },
        }
    }

    /// Read one character.
    fn step(&mut self, c: char, acc: &mut Vec<Val>) -> (res: Result<(), ReadError>)
        ensures ({
            let s = step_spec(old(self).model(), c);
            &&& final(self).model() == s.reader
            &&& models(final(acc)@) == models(old(acc)@) + s.out
            &&& match s.err {
                None => res is Ok,
                Some(e) => res matches Err(x) && x.model() == e,
            }
        }),
    {
        let ghost r = self.model();
        let ghost a0 = models(acc@);
        proof { assert(a0 + Seq::<SVal>::empty() == a0); }
        let mut st = BasicState::Space;
        std::mem::swap(&mut st, &mut self.state);
        match st {
            BasicState::Space => {
                if is_whitespace(c) {
                    self.state = BasicState::Space;
                    assert(self.model() == r);
                    Ok(())
                } else {
                    assert(self.model() == r);
                    self.read_char_state(c, acc)
                }
            },
            BasicState::Comment => {
                if c == '\n' {
                    assert(self.model() == with_state(r, SState::Space));
                } else {
                    self.state = BasicState::Comment;
                    assert(self.model() == r);
                }
                Ok(())
            },
            BasicState::Hash => {
                if c == '!' {
                    self.state = BasicState::Comment;
                    Ok(())
                } else if c == 't' || c == 'f' {
                    self.state = BasicState::Hash;
                    assert(self.model() == r);
                    self.emit(Val::Bool(c == 't'), acc);
                    self.set_state(BasicState::Space);
                    Ok(())
                } else {
                    self.state = BasicState::Hash;
                    assert(self.model() == r);
                    Err(ReadError::UnknownHash(c))
                }
            },
            BasicState::Atom(a) => {
                if c == ';' || c == '"' || c == '(' || c == ')' || c == '[' || c == ']' || c == '{' || c == '}' {
                    let ghost r0 = self.model();
                    assert(r0 == with_state(r, SState::Space));
                    let ghost m0 = models(acc@);
                    match self.finish_atom(a, acc) {
                        Ok(()) => {
                            let ghost m1 = models(acc@);
                            let res = self.read_char_state(c, acc);
                            proof {
                                let s1 = finish_atom(r0, a@);
                                let s2 = char_state_spec(s1.reader, c);
                                assert(models(acc@) == m0 + s1.out + s2.out);
                                assert(m0 + s1.out + s2.out == m0 + (s1.out + s2.out));
                            }
                            res
                        },
                        Err(e) => Err(e),
                    }
                } else if is_whitespace(c) {
                    assert(self.model() == with_state(r, SState::Space));
                    self.finish_atom(a, acc)
                } else {
                    let mut a = a;
                    push_char(&mut a, c);
                    self.state = BasicState::Atom(a);
                    Ok(())
                }
            },
            BasicState::String { buf, escaping } => {
                let mut buf = buf;
                if escaping {
                    let e = if c == 'e' {
                        '\u{1b}'
                    } else if c == 'n' {
                        '\n'
                    } else if c == 'r' {
                        '\r'
                    } else if c == 't' {
                        '\t'
                    } else {
                        c
                    };
                    push_char(&mut buf, e);
                    self.state = BasicState::String { buf, escaping: false };
                    Ok(())
                } else if c == '"' {
                    self.state = BasicState::String { buf: String::new(), escaping: false };
                    let ghost rr = self.model();
                    self.emit(Val::Str(buf), acc);
                    self.set_state(BasicState::Space);
                    assert(emit_spec(rr, SVal::Str(buf@)).1 == emit_spec(r, SVal::Str(buf@)).1);
                    assert(self.model() == with_state(emit_spec(r, SVal::Str(buf@)).0, SState::Space));
                    Ok(())
                } else if c == '\\' {
                    self.state = BasicState::String { buf, escaping: true };
                    Ok(())
                } else {
                    push_char(&mut buf, c);
                    self.state = BasicState::String { buf, escaping: false };
                    Ok(())
                }
            },
        }
    }

    /// Read some code using this reader into the given accumulator vector.
    /// This may be a partial chunk of code; use [Reader::complete] to wrap up
    /// at the end.
    pub fn read_into(&mut self, s: &str, acc: &mut Vec<Val>) -> (res: Result<(), ReadError>)
        ensures ({
            let run = run_spec(old(self).model(), s@);
            &&& final(self).model() == run.reader
            &&& models(final(acc)@) == models(old(acc)@) + run.out
            &&& match run.err {
                None => res is Ok,
                Some(e) => res matches Err(x) && x.model() == e,
            }
        }),
    {
        let ghost r0 = self.model();
        let ghost a0 = models(acc@);
        let cs = chars_of(s);
        let n = cs.len();
        let mut i: usize = 0;
        proof {
            assert(cs@.take(0) == Seq::<char>::empty());
            assert(a0 + Seq::<SVal>::empty() == a0);
        }
        while i < n
            invariant
                n == cs@.len(),
                cs@ == s@,
                r0 == old(self).model(),
                a0 == models(old(acc)@),
                i <= n,
                run_spec(r0, cs@.take(i as int)).err is None,
                self.model() == run_spec(r0, cs@.take(i as int)).reader,
                models(acc@) == a0 + run_spec(r0, cs@.take(i as int)).out,
            decreases n - i,
        {
            let c = cs[i];
            let ghost pre = run_spec(r0, cs@.take(i as int));
            let ghost m = models(acc@);
            let res = self.step(c, acc);
            proof {
                lemma_run_snoc(r0, cs@.take(i as int), c);
                assert(cs@.take(i as int).push(c) == cs@.take(i + 1));
                assert(a0 + pre.out + step_spec(pre.reader, c).out == a0 + (pre.out + step_spec(pre.reader, c).out));
            }
            match res {
                Ok(()) => {},
                Err(e) => {
                    proof {
                        law_read_in_chunks(r0, cs@.take(i + 1), cs@.skip(i + 1));
                        assert(cs@.take(i + 1) + cs@.skip(i + 1) == cs@);
                        assert(run_spec(r0, s@) == run_spec(r0, cs@.take(i + 1)));

                    }
                    return Err(e);
                },
            }
            i += 1;
        }
        proof { assert(cs@.take(n as int) == cs@); }
        Ok(())
    }

    /// There is no more code to read, but the reader may still be halfway
    /// through a list, or perhaps there's an atom or number at the very end.
    pub fn complete(self) -> (res: Result<Option<Val>, ReadError>)
        ensures
            match complete_spec(self.model()) {
                Ok(None) => res matches Ok(None),
                Ok(Some(v)) => res matches Ok(Some(x)) && x.model() == v,
                Err(e) => res matches Err(x) && x.model() == e,
            },
    {
        let mut me = self;
        let ghost r = me.model();
        if let Some(ls) = me.lists.pop() {
            return Err(ReadError::UnmatchedList(ls.begin));
        }
        match me.state {
            BasicState::Space => Ok(None),
            BasicState::Comment => Ok(None),
            BasicState::Hash => Err(ReadError::UnmatchedHash),
            BasicState::Atom(a) => match parse_atom(a) {
                Ok(v) => Ok(Some(v)),
                Err(e) => Err(e),
            },
            BasicState::String { .. } => Err(ReadError::UnclosedString),
        }
    }
}

/// Read an entire piece of text as values using the default reader.
pub fn read_all(src: &str) -> (res: Result<Vec<Val>, ReadError>)
    ensures
        match read_all_spec(src@) {
            Ok(vs) => res matches Ok(v) && models(v@) == vs,
            Err(e) => res matches Err(x) && x.model() == e,
        },
{
    let mut reader = Reader::default();
    let mut acc: Vec<Val> = Vec::new();
    proof { lemma_models_empty(acc@); }
    match reader.read_into(src, &mut acc) {
        Ok(()) => {},
        Err(e) => return Err(e),
    }
    proof { assert(Seq::<SVal>::empty() + run_spec(initial_reader(), src@).out == run_spec(initial_reader(), src@).out); }
    match reader.complete() {
        Ok(Some(v)) => {
            let ghost a = acc@;
            acc.push(v);
            proof { lemma_models_push(a, v); }
            Ok(acc)
        },
        Ok(None) => Ok(acc),
        Err(e) => Err(e),
    }
}

} // verus!
