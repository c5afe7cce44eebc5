//! A parser driven by user-definable rules.
//!
//! The parser keeps a queue of input characters and a queue of tokens.
//! For each character, the first rule of the [Reader] that accepts the
//! current state and the character runs its instructions, which start,
//! extend, tag and finish tokens. Finished tokens come out of
//! [Parser::read_next] in order.

pub mod data;
pub mod reader;
pub mod token;

use vstd::prelude::*;
use std::collections::VecDeque;
use crate::data::{Val, SVal, Datum, SDatum, Symbol, models, models_rev};
use crate::list::List;
use crate::numeric::{int_syntax, int_value, float_syntax, parse_i64, is_float_syntax};
use crate::parser_ext::error::ParseError;
use crate::text::{chars_of, push_char};
use self::data::Source;
use self::reader::{Reader, ReaderArm, ReaderCommand, ReaderInstruction, first_match};
use self::token::{Token, TokenType, UnparsedToken, SToken, SUnparsed, opt_chars};

verus! {

/// The part of a parser's model that rules act on.
pub struct SCore {
    pub pos: Source,
    pub state: Symbol,
    pub tokens: Seq<SToken>,
}

/// The model of a [Parser].
pub struct SParser {
    pub core: SCore,
    pub input: Seq<char>,
    pub eof: bool,
}

/// The core with its tokens replaced.
pub open spec fn with_tokens(p: SCore, t: Seq<SToken>) -> SCore {
    SCore { pos: p.pos, state: p.state, tokens: t }
}

/// The core with the token in progress finished.
pub open spec fn ended(p: SCore) -> SCore {
    SCore { pos: Source { end: None, ..p.pos }, state: p.state, tokens: p.tokens }
}

/// The value of a rational token's text, if it is a number.
pub open spec fn rational_value(s: Seq<char>) -> Option<SVal> {
    if int_syntax(s) {
        if i64::MIN <= int_value(s) <= i64::MAX { Some(SVal::Int(int_value(s))) } else { None }
    } else if float_syntax(s) {
        Some(SVal::Float(s))
    } else {
        None
    }
}

/// The position of the last unfinished token.
pub open spec fn last_unparsed(t: Seq<SToken>) -> Option<int>
    decreases t.len(),
{
    if t.len() == 0 {
        None
    } else if t.last() is Unparsed {
        Some(t.len() - 1)
    } else {
        last_unparsed(t.drop_last())
    }
}

/// The values of finished tokens.
pub open spec fn parsed_values(t: Seq<SToken>) -> Seq<SVal> {
    t.map_values(|x: SToken| match x {
        SToken::Parsed(d) => d.value,
        SToken::Unparsed(_) => SVal::Bool(false),
    })
}

/// Close the innermost open list with an end-list token tagged `tag`.
pub open spec fn close_list_spec(p: SCore, tag: Option<Seq<char>>) -> (SCore, Option<ParseError>) {
    match last_unparsed(p.tokens) {
        None => (with_tokens(p, Seq::empty()), Some(ParseError::unfinished_or_unmatched(p.pos, false))),
        Some(k) => {
            let u = p.tokens[k]->Unparsed_0;
            if u.ty != Some(TokenType::StartList) || tag != u.tag {
                (with_tokens(p, p.tokens.take(k)), Some(ParseError::unfinished_or_unmatched(p.pos, true)))
            } else {
                let items = parsed_values(p.tokens.skip(k + 1));
                let d = SDatum { value: SVal::List(items, None), source: Some(p.pos) };
                (ended(with_tokens(p, p.tokens.take(k).push(SToken::Parsed(d)))), None)
            }
        },
    }
}

/// What finishing the token `tok` does.
pub open spec fn finish_token_spec(p: SCore, tok: SUnparsed) -> (SCore, Option<ParseError>) {
    match tok.ty {
        None => (p, Some(ParseError { reason: crate::parser_ext::error::ParseErrorReason::NoTokenType, source: p.pos })),
        Some(TokenType::Symbol) => {
            let d = SDatum { value: SVal::Symbol(tok.value), source: Some(p.pos) };
            (ended(with_tokens(p, p.tokens.push(SToken::Parsed(d)))), None)
        },
        Some(TokenType::String) => {
            let d = SDatum { value: SVal::Str(tok.value), source: Some(p.pos) };
            (ended(with_tokens(p, p.tokens.push(SToken::Parsed(d)))), None)
        },
        Some(TokenType::Rational) => match rational_value(tok.value) {
            Some(v) => {
                let d = SDatum { value: v, source: Some(p.pos) };
                (ended(with_tokens(p, p.tokens.push(SToken::Parsed(d)))), None)
            },
            None => (p, Some(ParseError { reason: crate::parser_ext::error::ParseErrorReason::InvalidFormat, source: p.pos })),
        },
        Some(TokenType::StartList) => (ended(with_tokens(p, p.tokens.push(SToken::Unparsed(tok)))), None),
        Some(TokenType::EndList) => close_list_spec(p, tok.tag),
    }
}

/// Change the token in progress, or fail if there is none (dropping a
/// finished token found instead).
pub open spec fn edit_token_spec(p: SCore, f: spec_fn(SUnparsed) -> SUnparsed) -> (SCore, Option<ParseError>) {
    if p.tokens.len() > 0 && p.tokens.last() is Unparsed {
        let u = p.tokens.last()->Unparsed_0;
        (with_tokens(p, p.tokens.update(p.tokens.len() - 1, SToken::Unparsed(f(u)))), None)
    } else {
        (with_tokens(p, if p.tokens.len() > 0 { p.tokens.drop_last() } else { p.tokens }),
         Some(ParseError { reason: crate::parser_ext::error::ParseErrorReason::TokenNotInProgress, source: p.pos }))
    }
}

/// What one instruction does, given the current input character.
pub open spec fn execute_spec(p: SCore, i: ReaderInstruction, c: Option<char>) -> (SCore, Option<ParseError>) {
    match i.command {
        ReaderCommand::SetState(s) => (SCore { pos: p.pos, state: s, tokens: p.tokens }, None),
        ReaderCommand::StartToken => {
            let t = SToken::Unparsed(SUnparsed { ty: None, tag: None, value: Seq::empty() });
            (SCore { pos: Source { end: Some(p.pos.start), ..p.pos }, state: p.state, tokens: p.tokens.push(t) }, None)
        },
        ReaderCommand::SetTokenTag(tag) => edit_token_spec(p, |u: SUnparsed| SUnparsed { tag: Some(tag@), ..u }),
        ReaderCommand::SetTokenType(ty) => edit_token_spec(p, |u: SUnparsed| SUnparsed { ty: Some(ty), ..u }),
        ReaderCommand::AppendToken => {
            if p.tokens.len() > 0 && p.tokens.last() is Unparsed {
                match c {
                    Some(ch) => edit_token_spec(p, |u: SUnparsed| SUnparsed { value: u.value.push(ch), ..u }),
                    None => (with_tokens(p, p.tokens.drop_last()),
                        Some(ParseError { reason: crate::parser_ext::error::ParseErrorReason::AppendingEof, source: p.pos })),
                }
            } else {
                edit_token_spec(p, |u: SUnparsed| u)
            }
        },
        ReaderCommand::FinishToken => {
            if p.tokens.len() > 0 && p.tokens.last() is Unparsed {
                finish_token_spec(with_tokens(p, p.tokens.drop_last()), p.tokens.last()->Unparsed_0)
            } else {
                (p, None)
            }
        },
        ReaderCommand::PrependDatum(d) => (with_tokens(p, p.tokens.push(SToken::Parsed(d.model()))), None),
    }
}

/// Run instructions in order, stopping at the first error.
pub open spec fn run_instrs(p: SCore, is: Seq<ReaderInstruction>, c: Option<char>) -> (SCore, Option<ParseError>)
    decreases is.len(),
{
    if is.len() == 0 {
        (p, None)
    } else {
        let (p1, e) = execute_spec(p, is[0], c);
        if e is Some {
            (p1, e)
        } else {
            run_instrs(p1, is.drop_first(), c)
        }
    }
}

/// Where reading `c` leaves a source.
pub open spec fn source_read(s: Source, c: char) -> Source {
    match s.end {
        Some(e) => Source { end: Some(self::data::advanced(e, c)), ..s },
        None => Source { start: self::data::advanced(s.start, c), ..s },
    }
}

/// What consuming one input (a character, or the end of input) does.
pub open spec fn consume_spec(p: SCore, reader: Reader, c: Option<char>) -> (SCore, Option<ParseError>) {
    match first_match(reader.rules@, p.state, c) {
        None => (p, Some(ParseError { reason: crate::parser_ext::error::ParseErrorReason::NoMatchingState, source: p.pos })),
        Some(k) => {
            let (p1, e) = run_instrs(p, reader.rules@[k].instructions@, c);
            if e is Some {
                (p1, e)
            } else {
                match c {
                    Some(cc) => (SCore { pos: source_read(p1.pos, cc), ..p1 }, None),
                    None => (p1, None),
                }
            }
        },
    }
}

/// Take the first token if it is finished.
pub open spec fn next_parsed_spec(p: SCore) -> (SCore, Option<SDatum>) {
    if p.tokens.len() > 0 && p.tokens[0] is Parsed {
        (with_tokens(p, p.tokens.drop_first()), Some(p.tokens[0]->Parsed_0))
    } else {
        (p, None)
    }
}

/// What [Parser::read_next] does: feed input until a datum is finished,
/// the input runs out, or an error occurs.
pub open spec fn read_next_spec(p: SCore, input: Seq<char>, eof: bool, reader: Reader)
    -> (SCore, Seq<char>, Result<Option<SDatum>, ParseError>)
    decreases input.len(),
{
    let (q, d) = next_parsed_spec(p);
    if d is Some {
        (q, input, Ok(d))
    } else if input.len() > 0 {
        let (p1, e) = consume_spec(p, reader, Some(input[0]));
        match e {
            Some(err) => (p1, input.drop_first(), Err(err)),
            None => read_next_spec(p1, input.drop_first(), eof, reader),
        }
    } else if eof {
        let (p1, e) = consume_spec(p, reader, None);
        match e {
            Some(err) => (p1, input, Err(err)),
            None => if p1.tokens.len() > 0 && p1.tokens[0] is Unparsed {
                (p1, input, Err(ParseError { reason: crate::parser_ext::error::ParseErrorReason::UnparsedToken, source: p1.pos }))
            } else {
                let (q1, d1) = next_parsed_spec(p1);
                (q1, input, Ok(d1))
            },
        }
    } else {
        (p, input, Ok(None))
    }
}

/// The tags of unfinished tokens, in order.
pub open spec fn unfinished_tags(t: Seq<SToken>) -> Seq<Seq<char>>
    decreases t.len(),
{
    if t.len() == 0 {
        Seq::empty()
    } else {
        let rest = unfinished_tags(t.drop_last());
        match t.last() {
            SToken::Unparsed(u) => match u.tag {
                Some(g) => rest.push(g),
                None => rest,
            },
            SToken::Parsed(_) => rest,
        }
    }
}

/// A parser: where it is, what state it is in, its tokens and its
/// pending input.
pub struct Parser {
    pos: Source,
    state: Symbol,
    tokens: VecDeque<Token>,
    input: VecDeque<char>,
    eof: bool,
}

impl ParseError {
    /// The error for a list end that found no start (`false`) or the
    /// wrong start (`true`).
    pub open spec fn unfinished_or_unmatched(source: Source, unfinished: bool) -> ParseError {
        ParseError {
            reason: if unfinished {
                crate::parser_ext::error::ParseErrorReason::UnfinishedToken
            } else {
                crate::parser_ext::error::ParseErrorReason::UnmatchedListEnd
            },
            source,
        }
    }
}

/// The models of tokens.
pub open spec fn token_models(t: Seq<Token>) -> Seq<SToken> {
    t.map_values(|x: Token| x.model())
}

impl Parser {
    /// The model of this parser.
    pub closed spec fn model(&self) -> SParser {
        SParser {
            core: SCore { pos: self.pos, state: self.state, tokens: token_models(self.tokens@) },
            input: self.input@,
            eof: self.eof,
        }
    }

    /// A parser at `pos`, in the reader's initial state, with nothing read.
    pub fn new(pos: Source, reader: &Reader) -> (r: Parser)
        ensures
            r.model().core.pos == pos,
            r.model().core.state@ == reader.init_state@,
            r.model().core.tokens.len() == 0,
            r.model().input.len() == 0,
            !r.model().eof,
    {
        Parser {
            pos,
            state: reader.init_state().clone(),
            tokens: VecDeque::new(),
            input: VecDeque::new(),
            eof: false,
        }
    }
}


/// The error part of a step's outcome.
pub open spec fn err_of(r: Result<(), ParseError>) -> Option<ParseError> {
    match r {
        Ok(_) => None,
        Err(e) => Some(e),
    }
}

/// The model of what [Parser::read_next] returns.
pub open spec fn next_model(r: Result<Option<Datum>, ParseError>) -> Result<Option<SDatum>, ParseError> {
    match r {
        Ok(Some(d)) => Ok(Some(d.model())),
        Ok(None) => Ok(None),
        Err(e) => Err(e),
    }
}

proof fn lemma_tokens_push(t: Seq<Token>, x: Token)
    ensures token_models(t.push(x)) == token_models(t).push(x.model()),
{
    assert(token_models(t.push(x)) =~= token_models(t).push(x.model()));
}

proof fn lemma_tokens_pop(t: Seq<Token>)
    requires t.len() > 0,
    ensures
        token_models(t.subrange(0, t.len() - 1)) == token_models(t).drop_last(),
        token_models(t).last() == t.last().model(),
{
    assert(token_models(t.subrange(0, t.len() - 1)) =~= token_models(t).drop_last());
}

proof fn lemma_tokens_pop_front(t: Seq<Token>)
    requires t.len() > 0,
    ensures
        token_models(t.subrange(1, t.len() as int)) == token_models(t).drop_first(),
        token_models(t)[0] == t[0].model(),
{
    assert(token_models(t.subrange(1, t.len() as int)) =~= token_models(t).drop_first());
}

/// Past the last unfinished token, looking back from further on finds
/// the same one.
proof fn lemma_last_unparsed_take(t: Seq<SToken>, n: int)
    requires
        0 <= n <= t.len(),
        forall|j: int| n <= j < t.len() ==> (#[trigger] t[j]) is Parsed,
    ensures last_unparsed(t) == last_unparsed(t.take(n)),
    decreases t.len() - n,
{
    if n < t.len() {
        assert(t.drop_last().take(n) == t.take(n));
        lemma_last_unparsed_take(t.drop_last(), n);
    } else {
        assert(t.take(n) == t);
    }
}

/// Where a last unfinished token is found, it is unfinished.
proof fn lemma_last_unparsed_is(t: Seq<SToken>)
    ensures
        last_unparsed(t) matches Some(k) ==> 0 <= k < t.len() && t[k] is Unparsed
            && forall|j: int| k < j < t.len() ==> (#[trigger] t[j]) is Parsed,
        last_unparsed(t) is None ==> forall|j: int| 0 <= j < t.len() ==> (#[trigger] t[j]) is Parsed,
    decreases t.len(),
{
    if t.len() > 0 {
        let u = t.drop_last();
        lemma_last_unparsed_is(u);
        assert forall|j: int| 0 <= j < u.len() implies t[j] == #[trigger] u[j] by {}
        if t.last() is Unparsed {
            assert(last_unparsed(t) == Some(t.len() - 1));
        } else {
            assert(last_unparsed(t) == last_unparsed(u));
            match last_unparsed(u) {
                Some(k) => {
                    assert forall|j: int| k < j < t.len() implies (#[trigger] t[j]) is Parsed by {
                        if j < u.len() { assert(u[j] is Parsed); }
                    }
                },
                None => {
                    assert forall|j: int| 0 <= j < t.len() implies (#[trigger] t[j]) is Parsed by {
                        if j < u.len() { assert(u[j] is Parsed); }
                    }
                },
            }
        }
    }
}

/// Read a rational token's text as a number.
fn parse_rational(s: &String) -> (r: Option<Val>)
    ensures
        match rational_value(s@) {
            Some(v) => r matches Some(x) && x.model() == v,
            None => r is None,
        },
{
    let cs = chars_of(s.as_str());
    match parse_i64(&cs) {
        Ok(v) => Some(Val::Int(v)),
        Err(crate::numeric::IntError::Overflow) => None,
        Err(crate::numeric::IntError::Invalid) => {
            if is_float_syntax(&cs) {
                Some(Val::Float(s.clone()))
            } else {
                None
            }
        },
    }
}

/// Whether two optional tags are the same.
fn same_tag(a: &Option<String>, b: &Option<String>) -> (r: bool)
    ensures r == (opt_chars(*a) == opt_chars(*b)),
{
    match (a, b) {
        (Some(x), Some(y)) => *x == *y,
        (None, None) => true,
        _ => false,
    }
}

impl Parser {
    /// The part of the model that rules act on.
    spec fn score(&self) -> SCore {
        SCore { pos: self.pos, state: self.state, tokens: token_models(self.tokens@) }
    }

    /// Whether the first token is finished, if there is one.
    fn is_next_parsed(&self) -> (r: Option<bool>)
        ensures
            self.tokens@.len() > 0 ==> r == Some(self.score().tokens[0] is Parsed),
            self.tokens@.len() == 0 ==> r is None,
    {
        if self.tokens.len() > 0 {
            Some(self.tokens[0].is_parsed())
        } else {
            None
        }
    }

    /// The tags of the tokens still being read, first to last.
    pub fn unfinished(&self) -> (r: Vec<&str>)
        ensures r@.map_values(|x: &str| x@) == unfinished_tags(self.model().core.tokens),
    {
        let mut out: Vec<&str> = Vec::new();
        let n = self.tokens.len();
        let mut i: usize = 0;
        while i < n
            invariant
                n == self.tokens@.len(),
                i <= n,
                out@.map_values(|x: &str| x@) == unfinished_tags(token_models(self.tokens@).take(i as int)),
            decreases n - i,
        {
            let ghost t = token_models(self.tokens@);
            proof {
                assert(t.take(i + 1).drop_last() == t.take(i as int));
                assert(t.take(i + 1).last() == self.tokens@[i as int].model());
            }
            match &self.tokens[i] {
                Token::Parsed(_) => {},
                Token::Unparsed(u) => {
                    match &u.tag {
                        Some(s) => {
                            let ghost before = out@;
                            out.push(s.as_str());
                            proof {
                                assert(out@.map_values(|x: &str| x@)
                                    =~= before.map_values(|x: &str| x@).push(s@));
                            }
                        },
                        None => {},
                    }
                },
            }
            i += 1;
        }
        proof { assert(token_models(self.tokens@).take(n as int) == token_models(self.tokens@)); }
        out
    }

    /// Take the first token if it is finished.
    fn next_parsed(&mut self) -> (r: Option<Datum>)
        ensures
            (final(self).score(), match r { Some(d) => Some(d.model()), None => None::<SDatum> })
                == next_parsed_spec(old(self).score()),
            final(self).input == old(self).input,
            final(self).eof == old(self).eof,
    {
        if self.tokens.len() > 0 && self.tokens[0].is_parsed() {
            let ghost t = self.tokens@;
            proof { lemma_tokens_pop_front(t); }
            match self.tokens.pop_front() {
                Some(Token::Parsed(d)) => Some(d),
                Some(x) => {
                    self.tokens.push_front(x);
                    proof { assert(self.tokens@ =~= t); }
                    None
                },
                None => None,
            }
        } else {
            None
        }
    }

    /// Whether all input has been read and every datum taken.
    pub fn is_eof(&self) -> (r: bool)
        ensures r == (self.model().eof && self.model().input.len() == 0 && self.model().core.tokens.len() == 0),
    {
        self.eof && self.input.len() == 0 && self.tokens.len() == 0
    }

    /// Say whether more input may come (`false`) or not (`true`).
    pub fn set_eof(&mut self, eof: bool)
        ensures final(self).model() == (SParser { eof, ..old(self).model() }),
    {
        self.eof = eof;
    }

    /// Queue the characters of `input`.
    pub fn push_input(&mut self, input: &str)
        ensures final(self).model() == (SParser { input: old(self).model().input + input@, ..old(self).model() }),
    {
        let cs = chars_of(input);
        let mut i: usize = 0;
        while i < cs.len()
            invariant
                i <= cs@.len(),
                cs@ == input@,
                self.score() == old(self).score(),
                self.eof == old(self).eof,
                self.input@ == old(self).input@ + cs@.take(i as int),
            decreases cs.len() - i,
        {
            self.input.push_back(cs[i]);
            proof { assert(cs@.take(i + 1) == cs@.take(i as int).push(cs@[i as int])); }
            i += 1;
        }
        proof { assert(cs@.take(cs@.len() as int) == cs@); }
    }

    /// Queue one character.
    pub fn read(&mut self, input: char)
        ensures final(self).model() == (SParser { input: old(self).model().input.push(input), ..old(self).model() }),
    {
        self.input.push_back(input);
    }

    /// The queued input, as a string.
    pub fn remaining_input(&self) -> (r: String)
        ensures r@ == self.model().input,
    {
        let mut s = String::new();
        let n = self.input.len();
        let mut i: usize = 0;
        while i < n
            invariant
                n == self.input@.len(),
                i <= n,
                s@ == self.input@.take(i as int),
            decreases n - i,
        {
            push_char(&mut s, self.input[i]);
            proof { assert(self.input@.take(i + 1) == self.input@.take(i as int).push(self.input@[i as int])); }
            i += 1;
        }
        proof { assert(self.input@.take(n as int) == self.input@); }
        s
    }
}


impl Parser {
    /// Close the innermost open list with an end-list token tagged `tag`.
    fn close_list(&mut self, tag: &Option<String>) -> (r: Result<(), ParseError>)
        ensures
            (final(self).score(), err_of(r)) == close_list_spec(old(self).score(), opt_chars(*tag)),
            final(self).input == old(self).input,
            final(self).eof == old(self).eof,
    {
        let ghost p0 = self.score();
        let mut elems: Vec<Val> = Vec::new();
        proof {
            assert(p0.tokens.take(p0.tokens.len() as int) == p0.tokens);
            assert(parsed_values(p0.tokens.skip(p0.tokens.len() as int)) =~= Seq::<SVal>::empty());
        }
        loop
            invariant
                self.pos == p0.pos,
                self.state == p0.state,
                self.input == old(self).input,
                self.eof == old(self).eof,
                p0 == old(self).score(),
                self.tokens@.len() <= p0.tokens.len(),
                token_models(self.tokens@) == p0.tokens.take(self.tokens@.len() as int),
                forall|j: int| self.tokens@.len() <= j < p0.tokens.len() ==> (#[trigger] p0.tokens[j]) is Parsed,
                models_rev(elems@) == parsed_values(p0.tokens.skip(self.tokens@.len() as int)),
            decreases self.tokens@.len(),
        {
            let ghost t = self.tokens@;
            let ghost n = t.len() as int;
            proof {
                lemma_last_unparsed_take(p0.tokens, n);
                if n > 0 {
                    lemma_tokens_pop(t);
                    assert(p0.tokens.take(n).drop_last() == p0.tokens.take(n - 1));
                }
            }
            match self.tokens.pop_back() {
                None => {
                    proof { assert(p0.tokens.take(0) =~= Seq::<SToken>::empty()); }
                    return Err(ParseError::unmatched_list_end(self.pos.copy()));
                },
                Some(Token::Parsed(d)) => {
                    let ghost before = elems@;
                    elems.push(d.value);
                    proof {
                        crate::data::lemma_models_rev_push(before, d.value);
                        assert(p0.tokens[n - 1] == SToken::Parsed(d.model()));
                        assert(p0.tokens.skip(n - 1) =~= seq![p0.tokens[n - 1]] + p0.tokens.skip(n));
                        assert(parsed_values(p0.tokens.skip(n - 1))
                            =~= seq![d.model().value] + parsed_values(p0.tokens.skip(n)));
                    }
                },
                Some(Token::Unparsed(u)) => {
                    proof {
                        assert(p0.tokens.take(n).last() is Unparsed);
                        assert(last_unparsed(p0.tokens.take(n)) == Some(n - 1));
                        assert(p0.tokens[n - 1] == SToken::Unparsed(u.model()));
                        assert(p0.tokens.skip(n) == p0.tokens.skip((n - 1) + 1));
                    }
                    let is_start = match u.ty {
                        Some(TokenType::StartList) => true,
                        _ => false,
                    };
                    if !is_start || !same_tag(tag, &u.tag) {
                        return Err(ParseError::unfinished_token(self.pos.copy()));
                    }
                    let d = Datum { value: Val::List(List { data: elems, env: None }), source: Some(self.pos.copy()) };
                    let ghost t1 = self.tokens@;
                    self.tokens.push_back(Token::Parsed(d));
                    proof { lemma_tokens_push(t1, Token::Parsed(d)); }
                    self.pos.set_ended();
                    return Ok(());
                },
            }
        }
    }

    /// Finish the token `tok`, which has been taken off the token queue.
    fn finish_token(&mut self, tok: UnparsedToken) -> (r: Result<(), ParseError>)
        ensures
            (final(self).score(), err_of(r)) == finish_token_spec(old(self).score(), tok.model()),
            final(self).input == old(self).input,
            final(self).eof == old(self).eof,
    {
        let ty = match tok.ty {
            Some(t) => t,
            None => { return Err(ParseError::no_token_type(self.pos.copy())); },
        };
        let ghost t0 = self.tokens@;
        match ty {
            TokenType::Symbol => {
                let d = Datum { value: Val::Symbol(tok.value), source: Some(self.pos.copy()) };
                self.tokens.push_back(Token::Parsed(d));
                proof { lemma_tokens_push(t0, Token::Parsed(d)); }
            },
            TokenType::String => {
                let d = Datum { value: Val::Str(tok.value), source: Some(self.pos.copy()) };
                self.tokens.push_back(Token::Parsed(d));
                proof { lemma_tokens_push(t0, Token::Parsed(d)); }
            },
            TokenType::Rational => {
                match parse_rational(&tok.value) {
                    Some(v) => {
                        let d = Datum { value: v, source: Some(self.pos.copy()) };
                        self.tokens.push_back(Token::Parsed(d));
                        proof { lemma_tokens_push(t0, Token::Parsed(d)); }
                    },
                    None => { return Err(ParseError::invalid_format(self.pos.copy())); },
                }
            },
            TokenType::StartList => {
                let ghost m = tok.model();
                self.tokens.push_back(Token::Unparsed(tok));
                proof { lemma_tokens_push(t0, Token::Unparsed(tok)); }
            },
            TokenType::EndList => {
                return self.close_list(&tok.tag);
            },
        }
        self.pos.set_ended();
        Ok(())
    }
}


/// Running instructions never moves a source further on.
proof fn lemma_execute_weight(p: SCore, i: ReaderInstruction, c: Option<char>)
    ensures execute_spec(p, i, c).0.pos.weight() <= p.pos.weight(),
{
}

/// Running instructions never moves a source further on.
proof fn lemma_run_instrs_weight(p: SCore, is: Seq<ReaderInstruction>, c: Option<char>)
    ensures run_instrs(p, is, c).0.pos.weight() <= p.pos.weight(),
    decreases is.len(),
{
    if is.len() > 0 {
        lemma_execute_weight(p, is[0], c);
        let (p1, e) = execute_spec(p, is[0], c);
        if e is None {
            lemma_run_instrs_weight(p1, is.drop_first(), c);
        }
    }
}

impl Parser {
    /// Pop the token in progress for editing, or fail.
    fn take_unparsed(&mut self) -> (r: Result<UnparsedToken, ParseError>)
        ensures
            match r {
                Ok(u) => {
                    &&& old(self).score().tokens.len() > 0
                    &&& old(self).score().tokens.last() == SToken::Unparsed(u.model())
                    &&& final(self).score() == with_tokens(old(self).score(), old(self).score().tokens.drop_last())
                },
                Err(e) => {
                    &&& !(old(self).score().tokens.len() > 0 && old(self).score().tokens.last() is Unparsed)
                    &&& (final(self).score(), Some(e)) == edit_token_spec(old(self).score(), |u: SUnparsed| u)
                },
            },
            final(self).input == old(self).input,
            final(self).eof == old(self).eof,
    {
        let ghost t = self.tokens@;
        proof { if t.len() > 0 { lemma_tokens_pop(t); } }
        match self.tokens.pop_back() {
            Some(Token::Unparsed(u)) => Ok(u),
            _ => Err(ParseError::token_not_in_progress(self.pos.copy())),
        }
    }

    /// Put an edited token back.
    fn put_unparsed(&mut self, u: UnparsedToken)
        ensures
            final(self).score() == with_tokens(old(self).score(), old(self).score().tokens.push(SToken::Unparsed(u.model()))),
            final(self).input == old(self).input,
            final(self).eof == old(self).eof,
    {
        let ghost t = self.tokens@;
        self.tokens.push_back(Token::Unparsed(u));
        proof { lemma_tokens_push(t, Token::Unparsed(u)); }
    }

    /// Run one instruction, given the current input character.
    fn execute(&mut self, i: &ReaderInstruction, c: Option<char>) -> (r: Result<(), ParseError>)
        ensures
            (final(self).score(), err_of(r)) == execute_spec(old(self).score(), *i, c),
            final(self).input == old(self).input,
            final(self).eof == old(self).eof,
    {
        let ghost p = self.score();
        match &i.command {
            ReaderCommand::SetState(state) => {
                self.state = state.clone();
            },
            ReaderCommand::StartToken => {
                let ghost t = self.tokens@;
                let nt = Token::new();
                self.tokens.push_back(nt);
                proof { lemma_tokens_push(t, nt); }
                self.pos.set_started();
            },
            ReaderCommand::SetTokenTag(tag) => {
                let mut tok = self.take_unparsed()?;
                tok.set_tag(Some(tag.clone()));
                self.put_unparsed(tok);
                proof {
                    assert(p.tokens.drop_last().push(SToken::Unparsed(tok.model()))
                        =~= p.tokens.update(p.tokens.len() - 1, SToken::Unparsed(tok.model())));
                }
            },
            ReaderCommand::SetTokenType(ty) => {
                let mut tok = self.take_unparsed()?;
                tok.set_type(Some(*ty));
                self.put_unparsed(tok);
                proof {
                    assert(p.tokens.drop_last().push(SToken::Unparsed(tok.model()))
                        =~= p.tokens.update(p.tokens.len() - 1, SToken::Unparsed(tok.model())));
                }
            },
            ReaderCommand::AppendToken => {
                let mut tok = self.take_unparsed()?;
                match c {
                    Some(cc) => {
                        push_char(&mut tok.value, cc);
                        self.put_unparsed(tok);
                        proof {
                            assert(p.tokens.drop_last().push(SToken::Unparsed(tok.model()))
                                =~= p.tokens.update(p.tokens.len() - 1, SToken::Unparsed(tok.model())));
                        }
                    },
                    None => {
                        return Err(ParseError::appending_eof(self.pos.copy()));
                    },
                }
            },
            ReaderCommand::FinishToken => {
                let ghost t = self.tokens@;
                proof { if t.len() > 0 { lemma_tokens_pop(t); } }
                match self.tokens.pop_back() {
                    Some(Token::Unparsed(u)) => {
                        return self.finish_token(u);
                    },
                    Some(x) => {
                        self.tokens.push_back(x);
                        proof { assert(self.tokens@ =~= t); }
                    },
                    None => {},
                }
            },
            ReaderCommand::PrependDatum(d) => {
                let ghost t = self.tokens@;
                let dd = d.deep_clone();
                self.tokens.push_back(Token::Parsed(dd));
                proof { lemma_tokens_push(t, Token::Parsed(dd)); }
            },
        }
        Ok(())
    }

    /// Feed one input (a character, or the end of input) to the rules.
    fn consume_char(&mut self, reader: &Reader, c: Option<char>) -> (r: Result<(), ParseError>)
        requires old(self).pos.weight() < usize::MAX,
        ensures
            (final(self).score(), err_of(r)) == consume_spec(old(self).score(), *reader, c),
            final(self).input == old(self).input,
            final(self).eof == old(self).eof,
            final(self).pos.weight() <= old(self).pos.weight() + 1,
    {
        let ghost p0 = self.score();
        match reader.matching(&self.state, c) {
            None => {
                return Err(ParseError::no_matching_state(self.pos.copy()));
            },
            Some(arm) => {
                let ghost is = arm.instructions@;
                let n = arm.instructions.len();
                let mut k: usize = 0;
                proof { assert(is.skip(0) == is); }
                while k < n
                    invariant
                        n == is.len(),
                        k <= n,
                        is == arm.instructions@,
                        self.input == old(self).input,
                        self.eof == old(self).eof,
                        run_instrs(p0, is, c) == run_instrs(self.score(), is.skip(k as int), c),
                        self.pos.weight() <= p0.pos.weight(),
                        p0 == old(self).score(),
                        first_match(reader.rules@, p0.state, c) matches Some(j)
                            && reader.rules@[j].instructions@ == is,
                    decreases n - k,
                {
                    let ghost q = self.score();
                    proof {
                        assert(is.skip(k as int)[0] == is[k as int]);
                        assert(is.skip(k as int).drop_first() == is.skip(k + 1));
                        lemma_execute_weight(q, is[k as int], c);
                    }
                    let res = self.execute(&arm.instructions[k], c);
                    match res {
                        Err(e) => {
                            proof {
                                assert(run_instrs(q, is.skip(k as int), c) == execute_spec(q, is[k as int], c));
                            }
                            return Err(e);
                        },
                        Ok(()) => {},
                    }
                    k += 1;
                }
                proof { assert(is.skip(n as int).len() == 0); }
            },
        }
        match c {
            Some(cc) => { self.pos.read(cc); },
            None => {},
        }
        Ok(())
    }
}


impl Parser {
    /// Read until a datum is finished, the queued input runs out, or an
    /// error occurs. At the end of input (after `set_eof(true)`), the
    /// rules see the end once more, and a token left unfinished is an error.
    pub fn read_next(&mut self, reader: &Reader) -> (r: Result<Option<Datum>, ParseError>)
        requires old(self).model().core.pos.weight() + old(self).model().input.len() < usize::MAX,
        ensures ({
            let (c, i, res) = read_next_spec(old(self).model().core, old(self).model().input, old(self).model().eof, *reader);
            &&& final(self).model().core == c
            &&& final(self).model().input == i
            &&& final(self).model().eof == old(self).model().eof
            &&& next_model(r) == res
        }),
    {
        let ghost p0 = self.score();
        let ghost in0 = self.input@;
        loop
            invariant
                read_next_spec(p0, in0, self.eof, *reader) == read_next_spec(self.score(), self.input@, self.eof, *reader),
                self.eof == old(self).eof,
                p0 == old(self).score(),
                in0 == old(self).input@,
                self.pos.weight() + self.input@.len() < usize::MAX,
            decreases self.input@.len(),
        {
            let ghost q = self.score();
            let ghost qi = self.input@;
            match self.next_parsed() {
                Some(d) => { return Ok(Some(d)); },
                None => {},
            }
            match self.input.pop_front() {
                Some(c) => {
                    proof { assert(self.input@ == qi.drop_first()); }
                    match self.consume_char(reader, Some(c)) {
                        Err(e) => { return Err(e); },
                        Ok(()) => {},
                    }
                },
                None => {
                    if self.eof {
                        match self.consume_char(reader, None) {
                            Err(e) => { return Err(e); },
                            Ok(()) => {},
                        }
                        match self.is_next_parsed() {
                            Some(false) => {
                                return Err(ParseError::unparsed_token(self.pos.copy()));
                            },
                            _ => {
                                let d = self.next_parsed();
                                return Ok(d);
                            },
                        }
                    } else {
                        return Ok(None);
                    }
                },
            }
        }
    }

    /// Drop all tokens and queued input, and allow more input again.
    pub fn clear(&mut self)
        ensures
            final(self).model() == (SParser {
                core: with_tokens(old(self).model().core, Seq::empty()),
                input: Seq::empty(),
                eof: false,
            }),
    {
        self.tokens.clear();
        self.input.clear();
        self.eof = false;
        proof { assert(token_models(self.tokens@) =~= Seq::<SToken>::empty()); }
    }

    /// Where the parser is.
    pub fn current_position(&self) -> (r: &Source)
        ensures *r == self.model().core.pos,
    {
        &self.pos
    }

    /// Move the parser to `s`.
    pub fn set_position(&mut self, s: Source)
        ensures final(self).model() == (SParser { core: SCore { pos: s, ..old(self).model().core }, ..old(self).model() }),
    {
        self.pos = s;
    }

    /// Start over at the beginning of the file `file`.
    pub fn set_file(&mut self, file: Option<String>)
        ensures
            final(self).model() == (SParser {
                core: SCore {
                    pos: Source { file, start: self::data::SourcePos { line: 1, col: 1 }, end: None },
                    ..old(self).model().core
                },
                ..old(self).model()
            }),
    {
        self.pos = Source::new().with_file(file);
    }

    /// The file, line and column the parser has got to.
    pub fn current_source(&self) -> (r: (Option<String>, usize, usize))
        ensures r == (self.model().core.pos.file, self.model().core.pos.current().line, self.model().core.pos.current().col),
    {
        self.pos.current_position()
    }
}

/// Tokens after the last unfinished one are all finished.
proof fn lemma_after_last_unparsed(t: Seq<SToken>, k: int, j: int)
    requires last_unparsed(t) == Some(k), k < j < t.len(),
    ensures t[j] is Parsed,
    decreases t.len(),
{
    lemma_last_unparsed_bound(t);
    if !(t.last() is Unparsed) && j < t.len() - 1 {
        let u = t.drop_last();
        assert(last_unparsed(u) == Some(k));
        lemma_after_last_unparsed(u, k, j);
        assert(u[j] == t[j]);
    }
}

/// The last unfinished token is found where it is.
proof fn lemma_last_unparsed_bound(t: Seq<SToken>)
    ensures last_unparsed(t) matches Some(k) ==> 0 <= k < t.len() && t[k] is Unparsed,
    decreases t.len(),
{
    if t.len() > 0 && !(t.last() is Unparsed) {
        lemma_last_unparsed_bound(t.drop_last());
    }
}

/// Closing a list keeps the order in which its items were read: when the
/// innermost open list was started by the token at `k` with the same tag,
/// the tokens before it stay, and in its place comes one finished list
/// whose `i`-th value is the value of the `i`-th finished token after it.
pub proof fn law_close_list_keeps_order(p: SCore, tag: Option<Seq<char>>, k: int)
    requires
        last_unparsed(p.tokens) == Some(k),
        p.tokens[k]->Unparsed_0.ty == Some(TokenType::StartList),
        p.tokens[k]->Unparsed_0.tag == tag,
    ensures ({
        let (q, e) = close_list_spec(p, tag);
        let v = q.tokens[k]->Parsed_0.value;
        &&& e is None
        &&& q.tokens.len() == k + 1
        &&& q.tokens.take(k) == p.tokens.take(k)
        &&& q.tokens[k] is Parsed
        &&& v is List
        &&& v->List_0.len() == p.tokens.len() - k - 1
        &&& forall|i: int| 0 <= i < p.tokens.len() - k - 1 ==>
                #[trigger] v->List_0[i] == p.tokens[k + 1 + i]->Parsed_0.value
        &&& forall|i: int| 0 <= i < p.tokens.len() - k - 1 ==> (#[trigger] p.tokens[k + 1 + i]) is Parsed
    }),
{
    lemma_last_unparsed_bound(p.tokens);
    let (q, e) = close_list_spec(p, tag);
    assert(q.tokens.take(k) =~= p.tokens.take(k));
    assert forall|i: int| 0 <= i < p.tokens.len() - k - 1 implies (#[trigger] p.tokens[k + 1 + i]) is Parsed by {
        lemma_after_last_unparsed(p.tokens, k, k + 1 + i);
    }
}

} // verus!
