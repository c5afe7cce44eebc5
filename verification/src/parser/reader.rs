//! The rules of the rule-driven parser: which characters each rule
//! accepts in which states, and what it then does.

use vstd::prelude::*;
use crate::combo::Combo;
use crate::data::{Datum, Symbol};
use crate::parser::data::CharClass;
use crate::parser::token::TokenType;
use crate::text::{char_whitespace, char_alphabetic, char_numeric, ascii_punctuation, is_whitespace,
    is_alphabetic, is_numeric, is_ascii_punctuation};

verus! {

/// The characters a rule accepts.
pub type AcceptChar = Combo<CharClass>;

/// The states a rule accepts.
pub type AcceptState = Combo<Symbol>;

/// What a rule can do.
pub enum ReaderCommand {
    SetState(Symbol),
    StartToken,
    SetTokenTag(String),
    SetTokenType(TokenType),
    AppendToken,
    FinishToken,
    PrependDatum(Datum),
}

/// One step of a rule.
pub struct ReaderInstruction {
    pub command: ReaderCommand,
}

impl ReaderInstruction {
    fn command(command: ReaderCommand) -> (r: Self)
        ensures r.command == command,
    {
        ReaderInstruction { command }
    }

    /// Move to the given state.
    pub fn set_state(state: Symbol) -> (r: Self)
        ensures r.command == ReaderCommand::SetState(state),
    {
        ReaderInstruction { command: ReaderCommand::SetState(state) }
    }

    /// Tag the token in progress.
    pub fn set_tag(t: String) -> (r: Self)
        ensures r.command == ReaderCommand::SetTokenTag(t),
    {
        Self::command(ReaderCommand::SetTokenTag(t))
    }

    /// Give the token in progress a type.
    pub fn set_type(ty: TokenType) -> (r: Self)
        ensures r.command == ReaderCommand::SetTokenType(ty),
    {
        Self::command(ReaderCommand::SetTokenType(ty))
    }

    /// Start a new token.
    pub fn start_token() -> (r: Self)
        ensures r.command == ReaderCommand::StartToken,
    {
        Self::command(ReaderCommand::StartToken)
    }

    /// Add the current character to the token in progress.
    pub fn append_token() -> (r: Self)
        ensures r.command == ReaderCommand::AppendToken,
    {
        Self::command(ReaderCommand::AppendToken)
    }

    /// Finish the token in progress.
    pub fn finish_token() -> (r: Self)
        ensures r.command == ReaderCommand::FinishToken,
    {
        Self::command(ReaderCommand::FinishToken)
    }

    /// Emit a datum.
    pub fn prepend_datum(d: Datum) -> (r: Self)
        ensures r.command == ReaderCommand::PrependDatum(d),
    {
        Self::command(ReaderCommand::PrependDatum(d))
    }
}

/// A named parser rule.
pub struct ReaderArm {
    pub name: String,
    pub accept_state: AcceptState,
    pub accept_char: AcceptChar,
    pub instructions: Vec<ReaderInstruction>,
}

/// Whether a rule accepting `accept_char` takes the input `ch`.
pub open spec fn accepts_char(accept_char: AcceptChar, ch: Option<char>) -> bool {
    match ch {
        Some(c) => accept_char.accepts(CharClass::One(c))
            || (char_whitespace(c) && accept_char.accepts(CharClass::Whitespace))
            || (char_alphabetic(c) && accept_char.accepts(CharClass::Alpha))
            || (char_numeric(c) && accept_char.accepts(CharClass::Numeric))
            || (ascii_punctuation(c) && accept_char.accepts(CharClass::Symbol)),
        None => accept_char.accepts(CharClass::Eof),
    }
}

impl ReaderArm {
    /// Whether this rule applies in `state` to the input `ch`.
    pub open spec fn accepts_spec(&self, state: Symbol, ch: Option<char>) -> bool {
        self.accept_state.accepts(state) && accepts_char(self.accept_char, ch)
    }

    /// A rule that accepts nothing yet, in any state, and does nothing.
    pub fn new(name: String) -> (r: Self)
        ensures
            r.name == name,
            r.accept_char == Combo::<CharClass>::Nothing,
            r.accept_state == Combo::<Symbol>::Anything,
            r.instructions@.len() == 0,
    {
        ReaderArm {
            name,
            accept_char: Combo::Nothing,
            accept_state: Combo::Anything,
            instructions: Vec::new(),
        }
    }

    /// Set the characters accepted.
    pub fn set_accept_input(&mut self, chars: AcceptChar)
        ensures *final(self) == (ReaderArm { accept_char: chars, ..*old(self) }),
    {
        self.accept_char = chars;
    }

    /// Chainable [ReaderArm::set_accept_input].
    pub fn accept_input(self, chars: AcceptChar) -> (r: Self)
        ensures r == (ReaderArm { accept_char: chars, ..self }),
    {
        let mut s = self;
        s.set_accept_input(chars);
        s
    }

    /// Set the states accepted.
    pub fn set_accept_state(&mut self, state: AcceptState)
        ensures *final(self) == (ReaderArm { accept_state: state, ..*old(self) }),
    {
        self.accept_state = state;
    }

    /// Chainable [ReaderArm::set_accept_state].
    pub fn accept_state(self, state: AcceptState) -> (r: Self)
        ensures r == (ReaderArm { accept_state: state, ..self }),
    {
        let mut s = self;
        s.set_accept_state(state);
        s
    }

    /// Add an instruction at the end.
    pub fn push_run(&mut self, i: ReaderInstruction)
        ensures
            final(self).instructions@ == old(self).instructions@.push(i),
            final(self).name == old(self).name,
            final(self).accept_state == old(self).accept_state,
            final(self).accept_char == old(self).accept_char,
    {
        self.instructions.push(i);
    }

    /// Chainable [ReaderArm::push_run].
    pub fn run(self, i: ReaderInstruction) -> (r: Self)
        ensures
            r.instructions@ == self.instructions@.push(i),
            r.name == self.name,
            r.accept_state == self.accept_state,
            r.accept_char == self.accept_char,
    {
        let mut s = self;
        s.push_run(i);
        s
    }

    /// Whether this rule applies in `state` to the input `ch`.
    pub fn accepts(&self, state: &Symbol, ch: Option<char>) -> (r: bool)
        ensures r == self.accepts_spec(*state, ch),
    {
        if !self.accept_state.contains(state) {
            return false;
        }
        match ch {
            Some(c) => {
                if self.accept_char.contains(&CharClass::One(c)) {
                    return true;
                }
                if is_whitespace(c) && self.accept_char.contains(&CharClass::Whitespace) {
                    return true;
                }
                if is_alphabetic(c) && self.accept_char.contains(&CharClass::Alpha) {
                    return true;
                }
                if is_numeric(c) && self.accept_char.contains(&CharClass::Numeric) {
                    return true;
                }
                if is_ascii_punctuation(c) && self.accept_char.contains(&CharClass::Symbol) {
                    return true;
                }
                false
            },
            None => self.accept_char.contains(&CharClass::Eof),
        }
    }
}

/// The first rule that applies, by position.
pub open spec fn first_match(rules: Seq<ReaderArm>, state: Symbol, ch: Option<char>) -> Option<int>
    decreases rules.len(),
{
    if rules.len() == 0 {
        None
    } else if rules[0].accepts_spec(state, ch) {
        Some(0)
    } else {
        match first_match(rules.drop_first(), state, ch) {
            Some(i) => Some(i + 1),
            None => None,
        }
    }
}

/// A set of parser rules and the state to start in.
pub struct Reader {
    pub init_state: Symbol,
    pub rules: Vec<ReaderArm>,
}

impl Reader {
    /// A reader starting in `state` with the given rules.
    pub fn new(state: Symbol, rules: Vec<ReaderArm>) -> (r: Self)
        ensures r.init_state == state, r.rules == rules,
    {
        Reader { init_state: state, rules }
    }

    /// The first rule that applies in `state` to the input `c`.
    pub fn matching(&self, state: &Symbol, c: Option<char>) -> (r: Option<&ReaderArm>)
        ensures
            match first_match(self.rules@, *state, c) {
                Some(i) => r matches Some(a) && *a == self.rules@[i],
                None => r is None,
            },
    {
        let n = self.rules.len();
        let mut i: usize = 0;
        assert(self.rules@.skip(0) == self.rules@);
        while i < n
            invariant
                n == self.rules@.len(),
                i <= n,
                first_match(self.rules@, *state, c) == match first_match(self.rules@.skip(i as int), *state, c) {
                    Some(k) => Some(k + i),
                    None => None::<int>,
                },
            decreases n - i,
        {
            let ghost rest = self.rules@.skip(i as int);
            assert(rest[0] == self.rules@[i as int]);
            if self.rules[i].accepts(state, c) {
                return Some(&self.rules[i]);
            }
            assert(rest.drop_first() == self.rules@.skip(i + 1));
            i += 1;
        }
        assert(self.rules@.skip(n as int).len() == 0);
        None
    }

    /// Add a rule that takes priority over all others.
    pub fn add_rule(&mut self, rule: ReaderArm)
        ensures
            final(self).rules@ == seq![rule] + old(self).rules@,
            final(self).init_state == old(self).init_state,
    {
        self.rules.insert(0, rule);
        assert(self.rules@ =~= seq![rule] + old(self).rules@);
    }

    /// Remove the first rule with the given name, if any.
    pub fn delete_rule(&mut self, name: &String)
        ensures
            final(self).init_state == old(self).init_state,
            (forall|i: int| 0 <= i < old(self).rules@.len() ==> (#[trigger] old(self).rules@[i]).name@ != name@)
                ==> final(self).rules@ == old(self).rules@,
            forall|i: int| 0 <= i < old(self).rules@.len() && (#[trigger] old(self).rules@[i]).name@ == name@
                && (forall|j: int| 0 <= j < i ==> old(self).rules@[j].name@ != name@)
                ==> final(self).rules@ == old(self).rules@.remove(i),
    {
        let n = self.rules.len();
        let mut i: usize = 0;
        while i < n
            invariant
                n == self.rules@.len(),
                self.rules@ == old(self).rules@,
                self.init_state == old(self).init_state,
                i <= n,
                forall|j: int| 0 <= j < i ==> self.rules@[j].name@ != name@,
            decreases n - i,
        {
            if self.rules[i].name == *name {
                self.rules.remove(i);
                return;
            }
            i += 1;
        }
    }

    /// The state to start in.
    pub fn init_state(&self) -> (r: &Symbol)
        ensures *r == self.init_state,
    {
        &self.init_state
    }
}

} // verus!
