//! Tokens of the rule-driven parser.

use vstd::prelude::*;
use crate::data::{Datum, SDatum};

verus! {

/// What a finished token becomes.
#[derive(Eq, PartialEq, Structural, Copy, Clone, Debug)]
pub enum TokenType {
    Symbol,
    String,
    Rational,
    StartList,
    EndList,
}

/// A token still being read.
pub struct UnparsedToken {
    pub ty: Option<TokenType>,
    pub tag: Option<String>,
    pub value: String,
}

/// The model of an [UnparsedToken].
pub struct SUnparsed {
    pub ty: Option<TokenType>,
    pub tag: Option<Seq<char>>,
    pub value: Seq<char>,
}

/// The model of a [Token].
pub enum SToken {
    Parsed(SDatum),
    Unparsed(SUnparsed),
}

/// The model of an optional string.
pub open spec fn opt_chars(s: Option<String>) -> Option<Seq<char>> {
    match s {
        Some(t) => Some(t@),
        None => None,
    }
}

impl UnparsedToken {
    /// The model of this token.
    pub open spec fn model(&self) -> SUnparsed {
        SUnparsed { ty: self.ty, tag: opt_chars(self.tag), value: self.value@ }
    }

    /// An empty token with no type and no tag.
    pub fn empty() -> (r: UnparsedToken)
        ensures r.model() == (SUnparsed { ty: None, tag: None, value: Seq::empty() }),
    {
        UnparsedToken { ty: None, tag: None, value: String::new() }
    }

    /// Set the tag.
    pub fn set_tag(&mut self, tag: Option<String>)
        ensures final(self).model() == (SUnparsed { tag: opt_chars(tag), ..old(self).model() }),
    {
        self.tag = tag;
    }

    /// Set the type.
    pub fn set_type(&mut self, ty: Option<TokenType>)
        ensures final(self).model() == (SUnparsed { ty, ..old(self).model() }),
    {
        self.ty = ty;
    }
}

/// A token: either a finished datum or one still being read.
pub enum Token {
    Parsed(Datum),
    Unparsed(UnparsedToken),
}

impl Token {
    /// The model of this token.
    pub open spec fn model(&self) -> SToken {
        match self {
            Token::Parsed(d) => SToken::Parsed(d.model()),
            Token::Unparsed(u) => SToken::Unparsed(u.model()),
        }
    }

    /// A fresh token in progress.
    pub fn new() -> (r: Token)
        ensures r.model() == SToken::Unparsed(SUnparsed { ty: None, tag: None, value: Seq::empty() }),
    {
        Token::Unparsed(UnparsedToken::empty())
    }

    /// Whether this token is finished.
    pub fn is_parsed(&self) -> (r: bool)
        ensures r == (self.model() is Parsed),
    {
        match self {
            Token::Parsed(_) => true,
            Token::Unparsed(_) => false,
        }
    }
}

} // verus!
