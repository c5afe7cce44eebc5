//! Errors of the rule-driven parser.

use vstd::prelude::*;
use crate::parser::data::Source;
use crate::text::push_str;

verus! {

/// Why parsing failed.
#[derive(Eq, PartialEq, Structural, Debug, Clone, Copy, Hash)]
pub enum ParseErrorReason {
    /// Got into a state with no matching rules
    NoMatchingState,
    /// Token not finished before starting a new one
    UnfinishedToken,
    /// Top token in output is not Unparsed and in-progress
    TokenNotInProgress,
    /// There are still Unparsed tokens but shouldn't be
    UnparsedToken,
    /// Tried to execute AppendToken on Eof
    AppendingEof,
    /// Found a list end without a corresponding start
    UnmatchedListEnd,
    /// Tried to read e.g. a non-numeric atom as a number
    InvalidFormat,
    /// Tried to parse a token with no type set.
    NoTokenType,
}

/// A parse failure and where it happened.
pub struct ParseError {
    pub reason: ParseErrorReason,
    pub source: Source,
}

impl ParseError {
    fn new(reason: ParseErrorReason, source: Source) -> (r: ParseError)
        ensures r == (ParseError { reason, source }),
    {
        ParseError { reason, source }
    }

    /// No rule matches the current state and input.
    pub fn no_matching_state(source: Source) -> (r: ParseError)
        ensures r == (ParseError { reason: ParseErrorReason::NoMatchingState, source }),
    {
        ParseError::new(ParseErrorReason::NoMatchingState, source)
    }

    /// A token was not finished.
    pub fn unfinished_token(source: Source) -> (r: ParseError)
        ensures r == (ParseError { reason: ParseErrorReason::UnfinishedToken, source }),
    {
        ParseError::new(ParseErrorReason::UnfinishedToken, source)
    }

    /// No token is in progress.
    pub fn token_not_in_progress(source: Source) -> (r: ParseError)
        ensures r == (ParseError { reason: ParseErrorReason::TokenNotInProgress, source }),
    {
        ParseError::new(ParseErrorReason::TokenNotInProgress, source)
    }

    /// A token was left unparsed.
    pub fn unparsed_token(source: Source) -> (r: ParseError)
        ensures r == (ParseError { reason: ParseErrorReason::UnparsedToken, source }),
    {
        ParseError::new(ParseErrorReason::UnparsedToken, source)
    }

    /// The end of input cannot be added to a token.
    pub fn appending_eof(source: Source) -> (r: ParseError)
        ensures r == (ParseError { reason: ParseErrorReason::AppendingEof, source }),
    {
        ParseError::new(ParseErrorReason::AppendingEof, source)
    }

    /// A list end without a start.
    pub fn unmatched_list_end(source: Source) -> (r: ParseError)
        ensures r == (ParseError { reason: ParseErrorReason::UnmatchedListEnd, source }),
    {
        ParseError::new(ParseErrorReason::UnmatchedListEnd, source)
    }

    /// A token's text is not in the format of its type.
    pub fn invalid_format(source: Source) -> (r: ParseError)
        ensures r == (ParseError { reason: ParseErrorReason::InvalidFormat, source }),
    {
        ParseError::new(ParseErrorReason::InvalidFormat, source)
    }

    /// A token has no type.
    pub fn no_token_type(source: Source) -> (r: ParseError)
        ensures r == (ParseError { reason: ParseErrorReason::NoTokenType, source }),
    {
        ParseError::new(ParseErrorReason::NoTokenType, source)
    }
}

impl ParseErrorReason {
    /// The name of this reason, as it is written in messages.
    pub open spec fn name_spec(&self) -> Seq<char> {
        match self {
            ParseErrorReason::NoMatchingState => "NoMatchingState"@,
            ParseErrorReason::UnfinishedToken => "UnfinishedToken"@,
            ParseErrorReason::TokenNotInProgress => "TokenNotInProgress"@,
            ParseErrorReason::UnparsedToken => "UnparsedToken"@,
            ParseErrorReason::AppendingEof => "AppendingEof"@,
            ParseErrorReason::UnmatchedListEnd => "UnmatchedListEnd"@,
            ParseErrorReason::InvalidFormat => "InvalidFormat"@,
            ParseErrorReason::NoTokenType => "NoTokenType"@,
        }
    }

    /// The name of this reason.
    pub fn name(&self) -> (r: &'static str)
        ensures r@ == self.name_spec(),
    {
        match self {
            ParseErrorReason::NoMatchingState => "NoMatchingState",
            ParseErrorReason::UnfinishedToken => "UnfinishedToken",
            ParseErrorReason::TokenNotInProgress => "TokenNotInProgress",
            ParseErrorReason::UnparsedToken => "UnparsedToken",
            ParseErrorReason::AppendingEof => "AppendingEof",
            ParseErrorReason::UnmatchedListEnd => "UnmatchedListEnd",
            ParseErrorReason::InvalidFormat => "InvalidFormat",
            ParseErrorReason::NoTokenType => "NoTokenType",
        }
    }
}

impl ParseError {
    /// The message for this error: `Parser error: <reason> at <source>`.
    pub fn message(&self) -> (r: String)
        ensures r@ == "Parser error: "@ + self.reason.name_spec() + " at "@ + self.source.describe_spec(),
    {
        let mut s = String::new();
        push_str(&mut s, "Parser error: ");
        push_str(&mut s, self.reason.name());
        push_str(&mut s, " at ");
        let d = self.source.describe();
        push_str(&mut s, d.as_str());
        s
    }
}

} // verus!
