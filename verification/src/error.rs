//! Structured parse errors: a message, the position of the offending token,
//! and a fatality flag. Non-fatal errors let the parser re-synchronise and
//! continue; fatal ones stop top-level parsing.

use vstd::prelude::*;

use crate::token::Token;

verus! {

/// One parser diagnostic.
#[derive(Debug)]
pub struct ParserError {
    pub message: String,
    pub line: Option<u32>,
    pub column: Option<usize>,
    pub fatal: bool,
}

impl ParserError {
    /// Builds an error carrying the position of `token`, or no position when
    /// none is at hand (for example at end of input).
    pub fn new(message: &str, token: Option<&Token>, is_fatal: bool) -> (r: ParserError)
        ensures
            r.message@ == message@,
            r.fatal == is_fatal,
            match token {
                Option::Some(t) => r.line == t.line && r.column == t.column,
                Option::None => r.line is None && r.column is None,
            },
    {
        match token {
            Some(t) => ParserError {
                message: message.to_owned(),
                line: t.line,
                column: t.column,
                fatal: is_fatal,
            },
            None => ParserError {
                message: message.to_owned(),
                line: None,
                column: None,
                fatal: is_fatal,
            },
        }
    }

    /// An error after which top-level parsing stops.
    pub fn fatal(message: &str, token: Option<&Token>) -> (r: ParserError)
        ensures
            r.message@ == message@,
            r.fatal,
            match token {
                Option::Some(t) => r.line == t.line && r.column == t.column,
                Option::None => r.line is None && r.column is None,
            },
    {
        Self::new(message, token, true)
    }

    /// An error the parser recovers from at the next statement boundary.
    pub fn non_fatal(message: &str, token: Option<&Token>) -> (r: ParserError)
        ensures
            r.message@ == message@,
            !r.fatal,
            match token {
                Option::Some(t) => r.line == t.line && r.column == t.column,
                Option::None => r.line is None && r.column is None,
            },
    {
        Self::new(message, token, false)
    }

    /// A copy of this error with the same fields.
    pub fn duplicate(&self) -> (r: ParserError)
        ensures
            r.message@ == self.message@,
            r.line == self.line,
            r.column == self.column,
            r.fatal == self.fatal,
    {
        ParserError {
            message: self.message.clone(),
            line: self.line,
            column: self.column,
            fatal: self.fatal,
        }
    }
}

} // verus!
