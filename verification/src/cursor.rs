//! One-token-lookahead cursor over a token slice, used by the parser.

use vstd::prelude::*;
use vstd::slice::slice_index_get;

use crate::token::{Token, TokenKind};

verus! {

/// A position-carrying view over a borrowed token slice.
pub struct TokenCursor<'a> {
    pub tokens: &'a [Token],
    pub position: usize,
}

impl<'a> TokenCursor<'a> {
    /// The token under the cursor, if any.
    pub open spec fn spec_peek(&self) -> Option<Token> {
        if self.position < self.tokens@.len() {
            Some(self.tokens@[self.position as int])
        } else {
            None
        }
    }

    /// The cursor is past the last token or at an end-of-file token.
    pub open spec fn spec_at_end(&self) -> bool {
        match self.spec_peek() {
            Option::None => true,
            Option::Some(t) => t.kind == TokenKind::Eof,
        }
    }

    /// The cursor position never runs past the slice.
    pub open spec fn wf(&self) -> bool {
        self.position <= self.tokens@.len()
    }

    pub fn new(tokens: &'a [Token]) -> (r: Self)
        ensures
            r.tokens == tokens,
            r.position == 0,
            r.wf(),
    {
        TokenCursor { tokens, position: 0 }
    }

    /// The token under the cursor without moving.
    pub fn peek(&self) -> (r: Option<&'a Token>)
        ensures
            match r {
                Option::Some(t) => self.spec_peek() == Some(*t),
                Option::None => self.spec_peek() is None,
            },
    {
        if self.position < self.tokens.len() {
            Some(slice_index_get(self.tokens, self.position))
        } else {
            None
        }
    }

    /// The token `n` places ahead of the cursor without moving.
    pub fn peek_ahead(&self, n: usize) -> (r: Option<&'a Token>)
        ensures
            match r {
                Option::Some(t) => self.position + n < self.tokens@.len() && *t
                    == self.tokens@[self.position + n],
                Option::None => self.position + n >= self.tokens@.len(),
            },
    {
        let len = self.tokens.len();
        match self.position.checked_add(n) {
            Some(i) => {
                if i < len {
                    Some(slice_index_get(self.tokens, i))
                } else {
                    None
                }
            },
            None => None,
        }
    }

    /// Returns the token under the cursor and moves on. The position is
    /// incremented unconditionally, also past the end of the slice (where
    /// the result is `None`), stopping only at the machine bound of
    /// `usize`.
    pub fn advance(&mut self) -> (r: Option<&'a Token>)
        ensures
            final(self).tokens == old(self).tokens,
            final(self).position == if old(self).position < usize::MAX {
                old(self).position + 1
            } else {
                old(self).position as int
            },
            match r {
                Option::Some(t) => {
                    &&& old(self).spec_peek() == Some(*t)
                    &&& final(self).position == old(self).position + 1
                },
                Option::None => old(self).spec_peek() is None,
            },
            old(self).wf() && old(self).spec_peek() is Some ==> final(self).wf(),
    {
        let r = if self.position < self.tokens.len() {
            Some(slice_index_get(self.tokens, self.position))
        } else {
            None
        };
        if self.position < usize::MAX {
            self.position = self.position + 1;
        }
        r
    }

    /// Whether the token under the cursor has the given kind; `false` past
    /// the end.
    pub fn check(&self, kind: &TokenKind) -> (r: bool)
        ensures
            r == match self.spec_peek() {
                Option::Some(t) => t.kind == *kind,
                Option::None => false,
            },
    {
        match self.peek() {
            Some(t) => t.kind == *kind,
            None => false,
        }
    }

    /// Whether the cursor stands on an identifier with exactly this text.
    pub fn check_identifier(&self, name: &str) -> (r: bool)
        ensures
            r == match self.spec_peek() {
                Option::Some(t) => t.kind == TokenKind::Identifier && t.value@ == name@,
                Option::None => false,
            },
    {
        match self.peek() {
            Some(t) => {
                if t.kind == TokenKind::Identifier {
                    t.value.eq(&name.to_owned())
                } else {
                    false
                }
            },
            None => false,
        }
    }

    /// The text of the identifier under the cursor, if it is one.
    pub fn get_identifier_text(&self) -> (r: Option<String>)
        ensures
            match r {
                Option::Some(v) => {
                    &&& self.spec_peek() matches Some(t)
                    &&& self.spec_peek()->0.kind == TokenKind::Identifier
                    &&& v@ == self.spec_peek()->0.value@
                },
                Option::None => !(self.spec_peek() matches Some(t) && t.kind
                    == TokenKind::Identifier),
            },
    {
        match self.peek() {
            Some(t) => {
                if t.kind == TokenKind::Identifier {
                    Some(t.value.clone())
                } else {
                    None
                }
            },
            None => None,
        }
    }

    /// The text of the string literal under the cursor, if it is one.
    pub fn get_string_literal_text(&self) -> (r: Option<String>)
        ensures
            match r {
                Option::Some(v) => {
                    &&& self.spec_peek() matches Some(t)
                    &&& self.spec_peek()->0.kind == TokenKind::StringLiteral
                    &&& v@ == self.spec_peek()->0.value@
                },
                Option::None => !(self.spec_peek() matches Some(t) && t.kind
                    == TokenKind::StringLiteral),
            },
    {
        match self.peek() {
            Some(t) => {
                if t.kind == TokenKind::StringLiteral {
                    Some(t.value.clone())
                } else {
                    None
                }
            },
            None => None,
        }
    }

    /// Whether the cursor is past the last token or on an end-of-file token.
    pub fn is_at_end(&self) -> (r: bool)
        ensures
            r == self.spec_at_end(),
    {
        match self.peek() {
            Some(t) => t.kind == TokenKind::Eof,
            None => true,
        }
    }
}

} // verus!
