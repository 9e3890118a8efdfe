//! Lexical tokens of the namespace DSL, together with their mathematical
//! model: a token is a kind, the matched text, and a 1-based source position.

use vstd::prelude::*;

verus! {

/// The closed set of token kinds the lexer can produce.
///
/// `=` and `=>` both lex to `OperatorAssign`; the grammar only ever needs the
/// arrow, so the parser accepts that kind where an arrow is required.
#[derive(Debug, Clone, Copy, PartialEq, Eq, Structural)]
pub enum TokenKind {
    Eof,
    Error,
    Identifier,
    Comment,
    StringLiteral,
    KeywordClass,
    KeywordImplements,
    KeywordRelated,
    KeywordPermits,
    KeywordThis,
    KeywordCtx,
    KeywordNamespace,
    OperatorAnd,
    OperatorOr,
    OperatorNot,
    OperatorAssign,
    OperatorArrow,
    OperatorDot,
    OperatorColon,
    OperatorComma,
    SemiColon,
    TypeUnion,
    ParenLeft,
    ParenRight,
    BraceLeft,
    BraceRight,
    BracketLeft,
    BracketRight,
    AngledLeft,
    AngledRight,
}

/// One lexical unit: kind, matched text (without delimiters for string
/// literals), and the 1-based line and column where it started.
#[derive(Debug)]
pub struct Token {
    pub kind: TokenKind,
    pub value: String,
    pub line: Option<u32>,
    pub column: Option<usize>,
}

/// The mathematical value of a `Token`: the same fields with the text as a
/// character sequence.
pub ghost struct TokenModel {
    pub kind: TokenKind,
    pub value: Seq<char>,
    pub line: Option<u32>,
    pub column: Option<usize>,
}

impl View for Token {
    type V = TokenModel;

    open spec fn view(&self) -> TokenModel {
        TokenModel {
            kind: self.kind,
            value: self.value@,
            line: self.line,
            column: self.column,
        }
    }
}

/// What the lexer guarantees of every token it emits: a real position
/// (both coordinates 1-based) and never a comment.
pub open spec fn token_wf(t: TokenModel) -> bool {
    &&& t.line matches Some(l) && l >= 1
    &&& t.column matches Some(c) && c >= 1
    &&& t.kind != TokenKind::Comment
}

impl Token {
    /// Builds a token at an explicit source position.
    pub fn new(kind: TokenKind, value: String, line: u32, column: usize) -> (r: Token)
        ensures
            r@ == (TokenModel { kind, value: value@, line: Some(line), column: Some(column) }),
    {
        Token { kind, value, line: Some(line), column: Some(column) }
    }

    /// Builds the marker token for input that ended before a token could be
    /// completed; it carries no position.
    pub fn incomplete(value: &str) -> (r: Token)
        ensures
            r@ == (TokenModel {
                kind: TokenKind::Eof,
                value: value@,
                line: None,
                column: None,
            }),
    {
        Token { kind: TokenKind::Eof, value: value.to_owned(), line: None, column: None }
    }

    /// A copy of this token with the same fields.
    pub fn duplicate(&self) -> (r: Token)
        ensures
            r@ == self@,
    {
        Token {
            kind: self.kind,
            value: self.value.clone(),
            line: self.line,
            column: self.column,
        }
    }
}

/// The models of a token sequence, in order.
pub open spec fn views_of(ts: Seq<Token>) -> Seq<TokenModel> {
    ts.map_values(|t: Token| t@)
}

} // verus!
