//! The lexer: turns namespace-DSL source text into a token stream.
//!
//! The behaviour is fixed by a functional model over the source's character
//! sequence (`spec_tokenize`); `Lexer::tokenize` returns exactly the tokens of
//! that model. Whitespace is skipped, comments are recognised and dropped,
//! every emitted token carries a 1-based line and column, and lexing is total:
//! unrecognised input or an unterminated literal yields an `Error` token and
//! the lexer re-synchronises.

use vstd::prelude::*;

use crate::token::{Token, TokenKind, TokenModel, token_wf, views_of};

verus! {

// ---------------------------------------------------------------------------
// Character classes
// ---------------------------------------------------------------------------

/// Whitespace skipped between tokens: space, tab, carriage return, newline.
pub open spec fn is_space_char(c: char) -> bool {
    c as u32 == 32 || c as u32 == 9 || c as u32 == 13 || c as u32 == 10
}

/// Characters of identifiers and keywords: ASCII letters, digits, underscore.
pub open spec fn is_ident_char(c: char) -> bool {
    ||| 97 <= c as u32 && c as u32 <= 122
    ||| 65 <= c as u32 && c as u32 <= 90
    ||| 48 <= c as u32 && c as u32 <= 57
    ||| c as u32 == 95
}

/// Where lexing re-synchronises after an unrecognised fragment: the next
/// whitespace or bracket.
pub open spec fn is_resync_char(c: char) -> bool {
    ||| is_space_char(c)
    ||| c == '(' || c == ')' || c == '{' || c == '}'
    ||| c == '[' || c == ']' || c == '<' || c == '>'
}

fn space_char(c: char) -> (r: bool)
    ensures
        r == is_space_char(c),
{
    let u = c as u32;
    u == 32 || u == 9 || u == 13 || u == 10
}

fn ident_char(c: char) -> (r: bool)
    ensures
        r == is_ident_char(c),
{
    let u = c as u32;
    (97 <= u && u <= 122) || (65 <= u && u <= 90) || (48 <= u && u <= 57) || u == 95
}

fn resync_char(c: char) -> (r: bool)
    ensures
        r == is_resync_char(c),
{
    space_char(c) || c == '(' || c == ')' || c == '{' || c == '}' || c == '[' || c == ']'
        || c == '<' || c == '>'
}

// ---------------------------------------------------------------------------
// Source positions
// ---------------------------------------------------------------------------

/// The line counter after reading one character; saturates at the type bound.
pub open spec fn adv_line(line: u32, c: char) -> u32 {
    if c == '\n' {
        if line < 0xffff_ffffu32 {
            (line + 1) as u32
        } else {
            line
        }
    } else {
        line
    }
}

/// The column counter after reading one character: a newline resets it to 1.
pub open spec fn adv_col(col: usize, c: char) -> usize {
    if c == '\n' {
        1
    } else {
        if col < usize::MAX {
            (col + 1) as usize
        } else {
            col
        }
    }
}

/// The position after reading a whole character sequence, folding from the
/// left.
pub open spec fn adv_pos(line: u32, col: usize, s: Seq<char>) -> (u32, usize)
    decreases s.len(),
{
    if s.len() == 0 {
        (line, col)
    } else {
        adv_pos(adv_line(line, s[0]), adv_col(col, s[0]), s.drop_first())
    }
}

proof fn lemma_adv_pos_snoc(line: u32, col: usize, s: Seq<char>, c: char)
    ensures
        adv_pos(line, col, s.push(c)) == (
            adv_line(adv_pos(line, col, s).0, c),
            adv_col(adv_pos(line, col, s).1, c),
        ),
    decreases s.len(),
{
    if s.len() == 0 {
        assert(s.push(c).drop_first() =~= Seq::<char>::empty());
        assert(s.push(c)[0] == c);
        assert(adv_pos(line, col, s.push(c)) == adv_pos(
            adv_line(line, c),
            adv_col(col, c),
            s.push(c).drop_first(),
        ));
        assert(adv_pos(line, col, s) == (line, col));
    } else {
        assert(s.push(c)[0] == s[0]);
        assert(s.push(c).drop_first() =~= s.drop_first().push(c));
        assert(adv_pos(line, col, s.push(c)) == adv_pos(
            adv_line(line, s[0]),
            adv_col(col, s[0]),
            s.drop_first().push(c),
        ));
        assert(adv_pos(line, col, s) == adv_pos(
            adv_line(line, s[0]),
            adv_col(col, s[0]),
            s.drop_first(),
        ));
        lemma_adv_pos_snoc(adv_line(line, s[0]), adv_col(col, s[0]), s.drop_first(), c);
    }
}

proof fn lemma_adv_pos_ge_one(line: u32, col: usize, s: Seq<char>)
    requires
        line >= 1,
        col >= 1,
    ensures
        adv_pos(line, col, s).0 >= 1,
        adv_pos(line, col, s).1 >= 1,
    decreases s.len(),
{
    if s.len() != 0 {
        lemma_adv_pos_ge_one(adv_line(line, s[0]), adv_col(col, s[0]), s.drop_first());
    }
}

/// Advances an explicit (line, column) pair over `s@.subrange(from, to)`.
fn advance_pos(s: &str, from: usize, to: usize, line: u32, col: usize) -> (r: (u32, usize))
    requires
        from <= to <= s@.len(),
    ensures
        r == adv_pos(line, col, s@.subrange(from as int, to as int)),
{
    let mut l = line;
    let mut c = col;
    let mut j = from;
    proof {
        assert(s@.subrange(from as int, from as int) =~= Seq::<char>::empty());
    }
    while j < to
        invariant
            from <= j <= to <= s@.len(),
            (l, c) == adv_pos(line, col, s@.subrange(from as int, j as int)),
        decreases to - j,
    {
        let ch = s.get_char(j);
        proof {
            assert(s@.subrange(from as int, j + 1) =~= s@.subrange(from as int, j as int).push(
                s@[j as int],
            ));
            lemma_adv_pos_snoc(line, col, s@.subrange(from as int, j as int), s@[j as int]);
        }
        if ch == '\n' {
            if l < 0xffff_ffffu32 {
                l = l + 1;
            }
            c = 1;
        } else {
            if c < usize::MAX {
                c = c + 1;
            }
        }
        j = j + 1;
    }
    (l, c)
}

// ---------------------------------------------------------------------------
// Scanning primitives
// ---------------------------------------------------------------------------

/// The first index at or after `i` whose character is not an identifier
/// character (the length of `s` if none).
pub open spec fn scan_ident_end(s: Seq<char>, i: int) -> int
    decreases s.len() - i,
{
    if i < 0 || i >= s.len() {
        i
    } else if is_ident_char(s[i]) {
        scan_ident_end(s, i + 1)
    } else {
        i
    }
}

proof fn lemma_scan_ident_end(s: Seq<char>, i: int)
    requires
        0 <= i <= s.len(),
    ensures
        i <= scan_ident_end(s, i) <= s.len(),
        forall|j: int| i <= j < scan_ident_end(s, i) ==> is_ident_char(#[trigger] s[j]),
        scan_ident_end(s, i) < s.len() ==> !is_ident_char(s[scan_ident_end(s, i)]),
    decreases s.len() - i,
{
    if i < s.len() && is_ident_char(s[i]) {
        lemma_scan_ident_end(s, i + 1);
    }
}

/// The first index at or after `i` holding character `c` (the length of `s`
/// if none).
pub open spec fn scan_to_char(s: Seq<char>, i: int, c: char) -> int
    decreases s.len() - i,
{
    if i < 0 || i >= s.len() {
        s.len() as int
    } else if s[i] == c {
        i
    } else {
        scan_to_char(s, i + 1, c)
    }
}

proof fn lemma_scan_to_char(s: Seq<char>, i: int, c: char)
    requires
        0 <= i <= s.len(),
    ensures
        i <= scan_to_char(s, i, c) <= s.len(),
        scan_to_char(s, i, c) < s.len() ==> s[scan_to_char(s, i, c)] == c,
    decreases s.len() - i,
{
    if i < s.len() && s[i] != c {
        lemma_scan_to_char(s, i + 1, c);
    }
}

/// The first index at or after `i` where a `*/` pair starts (the length of
/// `s` if none).
pub open spec fn scan_to_close(s: Seq<char>, i: int) -> int
    decreases s.len() - i,
{
    if i < 0 || i + 1 >= s.len() {
        s.len() as int
    } else if s[i] == '*' && s[i + 1] == '/' {
        i
    } else {
        scan_to_close(s, i + 1)
    }
}

proof fn lemma_scan_to_close(s: Seq<char>, i: int)
    requires
        0 <= i <= s.len(),
    ensures
        i <= scan_to_close(s, i) <= s.len(),
        scan_to_close(s, i) + 1 < s.len() ==> s[scan_to_close(s, i)] == '*' && s[scan_to_close(
            s,
            i,
        ) + 1] == '/',
    decreases s.len() - i,
{
    if i + 1 < s.len() && !(s[i] == '*' && s[i + 1] == '/') {
        lemma_scan_to_close(s, i + 1);
    }
}

/// The first index after `i` whose character re-synchronises lexing (the
/// length of `s` if none).
pub open spec fn scan_resync(s: Seq<char>, i: int) -> int
    decreases s.len() - i,
{
    if i < 0 || i >= s.len() {
        s.len() as int
    } else if is_resync_char(s[i]) {
        i
    } else {
        scan_resync(s, i + 1)
    }
}

proof fn lemma_scan_resync(s: Seq<char>, i: int)
    requires
        0 <= i <= s.len(),
    ensures
        i <= scan_resync(s, i) <= s.len(),
    decreases s.len() - i,
{
    if i < s.len() && !is_resync_char(s[i]) {
        lemma_scan_resync(s, i + 1);
    }
}

fn find_ident_end(s: &str, i: usize, n: usize) -> (r: usize)
    requires
        n == s@.len(),
        i <= n,
    ensures
        r == scan_ident_end(s@, i as int),
        i <= r <= n,
{
    let mut j = i;
    while j < n
        invariant
            i <= j <= n,
            n == s@.len(),
            scan_ident_end(s@, i as int) == scan_ident_end(s@, j as int),
            forall|k: int| i <= k < j ==> is_ident_char(#[trigger] s@[k]),
        decreases n - j,
    {
        if !ident_char(s.get_char(j)) {
            proof {
                lemma_scan_ident_end(s@, j as int);
            }
            return j;
        }
        j = j + 1;
    }
    proof {
        lemma_scan_ident_end(s@, j as int);
    }
    j
}

fn find_char(s: &str, i: usize, n: usize, c: char) -> (r: usize)
    requires
        n == s@.len(),
        i <= n,
    ensures
        r == scan_to_char(s@, i as int, c),
        i <= r <= n,
{
    let mut j = i;
    while j < n
        invariant
            i <= j <= n,
            n == s@.len(),
            scan_to_char(s@, i as int, c) == scan_to_char(s@, j as int, c),
        decreases n - j,
    {
        if s.get_char(j) == c {
            return j;
        }
        j = j + 1;
    }
    j
}

fn find_close(s: &str, i: usize, n: usize) -> (r: usize)
    requires
        n == s@.len(),
        i <= n,
    ensures
        r == scan_to_close(s@, i as int),
        i <= r <= n,
{
    let mut j = i;
    loop
        invariant
            i <= j <= n,
            n == s@.len(),
            scan_to_close(s@, i as int) == scan_to_close(s@, j as int),
        decreases n - j,
    {
        if n - j < 2 {
            proof {
                lemma_scan_to_close(s@, j as int);
            }
            return n;
        }
        if s.get_char(j) == '*' && s.get_char(j + 1) == '/' {
            return j;
        }
        j = j + 1;
    }
}

fn find_resync(s: &str, i: usize, n: usize) -> (r: usize)
    requires
        n == s@.len(),
        i <= n,
    ensures
        r == scan_resync(s@, i as int),
        i <= r <= n,
{
    let mut j = i;
    while j < n
        invariant
            i <= j <= n,
            n == s@.len(),
            scan_resync(s@, i as int) == scan_resync(s@, j as int),
        decreases n - j,
    {
        if resync_char(s.get_char(j)) {
            return j;
        }
        j = j + 1;
    }
    j
}

// ---------------------------------------------------------------------------
// The shape of one token
// ---------------------------------------------------------------------------

/// The kind a maximal identifier-shaped word lexes to: one of the keywords by
/// exact match, any other word an identifier.
pub open spec fn word_kind(w: Seq<char>) -> TokenKind {
    if w == "class"@ {
        TokenKind::KeywordClass
    } else if w == "implements"@ {
        TokenKind::KeywordImplements
    } else if w == "related"@ {
        TokenKind::KeywordRelated
    } else if w == "permits"@ {
        TokenKind::KeywordPermits
    } else if w == "this"@ {
        TokenKind::KeywordThis
    } else if w == "ctx"@ {
        TokenKind::KeywordCtx
    } else if w == "Namespace"@ {
        TokenKind::KeywordNamespace
    } else {
        TokenKind::Identifier
    }
}

/// The shape of the token starting at position `i`: its kind, the half-open
/// range `[vs, ve)` of its text, and the position `next` lexing resumes at.
pub ghost struct Shape {
    pub kind: TokenKind,
    pub vs: int,
    pub ve: int,
    pub next: int,
}

/// What the lexer recognises at position `i` of `s`, in priority order:
/// comment, identifier-shaped word (keywords by exact match), string literal,
/// two-character operator, single-character operator, bracket, `;`, `|`, and
/// otherwise an error fragment running to the next re-synchronising
/// character. `i` must be in range and not hold whitespace.
pub open spec fn token_shape(s: Seq<char>, i: int) -> Shape
    recommends
        0 <= i < s.len(),
        !is_space_char(s[i]),
{
    let c = s[i];
    if c == '/' && i + 1 < s.len() && s[i + 1] == '/' {
        // Line comment: runs to the end of the line; the newline is consumed.
        let e = scan_to_char(s, i + 2, '\n');
        let next = if e < s.len() {
            e + 1
        } else {
            e
        };
        Shape { kind: TokenKind::Comment, vs: i + 2, ve: e, next }
    } else if c == '/' && i + 1 < s.len() && s[i + 1] == '*' {
        let e = scan_to_close(s, i + 2);
        if e + 1 < s.len() {
            Shape { kind: TokenKind::Comment, vs: i + 2, ve: e, next: e + 2 }
        } else {
            // Unterminated block comment: error, value is the rest of the line.
            let e2 = scan_to_char(s, i, '\n');
            Shape { kind: TokenKind::Error, vs: i, ve: e2, next: e2 }
        }
    } else if is_ident_char(c) {
        let e = scan_ident_end(s, i);
        Shape { kind: word_kind(s.subrange(i, e)), vs: i, ve: e, next: e }
    } else if c == '\'' || c == '"' {
        let e = scan_to_char(s, i + 1, c);
        if e < s.len() {
            Shape { kind: TokenKind::StringLiteral, vs: i + 1, ve: e, next: e + 1 }
        } else {
            // Unterminated string literal: error, value is the rest of the line.
            let e2 = scan_to_char(s, i, '\n');
            Shape { kind: TokenKind::Error, vs: i, ve: e2, next: e2 }
        }
    } else if c == '&' && i + 1 < s.len() && s[i + 1] == '&' {
        Shape { kind: TokenKind::OperatorAnd, vs: i, ve: i + 2, next: i + 2 }
    } else if c == '|' && i + 1 < s.len() && s[i + 1] == '|' {
        Shape { kind: TokenKind::OperatorOr, vs: i, ve: i + 2, next: i + 2 }
    } else if c == '=' && i + 1 < s.len() && s[i + 1] == '>' {
        Shape { kind: TokenKind::OperatorAssign, vs: i, ve: i + 2, next: i + 2 }
    } else if c == '!' {
        Shape { kind: TokenKind::OperatorNot, vs: i, ve: i + 1, next: i + 1 }
    } else if c == '=' {
        Shape { kind: TokenKind::OperatorAssign, vs: i, ve: i + 1, next: i + 1 }
    } else if c == '.' {
        Shape { kind: TokenKind::OperatorDot, vs: i, ve: i + 1, next: i + 1 }
    } else if c == ':' {
        Shape { kind: TokenKind::OperatorColon, vs: i, ve: i + 1, next: i + 1 }
    } else if c == ',' {
        Shape { kind: TokenKind::OperatorComma, vs: i, ve: i + 1, next: i + 1 }
    } else if c == '(' {
        Shape { kind: TokenKind::ParenLeft, vs: i, ve: i + 1, next: i + 1 }
    } else if c == ')' {
        Shape { kind: TokenKind::ParenRight, vs: i, ve: i + 1, next: i + 1 }
    } else if c == '{' {
        Shape { kind: TokenKind::BraceLeft, vs: i, ve: i + 1, next: i + 1 }
    } else if c == '}' {
        Shape { kind: TokenKind::BraceRight, vs: i, ve: i + 1, next: i + 1 }
    } else if c == '[' {
        Shape { kind: TokenKind::BracketLeft, vs: i, ve: i + 1, next: i + 1 }
    } else if c == ']' {
        Shape { kind: TokenKind::BracketRight, vs: i, ve: i + 1, next: i + 1 }
    } else if c == '<' {
        Shape { kind: TokenKind::AngledLeft, vs: i, ve: i + 1, next: i + 1 }
    } else if c == '>' {
        Shape { kind: TokenKind::AngledRight, vs: i, ve: i + 1, next: i + 1 }
    } else if c == ';' {
        Shape { kind: TokenKind::SemiColon, vs: i, ve: i + 1, next: i + 1 }
    } else if c == '|' {
        Shape { kind: TokenKind::TypeUnion, vs: i, ve: i + 1, next: i + 1 }
    } else {
        // Unrecognised character: error fragment to the next whitespace or
        // bracket, so lexing is total.
        let e = scan_resync(s, i + 1);
        Shape { kind: TokenKind::Error, vs: i, ve: e, next: e }
    }
}

pub proof fn lemma_token_shape(s: Seq<char>, i: int)
    requires
        0 <= i < s.len(),
        !is_space_char(s[i]),
    ensures
        i < token_shape(s, i).next <= s.len(),
        0 <= token_shape(s, i).vs <= token_shape(s, i).ve <= s.len(),
{
    let c = s[i];
    if c == '/' && i + 1 < s.len() && s[i + 1] == '/' {
        lemma_scan_to_char(s, i + 2, '\n');
    } else if c == '/' && i + 1 < s.len() && s[i + 1] == '*' {
        lemma_scan_to_close(s, i + 2);
        lemma_scan_to_char(s, i, '\n');
        // A newline is whitespace, so the error fragment is non-empty.
        assert(scan_to_char(s, i, '\n') > i);
    } else if is_ident_char(c) {
        lemma_scan_ident_end(s, i);
        assert(scan_ident_end(s, i) > i);
    } else if c == '\'' || c == '"' {
        lemma_scan_to_char(s, i + 1, c);
        lemma_scan_to_char(s, i, '\n');
        assert(scan_to_char(s, i, '\n') > i);
    } else if c == '&' && i + 1 < s.len() && s[i + 1] == '&' {
    } else if c == '|' && i + 1 < s.len() && s[i + 1] == '|' {
    } else if c == '=' && i + 1 < s.len() && s[i + 1] == '>' {
    } else if c == '!' || c == '=' || c == '.' || c == ':' || c == ',' || c == '(' || c == ')'
        || c == '{' || c == '}' || c == '[' || c == ']' || c == '<' || c == '>' || c == ';' || c
        == '|' {
    } else {
        lemma_scan_resync(s, i + 1);
    }
}

// ---------------------------------------------------------------------------
// The token stream
// ---------------------------------------------------------------------------

/// The model of the token starting at `i` when the reader stands at
/// (`line`, `col`).
pub open spec fn token_model_at(s: Seq<char>, i: int, line: u32, col: usize) -> TokenModel {
    let sh = token_shape(s, i);
    TokenModel {
        kind: sh.kind,
        value: s.subrange(sh.vs, sh.ve),
        line: Some(line),
        column: Some(col),
    }
}

/// The tokens lexed from position `i` onward, with the reader at
/// (`line`, `col`): whitespace is skipped, comments are dropped, everything
/// else is emitted in order.
pub open spec fn spec_lex_from(s: Seq<char>, i: int, line: u32, col: usize) -> Seq<TokenModel>
    decreases s.len() - i,
{
    if i < 0 || i >= s.len() {
        Seq::empty()
    } else if is_space_char(s[i]) {
        spec_lex_from(s, i + 1, adv_line(line, s[i]), adv_col(col, s[i]))
    } else {
        let sh = token_shape(s, i);
        let t = token_model_at(s, i, line, col);
        let p = adv_pos(line, col, s.subrange(i, sh.next));
        proof {
            lemma_token_shape(s, i);
        }
        let rest = spec_lex_from(s, sh.next, p.0, p.1);
        if sh.kind == TokenKind::Comment {
            rest
        } else {
            seq![t] + rest
        }
    }
}

/// The complete token stream of a source text: deterministic, comment-free,
/// empty input gives the empty stream.
pub open spec fn spec_tokenize(s: Seq<char>) -> Seq<TokenModel> {
    spec_lex_from(s, 0, 1, 1)
}

/// Every token of the stream is well formed: line and column at least 1 and
/// never a comment.
pub proof fn lemma_lex_from_wf(s: Seq<char>, i: int, line: u32, col: usize)
    requires
        line >= 1,
        col >= 1,
    ensures
        forall|k: int|
            0 <= k < spec_lex_from(s, i, line, col).len() ==> token_wf(
                #[trigger] spec_lex_from(s, i, line, col)[k],
            ),
    decreases s.len() - i,
{
    let res = spec_lex_from(s, i, line, col);
    if i < 0 || i >= s.len() {
    } else if is_space_char(s[i]) {
        lemma_lex_from_wf(s, i + 1, adv_line(line, s[i]), adv_col(col, s[i]));
        let rest = spec_lex_from(s, i + 1, adv_line(line, s[i]), adv_col(col, s[i]));
        assert(res == rest);
        assert forall|k: int| 0 <= k < res.len() implies token_wf(res[k]) by {
            assert(token_wf(rest[k]));
        }
    } else {
        let sh = token_shape(s, i);
        lemma_token_shape(s, i);
        let t = token_model_at(s, i, line, col);
        let p = adv_pos(line, col, s.subrange(i, sh.next));
        lemma_adv_pos_ge_one(line, col, s.subrange(i, sh.next));
        lemma_lex_from_wf(s, sh.next, p.0, p.1);
        let rest = spec_lex_from(s, sh.next, p.0, p.1);
        if sh.kind == TokenKind::Comment {
            assert(res == rest);
            assert forall|k: int| 0 <= k < res.len() implies token_wf(res[k]) by {
                assert(token_wf(rest[k]));
            }
        } else {
            assert(res == seq![t] + rest);
            assert(token_wf(t));
            assert forall|k: int| 0 <= k < res.len() implies token_wf(res[k]) by {
                if k == 0 {
                    assert(res[k] == t);
                } else {
                    assert(res[k] == rest[k - 1]);
                    assert(token_wf(rest[k - 1]));
                }
            }
        }
    }
}

/// The token stream of any source is well formed.
pub proof fn lemma_token_stream_wf(s: Seq<char>)
    ensures
        forall|k: int|
            0 <= k < spec_tokenize(s).len() ==> token_wf(#[trigger] spec_tokenize(s)[k]),
{
    lemma_lex_from_wf(s, 0, 1, 1);
}

// ---------------------------------------------------------------------------
// The executable lexer
// ---------------------------------------------------------------------------

/// Lexer over a borrowed source text.
pub struct Lexer<'a> {
    pub source: &'a str,
}

impl<'a> Lexer<'a> {
    pub fn new(source: &'a str) -> (r: Self)
        ensures
            r.source@ == source@,
    {
        Lexer { source }
    }

    /// Classifies one identifier-shaped word.
    fn keyword_kind(w: &String) -> (r: TokenKind)
        ensures
            r == word_kind(w@),
    {
        if w.eq(&"class".to_owned()) {
            TokenKind::KeywordClass
        } else if w.eq(&"implements".to_owned()) {
            TokenKind::KeywordImplements
        } else if w.eq(&"related".to_owned()) {
            TokenKind::KeywordRelated
        } else if w.eq(&"permits".to_owned()) {
            TokenKind::KeywordPermits
        } else if w.eq(&"this".to_owned()) {
            TokenKind::KeywordThis
        } else if w.eq(&"ctx".to_owned()) {
            TokenKind::KeywordCtx
        } else if w.eq(&"Namespace".to_owned()) {
            TokenKind::KeywordNamespace
        } else {
            TokenKind::Identifier
        }
    }

    /// Computes the shape of the token at `i`: kind, text range, resume
    /// position.
    fn shape_at(&self, i: usize, n: usize) -> (r: (TokenKind, usize, usize, usize))
        requires
            n == self.source@.len(),
            i < n,
            !is_space_char(self.source@[i as int]),
        ensures
            ({
                let sh = token_shape(self.source@, i as int);
                r.0 == sh.kind && r.1 == sh.vs && r.2 == sh.ve && r.3 == sh.next
            }),
    {
        let s = self.source;
        let c = s.get_char(i);
        if c == '/' && i + 1 < n && s.get_char(i + 1) == '/' {
            let e = find_char(s, i + 2, n, '\n');
            let next = if e < n {
                e + 1
            } else {
                e
            };
            (TokenKind::Comment, i + 2, e, next)
        } else if c == '/' && i + 1 < n && s.get_char(i + 1) == '*' {
            let e = find_close(s, i + 2, n);
            if n - e >= 2 {
                (TokenKind::Comment, i + 2, e, e + 2)
            } else {
                let e2 = find_char(s, i, n, '\n');
                (TokenKind::Error, i, e2, e2)
            }
        } else if ident_char(c) {
            let e = find_ident_end(s, i, n);
            proof {
                lemma_scan_ident_end(s@, i as int);
            }
            let w = s.substring_char(i, e).to_owned();
            (Self::keyword_kind(&w), i, e, e)
        } else if c == '\'' || c == '"' {
            let e = find_char(s, i + 1, n, c);
            if e < n {
                (TokenKind::StringLiteral, i + 1, e, e + 1)
            } else {
                let e2 = find_char(s, i, n, '\n');
                (TokenKind::Error, i, e2, e2)
            }
        } else if c == '&' && i + 1 < n && s.get_char(i + 1) == '&' {
            (TokenKind::OperatorAnd, i, i + 2, i + 2)
        } else if c == '|' && i + 1 < n && s.get_char(i + 1) == '|' {
            (TokenKind::OperatorOr, i, i + 2, i + 2)
        } else if c == '=' && i + 1 < n && s.get_char(i + 1) == '>' {
            (TokenKind::OperatorAssign, i, i + 2, i + 2)
        } else if c == '!' {
            (TokenKind::OperatorNot, i, i + 1, i + 1)
        } else if c == '=' {
            (TokenKind::OperatorAssign, i, i + 1, i + 1)
        } else if c == '.' {
            (TokenKind::OperatorDot, i, i + 1, i + 1)
        } else if c == ':' {
            (TokenKind::OperatorColon, i, i + 1, i + 1)
        } else if c == ',' {
            (TokenKind::OperatorComma, i, i + 1, i + 1)
        } else if c == '(' {
            (TokenKind::ParenLeft, i, i + 1, i + 1)
        } else if c == ')' {
            (TokenKind::ParenRight, i, i + 1, i + 1)
        } else if c == '{' {
            (TokenKind::BraceLeft, i, i + 1, i + 1)
        } else if c == '}' {
            (TokenKind::BraceRight, i, i + 1, i + 1)
        } else if c == '[' {
            (TokenKind::BracketLeft, i, i + 1, i + 1)
        } else if c == ']' {
            (TokenKind::BracketRight, i, i + 1, i + 1)
        } else if c == '<' {
            (TokenKind::AngledLeft, i, i + 1, i + 1)
        } else if c == '>' {
            (TokenKind::AngledRight, i, i + 1, i + 1)
        } else if c == ';' {
            (TokenKind::SemiColon, i, i + 1, i + 1)
        } else if c == '|' {
            (TokenKind::TypeUnion, i, i + 1, i + 1)
        } else {
            let e = find_resync(s, i + 1, n);
            (TokenKind::Error, i, e, e)
        }
    }

    /// Lexes the single token starting at character position `i` of the
    /// source, together with the position lexing resumes at. `None` when `i`
    /// is past the end or on whitespace. Unlike `tokenize`, this also hands
    /// out comment tokens.
    pub fn lex_token(&self, i: usize) -> (r: Option<(Token, usize)>)
        ensures
            match r {
                Option::Some(p) => {
                    &&& i < self.source@.len()
                    &&& !is_space_char(self.source@[i as int])
                    &&& ({
                        let sh = token_shape(self.source@, i as int);
                        let pos = adv_pos(1, 1, self.source@.subrange(0, i as int));
                        &&& p.0@ == token_model_at(self.source@, i as int, pos.0, pos.1)
                        &&& p.1 == sh.next
                    })
                },
                Option::None => i >= self.source@.len() || is_space_char(
                    self.source@[i as int],
                ),
            },
    {
        let s = self.source;
        let n = s.unicode_len();
        if i >= n {
            return None;
        }
        if space_char(s.get_char(i)) {
            return None;
        }
        let (line, col) = advance_pos(s, 0, i, 1, 1);
        let (kind, vs, ve, next) = self.shape_at(i, n);
        proof {
            lemma_token_shape(s@, i as int);
        }
        let value = s.substring_char(vs, ve).to_owned();
        Some((Token::new(kind, value, line, col), next))
    }

    /// Lexes the whole source into tokens, exactly as the functional model
    /// `spec_tokenize` describes: positions are 1-based, comments are
    /// recognised but never emitted, and the empty input yields no tokens.
    pub fn tokenize(&self) -> (r: Vec<Token>)
        ensures
            views_of(r@) == spec_tokenize(self.source@),
            forall|k: int| 0 <= k < r@.len() ==> token_wf(#[trigger] r@[k]@),
    {
        let s = self.source;
        let n = s.unicode_len();
        let mut tokens: Vec<Token> = Vec::new();
        let mut i: usize = 0;
        let mut line: u32 = 1;
        let mut col: usize = 1;
        proof {
            assert(views_of(tokens@) =~= Seq::<TokenModel>::empty());
        }
        while i < n
            invariant
                s == self.source,
                n == s@.len(),
                i <= n,
                line >= 1,
                col >= 1,
                views_of(tokens@) + spec_lex_from(s@, i as int, line, col) =~= spec_tokenize(s@),
                forall|k: int| 0 <= k < tokens@.len() ==> token_wf(#[trigger] tokens@[k]@),
            decreases n - i,
        {
            let c = s.get_char(i);
            if space_char(c) {
                if c == '\n' {
                    if line < 0xffff_ffffu32 {
                        line = line + 1;
                    }
                    col = 1;
                } else {
                    if col < usize::MAX {
                        col = col + 1;
                    }
                }
                i = i + 1;
            } else {
                let (kind, vs, ve, next) = self.shape_at(i, n);
                proof {
                    lemma_token_shape(s@, i as int);
                }
                let ghost old_tokens = tokens@;
                if !matches!(kind, TokenKind::Comment) {
                    let value = s.substring_char(vs, ve).to_owned();
                    let t = Token::new(kind, value, line, col);
                    proof {
                        assert(t@ == token_model_at(s@, i as int, line, col));
                        assert(views_of(old_tokens.push(t)) =~= views_of(old_tokens).push(t@));
                    }
                    tokens.push(t);
                }
                let p = advance_pos(s, i, next, line, col);
                proof {
                    lemma_adv_pos_ge_one(line, col, s@.subrange(i as int, next as int));
                    if kind != TokenKind::Comment {
                        assert(views_of(tokens@) + spec_lex_from(s@, next as int, p.0, p.1)
                            =~= views_of(old_tokens) + spec_lex_from(s@, i as int, line, col));
                    }
                }
                line = p.0;
                col = p.1;
                i = next;
            }
        }
        proof {
            assert(spec_lex_from(s@, i as int, line, col) =~= Seq::<TokenModel>::empty());
            assert(views_of(tokens@) =~= spec_tokenize(s@));
        }
        tokens
    }
}

} // verus!
