//! Recursive-descent parser from tokens to a `Schema`.
//!
//! The parser collects structured errors: non-fatal errors make it skip to a
//! synchronising token (`;`, `}`, or the next `class`) and resume; fatal
//! errors (unexpected end of input, or an `Error` token from the lexer) stop
//! top-level parsing. Every rewrite tree it builds satisfies `rewrite_wf`
//! (each node has at least one child) and `rewrite_flat` (consecutive `||`
//! and `&&` at one level are flattened into a single node).

use vstd::prelude::*;

use crate::cursor::TokenCursor;
use crate::error::ParserError;
use crate::schema::{
    child_flat, child_flat_under, child_view, child_wf, namespace_view, namespace_views,
    namespace_wf, relation_type_view, relation_view, relation_views, relation_wf, rewrite_flat,
    rewrite_view,
    rewrite_wf, schema_view, schema_wf, AttributeType, Child, ChildV, Namespace, NamespaceV,
    Operator, Relation, RelationType, RelationTypeV, RelationV, RewriteV, Schema, SchemaV,
    SubjectSetRewrite,
};
use crate::token::{views_of, TokenModel};
use crate::token::{Token, TokenKind};

verus! {

/// Most `traverse` steps a permission rule may chain. The grammar only
/// admits a single step per walk, so parsing can never exceed this bound;
/// it is stated for schema consumers that compose walks.
pub const TUPLE_TO_SUBJECT_SET_TYPE_CHECK_MAX_DEPTH: usize = 10;

/// Most nesting levels (parenthesised sub-expressions) a permission
/// expression may have; exceeding it is a non-fatal parse error.
pub const EXPRESSION_NESTING_MAX_DEPTH: usize = 10;

// ---------------------------------------------------------------------------
// The functional model of the grammar
// ---------------------------------------------------------------------------

/// Model of one parser diagnostic.
#[verifier::ext_equal]
pub ghost struct PErrorV {
    pub message: Seq<char>,
    pub line: Option<u32>,
    pub column: Option<usize>,
    pub fatal: bool,
}

pub open spec fn perror_view(e: ParserError) -> PErrorV {
    PErrorV { message: e.message@, line: e.line, column: e.column, fatal: e.fatal }
}

pub open spec fn perror_views(es: Seq<ParserError>) -> Seq<PErrorV> {
    es.map_values(|e: ParserError| perror_view(e))
}

/// One step of the model parser: the parsed value and the position parsing
/// resumes at, or the diagnostic and the position parsing stopped at.
#[verifier::ext_equal]
pub ghost enum PStep<T> {
    Done { val: T, next: int },
    Fail { err: PErrorV, next: int },
}

/// The position is past the last token or on an end-of-file token.
pub open spec fn spec_at_end(toks: Seq<TokenModel>, i: int) -> bool {
    i >= toks.len() || toks[i].kind == TokenKind::Eof
}

/// The position holds a token of the given kind.
pub open spec fn spec_peek_is(toks: Seq<TokenModel>, i: int, kind: TokenKind) -> bool {
    0 <= i < toks.len() && toks[i].kind == kind
}

/// A diagnostic at the position of token `i` (no position past the end).
pub open spec fn err_at(toks: Seq<TokenModel>, i: int, msg: Seq<char>, fatal: bool) -> PErrorV {
    if 0 <= i < toks.len() {
        PErrorV { message: msg, line: toks[i].line, column: toks[i].column, fatal }
    } else {
        PErrorV { message: msg, line: None, column: None, fatal }
    }
}

/// What consuming one token of kind `kind` yields: the token and the next
/// position; end of input and lexer error tokens fail fatally, a kind
/// mismatch fails recoverably with `msg`, leaving the position in place.
pub open spec fn spec_consume(
    toks: Seq<TokenModel>,
    i: int,
    kind: TokenKind,
    msg: Seq<char>,
) -> PStep<TokenModel> {
    if i < 0 || i >= toks.len() || toks[i].kind == TokenKind::Eof {
        PStep::Fail { err: err_at(toks, i, "unexpected end of file"@, true), next: i }
    } else if toks[i].kind == TokenKind::Error {
        PStep::Fail { err: err_at(toks, i, "lexical error in input"@, true), next: i }
    } else if toks[i].kind == kind {
        PStep::Done { val: toks[i], next: i + 1 }
    } else {
        PStep::Fail { err: err_at(toks, i, msg, false), next: i }
    }
}

/// Consuming an identifier yields its text.
pub open spec fn spec_consume_identifier(toks: Seq<TokenModel>, i: int) -> PStep<Seq<char>> {
    match spec_consume(toks, i, TokenKind::Identifier, "expected identifier"@) {
        PStep::Done { val, next } => PStep::Done { val: val.value, next },
        PStep::Fail { err, next } => PStep::Fail { err, next },
    }
}

/// A name comes as an identifier or a string literal.
pub open spec fn spec_consume_name(toks: Seq<TokenModel>, i: int) -> PStep<Seq<char>> {
    if spec_peek_is(toks, i, TokenKind::StringLiteral) {
        PStep::Done { val: toks[i].value, next: i + 1 }
    } else {
        spec_consume_identifier(toks, i)
    }
}

/// A property name: `.name`, `."name"`, `[name]`, or `["name"]`.
pub open spec fn spec_parse_property_name(toks: Seq<TokenModel>, i: int) -> PStep<Seq<char>> {
    if spec_peek_is(toks, i, TokenKind::BracketLeft) {
        match spec_consume_name(toks, i + 1) {
            PStep::Fail { err, next } => PStep::Fail { err, next },
            PStep::Done { val, next } => match spec_consume(
                toks,
                next,
                TokenKind::BracketRight,
                "expected ']'"@,
            ) {
                PStep::Fail { err, next } => PStep::Fail { err, next },
                PStep::Done { val: _, next } => PStep::Done { val, next },
            },
        }
    } else {
        match spec_consume(toks, i, TokenKind::OperatorDot, "expected '.'"@) {
            PStep::Fail { err, next } => PStep::Fail { err, next },
            PStep::Done { val: _, next } => spec_consume_name(toks, next),
        }
    }
}

/// The singleton node a leaf lowers to.
pub open spec fn leaf_node(c: ChildV) -> RewriteV {
    RewriteV { operation: Operator::And, children: seq![c] }
}

/// `.includes(ctx.subject)` after `this.related.X`: a computed subject set
/// on `X`.
pub open spec fn spec_parse_includes(toks: Seq<TokenModel>, i: int, relation: Seq<char>) -> PStep<
    RewriteV,
> {
    match spec_consume(toks, i, TokenKind::ParenLeft, "expected '('"@) {
        PStep::Fail { err, next } => PStep::Fail { err, next },
        PStep::Done { val: _, next: i1 } => match spec_consume(
            toks,
            i1,
            TokenKind::KeywordCtx,
            "expected 'ctx'"@,
        ) {
            PStep::Fail { err, next } => PStep::Fail { err, next },
            PStep::Done { val: _, next: i2 } => match spec_consume(
                toks,
                i2,
                TokenKind::OperatorDot,
                "expected '.'"@,
            ) {
                PStep::Fail { err, next } => PStep::Fail { err, next },
                PStep::Done { val: _, next: i3 } => match spec_consume_identifier(toks, i3) {
                    PStep::Fail { err, next } => PStep::Fail { err, next },
                    PStep::Done { val: _, next: i4 } => match spec_consume(
                        toks,
                        i4,
                        TokenKind::ParenRight,
                        "expected ')'"@,
                    ) {
                        PStep::Fail { err, next } => PStep::Fail { err, next },
                        PStep::Done { val: _, next: i5 } => PStep::Done {
                            val: leaf_node(ChildV::ComputerSubjectSet { relation }),
                            next: i5,
                        },
                    },
                },
            },
        },
    }
}

/// `this.permits.X(ctx)`: a computed subject set on `X`.
pub open spec fn spec_parse_permits_expr(toks: Seq<TokenModel>, i: int) -> PStep<RewriteV> {
    match spec_parse_property_name(toks, i) {
        PStep::Fail { err, next } => PStep::Fail { err, next },
        PStep::Done { val: name, next: i1 } => match spec_consume(
            toks,
            i1,
            TokenKind::ParenLeft,
            "expected '('"@,
        ) {
            PStep::Fail { err, next } => PStep::Fail { err, next },
            PStep::Done { val: _, next: i2 } => match spec_consume(
                toks,
                i2,
                TokenKind::KeywordCtx,
                "expected 'ctx'"@,
            ) {
                PStep::Fail { err, next } => PStep::Fail { err, next },
                PStep::Done { val: _, next: i3 } => match spec_consume(
                    toks,
                    i3,
                    TokenKind::ParenRight,
                    "expected ')'"@,
                ) {
                    PStep::Fail { err, next } => PStep::Fail { err, next },
                    PStep::Done { val: _, next: i4 } => PStep::Done {
                        val: leaf_node(ChildV::ComputerSubjectSet { relation: name }),
                        next: i4,
                    },
                },
            },
        },
    }
}

/// The inner arrow of a `traverse` walk after the verb: the walked property
/// name and the trailing call, giving the computed relation.
pub open spec fn spec_parse_traverse_tail(toks: Seq<TokenModel>, i: int) -> PStep<Seq<char>> {
    if spec_peek_is(toks, i, TokenKind::KeywordRelated) {
        match spec_parse_property_name(toks, i + 1) {
            PStep::Fail { err, next } => PStep::Fail { err, next },
            PStep::Done { val: rel_name, next: i1 } => match spec_consume(
                toks,
                i1,
                TokenKind::OperatorDot,
                "expected '.'"@,
            ) {
                PStep::Fail { err, next } => PStep::Fail { err, next },
                PStep::Done { val: _, next: i2 } => match spec_consume_identifier(toks, i2) {
                    PStep::Fail { err, next } => PStep::Fail { err, next },
                    PStep::Done { val: _, next: i3 } => match spec_consume(
                        toks,
                        i3,
                        TokenKind::ParenLeft,
                        "expected '('"@,
                    ) {
                        PStep::Fail { err, next } => PStep::Fail { err, next },
                        PStep::Done { val: _, next: i4 } => match spec_consume(
                            toks,
                            i4,
                            TokenKind::KeywordCtx,
                            "expected 'ctx'"@,
                        ) {
                            PStep::Fail { err, next } => PStep::Fail { err, next },
                            PStep::Done { val: _, next: i5 } => match spec_consume(
                                toks,
                                i5,
                                TokenKind::OperatorDot,
                                "expected '.'"@,
                            ) {
                                PStep::Fail { err, next } => PStep::Fail { err, next },
                                PStep::Done { val: _, next: i6 } => match spec_consume_identifier(
                                    toks,
                                    i6,
                                ) {
                                    PStep::Fail { err, next } => PStep::Fail { err, next },
                                    PStep::Done { val: _, next: i7 } => match spec_consume(
                                        toks,
                                        i7,
                                        TokenKind::ParenRight,
                                        "expected ')'"@,
                                    ) {
                                        PStep::Fail { err, next } => PStep::Fail { err, next },
                                        PStep::Done { val: _, next: i8 } => PStep::Done {
                                            val: rel_name,
                                            next: i8,
                                        },
                                    },
                                },
                            },
                        },
                    },
                },
            },
        }
    } else if spec_peek_is(toks, i, TokenKind::KeywordPermits) {
        match spec_parse_property_name(toks, i + 1) {
            PStep::Fail { err, next } => PStep::Fail { err, next },
            PStep::Done { val: rel_name, next: i1 } => match spec_consume(
                toks,
                i1,
                TokenKind::ParenLeft,
                "expected '('"@,
            ) {
                PStep::Fail { err, next } => PStep::Fail { err, next },
                PStep::Done { val: _, next: i2 } => match spec_consume(
                    toks,
                    i2,
                    TokenKind::KeywordCtx,
                    "expected 'ctx'"@,
                ) {
                    PStep::Fail { err, next } => PStep::Fail { err, next },
                    PStep::Done { val: _, next: i3 } => match spec_consume(
                        toks,
                        i3,
                        TokenKind::ParenRight,
                        "expected ')'"@,
                    ) {
                        PStep::Fail { err, next } => PStep::Fail { err, next },
                        PStep::Done { val: _, next: i4 } => PStep::Done {
                            val: rel_name,
                            next: i4,
                        },
                    },
                },
            },
        }
    } else {
        PStep::Fail {
            err: err_at(toks, i, "expected 'related' or 'permits'"@, false),
            next: i,
        }
    }
}

/// `.traverse(p => p...(ctx...))` after `this.related.X`: a walk from `X`
/// to the computed relation of the arrow body; the arrow body must
/// reference the arrow parameter.
pub open spec fn spec_parse_traverse(toks: Seq<TokenModel>, i: int, relation: Seq<char>) -> PStep<
    RewriteV,
> {
    match spec_consume(toks, i, TokenKind::ParenLeft, "expected '('"@) {
        PStep::Fail { err, next } => PStep::Fail { err, next },
        PStep::Done { val: _, next: i1 } => {
            let i1b = if spec_peek_is(toks, i1, TokenKind::ParenLeft) {
                i1 + 1
            } else {
                i1
            };
            match spec_consume_identifier(toks, i1b) {
                PStep::Fail { err, next } => PStep::Fail { err, next },
                PStep::Done { val: param, next: i2 } => {
                    let i2b = if spec_peek_is(toks, i2, TokenKind::ParenRight) {
                        i2 + 1
                    } else {
                        i2
                    };
                    match spec_consume(toks, i2b, TokenKind::OperatorAssign, "expected '=>'"@) {
                        PStep::Fail { err, next } => PStep::Fail { err, next },
                        PStep::Done { val: _, next: i3 } => match spec_consume_identifier(
                            toks,
                            i3,
                        ) {
                            PStep::Fail { err, next } => PStep::Fail { err, next },
                            PStep::Done { val: param_ref, next: i4 } => {
                                if param_ref != param {
                                    PStep::Fail {
                                        err: err_at(
                                            toks,
                                            i4,
                                            "arrow body must reference the arrow parameter"@,
                                            false,
                                        ),
                                        next: i4,
                                    }
                                } else {
                                    match spec_consume(
                                        toks,
                                        i4,
                                        TokenKind::OperatorDot,
                                        "expected '.'"@,
                                    ) {
                                        PStep::Fail { err, next } => PStep::Fail { err, next },
                                        PStep::Done { val: _, next: i5 } => {
                                            match spec_parse_traverse_tail(toks, i5) {
                                                PStep::Fail { err, next } => PStep::Fail {
                                                    err,
                                                    next,
                                                },
                                                PStep::Done { val: target, next: i6 } => {
                                                    match spec_consume(
                                                        toks,
                                                        i6,
                                                        TokenKind::ParenRight,
                                                        "expected ')'"@,
                                                    ) {
                                                        PStep::Fail { err, next } => PStep::Fail {
                                                            err,
                                                            next,
                                                        },
                                                        PStep::Done { val: _, next: i7 } => {
                                                            PStep::Done {
                                                                val: leaf_node(
                                                                    ChildV::TupleToSubjectSet {
                                                                        relation,
                                                                        computed_subject_set_relation:
                                                                            target,
                                                                    },
                                                                ),
                                                                next: i7,
                                                            }
                                                        },
                                                    }
                                                },
                                            }
                                        },
                                    }
                                }
                            },
                        },
                    }
                },
            }
        },
    }
}

/// What follows `this.related`: a bare attribute reference, `.includes`, or
/// `.traverse`.
pub open spec fn spec_parse_related_expr(toks: Seq<TokenModel>, i: int) -> PStep<RewriteV> {
    match spec_parse_property_name(toks, i) {
        PStep::Fail { err, next } => PStep::Fail { err, next },
        PStep::Done { val: name, next: i1 } => {
            if !spec_peek_is(toks, i1, TokenKind::OperatorDot) {
                PStep::Done { val: leaf_node(ChildV::AttributeReference { relation: name }), next: i1 }
            } else {
                match spec_consume(toks, i1, TokenKind::OperatorDot, "expected '.'"@) {
                    PStep::Fail { err, next } => PStep::Fail { err, next },
                    PStep::Done { val: _, next: i2 } => match spec_consume_identifier(toks, i2) {
                        PStep::Fail { err, next } => PStep::Fail { err, next },
                        PStep::Done { val: method, next: i3 } => {
                            if method == "includes"@ {
                                spec_parse_includes(toks, i3, name)
                            } else if method == "traverse"@ {
                                spec_parse_traverse(toks, i3, name)
                            } else {
                                PStep::Fail {
                                    err: err_at(
                                        toks,
                                        i3,
                                        "expected 'includes' or 'traverse'"@,
                                        false,
                                    ),
                                    next: i3,
                                }
                            }
                        },
                    },
                }
            }
        },
    }
}

/// `this.related...` or `this.permits...`.
pub open spec fn spec_parse_simple(toks: Seq<TokenModel>, i: int) -> PStep<RewriteV> {
    match spec_consume(toks, i, TokenKind::KeywordThis, "expected 'this'"@) {
        PStep::Fail { err, next } => PStep::Fail { err, next },
        PStep::Done { val: _, next: i1 } => match spec_consume(
            toks,
            i1,
            TokenKind::OperatorDot,
            "expected '.'"@,
        ) {
            PStep::Fail { err, next } => PStep::Fail { err, next },
            PStep::Done { val: _, next: i2 } => {
                if spec_peek_is(toks, i2, TokenKind::KeywordRelated) {
                    spec_parse_related_expr(toks, i2 + 1)
                } else if spec_peek_is(toks, i2, TokenKind::KeywordPermits) {
                    spec_parse_permits_expr(toks, i2 + 1)
                } else {
                    PStep::Fail {
                        err: err_at(toks, i2, "expected 'related' or 'permits'"@, false),
                        next: i2,
                    }
                }
            },
        },
    }
}

/// The models of a child sequence.
pub open spec fn child_views(cs: Seq<Child>) -> Seq<ChildV> {
    cs.map_values(|c: Child| child_view(c))
}

/// Flattening combination of two operands under `op`: an operand whose own
/// operator is `op` contributes its children directly, any other operand is
/// wrapped as a nested rewrite.
pub open spec fn spec_combine(a: RewriteV, b: RewriteV, op: Operator) -> RewriteV {
    let left = if a.operation == op {
        a.children
    } else {
        seq![ChildV::Rewrite { rewrite: Box::new(a) }]
    };
    let right = if b.operation == op {
        b.children
    } else {
        seq![ChildV::Rewrite { rewrite: Box::new(b) }]
    };
    RewriteV { operation: op, children: left + right }
}

/// A permission expression; `depth` bounds parenthesised nesting.
pub open spec fn spec_parse_expression(toks: Seq<TokenModel>, i: int, depth: int) -> PStep<
    RewriteV,
>
    decreases toks.len() - i, 4int,
{
    spec_parse_or(toks, i, depth)
}

/// `A || B || ...`, flattened left to right.
pub open spec fn spec_parse_or(toks: Seq<TokenModel>, i: int, depth: int) -> PStep<RewriteV>
    decreases toks.len() - i, 3int,
{
    match spec_parse_and(toks, i, depth) {
        PStep::Fail { err, next } => PStep::Fail { err, next },
        PStep::Done { val, next } => {
            if i < next <= toks.len() {
                spec_parse_or_rest(toks, next, depth, val)
            } else {
                // Never taken: every successful operand consumes input.
                PStep::Done { val, next }
            }
        },
    }
}

/// The `(|| And)*` continuation with the accumulated left operand.
pub open spec fn spec_parse_or_rest(toks: Seq<TokenModel>, i: int, depth: int, acc: RewriteV)
    -> PStep<RewriteV>
    decreases toks.len() - i, 3int,
{
    if !spec_peek_is(toks, i, TokenKind::OperatorOr) {
        PStep::Done { val: acc, next: i }
    } else {
        match spec_parse_and(toks, i + 1, depth) {
            PStep::Fail { err, next } => PStep::Fail { err, next },
            PStep::Done { val, next } => {
                if i < next <= toks.len() {
                    spec_parse_or_rest(toks, next, depth, spec_combine(acc, val, Operator::Or))
                } else {
                    // Never taken: every successful operand consumes input.
                    PStep::Done { val: spec_combine(acc, val, Operator::Or), next }
                }
            },
        }
    }
}

/// `A && B && ...`, flattened left to right.
pub open spec fn spec_parse_and(toks: Seq<TokenModel>, i: int, depth: int) -> PStep<RewriteV>
    decreases toks.len() - i, 2int,
{
    match spec_parse_unary(toks, i, depth) {
        PStep::Fail { err, next } => PStep::Fail { err, next },
        PStep::Done { val, next } => {
            if i < next <= toks.len() {
                spec_parse_and_rest(toks, next, depth, val)
            } else {
                // Never taken: every successful operand consumes input.
                PStep::Done { val, next }
            }
        },
    }
}

/// The `(&& Unary)*` continuation with the accumulated left operand.
pub open spec fn spec_parse_and_rest(toks: Seq<TokenModel>, i: int, depth: int, acc: RewriteV)
    -> PStep<RewriteV>
    decreases toks.len() - i, 2int,
{
    if !spec_peek_is(toks, i, TokenKind::OperatorAnd) {
        PStep::Done { val: acc, next: i }
    } else {
        match spec_parse_unary(toks, i + 1, depth) {
            PStep::Fail { err, next } => PStep::Fail { err, next },
            PStep::Done { val, next } => {
                if i < next <= toks.len() {
                    spec_parse_and_rest(toks, next, depth, spec_combine(acc, val, Operator::And))
                } else {
                    // Never taken: every successful operand consumes input.
                    PStep::Done { val: spec_combine(acc, val, Operator::And), next }
                }
            },
        }
    }
}

/// `!X` lowers to a singleton `And` over `InvertResult(Rewrite(X))`.
pub open spec fn spec_parse_unary(toks: Seq<TokenModel>, i: int, depth: int) -> PStep<RewriteV>
    decreases toks.len() - i, 1int,
{
    if spec_peek_is(toks, i, TokenKind::OperatorNot) {
        match spec_parse_primary(toks, i + 1, depth) {
            PStep::Fail { err, next } => PStep::Fail { err, next },
            PStep::Done { val, next } => PStep::Done {
                val: leaf_node(
                    ChildV::InvertResult {
                        child: Box::new(ChildV::Rewrite { rewrite: Box::new(val) }),
                    },
                ),
                next,
            },
        }
    } else {
        spec_parse_primary(toks, i, depth)
    }
}

/// A parenthesised expression (one nesting level deeper) or a simple
/// `this....` expression; at exhausted depth the parenthesis is refused.
pub open spec fn spec_parse_primary(toks: Seq<TokenModel>, i: int, depth: int) -> PStep<RewriteV>
    decreases toks.len() - i, 0int,
{
    if spec_peek_is(toks, i, TokenKind::ParenLeft) {
        if depth <= 0 {
            PStep::Fail {
                err: err_at(toks, i, "expression nested too deeply"@, false),
                next: i,
            }
        } else {
            match spec_parse_expression(toks, i + 1, depth - 1) {
                PStep::Fail { err, next } => PStep::Fail { err, next },
                PStep::Done { val, next } => match spec_consume(
                    toks,
                    next,
                    TokenKind::ParenRight,
                    "expected ')'"@,
                ) {
                    PStep::Fail { err, next } => PStep::Fail { err, next },
                    PStep::Done { val: _, next } => PStep::Done { val, next },
                },
            }
        }
    } else {
        spec_parse_simple(toks, i)
    }
}

/// The models of a type-alternative sequence.
pub open spec fn type_views(ts: Seq<RelationType>) -> Seq<RelationTypeV> {
    ts.map_values(|t: RelationType| relation_type_view(t))
}

/// `SubjectSet<Namespace, relation>` with an optional `[]` suffix.
pub open spec fn spec_parse_subject_set_type(toks: Seq<TokenModel>, i: int) -> PStep<
    Seq<RelationTypeV>,
> {
    match spec_consume(toks, i, TokenKind::AngledLeft, "expected '<'"@) {
        PStep::Fail { err, next } => PStep::Fail { err, next },
        PStep::Done { val: _, next: i1 } => match spec_consume_identifier(toks, i1) {
            PStep::Fail { err, next } => PStep::Fail { err, next },
            PStep::Done { val: ns, next: i2 } => match spec_consume(
                toks,
                i2,
                TokenKind::OperatorComma,
                "expected ','"@,
            ) {
                PStep::Fail { err, next } => PStep::Fail { err, next },
                PStep::Done { val: _, next: i3 } => match spec_consume_name(toks, i3) {
                    PStep::Fail { err, next } => PStep::Fail { err, next },
                    PStep::Done { val: rel, next: i4 } => match spec_consume(
                        toks,
                        i4,
                        TokenKind::AngledRight,
                        "expected '>'"@,
                    ) {
                        PStep::Fail { err, next } => PStep::Fail { err, next },
                        PStep::Done { val: _, next: i5 } => {
                            let i6 = if spec_peek_is(toks, i5, TokenKind::BracketLeft) {
                                i5 + 1
                            } else {
                                i5
                            };
                            let i7 = if spec_peek_is(toks, i6, TokenKind::BracketRight) {
                                i6 + 1
                            } else {
                                i6
                            };
                            PStep::Done {
                                val: seq![
                                    RelationTypeV::Reference { namespace: ns, relation: Some(rel) },
                                ],
                                next: i7,
                            }
                        },
                    },
                },
            },
        },
    }
}

/// The `(| Member)*` continuation of a type union, with the members so far,
/// followed by the closing `)[]`.
pub open spec fn spec_parse_union_rest(
    toks: Seq<TokenModel>,
    i: int,
    acc: Seq<RelationTypeV>,
) -> PStep<Seq<RelationTypeV>>
    decreases toks.len() - i,
{
    if !spec_peek_is(toks, i, TokenKind::TypeUnion) {
        match spec_consume(toks, i, TokenKind::ParenRight, "expected ')'"@) {
            PStep::Fail { err, next } => PStep::Fail { err, next },
            PStep::Done { val: _, next: i1 } => match spec_consume(
                toks,
                i1,
                TokenKind::BracketLeft,
                "expected '['"@,
            ) {
                PStep::Fail { err, next } => PStep::Fail { err, next },
                PStep::Done { val: _, next: i2 } => match spec_consume(
                    toks,
                    i2,
                    TokenKind::BracketRight,
                    "expected ']'"@,
                ) {
                    PStep::Fail { err, next } => PStep::Fail { err, next },
                    PStep::Done { val: _, next: i3 } => PStep::Done { val: acc, next: i3 },
                },
            },
        }
    } else if spec_peek_is(toks, i + 1, TokenKind::Identifier) {
        match spec_consume(toks, i + 1, TokenKind::Identifier, "expected type in union"@) {
            PStep::Fail { err, next } => PStep::Fail { err, next },
            PStep::Done { val: tok, next: i2 } => {
                if tok.value == "SubjectSet"@ {
                    match spec_parse_subject_set_type(toks, i2) {
                        PStep::Fail { err, next } => PStep::Fail { err, next },
                        PStep::Done { val: ts, next: i3 } => {
                            if i < i3 <= toks.len() {
                                spec_parse_union_rest(toks, i3, acc + ts)
                            } else {
                                // Never taken: the member consumed input.
                                PStep::Done { val: acc + ts, next: i3 }
                            }
                        },
                    }
                } else {
                    spec_parse_union_rest(
                        toks,
                        i2,
                        acc.push(RelationTypeV::Reference { namespace: tok.value, relation: None }),
                    )
                }
            },
        }
    } else {
        PStep::Fail { err: err_at(toks, i + 1, "expected type in union"@, false), next: i + 1 }
    }
}

/// The members of a type union after the opening parenthesis.
pub open spec fn spec_parse_type_union(toks: Seq<TokenModel>, i: int) -> PStep<
    Seq<RelationTypeV>,
> {
    if spec_peek_is(toks, i, TokenKind::Identifier) {
        match spec_consume(toks, i, TokenKind::Identifier, "expected type in union"@) {
            PStep::Fail { err, next } => PStep::Fail { err, next },
            PStep::Done { val: tok, next: i1 } => {
                if tok.value == "SubjectSet"@ {
                    match spec_parse_subject_set_type(toks, i1) {
                        PStep::Fail { err, next } => PStep::Fail { err, next },
                        PStep::Done { val: ts, next: i2 } => {
                            if i < i2 <= toks.len() {
                                spec_parse_union_rest(toks, i2, ts)
                            } else {
                                // Never taken: the member consumed input.
                                PStep::Done { val: ts, next: i2 }
                            }
                        },
                    }
                } else {
                    spec_parse_union_rest(
                        toks,
                        i1,
                        seq![RelationTypeV::Reference { namespace: tok.value, relation: None }],
                    )
                }
            },
        }
    } else {
        PStep::Fail { err: err_at(toks, i, "expected type in union"@, false), next: i }
    }
}

/// The type of a stored relation: a primitive, a subject set, a plain
/// reference with `[]`, or a parenthesised union.
pub open spec fn spec_parse_relation_type(toks: Seq<TokenModel>, i: int) -> PStep<
    Seq<RelationTypeV>,
> {
    if spec_peek_is(toks, i, TokenKind::Identifier) {
        let v = toks[i].value;
        if v == "boolean"@ {
            PStep::Done { val: seq![RelationTypeV::Attribute(AttributeType::Boolean)], next: i + 1 }
        } else if v == "string"@ {
            PStep::Done { val: seq![RelationTypeV::Attribute(AttributeType::Text)], next: i + 1 }
        } else if v == "SubjectSet"@ {
            spec_parse_subject_set_type(toks, i + 1)
        } else {
            match spec_consume(toks, i + 1, TokenKind::BracketLeft, "expected '['"@) {
                PStep::Fail { err, next } => PStep::Fail { err, next },
                PStep::Done { val: _, next: i2 } => match spec_consume(
                    toks,
                    i2,
                    TokenKind::BracketRight,
                    "expected ']'"@,
                ) {
                    PStep::Fail { err, next } => PStep::Fail { err, next },
                    PStep::Done { val: _, next: i3 } => PStep::Done {
                        val: seq![RelationTypeV::Reference { namespace: v, relation: None }],
                        next: i3,
                    },
                },
            }
        }
    } else if spec_peek_is(toks, i, TokenKind::ParenLeft) {
        match spec_consume(toks, i, TokenKind::ParenLeft, "expected '('"@) {
            PStep::Fail { err, next } => PStep::Fail { err, next },
            PStep::Done { val: _, next: i1 } => spec_parse_type_union(toks, i1),
        }
    } else {
        PStep::Fail { err: err_at(toks, i, "expected type definition"@, false), next: i }
    }
}

/// One stored declaration `name: Type;` (the semicolon optional).
pub open spec fn spec_parse_relation_definitions(toks: Seq<TokenModel>, i: int) -> PStep<
    RelationV,
> {
    match spec_consume_name(toks, i) {
        PStep::Fail { err, next } => PStep::Fail { err, next },
        PStep::Done { val: name, next: i1 } => match spec_consume(
            toks,
            i1,
            TokenKind::OperatorColon,
            "expected ':'"@,
        ) {
            PStep::Fail { err, next } => PStep::Fail { err, next },
            PStep::Done { val: _, next: i2 } => match spec_parse_relation_type(toks, i2) {
                PStep::Fail { err, next } => PStep::Fail { err, next },
                PStep::Done { val: ts, next: i3 } => {
                    let i4 = if spec_peek_is(toks, i3, TokenKind::SemiColon) {
                        i3 + 1
                    } else {
                        i3
                    };
                    PStep::Done {
                        val: RelationV {
                            name,
                            relation_type: ts,
                            subject_set_rewrite: None,
                        },
                        next: i4,
                    }
                },
            },
        },
    }
}

/// The context parameter `(ctx)` with optional type annotations.
pub open spec fn spec_parse_context_parameter(toks: Seq<TokenModel>, i: int) -> PStep<()> {
    match spec_consume(toks, i, TokenKind::ParenLeft, "expected '('"@) {
        PStep::Fail { err, next } => PStep::Fail { err, next },
        PStep::Done { val: _, next: i1 } => match spec_consume(
            toks,
            i1,
            TokenKind::KeywordCtx,
            "expected 'ctx'"@,
        ) {
            PStep::Fail { err, next } => PStep::Fail { err, next },
            PStep::Done { val: _, next: i2 } => {
                let annot = if spec_peek_is(toks, i2, TokenKind::OperatorColon) {
                    spec_consume_identifier(toks, i2 + 1)
                } else {
                    PStep::Done { val: Seq::empty(), next: i2 }
                };
                match annot {
                    PStep::Fail { err, next } => PStep::Fail { err, next },
                    PStep::Done { val: _, next: i3 } => match spec_consume(
                        toks,
                        i3,
                        TokenKind::ParenRight,
                        "expected ')'"@,
                    ) {
                        PStep::Fail { err, next } => PStep::Fail { err, next },
                        PStep::Done { val: _, next: i4 } => {
                            let ret = if spec_peek_is(toks, i4, TokenKind::OperatorColon) {
                                spec_consume_identifier(toks, i4 + 1)
                            } else {
                                PStep::Done { val: Seq::empty(), next: i4 }
                            };
                            match ret {
                                PStep::Fail { err, next } => PStep::Fail { err, next },
                                PStep::Done { val: _, next: i5 } => PStep::Done {
                                    val: (),
                                    next: i5,
                                },
                            }
                        },
                    },
                }
            },
        },
    }
}

/// One permission rule `name: (ctx) => expression;` (the semicolon
/// optional).
pub open spec fn spec_parse_permission_rule(toks: Seq<TokenModel>, i: int) -> PStep<RelationV> {
    match spec_consume_name(toks, i) {
        PStep::Fail { err, next } => PStep::Fail { err, next },
        PStep::Done { val: name, next: i1 } => match spec_consume(
            toks,
            i1,
            TokenKind::OperatorColon,
            "expected ':'"@,
        ) {
            PStep::Fail { err, next } => PStep::Fail { err, next },
            PStep::Done { val: _, next: i2 } => match spec_parse_context_parameter(toks, i2) {
                PStep::Fail { err, next } => PStep::Fail { err, next },
                PStep::Done { val: _, next: i3 } => match spec_consume(
                    toks,
                    i3,
                    TokenKind::OperatorAssign,
                    "expected '=>'"@,
                ) {
                    PStep::Fail { err, next } => PStep::Fail { err, next },
                    PStep::Done { val: _, next: i4 } => match spec_parse_expression(
                        toks,
                        i4,
                        EXPRESSION_NESTING_MAX_DEPTH as int,
                    ) {
                        PStep::Fail { err, next } => PStep::Fail { err, next },
                        PStep::Done { val: rw, next: i5 } => {
                            let i6 = if spec_peek_is(toks, i5, TokenKind::SemiColon) {
                                i5 + 1
                            } else {
                                i5
                            };
                            PStep::Done {
                                val: RelationV {
                                    name,
                                    relation_type: Seq::empty(),
                                    subject_set_rewrite: Some(rw),
                                },
                                next: i6,
                            }
                        },
                    },
                },
            },
        },
    }
}

/// The declarations inside a `related: { ... }` block from position `i`,
/// with the relations already collected.
pub open spec fn spec_parse_related_items(
    toks: Seq<TokenModel>,
    i: int,
    acc: Seq<RelationV>,
) -> PStep<Seq<RelationV>>
    decreases toks.len() - i,
{
    if spec_at_end(toks, i) || spec_peek_is(toks, i, TokenKind::BraceRight) {
        PStep::Done { val: acc, next: i }
    } else if spec_peek_is(toks, i, TokenKind::Identifier) || spec_peek_is(
        toks,
        i,
        TokenKind::StringLiteral,
    ) {
        match spec_parse_relation_definitions(toks, i) {
            PStep::Fail { err, next } => PStep::Fail { err, next },
            PStep::Done { val, next } => {
                if i < next <= toks.len() {
                    spec_parse_related_items(toks, next, acc.push(val))
                } else {
                    // Never taken: every declaration consumes input.
                    PStep::Done { val: acc.push(val), next }
                }
            },
        }
    } else if spec_peek_is(toks, i, TokenKind::SemiColon) {
        spec_parse_related_items(toks, i + 1, acc)
    } else {
        PStep::Fail { err: err_at(toks, i, "expected relation name or '}'"@, false), next: i }
    }
}

/// A whole `related: { ... }` block.
pub open spec fn spec_parse_related_block(toks: Seq<TokenModel>, i: int) -> PStep<Seq<RelationV>> {
    match spec_consume(toks, i, TokenKind::OperatorColon, "expected ':'"@) {
        PStep::Fail { err, next } => PStep::Fail { err, next },
        PStep::Done { val: _, next: i1 } => match spec_consume(
            toks,
            i1,
            TokenKind::BraceLeft,
            "expected '{'"@,
        ) {
            PStep::Fail { err, next } => PStep::Fail { err, next },
            PStep::Done { val: _, next: i2 } => match spec_parse_related_items(
                toks,
                i2,
                Seq::empty(),
            ) {
                PStep::Fail { err, next } => PStep::Fail { err, next },
                PStep::Done { val: rels, next: i3 } => match spec_consume(
                    toks,
                    i3,
                    TokenKind::BraceRight,
                    "expected '}'"@,
                ) {
                    PStep::Fail { err, next } => PStep::Fail { err, next },
                    PStep::Done { val: _, next: i4 } => PStep::Done { val: rels, next: i4 },
                },
            },
        },
    }
}

/// The rules inside a `permits: { ... }` block from position `i`.
pub open spec fn spec_parse_permits_items(
    toks: Seq<TokenModel>,
    i: int,
    acc: Seq<RelationV>,
) -> PStep<Seq<RelationV>>
    decreases toks.len() - i,
{
    if spec_at_end(toks, i) || spec_peek_is(toks, i, TokenKind::BraceRight) {
        PStep::Done { val: acc, next: i }
    } else if spec_peek_is(toks, i, TokenKind::Identifier) || spec_peek_is(
        toks,
        i,
        TokenKind::StringLiteral,
    ) {
        match spec_parse_permission_rule(toks, i) {
            PStep::Fail { err, next } => PStep::Fail { err, next },
            PStep::Done { val, next } => {
                if i < next <= toks.len() {
                    spec_parse_permits_items(toks, next, acc.push(val))
                } else {
                    // Never taken: every rule consumes input.
                    PStep::Done { val: acc.push(val), next }
                }
            },
        }
    } else if spec_peek_is(toks, i, TokenKind::SemiColon) {
        spec_parse_permits_items(toks, i + 1, acc)
    } else {
        PStep::Fail {
            err: err_at(toks, i, "expected permission name or '}'"@, false),
            next: i,
        }
    }
}

/// A whole `permits: { ... }` block.
pub open spec fn spec_parse_permits_block(toks: Seq<TokenModel>, i: int) -> PStep<Seq<RelationV>> {
    match spec_consume(toks, i, TokenKind::OperatorColon, "expected ':'"@) {
        PStep::Fail { err, next } => PStep::Fail { err, next },
        PStep::Done { val: _, next: i1 } => match spec_consume(
            toks,
            i1,
            TokenKind::BraceLeft,
            "expected '{'"@,
        ) {
            PStep::Fail { err, next } => PStep::Fail { err, next },
            PStep::Done { val: _, next: i2 } => match spec_parse_permits_items(
                toks,
                i2,
                Seq::empty(),
            ) {
                PStep::Fail { err, next } => PStep::Fail { err, next },
                PStep::Done { val: rels, next: i3 } => match spec_consume(
                    toks,
                    i3,
                    TokenKind::BraceRight,
                    "expected '}'"@,
                ) {
                    PStep::Fail { err, next } => PStep::Fail { err, next },
                    PStep::Done { val: _, next: i4 } => PStep::Done { val: rels, next: i4 },
                },
            },
        },
    }
}

/// The `related`/`permits` sections of a class body from position `i`, with
/// the relations already collected.
pub open spec fn spec_parse_ns_items(
    toks: Seq<TokenModel>,
    i: int,
    acc: Seq<RelationV>,
) -> PStep<Seq<RelationV>>
    decreases toks.len() - i,
{
    if spec_at_end(toks, i) || spec_peek_is(toks, i, TokenKind::BraceRight) {
        PStep::Done { val: acc, next: i }
    } else if spec_peek_is(toks, i, TokenKind::KeywordRelated) {
        match spec_parse_related_block(toks, i + 1) {
            PStep::Fail { err, next } => PStep::Fail { err, next },
            PStep::Done { val: rels, next } => {
                if i < next <= toks.len() {
                    spec_parse_ns_items(toks, next, acc + rels)
                } else {
                    // Never taken: every block consumes input.
                    PStep::Done { val: acc + rels, next }
                }
            },
        }
    } else if spec_peek_is(toks, i, TokenKind::KeywordPermits) {
        match spec_parse_permits_block(toks, i + 1) {
            PStep::Fail { err, next } => PStep::Fail { err, next },
            PStep::Done { val: rels, next } => {
                if i < next <= toks.len() {
                    spec_parse_ns_items(toks, next, acc + rels)
                } else {
                    // Never taken: every block consumes input.
                    PStep::Done { val: acc + rels, next }
                }
            },
        }
    } else {
        PStep::Fail {
            err: err_at(toks, i, "expected 'related' or 'permits' or '}'"@, false),
            next: i,
        }
    }
}

/// The head of a class block, `class Name implements Namespace {`, giving
/// the declared name.
pub open spec fn spec_parse_ns_header(toks: Seq<TokenModel>, i: int) -> PStep<Seq<char>> {
    match spec_consume(toks, i, TokenKind::KeywordClass, "expected 'class'"@) {
        PStep::Fail { err, next } => PStep::Fail { err, next },
        PStep::Done { val: _, next: i1 } => match spec_consume_identifier(toks, i1) {
            PStep::Fail { err, next } => PStep::Fail { err, next },
            PStep::Done { val: name, next: i2 } => match spec_consume(
                toks,
                i2,
                TokenKind::KeywordImplements,
                "expected 'implements'"@,
            ) {
                PStep::Fail { err, next } => PStep::Fail { err, next },
                PStep::Done { val: _, next: i3 } => match spec_consume(
                    toks,
                    i3,
                    TokenKind::KeywordNamespace,
                    "expected 'Namespace'"@,
                ) {
                    PStep::Fail { err, next } => PStep::Fail { err, next },
                    PStep::Done { val: _, next: i4 } => match spec_consume(
                        toks,
                        i4,
                        TokenKind::BraceLeft,
                        "expected '{'"@,
                    ) {
                        PStep::Fail { err, next } => PStep::Fail { err, next },
                        PStep::Done { val: _, next: i5 } => PStep::Done { val: name, next: i5 },
                    },
                },
            },
        },
    }
}

/// One `class Name implements Namespace { ... }` block.
pub open spec fn spec_parse_namespace(toks: Seq<TokenModel>, i: int) -> PStep<NamespaceV> {
    match spec_parse_ns_header(toks, i) {
        PStep::Fail { err, next } => PStep::Fail { err, next },
        PStep::Done { val: name, next: i5 } => match spec_parse_ns_items(toks, i5, Seq::empty()) {
            PStep::Fail { err, next } => PStep::Fail { err, next },
            PStep::Done { val: rels, next: i6 } => match spec_consume(
                toks,
                i6,
                TokenKind::BraceRight,
                "expected '}'"@,
            ) {
                PStep::Fail { err, next } => PStep::Fail { err, next },
                PStep::Done { val: _, next: i7 } => PStep::Done {
                    val: NamespaceV { name, relations: rels },
                    next: i7,
                },
            },
        },
    }
}

/// The position where parsing resumes after a recoverable error: the next
/// `;`, `}` or `class`, or the end of input.
pub open spec fn spec_sync(toks: Seq<TokenModel>, i: int) -> int
    decreases toks.len() - i,
{
    if spec_at_end(toks, i) || spec_peek_is(toks, i, TokenKind::SemiColon) || spec_peek_is(
        toks,
        i,
        TokenKind::BraceRight,
    ) || spec_peek_is(toks, i, TokenKind::KeywordClass) {
        i
    } else {
        spec_sync(toks, i + 1)
    }
}

/// The outcome of parsing a whole schema file: the namespaces and the
/// diagnostics collected, and the position parsing stopped at.
#[verifier::ext_equal]
pub ghost struct ParseOutcome {
    pub namespaces: Seq<NamespaceV>,
    pub errors: Seq<PErrorV>,
    pub next: int,
}

/// Parses class declarations from position `i` with what was collected so
/// far: anything between declarations is skipped; a failed declaration
/// records its diagnostic, stopping on a fatal one and otherwise resuming
/// at the next synchronising token.
pub open spec fn spec_parse_schema(
    toks: Seq<TokenModel>,
    i: int,
    nss: Seq<NamespaceV>,
    errs: Seq<PErrorV>,
) -> ParseOutcome
    decreases toks.len() - i,
{
    if spec_at_end(toks, i) {
        ParseOutcome { namespaces: nss, errors: errs, next: i }
    } else if spec_peek_is(toks, i, TokenKind::KeywordClass) {
        match spec_parse_namespace(toks, i) {
            PStep::Done { val, next } => {
                if i < next <= toks.len() {
                    spec_parse_schema(toks, next, nss.push(val), errs)
                } else {
                    // Never taken: every declaration consumes input.
                    ParseOutcome { namespaces: nss.push(val), errors: errs, next }
                }
            },
            PStep::Fail { err, next } => {
                if err.fatal {
                    ParseOutcome { namespaces: nss, errors: errs.push(err), next }
                } else {
                    let resumed = spec_sync(toks, next);
                    if i < resumed <= toks.len() {
                        spec_parse_schema(toks, resumed, nss, errs.push(err))
                    } else {
                        // Never taken: the failed declaration consumed input.
                        ParseOutcome { namespaces: nss, errors: errs.push(err), next: resumed }
                    }
                }
            },
        }
    } else {
        spec_parse_schema(toks, i + 1, nss, errs)
    }
}

/// Appending tuples appends their models.
pub proof fn lemma_type_views_add(before: Seq<RelationType>, after: Seq<RelationType>, tsv: Seq<
    RelationTypeV,
>)
    requires
        type_views(after.subrange(before.len() as int, after.len() as int)) == tsv,
        after.len() >= before.len(),
        after.subrange(0, before.len() as int) == before,
    ensures
        type_views(after) == type_views(before) + tsv,
{
    let tail = after.subrange(before.len() as int, after.len() as int);
    assert(type_views(after) =~= type_views(before) + type_views(tail)) by {
        assert forall|j: int| 0 <= j < after.len() implies type_views(after)[j] == (type_views(
            before,
        ) + type_views(tail))[j] by {
            assert(type_views(after)[j] == relation_type_view(after[j]));
            if j < before.len() {
                assert(type_views(before)[j] == relation_type_view(before[j]));
                assert(before[j] == after[j]);
            } else {
                assert(type_views(tail)[j - before.len()] == relation_type_view(
                    tail[j - before.len()],
                ));
                assert(tail[j - before.len()] == after[j]);
            }
        }
    }
}

/// Appending relations appends their models.
pub proof fn lemma_relation_views_add(
    before: Seq<Relation>,
    after: Seq<Relation>,
    tail_views: Seq<RelationV>,
)
    requires
        relation_views(after.subrange(before.len() as int, after.len() as int)) == tail_views,
        after.len() >= before.len(),
        after.subrange(0, before.len() as int) == before,
    ensures
        relation_views(after) == relation_views(before) + tail_views,
{
    let tail = after.subrange(before.len() as int, after.len() as int);
    assert(relation_views(after) =~= relation_views(before) + relation_views(tail)) by {
        assert forall|j: int| 0 <= j < after.len() implies relation_views(after)[j]
            == (relation_views(before) + relation_views(tail))[j] by {
            assert(relation_views(after)[j] == relation_view(after[j]));
            if j < before.len() {
                assert(relation_views(before)[j] == relation_view(before[j]));
                assert(before[j] == after[j]);
            } else {
                assert(relation_views(tail)[j - before.len()] == relation_view(
                    tail[j - before.len()],
                ));
                assert(tail[j - before.len()] == after[j]);
            }
        }
    }
}

/// One unfolding of `spec_parse_ns_items` at a `related` keyword.
pub proof fn lemma_ns_items_related(toks: Seq<TokenModel>, p0: int, views0: Seq<RelationV>)
    requires
        0 <= p0 < toks.len(),
        toks[p0].kind == TokenKind::KeywordRelated,
    ensures
        spec_parse_ns_items(toks, p0, views0) == (match spec_parse_related_block(toks, p0 + 1) {
            PStep::Fail { err, next } => PStep::Fail::<Seq<RelationV>> { err, next },
            PStep::Done { val, next } => {
                if p0 < next <= toks.len() {
                    spec_parse_ns_items(toks, next, views0 + val)
                } else {
                    PStep::Done::<Seq<RelationV>> { val: views0 + val, next }
                }
            },
        }),
{
}

/// One unfolding of `spec_parse_ns_items` at a `permits` keyword.
pub proof fn lemma_ns_items_permits(toks: Seq<TokenModel>, p0: int, views0: Seq<RelationV>)
    requires
        0 <= p0 < toks.len(),
        toks[p0].kind == TokenKind::KeywordPermits,
    ensures
        spec_parse_ns_items(toks, p0, views0) == (match spec_parse_permits_block(toks, p0 + 1) {
            PStep::Fail { err, next } => PStep::Fail::<Seq<RelationV>> { err, next },
            PStep::Done { val, next } => {
                if p0 < next <= toks.len() {
                    spec_parse_ns_items(toks, next, views0 + val)
                } else {
                    PStep::Done::<Seq<RelationV>> { val: views0 + val, next }
                }
            },
        }),
{
}

/// The models of the token slice at index `i`.
pub proof fn lemma_tmodel_at(toks: Seq<Token>, i: int)
    requires
        0 <= i < toks.len(),
    ensures
        views_of(toks)[i] == toks[i]@,
{
}

/// The recursive-descent parser: a cursor over the token slice and the
/// errors collected so far.
pub struct SchemaParser<'a> {
    pub cursor: TokenCursor<'a>,
    pub errors: Vec<ParserError>,
}

/// Appends every child of a parsed operand to `children`, keeping the tree
/// flat: an operand whose own operator is `op` is spliced (its children move
/// up), any other operand is wrapped as a nested rewrite.
fn push_operand(children: &mut Vec<Child>, node: SubjectSetRewrite, op: Operator)
    requires
        rewrite_wf(rewrite_view(node)),
        rewrite_flat(rewrite_view(node)),
        forall|j: int|
            0 <= j < old(children)@.len() ==> child_wf(
                child_view(#[trigger] old(children)@[j]),
            ) && child_flat_under(child_view(old(children)@[j]), op),
    ensures
        final(children)@.len() > old(children)@.len(),
        forall|j: int|
            0 <= j < final(children)@.len() ==> child_wf(
                child_view(#[trigger] final(children)@[j]),
            ) && child_flat_under(child_view(final(children)@[j]), op),
        child_views(final(children)@) == child_views(old(children)@) + (
        if rewrite_view(node).operation == op {
            rewrite_view(node).children
        } else {
            seq![ChildV::Rewrite { rewrite: Box::new(rewrite_view(node)) }]
        }),
{
    if node.operation == op {
        proof {
            assert forall|j: int| 0 <= j < node.children@.len() implies child_wf(
                child_view(#[trigger] node.children@[j]),
            ) && child_flat_under(child_view(node.children@[j]), op) by {
                assert(rewrite_view(node).children[j] == child_view(node.children@[j]));
            }
        }
        let ghost nv = rewrite_view(node);
        let SubjectSetRewrite { operation: _, children: mut cs } = node;
        let ghost cs0 = cs@;
        proof {
            assert(child_views(cs0) =~= nv.children) by {
                assert forall|j: int| 0 <= j < cs0.len() implies child_views(cs0)[j]
                    == nv.children[j] by {
                    assert(child_views(cs0)[j] == child_view(cs0[j]));
                }
            }
        }
        children.append(&mut cs);
        proof {
            assert(child_views(children@) =~= child_views(old(children)@) + nv.children) by {
                assert forall|j: int| 0 <= j < children@.len() implies child_views(children@)[j]
                    == (child_views(old(children)@) + nv.children)[j] by {
                    assert(child_views(children@)[j] == child_view(children@[j]));
                    if j < old(children)@.len() {
                        assert(child_views(old(children)@)[j] == child_view(old(children)@[j]));
                    } else {
                        assert(children@[j] == cs0[j - old(children)@.len()]);
                        assert(child_views(cs0)[j - old(children)@.len()] == child_view(
                            cs0[j - old(children)@.len()],
                        ));
                    }
                }
            }
        }
    } else {
        let ghost nv = rewrite_view(node);
        let c = Child::Rewrite { rewrite: Box::new(node) };
        proof {
            assert(child_wf(child_view(c)));
            assert(child_flat_under(child_view(c), op));
        }
        children.push(c);
        proof {
            assert(child_views(children@) =~= child_views(old(children)@) + seq![
                ChildV::Rewrite { rewrite: Box::new(nv) },
            ]) by {
                assert forall|j: int| 0 <= j < children@.len() implies child_views(children@)[j]
                    == (child_views(old(children)@) + seq![
                    ChildV::Rewrite { rewrite: Box::new(nv) },
                ])[j] by {
                    assert(child_views(children@)[j] == child_view(children@[j]));
                    if j < old(children)@.len() {
                        assert(child_views(old(children)@)[j] == child_view(old(children)@[j]));
                    }
                }
            }
        }
    }
}

/// Builds the singleton `And` node the grammar's lowering wraps a leaf in.
fn singleton_and(c: Child) -> (r: SubjectSetRewrite)
    requires
        child_wf(child_view(c)),
        forall|op: Operator| child_flat_under(child_view(c), op),
    ensures
        rewrite_wf(rewrite_view(r)),
        rewrite_flat(rewrite_view(r)),
        r.operation == Operator::And,
        r.children@.len() == 1,
        child_view(r.children@[0]) == child_view(c),
        rewrite_view(r) == leaf_node(child_view(c)),
{
    let ghost cv = child_view(c);
    let mut children: Vec<Child> = Vec::new();
    children.push(c);
    let r = SubjectSetRewrite { operation: Operator::And, children };
    proof {
        assert(rewrite_view(r).children[0] == cv);
        assert(rewrite_view(r).children.len() == 1);
        assert(rewrite_view(r).children =~= seq![cv]);
        assert(rewrite_view(r) =~~= leaf_node(cv));
        assert forall|i: int| 0 <= i < rewrite_view(r).children.len() implies child_wf(
            #[trigger] rewrite_view(r).children[i],
        ) && child_flat_under(rewrite_view(r).children[i], rewrite_view(r).operation) by {
            assert(rewrite_view(r).children[i] == cv);
            assert(child_flat_under(cv, Operator::And));
        }
    }
    r
}

impl<'a> SchemaParser<'a> {
    /// The tokens being parsed.
    pub open spec fn toks(&self) -> Seq<Token> {
        self.cursor.tokens@
    }

    /// The models of the tokens being parsed.
    pub open spec fn tmodels(&self) -> Seq<TokenModel> {
        views_of(self.cursor.tokens@)
    }

    /// The current cursor position.
    pub open spec fn pos(&self) -> int {
        self.cursor.position as int
    }

    /// The cursor stays inside the slice.
    pub open spec fn wf(&self) -> bool {
        self.cursor.wf()
    }

    /// What every parsing step preserves: the same token slice, a cursor
    /// that only moved forward and stayed in bounds.
    pub open spec fn advanced_from(&self, other: &Self) -> bool {
        &&& self.cursor.tokens == other.cursor.tokens
        &&& self.wf()
        &&& other.pos() <= self.pos()
    }

    pub fn new(tokens: &'a [Token]) -> (r: Self)
        ensures
            r.cursor.tokens == tokens,
            r.cursor.position == 0,
            r.errors@.len() == 0,
            r.wf(),
    {
        SchemaParser { cursor: TokenCursor::new(tokens), errors: Vec::new() }
    }

    /// Whether the current token has the given kind.
    fn check(&self, kind: TokenKind) -> (r: bool)
        ensures
            r == (self.cursor.spec_peek() matches Some(t) && t.kind == kind),
    {
        self.cursor.check(&kind)
    }

    /// Consumes the current token if it has the given kind. Failing at the
    /// end of input or on a lexer error token is fatal; a mere kind mismatch
    /// is not, and leaves the cursor in place.
    fn consume(&mut self, kind: TokenKind, msg: &str) -> (r: Result<Token, ParserError>)
        requires
            old(self).wf(),
        ensures
            final(self).advanced_from(old(self)),
            final(self).errors == old(self).errors,
            ({
                let step = spec_consume(old(self).tmodels(), old(self).pos(), kind, msg@);
                match r {
                    Result::Ok(t) => step == (PStep::Done {
                        val: t@,
                        next: final(self).pos(),
                    }),
                    Result::Err(e) => step == (PStep::Fail::<TokenModel> {
                        err: perror_view(e),
                        next: final(self).pos(),
                    }),
                }
            }),
            match r {
                Result::Ok(t) => {
                    &&& old(self).cursor.spec_peek() matches Some(pt)
                    &&& old(self).cursor.spec_peek()->0.kind == kind
                    &&& t@ == old(self).cursor.spec_peek()->0@
                    &&& final(self).pos() == old(self).pos() + 1
                },
                Result::Err(e) => {
                    &&& final(self).pos() == old(self).pos()
                    &&& match old(self).cursor.spec_peek() {
                        Option::None => e.fatal,
                        Option::Some(t) => {
                            &&& (t.kind == TokenKind::Eof || t.kind == TokenKind::Error || t.kind
                                != kind)
                            &&& (t.kind == TokenKind::Eof || t.kind == TokenKind::Error
                                ==> e.fatal)
                        },
                    }
                },
            },
    {
        proof {
            if old(self).pos() < old(self).toks().len() {
                assert(old(self).tmodels()[old(self).pos()] == old(self).toks()[old(self).pos()]@);
            }
        }
        match self.cursor.peek() {
            None => {
                let e = ParserError::fatal("unexpected end of file", None);
                proof {
                    assert(perror_view(e) =~~= err_at(
                        self.tmodels(),
                        self.pos(),
                        "unexpected end of file"@,
                        true,
                    ));
                }
                Err(e)
            },
            Some(t) => {
                if t.kind == TokenKind::Eof {
                    let e = ParserError::fatal("unexpected end of file", Some(t));
                    proof {
                        assert(perror_view(e) =~~= err_at(
                            self.tmodels(),
                            self.pos(),
                            "unexpected end of file"@,
                            true,
                        ));
                    }
                    Err(e)
                } else if t.kind == TokenKind::Error {
                    let e = ParserError::fatal("lexical error in input", Some(t));
                    proof {
                        assert(perror_view(e) =~~= err_at(
                            self.tmodels(),
                            self.pos(),
                            "lexical error in input"@,
                            true,
                        ));
                    }
                    Err(e)
                } else if t.kind == kind {
                    let out = t.duplicate();
                    let stepped = self.cursor.advance();
                    proof {
                        assert(stepped is Some);
                    }
                    Ok(out)
                } else {
                    let e = ParserError::non_fatal(msg, Some(t));
                    proof {
                        assert(perror_view(e) =~~= err_at(self.tmodels(), self.pos(), msg@, false));
                    }
                    Err(e)
                }
            },
        }
    }

    /// Consumes an identifier token and returns its text.
    fn consume_identifier(&mut self) -> (r: Result<String, ParserError>)
        requires
            old(self).wf(),
        ensures
            final(self).advanced_from(old(self)),
            final(self).errors == old(self).errors,
            ({
                let step = spec_consume_identifier(old(self).tmodels(), old(self).pos());
                match r {
                    Result::Ok(v) => step == (PStep::Done { val: v@, next: final(self).pos() }),
                    Result::Err(e) => step == (PStep::Fail::<Seq<char>> {
                        err: perror_view(e),
                        next: final(self).pos(),
                    }),
                }
            }),
            match r {
                Result::Ok(v) => {
                    &&& old(self).cursor.spec_peek() matches Some(pt)
                    &&& old(self).cursor.spec_peek()->0.kind == TokenKind::Identifier
                    &&& v@ == old(self).cursor.spec_peek()->0.value@
                    &&& final(self).pos() == old(self).pos() + 1
                },
                Result::Err(e) => final(self).pos() == old(self).pos(),
            },
    {
        match self.consume(TokenKind::Identifier, "expected identifier") {
            Ok(t) => Ok(t.value),
            Err(e) => Err(e),
        }
    }

    /// Consumes an identifier or string-literal token and returns its text;
    /// relation and permission names come in both forms.
    fn consume_name(&mut self) -> (r: Result<String, ParserError>)
        requires
            old(self).wf(),
        ensures
            final(self).advanced_from(old(self)),
            final(self).errors == old(self).errors,
            ({
                let step = spec_consume_name(old(self).tmodels(), old(self).pos());
                match r {
                    Result::Ok(v) => step == (PStep::Done { val: v@, next: final(self).pos() }),
                    Result::Err(e) => step == (PStep::Fail::<Seq<char>> {
                        err: perror_view(e),
                        next: final(self).pos(),
                    }),
                }
            }),
            match r {
                Result::Ok(v) => final(self).pos() == old(self).pos() + 1,
                Result::Err(e) => final(self).pos() == old(self).pos(),
            },
    {
        proof {
            if old(self).pos() < old(self).toks().len() {
                assert(old(self).tmodels()[old(self).pos()] == old(self).toks()[old(self).pos()]@);
            }
        }
        if self.check(TokenKind::StringLiteral) {
            match self.cursor.advance() {
                Some(t) => Ok(t.value.clone()),
                None => Err(ParserError::fatal("unexpected end of file", None)),
            }
        } else {
            self.consume_identifier()
        }
    }

    /// Skips tokens until a synchronising token (`;`, `}`, or the next
    /// `class`) or the end of input, so parsing can resume after a non-fatal
    /// error.
    #[verifier::loop_isolation(false)]
    fn synchronize(&mut self)
        requires
            old(self).wf(),
        ensures
            final(self).advanced_from(old(self)),
            final(self).errors == old(self).errors,
            final(self).pos() == spec_sync(old(self).tmodels(), old(self).pos()),
    {
        loop
            invariant
                self.wf(),
                self.cursor.tokens == old(self).cursor.tokens,
                self.errors == old(self).errors,
                old(self).pos() <= self.pos(),
                spec_sync(old(self).tmodels(), old(self).pos()) == spec_sync(
                    old(self).tmodels(),
                    self.pos(),
                ),
            decreases self.toks().len() - self.pos(),
        {
            proof {
                if self.pos() < self.toks().len() {
                    lemma_tmodel_at(self.toks(), self.pos());
                }
            }
            if self.cursor.is_at_end() {
                return ;
            }
            if self.check(TokenKind::SemiColon) || self.check(TokenKind::BraceRight)
                || self.check(TokenKind::KeywordClass) {
                return ;
            }
            self.cursor.advance();
        }
    }

    /// Parses a whole schema file: every `class ... implements Namespace { ... }`
    /// block in order, skipping anything between them. On success the schema
    /// is well formed: every rewrite tree has non-empty nodes and is
    /// flattened. If any error was collected the error list (never empty) is
    /// returned instead; parsing stops early only on a fatal error.
    #[verifier::loop_isolation(false)]
    #[verifier::rlimit(30)]
    pub fn parse(&mut self) -> (r: Result<Schema, Vec<ParserError>>)
        requires
            old(self).wf(),
            old(self).errors@.len() == 0,
        ensures
            final(self).advanced_from(old(self)),
            ({
                let out = spec_parse_schema(
                    old(self).tmodels(),
                    old(self).pos(),
                    Seq::empty(),
                    Seq::empty(),
                );
                &&& perror_views(final(self).errors@) == out.errors
                &&& match r {
                    Result::Ok(s) => out.errors.len() == 0 && schema_view(s) == (SchemaV {
                        namespaces: out.namespaces,
                    }),
                    Result::Err(es) => out.errors.len() > 0 && perror_views(es@) == out.errors,
                }
            }),
            match r {
                Result::Ok(s) => schema_wf(s) && final(self).errors@.len() == 0,
                Result::Err(es) => es@.len() == final(self).errors@.len() && es@.len() > 0,
            },
    {
        let mut namespaces: Vec<Namespace> = Vec::new();
        proof {
            assert(namespace_views(namespaces@) =~= Seq::<NamespaceV>::empty());
            assert(perror_views(self.errors@) =~= Seq::<PErrorV>::empty());
        }
        loop
            invariant
                self.wf(),
                self.cursor.tokens == old(self).cursor.tokens,
                old(self).pos() <= self.pos(),
                forall|i: int|
                    0 <= i < namespaces@.len() ==> namespace_wf(#[trigger] namespaces@[i]),
                spec_parse_schema(old(self).tmodels(), old(self).pos(), Seq::empty(), Seq::empty())
                    == spec_parse_schema(
                    old(self).tmodels(),
                    self.pos(),
                    namespace_views(namespaces@),
                    perror_views(self.errors@),
                ),
            decreases self.toks().len() - self.pos(),
        {
            let ghost p0 = self.pos();
            let ghost nss0 = namespace_views(namespaces@);
            let ghost errs0 = perror_views(self.errors@);
            proof {
                if self.pos() < self.toks().len() {
                    lemma_tmodel_at(self.toks(), self.pos());
                }
            }
            if self.cursor.is_at_end() {
                break ;
            }
            if self.check(TokenKind::KeywordClass) {
                match self.parse_namespace() {
                    Ok(ns) => {
                        let ghost before = namespaces@;
                        namespaces.push(ns);
                        proof {
                            assert(namespace_views(namespaces@) =~= namespace_views(before).push(
                                namespace_view(ns),
                            )) by {
                                assert forall|j: int|
                                    0 <= j < namespaces@.len() implies namespace_views(
                                    namespaces@,
                                )[j] == namespace_views(before).push(namespace_view(ns))[j] by {
                                    assert(namespace_views(namespaces@)[j] == namespace_view(
                                        namespaces@[j],
                                    ));
                                    if j < before.len() {
                                        assert(namespace_views(before)[j] == namespace_view(
                                            before[j],
                                        ));
                                    }
                                }
                            }
                            assert(spec_parse_schema(
                                old(self).tmodels(),
                                p0,
                                nss0,
                                errs0,
                            ) == spec_parse_schema(
                                old(self).tmodels(),
                                self.pos(),
                                nss0.push(namespace_view(ns)),
                                errs0,
                            ));
                        }
                    },
                    Err(e) => {
                        let ghost ev = perror_view(e);
                        let fatal = e.fatal;
                        let ghost before_errs = self.errors@;
                        self.errors.push(e);
                        proof {
                            assert(perror_views(self.errors@) =~= perror_views(before_errs).push(
                                ev,
                            )) by {
                                assert forall|j: int|
                                    0 <= j < self.errors@.len() implies perror_views(
                                    self.errors@,
                                )[j] == perror_views(before_errs).push(ev)[j] by {
                                    assert(perror_views(self.errors@)[j] == perror_view(
                                        self.errors@[j],
                                    ));
                                    if j < before_errs.len() {
                                        assert(perror_views(before_errs)[j] == perror_view(
                                            before_errs[j],
                                        ));
                                    }
                                }
                            }
                        }
                        if fatal {
                            proof {
                                assert(spec_parse_schema(
                                    old(self).tmodels(),
                                    p0,
                                    nss0,
                                    errs0,
                                ) == (ParseOutcome {
                                    namespaces: nss0,
                                    errors: errs0.push(ev),
                                    next: self.pos(),
                                }));
                            }
                            break ;
                        }
                        self.synchronize();
                        proof {
                            assert(spec_parse_schema(
                                old(self).tmodels(),
                                p0,
                                nss0,
                                errs0,
                            ) == spec_parse_schema(
                                old(self).tmodels(),
                                self.pos(),
                                nss0,
                                errs0.push(ev),
                            ));
                        }
                    },
                }
            } else {
                // Skip tokens that are not part of a namespace definition.
                self.cursor.advance();
            }
        }
        proof {
            assert(spec_parse_schema(old(self).tmodels(), old(self).pos(), Seq::empty(), Seq::empty())
                == (ParseOutcome {
                namespaces: namespace_views(namespaces@),
                errors: perror_views(self.errors@),
                next: self.pos(),
            }));
        }
        if self.errors.len() > 0 {
            let mut es: Vec<ParserError> = Vec::new();
            let mut i: usize = 0;
            while i < self.errors.len()
                invariant
                    i <= self.errors@.len(),
                    es@.len() == i,
                    forall|j: int|
                        0 <= j < i ==> #[trigger] perror_views(es@)[j] == perror_views(
                            self.errors@,
                        )[j],
                decreases self.errors@.len() - i,
            {
                let e = self.errors[i].duplicate();
                let ghost before_es = es@;
                es.push(e);
                proof {
                    assert forall|j: int| 0 <= j < i + 1 implies #[trigger] perror_views(es@)[j]
                        == perror_views(self.errors@)[j] by {
                        assert(perror_views(es@)[j] == perror_view(es@[j]));
                        assert(perror_views(self.errors@)[j] == perror_view(self.errors@[j]));
                        if j < i {
                            assert(es@[j] == before_es[j]);
                            assert(perror_views(before_es)[j] == perror_view(before_es[j]));
                        } else {
                            assert(perror_view(es@[j]) =~~= perror_view(self.errors@[j]));
                        }
                    }
                }
                i = i + 1;
            }
            proof {
                assert(perror_views(es@) =~= perror_views(self.errors@));
            }
            return Err(es);
        }
        let out = Schema { namespaces };
        proof {
            assert(schema_view(out) =~~= (SchemaV { namespaces: namespace_views(out.namespaces@) }));
        }
        Ok(out)
    }

    /// Parses one `class Name implements Namespace { ... }` block into a
    /// namespace whose relations are all well formed.
    /// Parses `class Name implements Namespace {` and returns the declared
    /// name.
    fn parse_namespace_header(&mut self) -> (r: Result<String, ParserError>)
        requires
            old(self).wf(),
        ensures
            final(self).advanced_from(old(self)),
            final(self).errors == old(self).errors,
            ({
                let step = spec_parse_ns_header(old(self).tmodels(), old(self).pos());
                match r {
                    Result::Ok(v) => step == (PStep::Done { val: v@, next: final(self).pos() })
                        && final(self).pos() > old(self).pos(),
                    Result::Err(e) => step == (PStep::Fail::<Seq<char>> {
                        err: perror_view(e),
                        next: final(self).pos(),
                    }),
                }
            }),
    {
        self.consume(TokenKind::KeywordClass, "expected 'class'")?;
        let name = self.consume_identifier()?;
        self.consume(TokenKind::KeywordImplements, "expected 'implements'")?;
        self.consume(TokenKind::KeywordNamespace, "expected 'Namespace'")?;
        self.consume(TokenKind::BraceLeft, "expected '{'")?;
        Ok(name)
    }

    /// Parses one `class Name implements Namespace { ... }` block into a
    /// namespace whose relations are all well formed; the result is exactly
    /// what the grammar model `spec_parse_namespace` assigns to the tokens.
    fn parse_namespace(&mut self) -> (r: Result<Namespace, ParserError>)
        requires
            old(self).wf(),
        ensures
            final(self).advanced_from(old(self)),
            final(self).errors == old(self).errors,
            ({
                let step = spec_parse_namespace(old(self).tmodels(), old(self).pos());
                match r {
                    Result::Ok(ns) => step == (PStep::Done {
                        val: namespace_view(ns),
                        next: final(self).pos(),
                    }),
                    Result::Err(e) => step == (PStep::Fail::<NamespaceV> {
                        err: perror_view(e),
                        next: final(self).pos(),
                    }),
                }
            }),
            (old(self).cursor.spec_peek() matches Some(t) && t.kind == TokenKind::KeywordClass)
                ==> final(self).pos() > old(self).pos(),
            match r {
                Result::Ok(ns) => namespace_wf(ns) && final(self).pos() > old(self).pos(),
                Result::Err(e) => true,
            },
    {
        proof {
            if old(self).pos() < old(self).toks().len() {
                lemma_tmodel_at(old(self).toks(), old(self).pos());
            }
        }
        let name = self.parse_namespace_header()?;
        let ghost namev = name@;
        let relations = self.parse_ns_items()?;
        self.consume(TokenKind::BraceRight, "expected '}'")?;
        let ns = Namespace::new(name, relations);
        proof {
            assert(namespace_view(ns) =~~= (NamespaceV {
                name: namev,
                relations: relation_views(ns.relations@),
            }));
        }
        Ok(ns)
    }

    /// Parses the `related`/`permits` sections of a class body up to (not
    /// including) the closing brace.
    fn parse_ns_items(&mut self) -> (r: Result<Vec<Relation>, ParserError>)
        requires
            old(self).wf(),
        ensures
            final(self).advanced_from(old(self)),
            final(self).errors == old(self).errors,
            ({
                let step = spec_parse_ns_items(old(self).tmodels(), old(self).pos(), Seq::empty());
                match r {
                    Result::Ok(rels) => step == (PStep::Done {
                        val: relation_views(rels@),
                        next: final(self).pos(),
                    }),
                    Result::Err(e) => step == (PStep::Fail::<Seq<RelationV>> {
                        err: perror_view(e),
                        next: final(self).pos(),
                    }),
                }
            }),
            match r {
                Result::Ok(rels) => forall|i: int|
                    0 <= i < rels@.len() ==> relation_wf(#[trigger] rels@[i]),
                Result::Err(e) => true,
            },
    {
        let mut relations: Vec<Relation> = Vec::new();
        proof {
            assert(relation_views(relations@) =~= Seq::<RelationV>::empty());
        }
        loop
            invariant
                self.wf(),
                self.cursor.tokens == old(self).cursor.tokens,
                self.errors == old(self).errors,
                old(self).pos() <= self.pos(),
                forall|i: int| 0 <= i < relations@.len() ==> relation_wf(#[trigger] relations@[i]),
                spec_parse_ns_items(old(self).tmodels(), old(self).pos(), Seq::empty())
                    == spec_parse_ns_items(
                    old(self).tmodels(),
                    self.pos(),
                    relation_views(relations@),
                ),
            decreases self.toks().len() - self.pos(),
        {
            let ghost p0 = self.pos();
            let ghost views0 = relation_views(relations@);
            proof {
                if self.pos() < self.toks().len() {
                    lemma_tmodel_at(self.toks(), self.pos());
                }
            }
            if self.cursor.is_at_end() || self.check(TokenKind::BraceRight) {
                proof {
                    assert(spec_parse_ns_items(old(self).tmodels(), p0, views0) == (PStep::Done::<
                        Seq<RelationV>,
                    > { val: views0, next: p0 }));
                }
                return Ok(relations);
            }
            if self.check(TokenKind::KeywordRelated) {
                self.parse_ns_related_section(&mut relations)?;
            } else if self.check(TokenKind::KeywordPermits) {
                self.parse_ns_permits_section(&mut relations)?;
            } else {
                let e = ParserError::non_fatal(
                    "expected 'related' or 'permits' or '}'",
                    self.cursor.peek(),
                );
                proof {
                    assert(perror_view(e) =~~= err_at(
                        old(self).tmodels(),
                        self.pos(),
                        "expected 'related' or 'permits' or '}'"@,
                        false,
                    ));
                    assert(spec_parse_ns_items(old(self).tmodels(), p0, views0) == (PStep::Fail::<
                        Seq<RelationV>,
                    > { err: perror_view(e), next: p0 }));
                }
                return Err(e);
            }
        }
    }

    /// Parses one `related` section of a class body, appending its
    /// relations: one step of the model's `spec_parse_ns_items`.
    #[verifier::rlimit(30)]
    fn parse_ns_related_section(&mut self, relations: &mut Vec<Relation>) -> (r: Result<
        (),
        ParserError,
    >)
        requires
            old(self).wf(),
            old(self).cursor.spec_peek() matches Some(t) && t.kind == TokenKind::KeywordRelated,
            forall|i: int|
                0 <= i < old(relations)@.len() ==> relation_wf(#[trigger] old(relations)@[i]),
        ensures
            final(self).advanced_from(old(self)),
            final(self).errors == old(self).errors,
            forall|i: int|
                0 <= i < final(relations)@.len() ==> relation_wf(#[trigger] final(relations)@[i]),
            match r {
                Result::Ok(u) => {
                    &&& final(self).pos() > old(self).pos()
                    &&& spec_parse_ns_items(
                        old(self).tmodels(),
                        old(self).pos(),
                        relation_views(old(relations)@),
                    ) == spec_parse_ns_items(
                        old(self).tmodels(),
                        final(self).pos(),
                        relation_views(final(relations)@),
                    )
                },
                Result::Err(e) => spec_parse_ns_items(
                    old(self).tmodels(),
                    old(self).pos(),
                    relation_views(old(relations)@),
                ) == (PStep::Fail::<Seq<RelationV>> {
                    err: perror_view(e),
                    next: final(self).pos(),
                }),
            },
    {
        let ghost p0 = self.pos();
        let ghost views0 = relation_views(relations@);
        proof {
            lemma_tmodel_at(old(self).toks(), old(self).pos());
            lemma_ns_items_related(old(self).tmodels(), p0, views0);
        }
        self.consume(TokenKind::KeywordRelated, "expected 'related'")?;
        proof {
            assert(self.pos() == p0 + 1);
            assert(views_of(self.cursor.tokens@) == old(self).tmodels());
        }
        let ghost before = relations@;
        let block = self.parse_related_block();
        match block {
            Err(e) => {
                proof {
                    assert(views_of(self.cursor.tokens@) == old(self).tmodels());
                    assert(spec_parse_related_block(old(self).tmodels(), p0 + 1) == (PStep::Fail::<
                        Seq<RelationV>,
                    > { err: perror_view(e), next: self.pos() }));
                    assert(spec_parse_ns_items(old(self).tmodels(), p0, views0) == (PStep::Fail::<
                        Seq<RelationV>,
                    > { err: perror_view(e), next: self.pos() }));
                }
                Err(e)
            },
            Ok(mut related_relations) => {
                let ghost tail_views = relation_views(related_relations@);
                let ghost tail_seq = related_relations@;
                relations.append(&mut related_relations);
                proof {
                    assert(relations@.subrange(0, before.len() as int) =~= before);
                    assert(relations@.subrange(before.len() as int, relations@.len() as int)
                        =~= tail_seq);
                    lemma_relation_views_add(before, relations@, tail_views);
                    assert(spec_parse_ns_items(old(self).tmodels(), p0, views0)
                        == spec_parse_ns_items(
                        old(self).tmodels(),
                        self.pos(),
                        views0 + tail_views,
                    ));
                }
                Ok(())
            },
        }
    }

    /// Parses one `permits` section of a class body, appending its
    /// relations: one step of the model's `spec_parse_ns_items`.
    #[verifier::rlimit(30)]
    fn parse_ns_permits_section(&mut self, relations: &mut Vec<Relation>) -> (r: Result<
        (),
        ParserError,
    >)
        requires
            old(self).wf(),
            old(self).cursor.spec_peek() matches Some(t) && t.kind == TokenKind::KeywordPermits,
            forall|i: int|
                0 <= i < old(relations)@.len() ==> relation_wf(#[trigger] old(relations)@[i]),
        ensures
            final(self).advanced_from(old(self)),
            final(self).errors == old(self).errors,
            forall|i: int|
                0 <= i < final(relations)@.len() ==> relation_wf(#[trigger] final(relations)@[i]),
            match r {
                Result::Ok(u) => {
                    &&& final(self).pos() > old(self).pos()
                    &&& spec_parse_ns_items(
                        old(self).tmodels(),
                        old(self).pos(),
                        relation_views(old(relations)@),
                    ) == spec_parse_ns_items(
                        old(self).tmodels(),
                        final(self).pos(),
                        relation_views(final(relations)@),
                    )
                },
                Result::Err(e) => spec_parse_ns_items(
                    old(self).tmodels(),
                    old(self).pos(),
                    relation_views(old(relations)@),
                ) == (PStep::Fail::<Seq<RelationV>> {
                    err: perror_view(e),
                    next: final(self).pos(),
                }),
            },
    {
        let ghost p0 = self.pos();
        let ghost views0 = relation_views(relations@);
        proof {
            lemma_tmodel_at(old(self).toks(), old(self).pos());
            lemma_ns_items_permits(old(self).tmodels(), p0, views0);
        }
        self.consume(TokenKind::KeywordPermits, "expected 'permits'")?;
        let ghost before = relations@;
        let block = self.parse_permits_block();
        match block {
            Err(e) => {
                proof {
                    assert(spec_parse_ns_items(old(self).tmodels(), p0, views0) == (PStep::Fail::<
                        Seq<RelationV>,
                    > { err: perror_view(e), next: self.pos() }));
                }
                Err(e)
            },
            Ok(mut permits_relations) => {
                let ghost tail_views = relation_views(permits_relations@);
                let ghost tail_seq = permits_relations@;
                relations.append(&mut permits_relations);
                proof {
                    assert(relations@.subrange(0, before.len() as int) =~= before);
                    assert(relations@.subrange(before.len() as int, relations@.len() as int)
                        =~= tail_seq);
                    lemma_relation_views_add(before, relations@, tail_views);
                    assert(spec_parse_ns_items(old(self).tmodels(), p0, views0)
                        == spec_parse_ns_items(
                        old(self).tmodels(),
                        self.pos(),
                        views0 + tail_views,
                    ));
                }
                Ok(())
            },
        }
    }

    /// Parses a `related: { ... }` block of stored relation and attribute
    /// declarations.
    #[verifier::loop_isolation(false)]
    #[verifier::rlimit(30)]
    fn parse_related_block(&mut self) -> (r: Result<Vec<Relation>, ParserError>)
        requires
            old(self).wf(),
        ensures
            final(self).advanced_from(old(self)),
            final(self).errors == old(self).errors,
            ({
                let step = spec_parse_related_block(old(self).tmodels(), old(self).pos());
                match r {
                    Result::Ok(rels) => step == (PStep::Done {
                        val: relation_views(rels@),
                        next: final(self).pos(),
                    }),
                    Result::Err(e) => step == (PStep::Fail::<Seq<RelationV>> {
                        err: perror_view(e),
                        next: final(self).pos(),
                    }),
                }
            }),
            match r {
                Result::Ok(rels) => {
                    &&& final(self).pos() > old(self).pos()
                    &&& forall|i: int|
                        0 <= i < rels@.len() ==> relation_wf(#[trigger] rels@[i])
                            && rels@[i].subject_set_rewrite is None
                },
                Result::Err(e) => true,
            },
    {
        self.consume(TokenKind::OperatorColon, "expected ':'")?;
        self.consume(TokenKind::BraceLeft, "expected '{'")?;

        let ghost items_start = self.pos();
        let mut relations: Vec<Relation> = Vec::new();
        proof {
            assert(relation_views(relations@) =~= Seq::<RelationV>::empty());
        }
        loop
            invariant
                self.wf(),
                self.cursor.tokens == old(self).cursor.tokens,
                self.errors == old(self).errors,
                old(self).pos() < self.pos(),
                forall|i: int|
                    0 <= i < relations@.len() ==> relation_wf(#[trigger] relations@[i])
                        && relations@[i].subject_set_rewrite is None,
                items_start <= self.pos(),
                spec_parse_related_items(old(self).tmodels(), items_start, Seq::empty())
                    == spec_parse_related_items(
                    old(self).tmodels(),
                    self.pos(),
                    relation_views(relations@),
                ),
            decreases self.toks().len() - self.pos(),
        {
            proof {
                if self.pos() < self.toks().len() {
                    lemma_tmodel_at(self.toks(), self.pos());
                }
            }
            if self.cursor.is_at_end() || self.check(TokenKind::BraceRight) {
                self.consume(TokenKind::BraceRight, "expected '}'")?;
                return Ok(relations);
            }
            if self.check(TokenKind::Identifier) || self.check(TokenKind::StringLiteral) {
                let ghost before = relations@;
                let rel = self.parse_relation_definitions()?;
                relations.push(rel);
                proof {
                    assert(relation_views(relations@) =~= relation_views(before).push(
                        relation_view(rel),
                    )) by {
                        assert forall|j: int| 0 <= j < relations@.len() implies relation_views(
                            relations@,
                        )[j] == relation_views(before).push(relation_view(rel))[j] by {
                            assert(relation_views(relations@)[j] == relation_view(relations@[j]));
                            if j < before.len() {
                                assert(relation_views(before)[j] == relation_view(before[j]));
                            }
                        }
                    }
                }
            } else if self.check(TokenKind::SemiColon) {
                // Skip stray semicolons.
                self.cursor.advance();
            } else {
                let e = ParserError::non_fatal("expected relation name or '}'", self.cursor.peek());
                proof {
                    assert(perror_view(e) =~~= err_at(
                        self.tmodels(),
                        self.pos(),
                        "expected relation name or '}'"@,
                        false,
                    ));
                }
                return Err(e);
            }
        }
    }

    /// Parses one stored relation or attribute declaration, for example
    /// `owner: User[];` or `confidential: boolean;`.
    fn parse_relation_definitions(&mut self) -> (r: Result<Relation, ParserError>)
        requires
            old(self).wf(),
        ensures
            final(self).advanced_from(old(self)),
            final(self).errors == old(self).errors,
            ({
                let step = spec_parse_relation_definitions(old(self).tmodels(), old(self).pos());
                match r {
                    Result::Ok(rel) => step == (PStep::Done {
                        val: relation_view(rel),
                        next: final(self).pos(),
                    }),
                    Result::Err(e) => step == (PStep::Fail::<RelationV> {
                        err: perror_view(e),
                        next: final(self).pos(),
                    }),
                }
            }),
            match r {
                Result::Ok(rel) => {
                    &&& final(self).pos() > old(self).pos()
                    &&& rel.subject_set_rewrite is None
                    &&& rel.relation_type@.len() >= 1
                    &&& relation_wf(rel)
                },
                Result::Err(e) => true,
            },
    {
        let name = self.consume_name()?;
        self.consume(TokenKind::OperatorColon, "expected ':'")?;
        let relation_types = self.parse_relation_type()?;
        // The trailing semicolon is optional.
        proof {
            if self.pos() < self.toks().len() {
                lemma_tmodel_at(self.toks(), self.pos());
            }
        }
        if self.check(TokenKind::SemiColon) {
            self.cursor.advance();
        }
        let rel = Relation { name, relation_type: relation_types, subject_set_rewrite: None };
        proof {
            assert(relation_view(rel) =~~= (RelationV {
                name: rel.name@,
                relation_type: type_views(rel.relation_type@),
                subject_set_rewrite: None,
            }));
        }
        Ok(rel)
    }

    /// Parses the type of a stored relation: a primitive (`boolean`,
    /// `string`), a subject set, a plain reference `User[]`, or a union
    /// `(User | Team)[]`.
    fn parse_relation_type(&mut self) -> (r: Result<Vec<RelationType>, ParserError>)
        requires
            old(self).wf(),
        ensures
            final(self).advanced_from(old(self)),
            final(self).errors == old(self).errors,
            ({
                let step = spec_parse_relation_type(old(self).tmodels(), old(self).pos());
                match r {
                    Result::Ok(ts) => step == (PStep::Done {
                        val: type_views(ts@),
                        next: final(self).pos(),
                    }),
                    Result::Err(e) => step == (PStep::Fail::<Seq<RelationTypeV>> {
                        err: perror_view(e),
                        next: final(self).pos(),
                    }),
                }
            }),
            match r {
                Result::Ok(ts) => final(self).pos() > old(self).pos() && ts@.len() >= 1,
                Result::Err(e) => true,
            },
    {
        proof {
            if self.pos() < self.toks().len() {
                lemma_tmodel_at(self.toks(), self.pos());
            }
        }
        if self.check(TokenKind::Identifier) {
            let token = match self.cursor.peek() {
                Some(t) => t,
                None => {
                    return Err(ParserError::fatal("unexpected end of file", None));
                },
            };
            if token.value.eq(&"boolean".to_owned()) {
                self.cursor.advance();
                let ts = vec![RelationType::Attribute(AttributeType::Boolean)];
                proof {
                    assert(type_views(ts@) =~= seq![
                        RelationTypeV::Attribute(AttributeType::Boolean),
                    ]);
                }
                Ok(ts)
            } else if token.value.eq(&"string".to_owned()) {
                self.cursor.advance();
                let ts = vec![RelationType::Attribute(AttributeType::Text)];
                proof {
                    assert(type_views(ts@) =~= seq![RelationTypeV::Attribute(AttributeType::Text)]);
                }
                Ok(ts)
            } else if token.value.eq(&"SubjectSet".to_owned()) {
                self.cursor.advance();
                self.parse_subject_set_type()
            } else {
                let namespace = token.value.clone();
                let ghost nsv = namespace@;
                self.cursor.advance();
                self.consume(TokenKind::BracketLeft, "expected '['")?;
                self.consume(TokenKind::BracketRight, "expected ']'")?;
                let ts = vec![RelationType::Reference { namespace, relation: None }];
                proof {
                    assert(type_views(ts@) =~= seq![
                        RelationTypeV::Reference { namespace: nsv, relation: None },
                    ]);
                }
                Ok(ts)
            }
        } else if self.check(TokenKind::ParenLeft) {
            self.consume(TokenKind::ParenLeft, "expected '('")?;
            self.parse_type_union()
        } else {
            let e = ParserError::non_fatal("expected type definition", self.cursor.peek());
            proof {
                assert(perror_view(e) =~~= err_at(
                    self.tmodels(),
                    self.pos(),
                    "expected type definition"@,
                    false,
                ));
            }
            Err(e)
        }
    }

    /// Parses `SubjectSet<Namespace, relation>[]` (the array suffix is
    /// optional after the closing angle bracket).
    fn parse_subject_set_type(&mut self) -> (r: Result<Vec<RelationType>, ParserError>)
        requires
            old(self).wf(),
        ensures
            final(self).advanced_from(old(self)),
            final(self).errors == old(self).errors,
            ({
                let step = spec_parse_subject_set_type(old(self).tmodels(), old(self).pos());
                match r {
                    Result::Ok(ts) => step == (PStep::Done {
                        val: type_views(ts@),
                        next: final(self).pos(),
                    }),
                    Result::Err(e) => step == (PStep::Fail::<Seq<RelationTypeV>> {
                        err: perror_view(e),
                        next: final(self).pos(),
                    }),
                }
            }),
            match r {
                Result::Ok(ts) => final(self).pos() > old(self).pos() && ts@.len() == 1,
                Result::Err(e) => true,
            },
    {
        self.consume(TokenKind::AngledLeft, "expected '<'")?;
        let namespace = self.consume_identifier()?;
        self.consume(TokenKind::OperatorComma, "expected ','")?;
        let relation = self.consume_name()?;
        self.consume(TokenKind::AngledRight, "expected '>'")?;
        let ghost nsv = namespace@;
        let ghost relv = relation@;
        // The array suffix is optional here.
        proof {
            if self.pos() < self.toks().len() {
                lemma_tmodel_at(self.toks(), self.pos());
            }
        }
        if self.check(TokenKind::BracketLeft) {
            self.cursor.advance();
        }
        proof {
            if self.pos() < self.toks().len() {
                lemma_tmodel_at(self.toks(), self.pos());
            }
        }
        if self.check(TokenKind::BracketRight) {
            self.cursor.advance();
        }
        let ts = vec![RelationType::Reference { namespace, relation: Some(relation) }];
        proof {
            assert(type_views(ts@) =~= seq![
                RelationTypeV::Reference { namespace: nsv, relation: Some(relv) },
            ]);
        }
        Ok(ts)
    }

    /// Parses the members of a type union `(User | SubjectSet<Team,
    /// "members">)[]` after the opening parenthesis.
    fn parse_type_union(&mut self) -> (r: Result<Vec<RelationType>, ParserError>)
        requires
            old(self).wf(),
        ensures
            final(self).advanced_from(old(self)),
            final(self).errors == old(self).errors,
            ({
                let step = spec_parse_type_union(old(self).tmodels(), old(self).pos());
                match r {
                    Result::Ok(ts) => step == (PStep::Done {
                        val: type_views(ts@),
                        next: final(self).pos(),
                    }),
                    Result::Err(e) => step == (PStep::Fail::<Seq<RelationTypeV>> {
                        err: perror_view(e),
                        next: final(self).pos(),
                    }),
                }
            }),
            match r {
                Result::Ok(ts) => final(self).pos() > old(self).pos() && ts@.len() >= 1,
                Result::Err(e) => true,
            },
    {
        let mut types: Vec<RelationType> = Vec::new();

        proof {
            if self.pos() < self.toks().len() {
                lemma_tmodel_at(self.toks(), self.pos());
            }
            assert(type_views(Seq::<RelationType>::empty()) =~= Seq::<RelationTypeV>::empty());
        }
        if self.check(TokenKind::Identifier) {
            let token = self.consume(TokenKind::Identifier, "expected type in union")?;
            if token.value.eq(&"SubjectSet".to_owned()) {
                let mut ts = self.parse_subject_set_type()?;
                let ghost tsv = type_views(ts@);
                let ghost tsseq = ts@;
                types.append(&mut ts);
                proof {
                    assert(types@.subrange(0, 0) =~= Seq::<RelationType>::empty());
                    assert(types@.subrange(0, types@.len() as int) =~= tsseq);
                    lemma_type_views_add(Seq::<RelationType>::empty(), types@, tsv);
                }
            } else {
                let ghost nsv = token.value@;
                types.push(RelationType::Reference { namespace: token.value, relation: None });
                proof {
                    assert(type_views(types@) =~= seq![
                        RelationTypeV::Reference { namespace: nsv, relation: None },
                    ]);
                }
            }
        } else {
            let e = ParserError::non_fatal("expected type in union", self.cursor.peek());
            proof {
                assert(perror_view(e) =~~= err_at(
                    self.tmodels(),
                    self.pos(),
                    "expected type in union"@,
                    false,
                ));
            }
            return Err(e);
        }

        loop
            invariant
                self.wf(),
                self.cursor.tokens == old(self).cursor.tokens,
                self.errors == old(self).errors,
                old(self).pos() < self.pos(),
                types@.len() >= 1,
                spec_parse_type_union(old(self).tmodels(), old(self).pos())
                    == spec_parse_union_rest(old(self).tmodels(), self.pos(), type_views(types@)),
            decreases self.toks().len() - self.pos(),
        {
            proof {
                if self.pos() < self.toks().len() {
                    lemma_tmodel_at(self.toks(), self.pos());
                }
            }
            if !self.check(TokenKind::TypeUnion) {
                self.consume(TokenKind::ParenRight, "expected ')'")?;
                self.consume(TokenKind::BracketLeft, "expected '['")?;
                self.consume(TokenKind::BracketRight, "expected ']'")?;
                return Ok(types);
            }
            self.cursor.advance();
            proof {
                if self.pos() < self.toks().len() {
                    lemma_tmodel_at(self.toks(), self.pos());
                }
            }
            if self.check(TokenKind::Identifier) {
                let token = self.consume(TokenKind::Identifier, "expected type in union")?;
                if token.value.eq(&"SubjectSet".to_owned()) {
                    let ghost before = types@;
                    let mut ts = self.parse_subject_set_type()?;
                    let ghost tsv = type_views(ts@);
                    let ghost tsseq = ts@;
                    types.append(&mut ts);
                    proof {
                        assert(types@.subrange(0, before.len() as int) =~= before);
                        assert(types@.subrange(before.len() as int, types@.len() as int)
                            =~= tsseq);
                        lemma_type_views_add(before, types@, tsv);
                    }
                } else {
                    let ghost before = types@;
                    let ghost nsv = token.value@;
                    types.push(RelationType::Reference { namespace: token.value, relation: None });
                    proof {
                        assert(type_views(types@) =~= type_views(before).push(
                            RelationTypeV::Reference { namespace: nsv, relation: None },
                        )) by {
                            assert forall|j: int| 0 <= j < types@.len() implies type_views(
                                types@,
                            )[j] == type_views(before).push(
                                RelationTypeV::Reference { namespace: nsv, relation: None },
                            )[j] by {
                                assert(type_views(types@)[j] == relation_type_view(types@[j]));
                                if j < before.len() {
                                    assert(type_views(before)[j] == relation_type_view(before[j]));
                                }
                            }
                        }
                        assert(type_views(before).push(
                            RelationTypeV::Reference { namespace: nsv, relation: None },
                        ) =~= type_views(before) + seq![
                            RelationTypeV::Reference { namespace: nsv, relation: None },
                        ]);
                    }
                }
            } else {
                let e = ParserError::non_fatal("expected type in union", self.cursor.peek());
                proof {
                    assert(perror_view(e) =~~= err_at(
                        self.tmodels(),
                        self.pos(),
                        "expected type in union"@,
                        false,
                    ));
                }
                return Err(e);
            }
        }
    }

    /// Parses a `permits: { ... }` block of permission rules.
    #[verifier::loop_isolation(false)]
    #[verifier::rlimit(30)]
    fn parse_permits_block(&mut self) -> (r: Result<Vec<Relation>, ParserError>)
        requires
            old(self).wf(),
        ensures
            final(self).advanced_from(old(self)),
            final(self).errors == old(self).errors,
            ({
                let step = spec_parse_permits_block(old(self).tmodels(), old(self).pos());
                match r {
                    Result::Ok(rels) => step == (PStep::Done {
                        val: relation_views(rels@),
                        next: final(self).pos(),
                    }),
                    Result::Err(e) => step == (PStep::Fail::<Seq<RelationV>> {
                        err: perror_view(e),
                        next: final(self).pos(),
                    }),
                }
            }),
            match r {
                Result::Ok(rels) => {
                    &&& final(self).pos() > old(self).pos()
                    &&& forall|i: int| 0 <= i < rels@.len() ==> relation_wf(#[trigger] rels@[i])
                },
                Result::Err(e) => true,
            },
    {
        self.consume(TokenKind::OperatorColon, "expected ':'")?;
        self.consume(TokenKind::BraceLeft, "expected '{'")?;

        let ghost items_start = self.pos();
        let mut relations: Vec<Relation> = Vec::new();
        proof {
            assert(relation_views(relations@) =~= Seq::<RelationV>::empty());
        }
        loop
            invariant
                self.wf(),
                self.cursor.tokens == old(self).cursor.tokens,
                self.errors == old(self).errors,
                old(self).pos() < self.pos(),
                forall|i: int| 0 <= i < relations@.len() ==> relation_wf(#[trigger] relations@[i]),
                items_start <= self.pos(),
                spec_parse_permits_items(old(self).tmodels(), items_start, Seq::empty())
                    == spec_parse_permits_items(
                    old(self).tmodels(),
                    self.pos(),
                    relation_views(relations@),
                ),
            decreases self.toks().len() - self.pos(),
        {
            proof {
                if self.pos() < self.toks().len() {
                    lemma_tmodel_at(self.toks(), self.pos());
                }
            }
            if self.cursor.is_at_end() || self.check(TokenKind::BraceRight) {
                self.consume(TokenKind::BraceRight, "expected '}'")?;
                return Ok(relations);
            }
            if self.check(TokenKind::Identifier) || self.check(TokenKind::StringLiteral) {
                let ghost before = relations@;
                let rel = self.parse_permission_rule()?;
                relations.push(rel);
                proof {
                    assert(relation_views(relations@) =~= relation_views(before).push(
                        relation_view(rel),
                    )) by {
                        assert forall|j: int| 0 <= j < relations@.len() implies relation_views(
                            relations@,
                        )[j] == relation_views(before).push(relation_view(rel))[j] by {
                            assert(relation_views(relations@)[j] == relation_view(relations@[j]));
                            if j < before.len() {
                                assert(relation_views(before)[j] == relation_view(before[j]));
                            }
                        }
                    }
                }
            } else if self.check(TokenKind::SemiColon) {
                // Skip stray semicolons.
                self.cursor.advance();
            } else {
                let e = ParserError::non_fatal(
                    "expected permission name or '}'",
                    self.cursor.peek(),
                );
                proof {
                    assert(perror_view(e) =~~= err_at(
                        self.tmodels(),
                        self.pos(),
                        "expected permission name or '}'"@,
                        false,
                    ));
                }
                return Err(e);
            }
        }
    }

    /// Parses one permission rule
    /// `name: (ctx) => expression;` into a relation that carries only a
    /// rewrite tree.
    fn parse_permission_rule(&mut self) -> (r: Result<Relation, ParserError>)
        requires
            old(self).wf(),
        ensures
            final(self).advanced_from(old(self)),
            final(self).errors == old(self).errors,
            ({
                let step = spec_parse_permission_rule(old(self).tmodels(), old(self).pos());
                match r {
                    Result::Ok(rel) => step == (PStep::Done {
                        val: relation_view(rel),
                        next: final(self).pos(),
                    }),
                    Result::Err(e) => step == (PStep::Fail::<RelationV> {
                        err: perror_view(e),
                        next: final(self).pos(),
                    }),
                }
            }),
            match r {
                Result::Ok(rel) => {
                    &&& final(self).pos() > old(self).pos()
                    &&& rel.relation_type@.len() == 0
                    &&& rel.subject_set_rewrite is Some
                    &&& relation_wf(rel)
                },
                Result::Err(e) => true,
            },
    {
        let name = self.consume_name()?;
        self.consume(TokenKind::OperatorColon, "expected ':'")?;
        self.parse_context_parameter()?;
        self.consume(TokenKind::OperatorAssign, "expected '=>'")?;

        let expression = self.parse_expression(EXPRESSION_NESTING_MAX_DEPTH)?;

        // The trailing semicolon is optional.
        if self.check(TokenKind::SemiColon) {
            self.cursor.advance();
        }

        Ok(Relation {
            name,
            relation_type: Vec::new(),
            subject_set_rewrite: Some(Box::new(expression)),
        })
    }

    /// Parses the context parameter of a permission rule: `(ctx)`, with an
    /// optional type annotation inside and an optional return type after.
    fn parse_context_parameter(&mut self) -> (r: Result<(), ParserError>)
        requires
            old(self).wf(),
        ensures
            final(self).advanced_from(old(self)),
            final(self).errors == old(self).errors,
            ({
                let step = spec_parse_context_parameter(old(self).tmodels(), old(self).pos());
                match r {
                    Result::Ok(u) => step == (PStep::Done { val: (), next: final(self).pos() }),
                    Result::Err(e) => step == (PStep::Fail::<()> {
                        err: perror_view(e),
                        next: final(self).pos(),
                    }),
                }
            }),
            match r {
                Result::Ok(u) => final(self).pos() > old(self).pos(),
                Result::Err(e) => true,
            },
    {
        self.consume(TokenKind::ParenLeft, "expected '('")?;
        self.consume(TokenKind::KeywordCtx, "expected 'ctx'")?;

        // Optional type annotation, e.g. `(ctx: Context)`.
        if self.check(TokenKind::OperatorColon) {
            self.cursor.advance();
            self.consume_identifier()?;
        }

        self.consume(TokenKind::ParenRight, "expected ')'")?;

        // Optional return type annotation.
        if self.check(TokenKind::OperatorColon) {
            self.cursor.advance();
            self.consume_identifier()?;
        }

        Ok(())
    }

    /// Parses a permission expression; `depth` bounds how many parenthesised
    /// sub-expressions may nest.
    fn parse_expression(&mut self, depth: usize) -> (r: Result<SubjectSetRewrite, ParserError>)
        requires
            old(self).wf(),
        ensures
            final(self).advanced_from(old(self)),
            final(self).errors == old(self).errors,
            ({
                let step = spec_parse_expression(old(self).tmodels(), old(self).pos(), depth as int);
                match r {
                    Result::Ok(rw) => step == (PStep::Done {
                        val: rewrite_view(rw),
                        next: final(self).pos(),
                    }),
                    Result::Err(e) => step == (PStep::Fail::<RewriteV> {
                        err: perror_view(e),
                        next: final(self).pos(),
                    }),
                }
            }),
            match r {
                Result::Ok(rw) => {
                    &&& final(self).pos() > old(self).pos()
                    &&& rewrite_wf(rewrite_view(rw))
                    &&& rewrite_flat(rewrite_view(rw))
                },
                Result::Err(e) => true,
            },
        decreases self.toks().len() - self.pos(), 4int,
    {
        self.parse_logical_or(depth)
    }

    /// Parses `A || B || ...`, flattening consecutive `||` into one `Or` node.
    fn parse_logical_or(&mut self, depth: usize) -> (r: Result<SubjectSetRewrite, ParserError>)
        requires
            old(self).wf(),
        ensures
            final(self).advanced_from(old(self)),
            final(self).errors == old(self).errors,
            ({
                let step = spec_parse_or(old(self).tmodels(), old(self).pos(), depth as int);
                match r {
                    Result::Ok(rw) => step == (PStep::Done {
                        val: rewrite_view(rw),
                        next: final(self).pos(),
                    }),
                    Result::Err(e) => step == (PStep::Fail::<RewriteV> {
                        err: perror_view(e),
                        next: final(self).pos(),
                    }),
                }
            }),
            match r {
                Result::Ok(rw) => {
                    &&& final(self).pos() > old(self).pos()
                    &&& rewrite_wf(rewrite_view(rw))
                    &&& rewrite_flat(rewrite_view(rw))
                },
                Result::Err(e) => true,
            },
        decreases self.toks().len() - self.pos(), 3int,
    {
        let mut expr = self.parse_logical_and(depth)?;

        loop
            invariant
                self.wf(),
                self.cursor.tokens == old(self).cursor.tokens,
                self.errors == old(self).errors,
                old(self).pos() < self.pos(),
                rewrite_wf(rewrite_view(expr)),
                rewrite_flat(rewrite_view(expr)),
                spec_parse_or(old(self).tmodels(), old(self).pos(), depth as int)
                    == spec_parse_or_rest(
                    old(self).tmodels(),
                    self.pos(),
                    depth as int,
                    rewrite_view(expr),
                ),
            decreases self.toks().len() - self.pos(),
        {
            proof {
                if self.pos() < self.toks().len() {
                    lemma_tmodel_at(self.toks(), self.pos());
                }
            }
            if !self.check(TokenKind::OperatorOr) {
                return Ok(expr);
            }
            self.cursor.advance();
            let ghost entry = self.pos();
            let right = self.parse_logical_and(depth)?;

            let ghost ev = rewrite_view(expr);
            let ghost rv = rewrite_view(right);
            let mut children: Vec<Child> = Vec::new();
            push_operand(&mut children, expr, Operator::Or);
            push_operand(&mut children, right, Operator::Or);
            let node = SubjectSetRewrite { operation: Operator::Or, children };
            proof {
                assert forall|i: int| 0 <= i < rewrite_view(node).children.len() implies child_wf(
                    #[trigger] rewrite_view(node).children[i],
                ) && child_flat_under(rewrite_view(node).children[i], Operator::Or) by {
                    assert(rewrite_view(node).children[i] == child_view(node.children@[i]));
                }
                assert(rewrite_view(node).children =~= child_views(node.children@)) by {
                    assert forall|i: int| 0 <= i < node.children@.len() implies rewrite_view(
                        node,
                    ).children[i] == child_views(node.children@)[i] by {
                        assert(rewrite_view(node).children[i] == child_view(node.children@[i]));
                        assert(child_views(node.children@)[i] == child_view(node.children@[i]));
                    }
                }
                assert(child_views(Seq::<Child>::empty()) =~= Seq::<ChildV>::empty());
                assert(rewrite_view(node) =~~= spec_combine(ev, rv, Operator::Or));
            }
            expr = node;
        }
    }

    /// Parses `A && B && ...`, flattening consecutive `&&` into one `And`
    /// node.
    fn parse_logical_and(&mut self, depth: usize) -> (r: Result<SubjectSetRewrite, ParserError>)
        requires
            old(self).wf(),
        ensures
            final(self).advanced_from(old(self)),
            final(self).errors == old(self).errors,
            ({
                let step = spec_parse_and(old(self).tmodels(), old(self).pos(), depth as int);
                match r {
                    Result::Ok(rw) => step == (PStep::Done {
                        val: rewrite_view(rw),
                        next: final(self).pos(),
                    }),
                    Result::Err(e) => step == (PStep::Fail::<RewriteV> {
                        err: perror_view(e),
                        next: final(self).pos(),
                    }),
                }
            }),
            match r {
                Result::Ok(rw) => {
                    &&& final(self).pos() > old(self).pos()
                    &&& rewrite_wf(rewrite_view(rw))
                    &&& rewrite_flat(rewrite_view(rw))
                },
                Result::Err(e) => true,
            },
        decreases self.toks().len() - self.pos(), 2int,
    {
        let mut expr = self.parse_unary(depth)?;

        loop
            invariant
                self.wf(),
                self.cursor.tokens == old(self).cursor.tokens,
                self.errors == old(self).errors,
                old(self).pos() < self.pos(),
                rewrite_wf(rewrite_view(expr)),
                rewrite_flat(rewrite_view(expr)),
                spec_parse_and(old(self).tmodels(), old(self).pos(), depth as int)
                    == spec_parse_and_rest(
                    old(self).tmodels(),
                    self.pos(),
                    depth as int,
                    rewrite_view(expr),
                ),
            decreases self.toks().len() - self.pos(),
        {
            proof {
                if self.pos() < self.toks().len() {
                    lemma_tmodel_at(self.toks(), self.pos());
                }
            }
            if !self.check(TokenKind::OperatorAnd) {
                return Ok(expr);
            }
            self.cursor.advance();
            let right = self.parse_unary(depth)?;

            let ghost ev = rewrite_view(expr);
            let ghost rv = rewrite_view(right);
            let mut children: Vec<Child> = Vec::new();
            push_operand(&mut children, expr, Operator::And);
            push_operand(&mut children, right, Operator::And);
            let node = SubjectSetRewrite { operation: Operator::And, children };
            proof {
                assert forall|i: int| 0 <= i < rewrite_view(node).children.len() implies child_wf(
                    #[trigger] rewrite_view(node).children[i],
                ) && child_flat_under(rewrite_view(node).children[i], Operator::And) by {
                    assert(rewrite_view(node).children[i] == child_view(node.children@[i]));
                }
                assert(rewrite_view(node).children =~= child_views(node.children@)) by {
                    assert forall|i: int| 0 <= i < node.children@.len() implies rewrite_view(
                        node,
                    ).children[i] == child_views(node.children@)[i] by {
                        assert(rewrite_view(node).children[i] == child_view(node.children@[i]));
                        assert(child_views(node.children@)[i] == child_view(node.children@[i]));
                    }
                }
                assert(child_views(Seq::<Child>::empty()) =~= Seq::<ChildV>::empty());
                assert(rewrite_view(node) =~~= spec_combine(ev, rv, Operator::And));
            }
            expr = node;
        }
    }

    /// Parses `!X` or a primary expression; `!X` lowers to a singleton `And`
    /// holding an `InvertResult` over the negated tree.
    fn parse_unary(&mut self, depth: usize) -> (r: Result<SubjectSetRewrite, ParserError>)
        requires
            old(self).wf(),
        ensures
            final(self).advanced_from(old(self)),
            final(self).errors == old(self).errors,
            ({
                let step = spec_parse_unary(old(self).tmodels(), old(self).pos(), depth as int);
                match r {
                    Result::Ok(rw) => step == (PStep::Done {
                        val: rewrite_view(rw),
                        next: final(self).pos(),
                    }),
                    Result::Err(e) => step == (PStep::Fail::<RewriteV> {
                        err: perror_view(e),
                        next: final(self).pos(),
                    }),
                }
            }),
            match r {
                Result::Ok(rw) => {
                    &&& final(self).pos() > old(self).pos()
                    &&& rewrite_wf(rewrite_view(rw))
                    &&& rewrite_flat(rewrite_view(rw))
                },
                Result::Err(e) => true,
            },
        decreases self.toks().len() - self.pos(), 1int,
    {
        proof {
            if self.pos() < self.toks().len() {
                lemma_tmodel_at(self.toks(), self.pos());
            }
        }
        if self.check(TokenKind::OperatorNot) {
            self.cursor.advance();
            let expr = self.parse_primary(depth)?;
            let ghost ev = rewrite_view(expr);
            let inner = Child::Rewrite { rewrite: Box::new(expr) };
            proof {
                assert(child_view(inner) == (ChildV::Rewrite { rewrite: Box::new(ev) }));
            }
            let negated = Child::InvertResult { child: Box::new(inner) };
            proof {
                assert(child_view(negated) == (ChildV::InvertResult {
                    child: Box::new(ChildV::Rewrite { rewrite: Box::new(ev) }),
                }));
                assert(child_wf(ChildV::Rewrite { rewrite: Box::new(ev) }));
                assert(child_wf(child_view(negated)));
                assert forall|op: Operator| child_flat_under(child_view(negated), op) by {
                    assert(child_flat(ChildV::Rewrite { rewrite: Box::new(ev) }));
                }
            }
            Ok(singleton_and(negated))
        } else {
            self.parse_primary(depth)
        }
    }

    /// Parses a parenthesised expression or a simple `this....` expression.
    fn parse_primary(&mut self, depth: usize) -> (r: Result<SubjectSetRewrite, ParserError>)
        requires
            old(self).wf(),
        ensures
            final(self).advanced_from(old(self)),
            final(self).errors == old(self).errors,
            ({
                let step = spec_parse_primary(old(self).tmodels(), old(self).pos(), depth as int);
                match r {
                    Result::Ok(rw) => step == (PStep::Done {
                        val: rewrite_view(rw),
                        next: final(self).pos(),
                    }),
                    Result::Err(e) => step == (PStep::Fail::<RewriteV> {
                        err: perror_view(e),
                        next: final(self).pos(),
                    }),
                }
            }),
            match r {
                Result::Ok(rw) => {
                    &&& final(self).pos() > old(self).pos()
                    &&& rewrite_wf(rewrite_view(rw))
                    &&& rewrite_flat(rewrite_view(rw))
                },
                Result::Err(e) => true,
            },
        decreases self.toks().len() - self.pos(), 0int,
    {
        proof {
            if self.pos() < self.toks().len() {
                lemma_tmodel_at(self.toks(), self.pos());
            }
        }
        if self.check(TokenKind::ParenLeft) {
            if depth == 0 {
                let e = ParserError::non_fatal("expression nested too deeply", self.cursor.peek());
                proof {
                    assert(perror_view(e) =~~= err_at(
                        self.tmodels(),
                        self.pos(),
                        "expression nested too deeply"@,
                        false,
                    ));
                }
                return Err(e);
            }
            self.cursor.advance();
            let expr = self.parse_expression(depth - 1)?;
            self.consume(TokenKind::ParenRight, "expected ')'")?;
            return Ok(expr);
        }
        self.parse_simple_expression()
    }

    /// Parses `this.related....` or `this.permits....`.
    fn parse_simple_expression(&mut self) -> (r: Result<SubjectSetRewrite, ParserError>)
        requires
            old(self).wf(),
        ensures
            final(self).advanced_from(old(self)),
            final(self).errors == old(self).errors,
            ({
                let step = spec_parse_simple(old(self).tmodels(), old(self).pos());
                match r {
                    Result::Ok(rw) => step == (PStep::Done {
                        val: rewrite_view(rw),
                        next: final(self).pos(),
                    }),
                    Result::Err(e) => step == (PStep::Fail::<RewriteV> {
                        err: perror_view(e),
                        next: final(self).pos(),
                    }),
                }
            }),
            match r {
                Result::Ok(rw) => {
                    &&& final(self).pos() > old(self).pos()
                    &&& rewrite_wf(rewrite_view(rw))
                    &&& rewrite_flat(rewrite_view(rw))
                },
                Result::Err(e) => true,
            },
    {
        self.consume(TokenKind::KeywordThis, "expected 'this'")?;
        self.consume(TokenKind::OperatorDot, "expected '.'")?;

        proof {
            if self.pos() < self.toks().len() {
                lemma_tmodel_at(self.toks(), self.pos());
            }
        }
        if self.check(TokenKind::KeywordRelated) {
            self.cursor.advance();
            self.parse_related_expression()
        } else if self.check(TokenKind::KeywordPermits) {
            self.cursor.advance();
            self.parse_permits_expression()
        } else {
            let e = ParserError::non_fatal("expected 'related' or 'permits'", self.cursor.peek());
            proof {
                assert(perror_view(e) =~~= err_at(
                    self.tmodels(),
                    self.pos(),
                    "expected 'related' or 'permits'"@,
                    false,
                ));
            }
            Err(e)
        }
    }

    /// Parses what follows `this.related`: a bare attribute reference, an
    /// `.includes(ctx.subject)` membership test, or a `.traverse(...)` walk.
    fn parse_related_expression(&mut self) -> (r: Result<SubjectSetRewrite, ParserError>)
        requires
            old(self).wf(),
        ensures
            final(self).advanced_from(old(self)),
            final(self).errors == old(self).errors,
            ({
                let step = spec_parse_related_expr(old(self).tmodels(), old(self).pos());
                match r {
                    Result::Ok(rw) => step == (PStep::Done {
                        val: rewrite_view(rw),
                        next: final(self).pos(),
                    }),
                    Result::Err(e) => step == (PStep::Fail::<RewriteV> {
                        err: perror_view(e),
                        next: final(self).pos(),
                    }),
                }
            }),
            match r {
                Result::Ok(rw) => {
                    &&& final(self).pos() > old(self).pos()
                    &&& rewrite_wf(rewrite_view(rw))
                    &&& rewrite_flat(rewrite_view(rw))
                },
                Result::Err(e) => true,
            },
    {
        let relation_name = self.parse_property_name()?;

        proof {
            if self.pos() < self.toks().len() {
                lemma_tmodel_at(self.toks(), self.pos());
            }
        }
        if !self.check(TokenKind::OperatorDot) {
            // A bare attribute use: the truthiness of the attribute value.
            let attribute = Child::AttributeReference { relation: relation_name };
            return Ok(singleton_and(attribute));
        }

        self.consume(TokenKind::OperatorDot, "expected '.'")?;
        let method = self.consume_identifier()?;

        if method.eq(&"includes".to_owned()) {
            self.parse_includes_expression(relation_name)
        } else if method.eq(&"traverse".to_owned()) {
            self.parse_traverse_expression(relation_name)
        } else {
            let e = ParserError::non_fatal("expected 'includes' or 'traverse'", self.cursor.peek());
            proof {
                if self.pos() < self.toks().len() {
                    lemma_tmodel_at(self.toks(), self.pos());
                }
                assert(perror_view(e) =~~= err_at(
                    self.tmodels(),
                    self.pos(),
                    "expected 'includes' or 'traverse'"@,
                    false,
                ));
            }
            Err(e)
        }
    }

    /// Parses `.includes(ctx.subject)` after `this.related.X`, lowering to a
    /// computed subject set on `X`.
    fn parse_includes_expression(&mut self, relation: String) -> (r: Result<
        SubjectSetRewrite,
        ParserError,
    >)
        requires
            old(self).wf(),
        ensures
            final(self).advanced_from(old(self)),
            final(self).errors == old(self).errors,
            ({
                let step = spec_parse_includes(old(self).tmodels(), old(self).pos(), relation@);
                match r {
                    Result::Ok(rw) => step == (PStep::Done {
                        val: rewrite_view(rw),
                        next: final(self).pos(),
                    }),
                    Result::Err(e) => step == (PStep::Fail::<RewriteV> {
                        err: perror_view(e),
                        next: final(self).pos(),
                    }),
                }
            }),
            match r {
                Result::Ok(rw) => {
                    &&& final(self).pos() > old(self).pos()
                    &&& rewrite_wf(rewrite_view(rw))
                    &&& rewrite_flat(rewrite_view(rw))
                },
                Result::Err(e) => true,
            },
    {
        self.consume(TokenKind::ParenLeft, "expected '('")?;
        self.consume(TokenKind::KeywordCtx, "expected 'ctx'")?;
        self.consume(TokenKind::OperatorDot, "expected '.'")?;
        self.consume_identifier()?;
        self.consume(TokenKind::ParenRight, "expected ')'")?;

        let computed_set = Child::ComputerSubjectSet { relation };
        Ok(singleton_and(computed_set))
    }

    /// Parses `.traverse(p => p.related.Y...(ctx...))` or the `permits` form
    /// after `this.related.X`, lowering to a tuple-to-subject-set walk from
    /// `X` to `Y`.
    fn parse_traverse_expression(&mut self, relation: String) -> (r: Result<
        SubjectSetRewrite,
        ParserError,
    >)
        requires
            old(self).wf(),
        ensures
            final(self).advanced_from(old(self)),
            final(self).errors == old(self).errors,
            ({
                let step = spec_parse_traverse(old(self).tmodels(), old(self).pos(), relation@);
                match r {
                    Result::Ok(rw) => step == (PStep::Done {
                        val: rewrite_view(rw),
                        next: final(self).pos(),
                    }),
                    Result::Err(e) => step == (PStep::Fail::<RewriteV> {
                        err: perror_view(e),
                        next: final(self).pos(),
                    }),
                }
            }),
            match r {
                Result::Ok(rw) => {
                    &&& final(self).pos() > old(self).pos()
                    &&& rewrite_wf(rewrite_view(rw))
                    &&& rewrite_flat(rewrite_view(rw))
                },
                Result::Err(e) => true,
            },
    {
        self.consume(TokenKind::ParenLeft, "expected '('")?;

        // The arrow parameter may be parenthesised: `(p) =>` or `p =>`.
        proof {
            if self.pos() < self.toks().len() {
                lemma_tmodel_at(self.toks(), self.pos());
            }
        }
        if self.check(TokenKind::ParenLeft) {
            self.cursor.advance();
        }
        let param_name = self.consume_identifier()?;
        proof {
            if self.pos() < self.toks().len() {
                lemma_tmodel_at(self.toks(), self.pos());
            }
        }
        if self.check(TokenKind::ParenRight) {
            self.cursor.advance();
        }

        self.consume(TokenKind::OperatorAssign, "expected '=>'")?;

        let param_ref = self.consume_identifier()?;
        if !param_ref.eq(&param_name) {
            let e = ParserError::non_fatal(
                "arrow body must reference the arrow parameter",
                self.cursor.peek(),
            );
            proof {
                if self.pos() < self.toks().len() {
                    lemma_tmodel_at(self.toks(), self.pos());
                }
                assert(perror_view(e) =~~= err_at(
                    self.tmodels(),
                    self.pos(),
                    "arrow body must reference the arrow parameter"@,
                    false,
                ));
            }
            return Err(e);
        }

        self.consume(TokenKind::OperatorDot, "expected '.'")?;

        let target_relation = self.parse_traverse_tail()?;

        self.consume(TokenKind::ParenRight, "expected ')'")?;

        let tuple_to_set = Child::TupleToSubjectSet {
            relation,
            computed_subject_set_relation: target_relation,
        };
        Ok(singleton_and(tuple_to_set))
    }

    /// Parses the body of a traverse arrow after the parameter reference
    /// and dot: the `related` or `permits` form, giving the computed
    /// relation name.
    fn parse_traverse_tail(&mut self) -> (r: Result<String, ParserError>)
        requires
            old(self).wf(),
        ensures
            final(self).advanced_from(old(self)),
            final(self).errors == old(self).errors,
            ({
                let step = spec_parse_traverse_tail(old(self).tmodels(), old(self).pos());
                match r {
                    Result::Ok(v) => step == (PStep::Done { val: v@, next: final(self).pos() }),
                    Result::Err(e) => step == (PStep::Fail::<Seq<char>> {
                        err: perror_view(e),
                        next: final(self).pos(),
                    }),
                }
            }),
            match r {
                Result::Ok(v) => final(self).pos() > old(self).pos(),
                Result::Err(e) => true,
            },
    {
        proof {
            if self.pos() < self.toks().len() {
                lemma_tmodel_at(self.toks(), self.pos());
            }
        }
        if self.check(TokenKind::KeywordRelated) {
            self.cursor.advance();
            let rel_name = self.parse_property_name()?;
            self.consume(TokenKind::OperatorDot, "expected '.'")?;
            self.consume_identifier()?;
            self.consume(TokenKind::ParenLeft, "expected '('")?;
            self.consume(TokenKind::KeywordCtx, "expected 'ctx'")?;
            self.consume(TokenKind::OperatorDot, "expected '.'")?;
            self.consume_identifier()?;
            self.consume(TokenKind::ParenRight, "expected ')'")?;
            Ok(rel_name)
        } else if self.check(TokenKind::KeywordPermits) {
            self.cursor.advance();
            let rel_name = self.parse_property_name()?;
            self.consume(TokenKind::ParenLeft, "expected '('")?;
            self.consume(TokenKind::KeywordCtx, "expected 'ctx'")?;
            self.consume(TokenKind::ParenRight, "expected ')'")?;
            Ok(rel_name)
        } else {
            let e = ParserError::non_fatal("expected 'related' or 'permits'", self.cursor.peek());
            proof {
                assert(perror_view(e) =~~= err_at(
                    self.tmodels(),
                    self.pos(),
                    "expected 'related' or 'permits'"@,
                    false,
                ));
            }
            Err(e)
        }
    }

    /// Parses `this.permits.X(ctx)`, lowering to a computed subject set on
    /// `X` (permissions share the namespace with relations).
    fn parse_permits_expression(&mut self) -> (r: Result<SubjectSetRewrite, ParserError>)
        requires
            old(self).wf(),
        ensures
            final(self).advanced_from(old(self)),
            final(self).errors == old(self).errors,
            ({
                let step = spec_parse_permits_expr(old(self).tmodels(), old(self).pos());
                match r {
                    Result::Ok(rw) => step == (PStep::Done {
                        val: rewrite_view(rw),
                        next: final(self).pos(),
                    }),
                    Result::Err(e) => step == (PStep::Fail::<RewriteV> {
                        err: perror_view(e),
                        next: final(self).pos(),
                    }),
                }
            }),
            match r {
                Result::Ok(rw) => {
                    &&& final(self).pos() > old(self).pos()
                    &&& rewrite_wf(rewrite_view(rw))
                    &&& rewrite_flat(rewrite_view(rw))
                },
                Result::Err(e) => true,
            },
    {
        let relation_name = self.parse_property_name()?;

        self.consume(TokenKind::ParenLeft, "expected '('")?;
        self.consume(TokenKind::KeywordCtx, "expected 'ctx'")?;
        self.consume(TokenKind::ParenRight, "expected ')'")?;

        let computed_set = Child::ComputerSubjectSet { relation: relation_name };
        Ok(singleton_and(computed_set))
    }

    /// Parses a property name: `.name`, `."name"`, `[name]`, or `["name"]`.
    fn parse_property_name(&mut self) -> (r: Result<String, ParserError>)
        requires
            old(self).wf(),
        ensures
            final(self).advanced_from(old(self)),
            final(self).errors == old(self).errors,
            ({
                let step = spec_parse_property_name(old(self).tmodels(), old(self).pos());
                match r {
                    Result::Ok(v) => step == (PStep::Done { val: v@, next: final(self).pos() }),
                    Result::Err(e) => step == (PStep::Fail::<Seq<char>> {
                        err: perror_view(e),
                        next: final(self).pos(),
                    }),
                }
            }),
            match r {
                Result::Ok(v) => final(self).pos() > old(self).pos(),
                Result::Err(e) => true,
            },
    {
        proof {
            if self.pos() < self.toks().len() {
                lemma_tmodel_at(self.toks(), self.pos());
            }
        }
        if self.check(TokenKind::BracketLeft) {
            self.cursor.advance();
            let name = self.consume_name()?;
            self.consume(TokenKind::BracketRight, "expected ']'")?;
            Ok(name)
        } else {
            self.consume(TokenKind::OperatorDot, "expected '.'")?;
            let name = self.consume_name()?;
            Ok(name)
        }
    }
}

} // verus!
