//! The canonical printer: renders a schema back into the namespace DSL.
//!
//! The output is fixed by the functional model `spec_print_schema`. The
//! canonical choices: relation and permission names print bare, the inner
//! relation of a subject set prints as a string literal, computed subject
//! sets print in the `this.permits.X(ctx)` form, and nested rewrites print
//! parenthesised. For schemas the parser built from this grammar, parsing
//! the printed text yields the same schema again.

use vstd::prelude::*;
use vstd::string::StringExecFns;

use crate::schema::{
    AttributeType, Child, Namespace, Operator, Relation, RelationType, Schema, SubjectSetRewrite,
};

verus! {

// ---------------------------------------------------------------------------
// The functional model
// ---------------------------------------------------------------------------

pub open spec fn spec_print_member(t: RelationType) -> Seq<char> {
    match t {
        RelationType::Reference { namespace, relation } => match relation {
            Option::Some(rel) => "SubjectSet<"@ + namespace@ + ", \""@ + rel@ + "\">"@,
            Option::None => namespace@,
        },
        RelationType::Attribute(AttributeType::Boolean) => "boolean"@,
        RelationType::Attribute(AttributeType::Text) => "string"@,
    }
}

pub open spec fn spec_print_members_from(ts: Seq<RelationType>, i: int) -> Seq<char>
    decreases ts.len() - i,
{
    if i < 0 || i >= ts.len() {
        Seq::empty()
    } else if i == ts.len() - 1 {
        spec_print_member(ts[i])
    } else {
        spec_print_member(ts[i]) + " | "@ + spec_print_members_from(ts, i + 1)
    }
}

/// The type of a stored relation: a lone primitive or reference bare, a
/// union parenthesised; references carry the array suffix.
pub open spec fn spec_print_type(ts: Seq<RelationType>) -> Seq<char> {
    if ts.len() == 1 && ts[0] is Attribute {
        spec_print_member(ts[0])
    } else if ts.len() == 1 {
        spec_print_member(ts[0]) + "[]"@
    } else {
        "("@ + spec_print_members_from(ts, 0) + ")[]"@
    }
}

pub open spec fn spec_print_child(c: Child) -> Seq<char>
    decreases c, 1int,
{
    match c {
        Child::Rewrite { rewrite } => "("@ + spec_print_expr(*rewrite) + ")"@,
        Child::ComputerSubjectSet { relation } => "this.permits."@ + relation@ + "(ctx)"@,
        Child::TupleToSubjectSet { relation, computed_subject_set_relation } => "this.related."@
            + relation@ + ".traverse(p => p.permits."@ + computed_subject_set_relation@
            + "(ctx))"@,
        Child::InvertResult { child } => "!"@ + spec_print_child(*child),
        Child::AttributeReference { relation } => "this.related."@ + relation@,
    }
}

pub open spec fn spec_print_children_from(rw: SubjectSetRewrite, i: int) -> Seq<char>
    decreases rw, 0int, rw.children.len() - i,
{
    let sep = if rw.operation == Operator::And {
        " && "@
    } else {
        " || "@
    };
    if i < 0 || i >= rw.children.len() {
        Seq::empty()
    } else if i == rw.children.len() - 1 {
        spec_print_child(rw.children@[i])
    } else {
        spec_print_child(rw.children@[i]) + sep + spec_print_children_from(rw, i + 1)
    }
}

/// A rewrite node: its children joined by the node's operator.
pub open spec fn spec_print_expr(rw: SubjectSetRewrite) -> Seq<char>
    decreases rw, 2int,
{
    spec_print_children_from(rw, 0)
}

/// One relation line: a stored declaration or a permission rule.
pub open spec fn spec_print_relation(r: Relation) -> Seq<char> {
    match r.subject_set_rewrite {
        Option::Some(rw) => "  "@ + r.name@ + ": (ctx) => "@ + spec_print_expr(*rw) + ";\n"@,
        Option::None => "  "@ + r.name@ + ": "@ + spec_print_type(r.relation_type@) + ";\n"@,
    }
}

pub open spec fn spec_print_block_from(rels: Seq<Relation>, i: int, stored: bool) -> Seq<char>
    decreases rels.len() - i,
{
    if i < 0 || i >= rels.len() {
        Seq::empty()
    } else if (rels[i].subject_set_rewrite is None) == stored {
        spec_print_relation(rels[i]) + spec_print_block_from(rels, i + 1, stored)
    } else {
        spec_print_block_from(rels, i + 1, stored)
    }
}

/// One namespace: its stored relations under `related`, its permissions
/// under `permits`.
pub open spec fn spec_print_namespace(ns: Namespace) -> Seq<char> {
    "class "@ + ns.name@ + " implements Namespace {\n"@ + "related: {\n"@ + spec_print_block_from(
        ns.relations@,
        0,
        true,
    ) + "}\n"@ + "permits: {\n"@ + spec_print_block_from(ns.relations@, 0, false) + "}\n"@
        + "}\n"@
}

pub open spec fn spec_print_namespaces_from(nss: Seq<Namespace>, i: int) -> Seq<char>
    decreases nss.len() - i,
{
    if i < 0 || i >= nss.len() {
        Seq::empty()
    } else {
        spec_print_namespace(nss[i]) + spec_print_namespaces_from(nss, i + 1)
    }
}

/// The whole schema, namespaces in order.
pub open spec fn spec_print_schema(s: Schema) -> Seq<char> {
    spec_print_namespaces_from(s.namespaces@, 0)
}

// ---------------------------------------------------------------------------
// The executable printer
// ---------------------------------------------------------------------------

fn print_member(t: &RelationType) -> (r: String)
    ensures
        r@ == spec_print_member(*t),
{
    match t {
        RelationType::Reference { namespace, relation } => match relation {
            Some(rel) => {
                let mut out = String::from_str("SubjectSet<");
                out.append(namespace.as_str());
                out.append(", \"");
                out.append(rel.as_str());
                out.append("\">");
                out
            },
            None => namespace.clone(),
        },
        RelationType::Attribute(AttributeType::Boolean) => String::from_str("boolean"),
        RelationType::Attribute(AttributeType::Text) => String::from_str("string"),
    }
}

#[verifier::loop_isolation(false)]
fn print_type(ts: &Vec<RelationType>) -> (r: String)
    ensures
        r@ == spec_print_type(ts@),
{
    if ts.len() == 1 {
        let single = matches!(&ts[0], RelationType::Attribute(_));
        if single {
            print_member(&ts[0])
        } else {
            let mut out = print_member(&ts[0]);
            out.append("[]");
            out
        }
    } else {
        let mut out = String::from_str("(");
        let mut i: usize = 0;
        while i < ts.len()
            invariant
                i <= ts@.len(),
                out@ + spec_print_members_from(ts@, i as int) == "("@ + spec_print_members_from(
                    ts@,
                    0,
                ),
            decreases ts@.len() - i,
        {
            let m = print_member(&ts[i]);
            out.append(m.as_str());
            if i + 1 < ts.len() {
                out.append(" | ");
            }
            proof {
                assert(out@ + spec_print_members_from(ts@, i + 1) =~= "("@
                    + spec_print_members_from(ts@, 0));
            }
            i = i + 1;
        }
        proof {
            assert(out@ =~= "("@ + spec_print_members_from(ts@, 0));
        }
        out.append(")[]");
        proof {
            assert(out@ =~= "("@ + spec_print_members_from(ts@, 0) + ")[]"@);
        }
        out
    }
}

fn print_child(c: &Child) -> (r: String)
    ensures
        r@ == spec_print_child(*c),
    decreases *c, 1int,
{
    match c {
        Child::Rewrite { rewrite } => {
            let mut out = String::from_str("(");
            let e = print_expr(rewrite);
            out.append(e.as_str());
            out.append(")");
            out
        },
        Child::ComputerSubjectSet { relation } => {
            let mut out = String::from_str("this.permits.");
            out.append(relation.as_str());
            out.append("(ctx)");
            out
        },
        Child::TupleToSubjectSet { relation, computed_subject_set_relation } => {
            let mut out = String::from_str("this.related.");
            out.append(relation.as_str());
            out.append(".traverse(p => p.permits.");
            out.append(computed_subject_set_relation.as_str());
            out.append("(ctx))");
            out
        },
        Child::InvertResult { child } => {
            let mut out = String::from_str("!");
            let e = print_child(child);
            out.append(e.as_str());
            out
        },
        Child::AttributeReference { relation } => {
            let mut out = String::from_str("this.related.");
            out.append(relation.as_str());
            out
        },
    }
}

#[verifier::loop_isolation(false)]
fn print_expr(rw: &SubjectSetRewrite) -> (r: String)
    ensures
        r@ == spec_print_expr(*rw),
    decreases *rw, 2int,
{
    let ghost sep: Seq<char> = if rw.operation == Operator::And {
        " && "@
    } else {
        " || "@
    };
    let mut out = String::new();
    let mut i: usize = 0;
    while i < rw.children.len()
        invariant
            i <= rw.children@.len(),
            out@ + spec_print_children_from(*rw, i as int) == spec_print_children_from(*rw, 0),
        decreases rw.children@.len() - i,
    {
        let c = print_child(&rw.children[i]);
        out.append(c.as_str());
        if i + 1 < rw.children.len() {
            let and_node = matches!(rw.operation, Operator::And);
            if and_node {
                out.append(" && ");
            } else {
                out.append(" || ");
            }
        }
        proof {
            assert(out@ + spec_print_children_from(*rw, i + 1) =~= spec_print_children_from(
                *rw,
                0,
            ));
        }
        i = i + 1;
    }
    proof {
        assert(out@ =~= spec_print_children_from(*rw, 0));
    }
    out
}

fn print_relation(r: &Relation) -> (res: String)
    ensures
        res@ == spec_print_relation(*r),
{
    match &r.subject_set_rewrite {
        Some(rw) => {
            let mut out = String::from_str("  ");
            out.append(r.name.as_str());
            out.append(": (ctx) => ");
            let e = print_expr(rw);
            out.append(e.as_str());
            out.append(";\n");
            out
        },
        None => {
            let mut out = String::from_str("  ");
            out.append(r.name.as_str());
            out.append(": ");
            let t = print_type(&r.relation_type);
            out.append(t.as_str());
            out.append(";\n");
            out
        },
    }
}

#[verifier::loop_isolation(false)]
fn print_block(rels: &Vec<Relation>, stored: bool) -> (r: String)
    ensures
        r@ == spec_print_block_from(rels@, 0, stored),
{
    let mut out = String::new();
    let mut i: usize = 0;
    while i < rels.len()
        invariant
            i <= rels@.len(),
            out@ + spec_print_block_from(rels@, i as int, stored) == spec_print_block_from(
                rels@,
                0,
                stored,
            ),
        decreases rels@.len() - i,
    {
        let is_stored = matches!(&rels[i].subject_set_rewrite, None);
        if is_stored == stored {
            let line = print_relation(&rels[i]);
            out.append(line.as_str());
        }
        proof {
            assert(out@ + spec_print_block_from(rels@, i + 1, stored) =~= spec_print_block_from(
                rels@,
                0,
                stored,
            ));
        }
        i = i + 1;
    }
    proof {
        assert(out@ =~= spec_print_block_from(rels@, 0, stored));
    }
    out
}

fn print_namespace(ns: &Namespace) -> (r: String)
    ensures
        r@ == spec_print_namespace(*ns),
{
    let mut out = String::from_str("class ");
    out.append(ns.name.as_str());
    out.append(" implements Namespace {\n");
    out.append("related: {\n");
    let related = print_block(&ns.relations, true);
    out.append(related.as_str());
    out.append("}\n");
    out.append("permits: {\n");
    let permits = print_block(&ns.relations, false);
    out.append(permits.as_str());
    out.append("}\n");
    out.append("}\n");
    out
}

/// Renders a schema into the canonical form of the namespace DSL, exactly
/// as the functional model `spec_print_schema` describes.
#[verifier::loop_isolation(false)]
pub fn print_schema(schema: &Schema) -> (r: String)
    ensures
        r@ == spec_print_schema(*schema),
{
    let mut out = String::new();
    let mut i: usize = 0;
    while i < schema.namespaces.len()
        invariant
            i <= schema.namespaces@.len(),
            out@ + spec_print_namespaces_from(schema.namespaces@, i as int)
                == spec_print_namespaces_from(schema.namespaces@, 0),
        decreases schema.namespaces@.len() - i,
    {
        let n = print_namespace(&schema.namespaces[i]);
        out.append(n.as_str());
        proof {
            assert(out@ + spec_print_namespaces_from(schema.namespaces@, i + 1)
                =~= spec_print_namespaces_from(schema.namespaces@, 0));
        }
        i = i + 1;
    }
    proof {
        assert(out@ =~= spec_print_namespaces_from(schema.namespaces@, 0));
    }
    out
}

} // verus!
