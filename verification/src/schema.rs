//! The permission model the parser produces: a schema is an ordered sequence
//! of namespaces, each namespace an ordered sequence of relations, and each
//! relation carries type alternatives and, for permissions, a subject-set
//! rewrite tree.
//!
//! Rewrite trees have a mathematical model (`RewriteV`, `ChildV`) over which
//! two invariants of every parser-built tree are stated: every `And`/`Or`
//! node has at least one child (`rewrite_wf`), and flattening leaves no `Or`
//! node with a direct `Or` child nor an `And` node with a direct `And` child,
//! except below an `InvertResult` wrapper (`rewrite_flat`).

use vstd::prelude::*;

verus! {

/// A parsed schema: the namespaces in declaration order.
#[derive(Debug)]
pub struct Schema {
    pub namespaces: Vec<Namespace>,
}

/// A named family of objects sharing relations.
#[derive(Debug)]
pub struct Namespace {
    pub name: String,
    pub relations: Vec<Relation>,
}

impl Namespace {
    pub fn new(name: String, relations: Vec<Relation>) -> (r: Namespace)
        ensures
            r.name@ == name@,
            r.relations == relations,
    {
        Namespace { name, relations }
    }
}

/// A named edge kind: stored relations carry type alternatives, permissions
/// carry a rewrite tree.
#[derive(Debug)]
pub struct Relation {
    pub name: String,
    pub relation_type: Vec<RelationType>,
    pub subject_set_rewrite: Option<Box<SubjectSetRewrite>>,
}

/// One type alternative of a stored relation.
#[derive(Debug)]
pub enum RelationType {
    /// `User[]` has no inner relation; `SubjectSet<Team, "members">[]`
    /// carries one.
    Reference { namespace: String, relation: Option<String> },
    /// A primitive attribute declared via `boolean` or `string`.
    Attribute(AttributeType),
}

/// The primitive attribute kinds.
#[derive(Debug, Clone, Copy, PartialEq, Eq, Structural)]
pub enum AttributeType {
    Boolean,
    Text,
}

/// The operator of a rewrite node.
#[derive(Debug, Clone, Copy, PartialEq, Eq, Structural)]
pub enum Operator {
    And,
    Or,
}

/// A subject-set rewrite tree node: an operator over one or more children.
#[derive(Debug)]
pub struct SubjectSetRewrite {
    pub operation: Operator,
    pub children: Vec<Child>,
}

/// One child of a rewrite node.
#[derive(Debug)]
pub enum Child {
    /// A nested rewrite (grouping / precedence).
    Rewrite { rewrite: Box<SubjectSetRewrite> },
    /// Subjects with this relation on the current object.
    ComputerSubjectSet { relation: String },
    /// Walk `relation` on the current object to its referents, then evaluate
    /// `computed_subject_set_relation` on each referent.
    TupleToSubjectSet { relation: String, computed_subject_set_relation: String },
    /// Logical negation of the wrapped child.
    InvertResult { child: Box<Child> },
    /// Truthiness of a primitive attribute relation.
    AttributeReference { relation: String },
}

// ---------------------------------------------------------------------------
// The mathematical model of rewrite trees
// ---------------------------------------------------------------------------

/// Model of a rewrite node.
#[verifier::ext_equal]
pub ghost struct RewriteV {
    pub operation: Operator,
    pub children: Seq<ChildV>,
}

/// Model of a rewrite child.
#[verifier::ext_equal]
pub ghost enum ChildV {
    Rewrite { rewrite: Box<RewriteV> },
    ComputerSubjectSet { relation: Seq<char> },
    TupleToSubjectSet { relation: Seq<char>, computed_subject_set_relation: Seq<char> },
    InvertResult { child: Box<ChildV> },
    AttributeReference { relation: Seq<char> },
}

pub open spec fn rewrite_view(r: SubjectSetRewrite) -> RewriteV
    decreases r,
{
    RewriteV {
        operation: r.operation,
        children: Seq::new(
            r.children@.len(),
            |i: int|
                if 0 <= i < r.children@.len() {
                    child_view(r.children@[i])
                } else {
                    ChildV::AttributeReference { relation: Seq::empty() }
                },
        ),
    }
}

pub open spec fn child_view(c: Child) -> ChildV
    decreases c,
{
    match c {
        Child::Rewrite { rewrite } => ChildV::Rewrite { rewrite: Box::new(rewrite_view(*rewrite)) },
        Child::ComputerSubjectSet { relation } => ChildV::ComputerSubjectSet {
            relation: relation@,
        },
        Child::TupleToSubjectSet { relation, computed_subject_set_relation } => {
            ChildV::TupleToSubjectSet {
                relation: relation@,
                computed_subject_set_relation: computed_subject_set_relation@,
            }
        },
        Child::InvertResult { child } => ChildV::InvertResult { child: Box::new(child_view(*child)) },
        Child::AttributeReference { relation } => ChildV::AttributeReference {
            relation: relation@,
        },
    }
}

// ---------------------------------------------------------------------------
// Tree invariants
// ---------------------------------------------------------------------------

/// Every node of the tree has at least one child.
pub open spec fn rewrite_wf(r: RewriteV) -> bool
    decreases r,
{
    &&& r.children.len() > 0
    &&& forall|i: int| 0 <= i < r.children.len() ==> child_wf(#[trigger] r.children[i])
}

/// Every rewrite nested in this child has at least one child per node.
pub open spec fn child_wf(c: ChildV) -> bool
    decreases c,
{
    match c {
        ChildV::Rewrite { rewrite } => rewrite_wf(*rewrite),
        ChildV::InvertResult { child } => child_wf(*child),
        _ => true,
    }
}

/// Flattening has been applied everywhere: no direct `Rewrite` child repeats
/// its parent's operator, except below an `InvertResult`.
pub open spec fn rewrite_flat(r: RewriteV) -> bool
    decreases r,
{
    forall|i: int|
        0 <= i < r.children.len() ==> child_flat_under(#[trigger] r.children[i], r.operation)
}

/// Flatness of a child standing directly under a node with operator `op`.
pub open spec fn child_flat_under(c: ChildV, op: Operator) -> bool
    decreases c,
{
    match c {
        ChildV::Rewrite { rewrite } => rewrite.operation != op && rewrite_flat(*rewrite),
        ChildV::InvertResult { child } => child_flat(*child),
        _ => true,
    }
}

/// Flatness of a child below an `InvertResult`, where the parent operator
/// imposes no restriction.
pub open spec fn child_flat(c: ChildV) -> bool
    decreases c,
{
    match c {
        ChildV::Rewrite { rewrite } => rewrite_flat(*rewrite),
        ChildV::InvertResult { child } => child_flat(*child),
        _ => true,
    }
}

/// What the parser guarantees of every relation: a permission's tree is
/// non-empty at every node and flattened.
pub open spec fn relation_wf(r: Relation) -> bool {
    match r.subject_set_rewrite {
        Option::Some(rw) => rewrite_wf(rewrite_view(*rw)) && rewrite_flat(rewrite_view(*rw)),
        Option::None => true,
    }
}

pub open spec fn namespace_wf(ns: Namespace) -> bool {
    forall|i: int| 0 <= i < ns.relations@.len() ==> relation_wf(#[trigger] ns.relations@[i])
}

pub open spec fn schema_wf(s: Schema) -> bool {
    forall|i: int| 0 <= i < s.namespaces@.len() ==> namespace_wf(#[trigger] s.namespaces@[i])
}

// ---------------------------------------------------------------------------
// Deep copies
// ---------------------------------------------------------------------------

impl SubjectSetRewrite {
    /// A copy of this tree with the same model.
    pub fn duplicate(&self) -> (r: SubjectSetRewrite)
        ensures
            rewrite_view(r) == rewrite_view(*self),
        decreases *self,
    {
        let mut children: Vec<Child> = Vec::new();
        let mut i: usize = 0;
        while i < self.children.len()
            invariant
                i <= self.children@.len(),
                children@.len() == i,
                forall|j: int|
                    0 <= j < i ==> child_view(#[trigger] children@[j]) == child_view(
                        self.children@[j],
                    ),
            decreases self.children@.len() - i,
        {
            let c = self.children[i].duplicate();
            children.push(c);
            i = i + 1;
        }
        let r = SubjectSetRewrite { operation: self.operation, children };
        proof {
            assert forall|j: int|
                0 <= j < rewrite_view(r).children.len() implies rewrite_view(r).children[j]
                == rewrite_view(*self).children[j] by {
                assert(rewrite_view(r).children[j] == child_view(r.children@[j]));
                assert(rewrite_view(*self).children[j] == child_view(self.children@[j]));
            }
            assert(rewrite_view(r).children =~= rewrite_view(*self).children);
            assert(rewrite_view(r) =~~= rewrite_view(*self));
        }
        r
    }
}

impl Child {
    /// A copy of this child with the same model.
    pub fn duplicate(&self) -> (r: Child)
        ensures
            child_view(r) == child_view(*self),
        decreases *self,
    {
        match self {
            Child::Rewrite { rewrite } => Child::Rewrite {
                rewrite: Box::new(rewrite.duplicate()),
            },
            Child::ComputerSubjectSet { relation } => Child::ComputerSubjectSet {
                relation: relation.clone(),
            },
            Child::TupleToSubjectSet { relation, computed_subject_set_relation } => {
                Child::TupleToSubjectSet {
                    relation: relation.clone(),
                    computed_subject_set_relation: computed_subject_set_relation.clone(),
                }
            },
            Child::InvertResult { child } => Child::InvertResult {
                child: Box::new(child.duplicate()),
            },
            Child::AttributeReference { relation } => Child::AttributeReference {
                relation: relation.clone(),
            },
        }
    }

    /// The rewrite this child stands for: a nested rewrite unwrapped, any
    /// other child wrapped in a singleton `And` node.
    pub fn as_rewrite(&self) -> (r: Box<SubjectSetRewrite>)
        ensures
            match self {
                Child::Rewrite { rewrite } => rewrite_view(*r) == rewrite_view(**rewrite),
                _ => {
                    &&& r.operation == Operator::And
                    &&& r.children@.len() == 1
                    &&& child_view(r.children@[0]) == child_view(*self)
                },
            },
            child_wf(child_view(*self)) ==> rewrite_wf(rewrite_view(*r)),
    {
        match self {
            Child::Rewrite { rewrite } => Box::new(rewrite.duplicate()),
            _ => {
                let mut children: Vec<Child> = Vec::new();
                children.push(self.duplicate());
                let r = SubjectSetRewrite { operation: Operator::And, children };
                proof {
                    assert(rewrite_view(r).children =~= seq![child_view(*self)]);
                }
                Box::new(r)
            },
        }
    }
}

impl RelationType {
    /// A copy of this type alternative with the same namespace and relation
    /// names.
    pub fn duplicate(&self) -> (r: RelationType)
        ensures
            match (self, r) {
                (
                    RelationType::Reference { namespace: n1, relation: r1 },
                    RelationType::Reference { namespace: n2, relation: r2 },
                ) => {
                    &&& n1@ == n2@
                    &&& match (r1, r2) {
                        (Option::Some(a), Option::Some(b)) => a@ == b@,
                        (Option::None, Option::None) => true,
                        _ => false,
                    }
                },
                (RelationType::Attribute(a), RelationType::Attribute(b)) => a == b,
                _ => false,
            },
    {
        match self {
            RelationType::Reference { namespace, relation } => {
                let rel = match relation {
                    Some(x) => Some(x.clone()),
                    None => None,
                };
                RelationType::Reference { namespace: namespace.clone(), relation: rel }
            },
            RelationType::Attribute(a) => RelationType::Attribute(*a),
        }
    }
}

/// Model of one type alternative.
#[verifier::ext_equal]
pub ghost enum RelationTypeV {
    Reference { namespace: Seq<char>, relation: Option<Seq<char>> },
    Attribute(AttributeType),
}

/// Model of a relation.
#[verifier::ext_equal]
pub ghost struct RelationV {
    pub name: Seq<char>,
    pub relation_type: Seq<RelationTypeV>,
    pub subject_set_rewrite: Option<RewriteV>,
}

/// Model of a namespace.
#[verifier::ext_equal]
pub ghost struct NamespaceV {
    pub name: Seq<char>,
    pub relations: Seq<RelationV>,
}

/// Model of a schema.
#[verifier::ext_equal]
pub ghost struct SchemaV {
    pub namespaces: Seq<NamespaceV>,
}

pub open spec fn relation_type_view(t: RelationType) -> RelationTypeV {
    match t {
        RelationType::Reference { namespace, relation } => RelationTypeV::Reference {
            namespace: namespace@,
            relation: match relation {
                Option::Some(r) => Some(r@),
                Option::None => None,
            },
        },
        RelationType::Attribute(a) => RelationTypeV::Attribute(a),
    }
}

pub open spec fn relation_view(r: Relation) -> RelationV {
    RelationV {
        name: r.name@,
        relation_type: r.relation_type@.map_values(|t: RelationType| relation_type_view(t)),
        subject_set_rewrite: match r.subject_set_rewrite {
            Option::Some(rw) => Some(rewrite_view(*rw)),
            Option::None => None,
        },
    }
}

pub open spec fn relation_views(rels: Seq<Relation>) -> Seq<RelationV> {
    rels.map_values(|r: Relation| relation_view(r))
}

pub open spec fn namespace_view(ns: Namespace) -> NamespaceV {
    NamespaceV { name: ns.name@, relations: relation_views(ns.relations@) }
}

pub open spec fn namespace_views(nss: Seq<Namespace>) -> Seq<NamespaceV> {
    nss.map_values(|ns: Namespace| namespace_view(ns))
}

pub open spec fn schema_view(s: Schema) -> SchemaV {
    SchemaV { namespaces: namespace_views(s.namespaces@) }
}

} // verus!
