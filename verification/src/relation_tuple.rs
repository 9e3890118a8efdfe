//! Canonical permission facts: a relation tuple asserts that `object` has
//! `relation` with `subject` inside `namespace`. A subject is either a
//! direct identity or a subject set `(namespace, object, relation)` naming
//! all subjects that satisfy that relation.
//!
//! Every subject has a canonical unique id used as a node key by the
//! evaluator: a direct subject's id is the identity itself; a subject set's
//! id is the name-based (v5) UUID of `"{namespace}-{relation}"` hashed in
//! the namespace of `object`.

use vstd::prelude::*;
use vstd::string::StringExecFns;
use vstd::utf8::encode_utf8;

verus! {

/// A 128-bit universally unique identifier, carried as its integer value.
#[derive(Debug, Clone, Copy, PartialEq, Eq, Hash, Structural)]
pub struct Uuid {
    pub value: u128,
}

/// The value of the name-based (v5) UUID built from a namespace id and a
/// name: a pure function of the two, computed by an outside library.
pub uninterp spec fn uuid_v5_of(namespace: u128, name: Seq<u8>) -> u128;

/// Relies on uuid::Uuid::new_v5: the SHA-1 name-based UUID of RFC 9562,
/// a deterministic function of the namespace UUID and the name bytes alone.
#[verifier::external_body]
pub(crate) fn new_v5(namespace: u128, name: &[u8]) -> (r: u128)
    ensures
        r == uuid_v5_of(namespace, name@),
{
    uuid::Uuid::new_v5(&uuid::Uuid::from_u128(namespace), name).as_u128()
}

/// A direct subject: one identity.
#[derive(Debug)]
pub struct SubjectId {
    pub id: Uuid,
}

/// A subject set: all subjects having `relation` on `object` in
/// `namespace`.
#[derive(Debug)]
pub struct SubjectSet {
    pub namespace: String,
    pub object: Uuid,
    pub relation: String,
}

/// Either a direct identity or a subject set.
#[derive(Debug)]
pub enum Subject {
    Direct(SubjectId),
    SubjectSet(SubjectSet),
}

/// The mathematical value of a subject.
#[verifier::ext_equal]
pub ghost enum SubjectV {
    Direct { id: u128 },
    SubjectSet { namespace: Seq<char>, object: u128, relation: Seq<char> },
}

pub open spec fn subject_view(s: Subject) -> SubjectV {
    match s {
        Subject::Direct(d) => SubjectV::Direct { id: d.id.value },
        Subject::SubjectSet(t) => SubjectV::SubjectSet {
            namespace: t.namespace@,
            object: t.object.value,
            relation: t.relation@,
        },
    }
}

/// The canonical unique id of a subject: a direct identity is its own id; a
/// subject set hashes `"{namespace}-{relation}"` in the namespace of its
/// object.
pub open spec fn spec_unique_id(s: SubjectV) -> u128 {
    match s {
        SubjectV::Direct { id } => id,
        SubjectV::SubjectSet { namespace, object, relation } => uuid_v5_of(
            object,
            encode_utf8(namespace + "-"@ + relation),
        ),
    }
}

impl SubjectId {
    pub fn new(id: Uuid) -> (r: SubjectId)
        ensures
            r.id == id,
    {
        SubjectId { id }
    }

    /// Whether `other` is a direct subject with the same identity.
    pub fn equals(&self, other: &Subject) -> (r: bool)
        ensures
            r == (subject_view(*other) matches SubjectV::Direct { id } && id == self.id.value),
    {
        match other {
            Subject::SubjectSet(_) => false,
            Subject::Direct(o) => self.id.value == o.id.value,
        }
    }

    pub fn unique_id(&self) -> (r: Uuid)
        ensures
            r.value == spec_unique_id(SubjectV::Direct { id: self.id.value }),
    {
        self.id
    }
}

impl SubjectSet {
    /// Assembles a subject set from the three columns of a stored tuple;
    /// every field must be present.
    pub fn new(
        namespace_opt: Option<String>,
        object_opt: Option<Uuid>,
        relation_opt: Option<String>,
    ) -> (r: SubjectSet)
        requires
            namespace_opt is Some,
            object_opt is Some,
            relation_opt is Some,
        ensures
            r.namespace@ == namespace_opt->0@,
            r.object == object_opt->0,
            r.relation@ == relation_opt->0@,
    {
        let namespace = match namespace_opt {
            Some(n) => n,
            None => String::new(),
        };
        let object = match object_opt {
            Some(o) => o,
            None => Uuid { value: 0 },
        };
        let relation = match relation_opt {
            Some(x) => x,
            None => String::new(),
        };
        SubjectSet { namespace, object, relation }
    }

    /// Whether `other` is a subject set with the same namespace, object and
    /// relation.
    pub fn equals(&self, other: &Subject) -> (r: bool)
        ensures
            r == (subject_view(*other) matches SubjectV::SubjectSet { namespace, object, relation }
                && namespace == self.namespace@ && object == self.object.value && relation
                == self.relation@),
    {
        match other {
            Subject::Direct(_) => false,
            Subject::SubjectSet(o) => {
                self.relation.eq(&o.relation) && self.namespace.eq(&o.namespace)
                    && self.object.value == o.object.value
            },
        }
    }

    pub fn unique_id(&self) -> (r: Uuid)
        ensures
            r.value == spec_unique_id(
                SubjectV::SubjectSet {
                    namespace: self.namespace@,
                    object: self.object.value,
                    relation: self.relation@,
                },
            ),
    {
        let name = self.namespace.clone().concat("-").concat(self.relation.as_str());
        let bytes = name.as_str().as_bytes();
        Uuid { value: new_v5(self.object.value, bytes) }
    }
}

impl Subject {
    /// Whether two subjects are equal: same variant and all fields equal.
    pub fn equals(&self, other: &Subject) -> (r: bool)
        ensures
            r == (subject_view(*self) == subject_view(*other)),
    {
        let r = match (self, other) {
            (Subject::Direct(a), Subject::Direct(b)) => a.id.value == b.id.value,
            (Subject::SubjectSet(a), Subject::SubjectSet(b)) => {
                a.namespace.eq(&b.namespace) && a.object.value == b.object.value && a.relation.eq(
                    &b.relation,
                )
            },
            _ => false,
        };
        proof {
            if r {
                assert(subject_view(*self) =~~= subject_view(*other));
            }
        }
        r
    }

    /// The canonical unique id of this subject.
    pub fn unique_id(&self) -> (r: Uuid)
        ensures
            r.value == spec_unique_id(subject_view(*self)),
    {
        match self {
            Subject::Direct(d) => d.unique_id(),
            Subject::SubjectSet(s) => s.unique_id(),
        }
    }

    /// A copy of this subject with the same value.
    pub fn duplicate(&self) -> (r: Subject)
        ensures
            subject_view(r) == subject_view(*self),
    {
        let r = match self {
            Subject::Direct(d) => Subject::Direct(SubjectId { id: d.id }),
            Subject::SubjectSet(s) => Subject::SubjectSet(
                SubjectSet {
                    namespace: s.namespace.clone(),
                    object: s.object,
                    relation: s.relation.clone(),
                },
            ),
        };
        proof {
            assert(subject_view(r) =~~= subject_view(*self));
        }
        r
    }
}

/// Law: on direct subjects the unique id is injective up to subject
/// equality -- two direct subjects share a unique id exactly when they are
/// the same subject. (Equal subjects of any kind always share their id, the
/// id being a function of the subject's value; but two distinct subject
/// sets can share one, because the id hashes the joined text
/// `"{namespace}-{relation}"`: `{"a-b", o, "c"}` and `{"a", o, "b-c"}` join
/// to the same text, so the requires limits the claim to direct subjects.)
pub proof fn lemma_unique_id_injective_direct(a: SubjectV, b: SubjectV)
    requires
        a is Direct,
        b is Direct,
    ensures
        (spec_unique_id(a) == spec_unique_id(b)) <==> (a == b),
{
}

/// One stored fact: `object` has `relation` with `subject` in `namespace`.
#[derive(Debug)]
pub struct RelationTuple {
    pub namespace: String,
    pub object: Uuid,
    pub relation: String,
    pub subject: Subject,
}

/// The mathematical value of a relation tuple.
#[verifier::ext_equal]
pub ghost struct TupleV {
    pub namespace: Seq<char>,
    pub object: u128,
    pub relation: Seq<char>,
    pub subject: SubjectV,
}

pub open spec fn tuple_view(t: RelationTuple) -> TupleV {
    TupleV {
        namespace: t.namespace@,
        object: t.object.value,
        relation: t.relation@,
        subject: subject_view(t.subject),
    }
}

impl RelationTuple {
    /// A copy of this tuple with the same value.
    pub fn duplicate(&self) -> (r: RelationTuple)
        ensures
            tuple_view(r) == tuple_view(*self),
    {
        let r = RelationTuple {
            namespace: self.namespace.clone(),
            object: self.object,
            relation: self.relation.clone(),
            subject: self.subject.duplicate(),
        };
        proof {
            assert(tuple_view(r) =~~= tuple_view(*self));
        }
        r
    }
}

/// A lookup filter: any subset of the four tuple fields.
#[derive(Debug)]
pub struct RelationTupleQuery {
    pub namespace: Option<String>,
    pub object: Option<Uuid>,
    pub relation: Option<String>,
    pub subject: Option<Subject>,
}

/// Whether a tuple matches a query: every present field must agree.
pub open spec fn spec_matches_query(t: TupleV, q: RelationTupleQuery) -> bool {
    &&& (q.namespace matches Some(n) ==> t.namespace == n@)
    &&& (q.object matches Some(o) ==> t.object == o.value)
    &&& (q.relation matches Some(x) ==> t.relation == x@)
    &&& (q.subject matches Some(s) ==> t.subject == subject_view(s))
}

impl RelationTupleQuery {
    /// Whether `t` satisfies every field this query pins down.
    pub fn matches(&self, t: &RelationTuple) -> (r: bool)
        ensures
            r == spec_matches_query(tuple_view(*t), *self),
    {
        let ns_ok = match &self.namespace {
            Some(n) => t.namespace.eq(n),
            None => true,
        };
        let obj_ok = match &self.object {
            Some(o) => t.object.value == o.value,
            None => true,
        };
        let rel_ok = match &self.relation {
            Some(x) => t.relation.eq(x),
            None => true,
        };
        let subj_ok = match &self.subject {
            Some(s) => t.subject.equals(s),
            None => true,
        };
        ns_ok && obj_ok && rel_ok && subj_ok
    }
}

/// The values of a tuple sequence, in order.
pub open spec fn tuples_views(ts: Seq<RelationTuple>) -> Seq<TupleV> {
    ts.map_values(|t: RelationTuple| tuple_view(t))
}

/// The tuple values of `tuples` that satisfy `q`, in order: the pure core
/// of a store's `get_tuples` lookup.
pub open spec fn spec_matching_tuples(tuples: Seq<RelationTuple>, q: RelationTupleQuery) -> Seq<
    TupleV,
> {
    tuples_views(tuples).filter(|tv: TupleV| spec_matches_query(tv, q))
}

/// Filters an in-memory tuple store by a query, keeping declaration order.
#[verifier::loop_isolation(false)]
pub fn get_matching_tuples(tuples: &Vec<RelationTuple>, query: &RelationTupleQuery) -> (r: Vec<
    RelationTuple,
>)
    ensures
        tuples_views(r@) == spec_matching_tuples(tuples@, *query),
{
    let mut out: Vec<RelationTuple> = Vec::new();
    let mut i: usize = 0;
    proof {
        assert(tuples_views(out@) =~= Seq::<TupleV>::empty());
        assert(tuples_views(tuples@.take(0int)) =~= Seq::<TupleV>::empty());
        assert(tuples_views(tuples@.take(0int)).filter(
            |tv: TupleV| spec_matches_query(tv, *query),
        ) =~= Seq::<TupleV>::empty());
    }
    while i < tuples.len()
        invariant
            i <= tuples@.len(),
            tuples_views(out@) == tuples_views(tuples@.take(i as int)).filter(
                |tv: TupleV| spec_matches_query(tv, *query),
            ),
        decreases tuples@.len() - i,
    {
        let t = &tuples[i];
        let ghost old_out = out@;
        proof {
            reveal_with_fuel(Seq::filter, 2);
            assert(tuples_views(tuples@.take(i + 1)).drop_last() =~= tuples_views(
                tuples@.take(i as int),
            ));
            assert(tuples_views(tuples@.take(i + 1)).last() == tuple_view(tuples@[i as int]));
            assert(tuples_views(tuples@.take(i + 1)) =~= tuples_views(
                tuples@.take(i as int),
            ).push(tuple_view(tuples@[i as int])));
        }
        if query.matches(t) {
            let copy = t.duplicate();
            out.push(copy);
            proof {
                assert(tuples_views(out@) =~= tuples_views(old_out).push(
                    tuple_view(tuples@[i as int]),
                ));
            }
        }
        i = i + 1;
    }
    proof {
        assert(tuples@.take(tuples@.len() as int) =~= tuples@);
    }
    out
}

} // verus!
