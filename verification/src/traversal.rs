//! The query evaluator: resolves `check` questions by walking rewrite trees
//! over an in-memory set of relation tuples, and expands stored relations
//! into subject trees.
//!
//! The whole algorithm is fixed by the functional model `spec_check`:
//! children are evaluated in declaration order, `Or` short-circuits on the
//! first true child, `And` on the first false one, a visited set keyed by
//! (namespace, object, relation, subject-unique-id) makes revisiting a frame
//! deny instead of looping, and exceeding the depth bound is an error
//! distinct from "not permitted". Missing namespaces and relations surface
//! as typed errors, never as a silent deny.

use vstd::prelude::*;

use crate::relation_tuple::{
    spec_unique_id, subject_view, tuple_view, RelationTuple, Subject, SubjectSet, SubjectV, Uuid,
};
use crate::schema::{
    child_view, rewrite_view, Child, ChildV, Namespace, Operator, Relation, RewriteV, Schema,
    SubjectSetRewrite,
};

verus! {

/// The default bound on evaluation recursion depth.
pub const DEFAULT_MAX_DEPTH: u64 = 256;

/// How an evaluation can fail. Failures are typed: callers can tell "not
/// permitted" from "could not decide".
#[derive(Debug, Clone, Copy, PartialEq, Eq, Structural)]
pub enum Error {
    /// The storage collaborator failed.
    Database,
    /// A frame was revisited in a context that admits no answer.
    CycleDetected,
    /// The depth bound was exceeded before an answer was found.
    MaxDepthExceeded,
    /// A tuple's subject-set reference is malformed.
    InvalidSubjectSet,
    /// The UUID mapping collaborator had no entry.
    Mapping,
    /// The queried namespace is not in the schema.
    NamespaceNotFound,
    /// The queried relation is not in its namespace.
    RelationNotFound,
}

/// The method by which a relationship was traversed.
#[derive(Debug, Clone, Copy, PartialEq, Eq, Structural)]
pub enum TraversalType {
    Unknown,
    SubjectSetExpand,
    ComputedUserSet,
    TupleToUserset,
}

/// One traversal step: from one tuple to another, how, and whether a path
/// was found.
#[derive(Debug)]
pub struct TraversalResult {
    pub from: RelationTuple,
    pub to: RelationTuple,
    pub via: TraversalType,
    pub found: bool,
}

// ---------------------------------------------------------------------------
// Schema lookups
// ---------------------------------------------------------------------------

/// The first namespace with this name, in declaration order.
pub open spec fn find_namespace(nss: Seq<Namespace>, name: Seq<char>) -> Option<Namespace>
    decreases nss.len(),
{
    if nss.len() == 0 {
        None
    } else if nss[0].name@ == name {
        Some(nss[0])
    } else {
        find_namespace(nss.drop_first(), name)
    }
}

/// The first relation with this name, in declaration order.
pub open spec fn find_relation(rels: Seq<Relation>, name: Seq<char>) -> Option<Relation>
    decreases rels.len(),
{
    if rels.len() == 0 {
        None
    } else if rels[0].name@ == name {
        Some(rels[0])
    } else {
        find_relation(rels.drop_first(), name)
    }
}

// ---------------------------------------------------------------------------
// The functional model of `check`
// ---------------------------------------------------------------------------

/// Everything an evaluation reads: the schema and the tuple store.
pub ghost struct EvalEnv {
    pub schema: Schema,
    pub tuples: Seq<RelationTuple>,
}

/// One frame of the evaluation stack, the visited-set key.
#[verifier::ext_equal]
pub ghost struct Frame {
    pub ns: Seq<char>,
    pub obj: u128,
    pub rel: Seq<char>,
    pub subj: u128,
}

/// Whether an attribute relation holds on this object: some tuple asserts
/// it, whatever its subject.
pub open spec fn spec_attr_present(
    tuples: Seq<RelationTuple>,
    ns: Seq<char>,
    obj: u128,
    rel: Seq<char>,
) -> bool {
    exists|i: int|
        0 <= i < tuples.len() && #[trigger] tuple_view(tuples[i]).namespace == ns && tuple_view(
            tuples[i],
        ).object == obj && tuple_view(tuples[i]).relation == rel
}

/// Does `subj` have `rel` on `obj` in `ns`? The algorithm: a revisited
/// frame denies; an exhausted depth errs; a relation without a rewrite is
/// checked against the stored tuples (directly, or through a subject-set
/// subject); a relation with a rewrite is decided by its tree.
pub open spec fn spec_check(
    env: EvalEnv,
    ns: Seq<char>,
    obj: u128,
    rel: Seq<char>,
    subj: SubjectV,
    visited: Seq<Frame>,
    depth: nat,
) -> Result<bool, Error>
    decreases depth, 0int, Operator::And, 0int,
{
    if depth == 0 {
        Err(Error::MaxDepthExceeded)
    } else {
        let f = Frame { ns, obj, rel, subj: spec_unique_id(subj) };
        if visited.contains(f) {
            Ok(false)
        } else {
            match find_namespace(env.schema.namespaces@, ns) {
                Option::None => Err(Error::NamespaceNotFound),
                Option::Some(nsp) => match find_relation(nsp.relations@, rel) {
                    Option::None => Err(Error::RelationNotFound),
                    Option::Some(r) => match r.subject_set_rewrite {
                        Option::None => spec_check_stored(
                            env,
                            ns,
                            obj,
                            rel,
                            subj,
                            visited.push(f),
                            (depth - 1) as nat,
                            0,
                        ),
                        Option::Some(rw) => spec_eval_node(
                            env,
                            ns,
                            obj,
                            subj,
                            visited.push(f),
                            (depth - 1) as nat,
                            rewrite_view(*rw),
                        ),
                    },
                },
            }
        }
    }
}

/// Scans the tuples from index `i` for one granting `rel` on `obj` to
/// `subj`: a tuple whose subject equals `subj` grants directly; one whose
/// subject is a subject set grants if `subj` passes `check` on that set.
pub open spec fn spec_check_stored(
    env: EvalEnv,
    ns: Seq<char>,
    obj: u128,
    rel: Seq<char>,
    subj: SubjectV,
    visited: Seq<Frame>,
    depth: nat,
    i: int,
) -> Result<bool, Error>
    decreases depth, 3int, Operator::And, env.tuples.len() - i,
{
    if i < 0 || i >= env.tuples.len() {
        Ok(false)
    } else {
        let t = tuple_view(env.tuples[i]);
        if t.namespace == ns && t.object == obj && t.relation == rel {
            if t.subject == subj {
                Ok(true)
            } else {
                match t.subject {
                    SubjectV::SubjectSet { namespace: sns, object: sobj, relation: srel } => {
                        match spec_check(env, sns, sobj, srel, subj, visited, depth) {
                            Result::Err(e) => Err(e),
                            Result::Ok(true) => Ok(true),
                            Result::Ok(false) => spec_check_stored(
                                env,
                                ns,
                                obj,
                                rel,
                                subj,
                                visited,
                                depth,
                                i + 1,
                            ),
                        }
                    },
                    _ => spec_check_stored(env, ns, obj, rel, subj, visited, depth, i + 1),
                }
            }
        } else {
            spec_check_stored(env, ns, obj, rel, subj, visited, depth, i + 1)
        }
    }
}

/// Evaluates a rewrite node: its children in declaration order, `And`
/// short-circuiting on the first false child, `Or` on the first true one.
pub open spec fn spec_eval_node(
    env: EvalEnv,
    ns: Seq<char>,
    obj: u128,
    subj: SubjectV,
    visited: Seq<Frame>,
    depth: nat,
    rw: RewriteV,
) -> Result<bool, Error>
    decreases depth, 2int, rw, rw.children.len() + 1,
{
    spec_eval_children(env, ns, obj, subj, visited, depth, rw, 0)
}

/// Evaluates the children of `rw` from index `i` on.
pub open spec fn spec_eval_children(
    env: EvalEnv,
    ns: Seq<char>,
    obj: u128,
    subj: SubjectV,
    visited: Seq<Frame>,
    depth: nat,
    rw: RewriteV,
    i: int,
) -> Result<bool, Error>
    decreases depth, 2int, rw, rw.children.len() - i,
{
    if i < 0 || i >= rw.children.len() {
        if rw.operation == Operator::And {
            Ok(true)
        } else {
            Ok(false)
        }
    } else {
        match spec_eval_child(env, ns, obj, subj, visited, depth, rw.children[i]) {
            Result::Err(e) => Err(e),
            Result::Ok(b) => match rw.operation {
                Operator::And => if !b {
                    Ok(false)
                } else {
                    spec_eval_children(env, ns, obj, subj, visited, depth, rw, i + 1)
                },
                Operator::Or => if b {
                    Ok(true)
                } else {
                    spec_eval_children(env, ns, obj, subj, visited, depth, rw, i + 1)
                },
            },
        }
    }
}

/// Evaluates one rewrite child.
pub open spec fn spec_eval_child(
    env: EvalEnv,
    ns: Seq<char>,
    obj: u128,
    subj: SubjectV,
    visited: Seq<Frame>,
    depth: nat,
    c: ChildV,
) -> Result<bool, Error>
    decreases depth, 2int, c, 0int,
{
    match c {
        ChildV::Rewrite { rewrite } => spec_eval_node(env, ns, obj, subj, visited, depth, *rewrite),
        ChildV::ComputerSubjectSet { relation } => spec_check(
            env,
            ns,
            obj,
            relation,
            subj,
            visited,
            depth,
        ),
        ChildV::TupleToSubjectSet { relation, computed_subject_set_relation } => spec_check_ttu(
            env,
            ns,
            obj,
            relation,
            computed_subject_set_relation,
            subj,
            visited,
            depth,
            0,
        ),
        ChildV::InvertResult { child } => match spec_eval_child(
            env,
            ns,
            obj,
            subj,
            visited,
            depth,
            *child,
        ) {
            Result::Ok(b) => Ok(!b),
            Result::Err(e) => Err(e),
        },
        ChildV::AttributeReference { relation } => Ok(
            spec_attr_present(env.tuples, ns, obj, relation),
        ),
    }
}

/// Walks `rel` on the current object from tuple index `i` on: every tuple
/// under `rel` whose subject is a subject set is followed, and `subj` is
/// checked for `computed` on each referent. Direct-subject tuples under
/// `rel` are ignored here.
pub open spec fn spec_check_ttu(
    env: EvalEnv,
    ns: Seq<char>,
    obj: u128,
    rel: Seq<char>,
    computed: Seq<char>,
    subj: SubjectV,
    visited: Seq<Frame>,
    depth: nat,
    i: int,
) -> Result<bool, Error>
    decreases depth, 1int, Operator::And, env.tuples.len() - i,
{
    if i < 0 || i >= env.tuples.len() {
        Ok(false)
    } else {
        let t = tuple_view(env.tuples[i]);
        if t.namespace == ns && t.object == obj && t.relation == rel {
            match t.subject {
                SubjectV::SubjectSet { namespace: sns, object: sobj, relation: srel } => {
                    match spec_check(env, sns, sobj, computed, subj, visited, depth) {
                        Result::Err(e) => Err(e),
                        Result::Ok(true) => Ok(true),
                        Result::Ok(false) => spec_check_ttu(
                            env,
                            ns,
                            obj,
                            rel,
                            computed,
                            subj,
                            visited,
                            depth,
                            i + 1,
                        ),
                    }
                },
                _ => spec_check_ttu(env, ns, obj, rel, computed, subj, visited, depth, i + 1),
            }
        } else {
            spec_check_ttu(env, ns, obj, rel, computed, subj, visited, depth, i + 1)
        }
    }
}

// ---------------------------------------------------------------------------
// The executable evaluator
// ---------------------------------------------------------------------------

/// One frame of the executable visited set.
#[derive(Debug)]
pub struct VisitedFrame {
    pub ns: String,
    pub obj: Uuid,
    pub rel: String,
    pub subj: Uuid,
}

pub open spec fn frame_view(f: VisitedFrame) -> Frame {
    Frame { ns: f.ns@, obj: f.obj.value, rel: f.rel@, subj: f.subj.value }
}

pub open spec fn frames_view(fs: Seq<VisitedFrame>) -> Seq<Frame> {
    fs.map_values(|f: VisitedFrame| frame_view(f))
}

/// Whether this frame is already on the path.
#[verifier::loop_isolation(false)]
fn contains_frame(visited: &Vec<VisitedFrame>, ns: &String, obj: Uuid, rel: &String, subj: Uuid)
    -> (r: bool)
    ensures
        r == frames_view(visited@).contains(
            Frame { ns: ns@, obj: obj.value, rel: rel@, subj: subj.value },
        ),
{
    let ghost f = Frame { ns: ns@, obj: obj.value, rel: rel@, subj: subj.value };
    let mut i: usize = 0;
    while i < visited.len()
        invariant
            i <= visited@.len(),
            forall|j: int| 0 <= j < i ==> frames_view(visited@)[j] != f,
        decreases visited@.len() - i,
    {
        let v = &visited[i];
        proof {
            assert(frames_view(visited@)[i as int] == frame_view(visited@[i as int]));
        }
        if v.ns.eq(ns) && v.obj.value == obj.value && v.rel.eq(rel) && v.subj.value == subj.value {
            proof {
                assert(frame_view(visited@[i as int]) == f);
                assert(frames_view(visited@).contains(f));
            }
            return true;
        }
        proof {
            assert(frames_view(visited@)[i as int] != f);
        }
        i = i + 1;
    }
    proof {
        if frames_view(visited@).contains(f) {
            let j = choose|j: int| 0 <= j < frames_view(visited@).len() && frames_view(visited@)[j]
                == f;
            assert(frames_view(visited@)[j] != f);
        }
    }
    false
}

/// A copy of the visited set with one more frame on it.
#[verifier::loop_isolation(false)]
fn push_frame(visited: &Vec<VisitedFrame>, ns: &String, obj: Uuid, rel: &String, subj: Uuid) -> (r:
    Vec<VisitedFrame>)
    ensures
        frames_view(r@) == frames_view(visited@).push(
            Frame { ns: ns@, obj: obj.value, rel: rel@, subj: subj.value },
        ),
{
    let mut out: Vec<VisitedFrame> = Vec::new();
    let mut i: usize = 0;
    while i < visited.len()
        invariant
            i <= visited@.len(),
            out@.len() == i,
            forall|j: int| 0 <= j < i ==> frames_view(out@)[j] == frames_view(visited@)[j],
        decreases visited@.len() - i,
    {
        let v = &visited[i];
        out.push(
            VisitedFrame { ns: v.ns.clone(), obj: v.obj, rel: v.rel.clone(), subj: v.subj },
        );
        proof {
            assert(frames_view(out@)[i as int] == frame_view(out@[i as int]));
            assert(frames_view(visited@)[i as int] == frame_view(visited@[i as int]));
            assert(frame_view(out@[i as int]) =~~= frame_view(visited@[i as int]));
        }
        i = i + 1;
    }
    out.push(VisitedFrame { ns: ns.clone(), obj, rel: rel.clone(), subj });
    proof {
        assert(frames_view(out@)[visited@.len() as int] == frame_view(
            out@[visited@.len() as int],
        ));
        assert(frames_view(out@)[visited@.len() as int] =~~= (Frame {
            ns: ns@,
            obj: obj.value,
            rel: rel@,
            subj: subj.value,
        }));
        assert(frames_view(out@) =~= frames_view(visited@).push(
            Frame { ns: ns@, obj: obj.value, rel: rel@, subj: subj.value },
        ));
    }
    out
}

/// The first namespace with this name.
#[verifier::loop_isolation(false)]
fn get_namespace<'x>(schema: &'x Schema, name: &String) -> (r: Option<&'x Namespace>)
    ensures
        match r {
            Option::Some(n) => find_namespace(schema.namespaces@, name@) == Some(*n),
            Option::None => find_namespace(schema.namespaces@, name@) is None,
        },
{
    let mut i: usize = 0;
    proof {
        assert(schema.namespaces@.skip(0) =~= schema.namespaces@);
    }
    while i < schema.namespaces.len()
        invariant
            i <= schema.namespaces@.len(),
            find_namespace(schema.namespaces@, name@) == find_namespace(
                schema.namespaces@.skip(i as int),
                name@,
            ),
        decreases schema.namespaces@.len() - i,
    {
        proof {
            assert(schema.namespaces@.skip(i as int)[0] == schema.namespaces@[i as int]);
            assert(schema.namespaces@.skip(i as int).drop_first() =~= schema.namespaces@.skip(
                i as int + 1,
            ));
        }
        let n = &schema.namespaces[i];
        if n.name.eq(name) {
            return Some(n);
        }
        i = i + 1;
    }
    proof {
        assert(schema.namespaces@.skip(i as int) =~= Seq::<Namespace>::empty());
    }
    None
}

/// The first relation with this name.
#[verifier::loop_isolation(false)]
fn get_relation<'x>(nsp: &'x Namespace, name: &String) -> (r: Option<&'x Relation>)
    ensures
        match r {
            Option::Some(x) => find_relation(nsp.relations@, name@) == Some(*x),
            Option::None => find_relation(nsp.relations@, name@) is None,
        },
{
    let mut i: usize = 0;
    proof {
        assert(nsp.relations@.skip(0) =~= nsp.relations@);
    }
    while i < nsp.relations.len()
        invariant
            i <= nsp.relations@.len(),
            find_relation(nsp.relations@, name@) == find_relation(
                nsp.relations@.skip(i as int),
                name@,
            ),
        decreases nsp.relations@.len() - i,
    {
        proof {
            assert(nsp.relations@.skip(i as int)[0] == nsp.relations@[i as int]);
            assert(nsp.relations@.skip(i as int).drop_first() =~= nsp.relations@.skip(i as int + 1));
        }
        let x = &nsp.relations[i];
        if x.name.eq(name) {
            return Some(x);
        }
        i = i + 1;
    }
    proof {
        assert(nsp.relations@.skip(i as int) =~= Seq::<Relation>::empty());
    }
    None
}

/// Whether some tuple asserts `rel` on `obj` in `ns`, whatever its subject.
#[verifier::loop_isolation(false)]
fn attr_present(tuples: &Vec<RelationTuple>, ns: &String, obj: Uuid, rel: &String) -> (r: bool)
    ensures
        r == spec_attr_present(tuples@, ns@, obj.value, rel@),
{
    let mut i: usize = 0;
    while i < tuples.len()
        invariant
            i <= tuples@.len(),
            forall|j: int|
                0 <= j < i ==> !(#[trigger] tuple_view(tuples@[j]).namespace == ns@ && tuple_view(
                    tuples@[j],
                ).object == obj.value && tuple_view(tuples@[j]).relation == rel@),
        decreases tuples@.len() - i,
    {
        let t = &tuples[i];
        if t.namespace.eq(ns) && t.object.value == obj.value && t.relation.eq(rel) {
            proof {
                assert(tuple_view(tuples@[i as int]).namespace == ns@ && tuple_view(
                    tuples@[i as int],
                ).object == obj.value && tuple_view(tuples@[i as int]).relation == rel@);
            }
            return true;
        }
        i = i + 1;
    }
    proof {
        if spec_attr_present(tuples@, ns@, obj.value, rel@) {
            let j = choose|j: int|
                0 <= j < tuples@.len() && #[trigger] tuple_view(tuples@[j]).namespace == ns@
                    && tuple_view(tuples@[j]).object == obj.value && tuple_view(
                    tuples@[j],
                ).relation == rel@;
            assert(false);
        }
    }
    false
}

/// Decides `check` for one frame: mirrors `spec_check` step for step.
#[verifier::loop_isolation(false)]
fn check_frames(
    schema: &Schema,
    tuples: &Vec<RelationTuple>,
    ns: &String,
    obj: Uuid,
    rel: &String,
    subj: &Subject,
    visited: &Vec<VisitedFrame>,
    depth: u64,
) -> (r: Result<bool, Error>)
    ensures
        r == spec_check(
            EvalEnv { schema: *schema, tuples: tuples@ },
            ns@,
            obj.value,
            rel@,
            subject_view(*subj),
            frames_view(visited@),
            depth as nat,
        ),
    decreases depth, 0int, Operator::And, 0int,
{
    let ghost env = EvalEnv { schema: *schema, tuples: tuples@ };
    if depth == 0 {
        return Err(Error::MaxDepthExceeded);
    }
    let uid = subj.unique_id();
    let ghost f = Frame { ns: ns@, obj: obj.value, rel: rel@, subj: spec_unique_id(subject_view(*subj)) };
    if contains_frame(visited, ns, obj, rel, uid) {
        return Ok(false);
    }
    let visited2 = push_frame(visited, ns, obj, rel, uid);
    let nsp = match get_namespace(schema, ns) {
        None => {
            return Err(Error::NamespaceNotFound);
        },
        Some(n) => n,
    };
    let relation = match get_relation(nsp, rel) {
        None => {
            return Err(Error::RelationNotFound);
        },
        Some(x) => x,
    };
    proof {
        assert(frames_view(visited2@) == frames_view(visited@).push(f));
    }
    match &relation.subject_set_rewrite {
        Some(rw) => {
            let r = eval_node(schema, tuples, ns, obj, subj, &visited2, depth - 1, rw);
            proof {
                assert(spec_check(
                    env,
                    ns@,
                    obj.value,
                    rel@,
                    subject_view(*subj),
                    frames_view(visited@),
                    depth as nat,
                ) == spec_eval_node(
                    env,
                    ns@,
                    obj.value,
                    subject_view(*subj),
                    frames_view(visited2@),
                    (depth - 1) as nat,
                    rewrite_view(*relation.subject_set_rewrite->0),
                ));
            }
            r
        },
        None => {
            proof {
                assert(spec_check(
                    env,
                    ns@,
                    obj.value,
                    rel@,
                    subject_view(*subj),
                    frames_view(visited@),
                    depth as nat,
                ) == spec_check_stored(
                    env,
                    ns@,
                    obj.value,
                    rel@,
                    subject_view(*subj),
                    frames_view(visited2@),
                    (depth - 1) as nat,
                    0,
                ));
            }
            // A stored relation: scan the tuples in order.
            let mut i: usize = 0;
            loop
                invariant
                    i <= tuples@.len(),
                    spec_check_stored(
                        env,
                        ns@,
                        obj.value,
                        rel@,
                        subject_view(*subj),
                        frames_view(visited2@),
                        (depth - 1) as nat,
                        0,
                    ) == spec_check_stored(
                        env,
                        ns@,
                        obj.value,
                        rel@,
                        subject_view(*subj),
                        frames_view(visited2@),
                        (depth - 1) as nat,
                        i as int,
                    ),
                decreases tuples@.len() - i,
            {
                let ghost stored_i = spec_check_stored(
                    env,
                    ns@,
                    obj.value,
                    rel@,
                    subject_view(*subj),
                    frames_view(visited2@),
                    (depth - 1) as nat,
                    i as int,
                );
                if i >= tuples.len() {
                    proof {
                        assert(stored_i == Ok::<bool, Error>(false));
                    }
                    return Ok(false);
                }
                let t = &tuples[i];
                proof {
                    assert(tuples@[i as int] == *t);
                }
                if t.namespace.eq(ns) && t.object.value == obj.value && t.relation.eq(rel) {
                    if t.subject.equals(subj) {
                        proof {
                            assert(stored_i == Ok::<bool, Error>(true));
                        }
                        return Ok(true);
                    }
                    match &t.subject {
                        Subject::SubjectSet(s) => {
                            let sub = check_frames(
                                schema,
                                tuples,
                                &s.namespace,
                                s.object,
                                &s.relation,
                                subj,
                                &visited2,
                                depth - 1,
                            );
                            proof {
                                assert(subject_view(t.subject) matches SubjectV::SubjectSet {
                                    namespace: sns,
                                    object: sobj,
                                    relation: srel,
                                } && sns == s.namespace@ && sobj == s.object.value && srel
                                    == s.relation@);
                            }
                            match sub {
                                Err(e) => {
                                    proof {
                                        assert(stored_i == Err::<bool, Error>(e));
                                    }
                                    return Err(e);
                                },
                                Ok(true) => {
                                    proof {
                                        assert(stored_i == Ok::<bool, Error>(true));
                                    }
                                    return Ok(true);
                                },
                                Ok(false) => {
                                    proof {
                                        assert(stored_i == spec_check_stored(
                                            env,
                                            ns@,
                                            obj.value,
                                            rel@,
                                            subject_view(*subj),
                                            frames_view(visited2@),
                                            (depth - 1) as nat,
                                            i + 1,
                                        ));
                                    }
                                },
                            }
                        },
                        Subject::Direct(_) => {
                            proof {
                                assert(stored_i == spec_check_stored(
                                    env,
                                    ns@,
                                    obj.value,
                                    rel@,
                                    subject_view(*subj),
                                    frames_view(visited2@),
                                    (depth - 1) as nat,
                                    i + 1,
                                ));
                            }
                        },
                    }
                } else {
                    proof {
                        assert(stored_i == spec_check_stored(
                            env,
                            ns@,
                            obj.value,
                            rel@,
                            subject_view(*subj),
                            frames_view(visited2@),
                            (depth - 1) as nat,
                            i + 1,
                        ));
                    }
                }
                i = i + 1;
            }
        },
    }
}

/// Evaluates one rewrite node: mirrors `spec_eval_node`.
#[verifier::loop_isolation(false)]
fn eval_node(
    schema: &Schema,
    tuples: &Vec<RelationTuple>,
    ns: &String,
    obj: Uuid,
    subj: &Subject,
    visited: &Vec<VisitedFrame>,
    depth: u64,
    rw: &SubjectSetRewrite,
) -> (r: Result<bool, Error>)
    ensures
        r == spec_eval_node(
            EvalEnv { schema: *schema, tuples: tuples@ },
            ns@,
            obj.value,
            subject_view(*subj),
            frames_view(visited@),
            depth as nat,
            rewrite_view(*rw),
        ),
    decreases depth, 2int, *rw, rw.children@.len() + 1,
{
    let ghost env = EvalEnv { schema: *schema, tuples: tuples@ };
    let ghost rv = rewrite_view(*rw);
    let mut i: usize = 0;
    loop
        invariant
            i <= rw.children@.len(),
            rv == rewrite_view(*rw),
            spec_eval_children(
                env,
                ns@,
                obj.value,
                subject_view(*subj),
                frames_view(visited@),
                depth as nat,
                rv,
                0,
            ) == spec_eval_children(
                env,
                ns@,
                obj.value,
                subject_view(*subj),
                frames_view(visited@),
                depth as nat,
                rv,
                i as int,
            ),
        decreases rw.children@.len() - i,
    {
        let ghost kids_i = spec_eval_children(
            env,
            ns@,
            obj.value,
            subject_view(*subj),
            frames_view(visited@),
            depth as nat,
            rv,
            i as int,
        );
        if i >= rw.children.len() {
            let and_node = matches!(rw.operation, Operator::And);
            if and_node {
                proof {
                    assert(kids_i == Ok::<bool, Error>(true));
                }
                return Ok(true);
            } else {
                proof {
                    assert(kids_i == Ok::<bool, Error>(false));
                }
                return Ok(false);
            }
        }
        proof {
            assert(rv.children[i as int] == child_view(rw.children@[i as int]));
        }
        let res = eval_child(schema, tuples, ns, obj, subj, visited, depth, &rw.children[i]);
        match res {
            Err(e) => {
                proof {
                    assert(kids_i == Err::<bool, Error>(e));
                }
                return Err(e);
            },
            Ok(b) => {
                let and_node = matches!(rw.operation, Operator::And);
                if and_node {
                    if !b {
                        proof {
                            assert(kids_i == Ok::<bool, Error>(false));
                        }
                        return Ok(false);
                    }
                } else {
                    if b {
                        proof {
                            assert(kids_i == Ok::<bool, Error>(true));
                        }
                        return Ok(true);
                    }
                }
                proof {
                    assert(kids_i == spec_eval_children(
                        env,
                        ns@,
                        obj.value,
                        subject_view(*subj),
                        frames_view(visited@),
                        depth as nat,
                        rv,
                        i + 1,
                    ));
                }
            },
        }
        i = i + 1;
    }
}

/// Evaluates one rewrite child: mirrors `spec_eval_child`.
#[verifier::loop_isolation(false)]
fn eval_child(
    schema: &Schema,
    tuples: &Vec<RelationTuple>,
    ns: &String,
    obj: Uuid,
    subj: &Subject,
    visited: &Vec<VisitedFrame>,
    depth: u64,
    c: &Child,
) -> (r: Result<bool, Error>)
    ensures
        r == spec_eval_child(
            EvalEnv { schema: *schema, tuples: tuples@ },
            ns@,
            obj.value,
            subject_view(*subj),
            frames_view(visited@),
            depth as nat,
            child_view(*c),
        ),
    decreases depth, 2int, *c, 0int,
{
    let ghost env = EvalEnv { schema: *schema, tuples: tuples@ };
    match c {
        Child::Rewrite { rewrite } => eval_node(schema, tuples, ns, obj, subj, visited, depth, rewrite),
        Child::ComputerSubjectSet { relation } => check_frames(
            schema,
            tuples,
            ns,
            obj,
            relation,
            subj,
            visited,
            depth,
        ),
        Child::InvertResult { child } => {
            match eval_child(schema, tuples, ns, obj, subj, visited, depth, child) {
                Ok(b) => Ok(!b),
                Err(e) => Err(e),
            }
        },
        Child::AttributeReference { relation } => Ok(attr_present(tuples, ns, obj, relation)),
        Child::TupleToSubjectSet { relation, computed_subject_set_relation } => {
            let mut i: usize = 0;
            loop
                invariant
                    i <= tuples@.len(),
                    spec_check_ttu(
                        env,
                        ns@,
                        obj.value,
                        relation@,
                        computed_subject_set_relation@,
                        subject_view(*subj),
                        frames_view(visited@),
                        depth as nat,
                        0,
                    ) == spec_check_ttu(
                        env,
                        ns@,
                        obj.value,
                        relation@,
                        computed_subject_set_relation@,
                        subject_view(*subj),
                        frames_view(visited@),
                        depth as nat,
                        i as int,
                    ),
                decreases tuples@.len() - i,
            {
                let ghost ttu_i = spec_check_ttu(
                    env,
                    ns@,
                    obj.value,
                    relation@,
                    computed_subject_set_relation@,
                    subject_view(*subj),
                    frames_view(visited@),
                    depth as nat,
                    i as int,
                );
                if i >= tuples.len() {
                    proof {
                        assert(ttu_i == Ok::<bool, Error>(false));
                    }
                    return Ok(false);
                }
                let t = &tuples[i];
                proof {
                    assert(tuples@[i as int] == *t);
                }
                if t.namespace.eq(ns) && t.object.value == obj.value && t.relation.eq(relation) {
                    match &t.subject {
                        Subject::SubjectSet(s) => {
                            let sub = check_frames(
                                schema,
                                tuples,
                                &s.namespace,
                                s.object,
                                computed_subject_set_relation,
                                subj,
                                visited,
                                depth,
                            );
                            match sub {
                                Err(e) => {
                                    proof {
                                        assert(ttu_i == Err::<bool, Error>(e));
                                    }
                                    return Err(e);
                                },
                                Ok(true) => {
                                    proof {
                                        assert(ttu_i == Ok::<bool, Error>(true));
                                    }
                                    return Ok(true);
                                },
                                Ok(false) => {
                                    proof {
                                        assert(ttu_i == spec_check_ttu(
                                            env,
                                            ns@,
                                            obj.value,
                                            relation@,
                                            computed_subject_set_relation@,
                                            subject_view(*subj),
                                            frames_view(visited@),
                                            depth as nat,
                                            i + 1,
                                        ));
                                    }
                                },
                            }
                        },
                        Subject::Direct(_) => {
                            proof {
                                assert(ttu_i == spec_check_ttu(
                                    env,
                                    ns@,
                                    obj.value,
                                    relation@,
                                    computed_subject_set_relation@,
                                    subject_view(*subj),
                                    frames_view(visited@),
                                    depth as nat,
                                    i + 1,
                                ));
                            }
                        },
                    }
                } else {
                    proof {
                        assert(ttu_i == spec_check_ttu(
                            env,
                            ns@,
                            obj.value,
                            relation@,
                            computed_subject_set_relation@,
                            subject_view(*subj),
                            frames_view(visited@),
                            depth as nat,
                            i + 1,
                        ));
                    }
                }
                i = i + 1;
            }
        },
    }
}

/// Decides whether `subject` has `relation` on `object` in `namespace`,
/// against an immutable schema and an in-memory tuple store. The result is
/// exactly what the functional model `spec_check` gives with an empty path
/// and `max_depth` frames of room: `Ok(true)` for permitted, `Ok(false)`
/// for not permitted (including every cyclic path), and an error when the
/// question cannot be decided.
pub fn check(
    schema: &Schema,
    tuples: &Vec<RelationTuple>,
    namespace: &String,
    object: Uuid,
    relation: &String,
    subject: &Subject,
    max_depth: u64,
) -> (r: Result<bool, Error>)
    ensures
        r == spec_check(
            EvalEnv { schema: *schema, tuples: tuples@ },
            namespace@,
            object.value,
            relation@,
            subject_view(*subject),
            Seq::<Frame>::empty(),
            max_depth as nat,
        ),
{
    let visited: Vec<VisitedFrame> = Vec::new();
    proof {
        assert(frames_view(visited@) =~= Seq::<Frame>::empty());
    }
    check_frames(schema, tuples, namespace, object, relation, subject, &visited, max_depth)
}

// ---------------------------------------------------------------------------
// Monotonicity of `check` in the tuple set
// ---------------------------------------------------------------------------

/// No `InvertResult` occurs anywhere in the tree.
pub open spec fn rewrite_negation_free(r: RewriteV) -> bool
    decreases r,
{
    forall|i: int|
        0 <= i < r.children.len() ==> child_negation_free(#[trigger] r.children[i])
}

/// No `InvertResult` occurs in or below this child.
pub open spec fn child_negation_free(c: ChildV) -> bool
    decreases c,
{
    match c {
        ChildV::Rewrite { rewrite } => rewrite_negation_free(*rewrite),
        ChildV::InvertResult { .. } => false,
        _ => true,
    }
}

/// No permission rule of the schema uses negation.
pub open spec fn schema_negation_free(s: Schema) -> bool {
    forall|i: int, j: int|
        0 <= i < s.namespaces@.len() && 0 <= j < s.namespaces@[i].relations@.len()
            ==> match #[trigger] s.namespaces@[i].relations@[j].subject_set_rewrite {
            Option::Some(rw) => rewrite_negation_free(rewrite_view(*rw)),
            Option::None => true,
        }
}

/// Every tuple of `t1` also stands in `t2` (by value).
pub open spec fn tuples_subset(t1: Seq<RelationTuple>, t2: Seq<RelationTuple>) -> bool {
    forall|i: int|
        0 <= i < t1.len() ==> exists|j: int|
            0 <= j < t2.len() && tuple_view(t2[j]) == tuple_view(#[trigger] t1[i])
}

proof fn lemma_find_namespace_contains(nss: Seq<Namespace>, name: Seq<char>)
    ensures
        find_namespace(nss, name) matches Some(n) ==> exists|i: int|
            0 <= i < nss.len() && nss[i] == n,
    decreases nss.len(),
{
    if nss.len() > 0 && nss[0].name@ != name {
        lemma_find_namespace_contains(nss.drop_first(), name);
        if find_namespace(nss, name) is Some {
            let n = find_namespace(nss, name)->0;
            let i = choose|i: int| 0 <= i < nss.drop_first().len() && nss.drop_first()[i] == n;
            assert(nss[i + 1] == n);
        }
    }
}

proof fn lemma_find_relation_contains(rels: Seq<Relation>, name: Seq<char>)
    ensures
        find_relation(rels, name) matches Some(r) ==> exists|i: int|
            0 <= i < rels.len() && rels[i] == r,
    decreases rels.len(),
{
    if rels.len() > 0 && rels[0].name@ != name {
        lemma_find_relation_contains(rels.drop_first(), name);
        if find_relation(rels, name) is Some {
            let r = find_relation(rels, name)->0;
            let i = choose|i: int| 0 <= i < rels.drop_first().len() && rels.drop_first()[i] == r;
            assert(rels[i + 1] == r);
        }
    }
}

/// A tuple grants a stored relation directly or through its subject set.
pub open spec fn stored_grant_at(
    env: EvalEnv,
    ns: Seq<char>,
    obj: u128,
    rel: Seq<char>,
    subj: SubjectV,
    visited: Seq<Frame>,
    depth: nat,
    j: int,
) -> bool {
    &&& 0 <= j < env.tuples.len()
    &&& tuple_view(env.tuples[j]).namespace == ns
    &&& tuple_view(env.tuples[j]).object == obj
    &&& tuple_view(env.tuples[j]).relation == rel
    &&& (tuple_view(env.tuples[j]).subject == subj || (match tuple_view(env.tuples[j]).subject {
        SubjectV::SubjectSet { namespace: sns, object: sobj, relation: srel } => spec_check(
            env,
            sns,
            sobj,
            srel,
            subj,
            visited,
            depth,
        ) == Ok::<bool, Error>(true),
        _ => false,
    }))
}

proof fn lemma_stored_true_witness(
    env: EvalEnv,
    ns: Seq<char>,
    obj: u128,
    rel: Seq<char>,
    subj: SubjectV,
    visited: Seq<Frame>,
    depth: nat,
    i: int,
)
    requires
        0 <= i,
        spec_check_stored(env, ns, obj, rel, subj, visited, depth, i) == Ok::<bool, Error>(true),
    ensures
        exists|j: int| i <= j && #[trigger] stored_grant_at(env, ns, obj, rel, subj, visited, depth, j),
    decreases env.tuples.len() - i,
{
    if 0 <= i < env.tuples.len() {
        if stored_grant_at(env, ns, obj, rel, subj, visited, depth, i) {
        } else {
            lemma_stored_true_witness(env, ns, obj, rel, subj, visited, depth, i + 1);
        }
    }
}

/// Below a denied stored scan, every matching subject-set tuple's sub-check
/// answered `Ok(false)`.
pub open spec fn stored_subcheck_false(
    env: EvalEnv,
    ns: Seq<char>,
    obj: u128,
    rel: Seq<char>,
    subj: SubjectV,
    visited: Seq<Frame>,
    depth: nat,
    j: int,
) -> bool {
    (0 <= j < env.tuples.len() && tuple_view(env.tuples[j]).namespace == ns && tuple_view(
        env.tuples[j],
    ).object == obj && tuple_view(env.tuples[j]).relation == rel) ==> {
        &&& tuple_view(env.tuples[j]).subject != subj
        &&& match tuple_view(env.tuples[j]).subject {
            SubjectV::SubjectSet { namespace: sns, object: sobj, relation: srel } => spec_check(
                env,
                sns,
                sobj,
                srel,
                subj,
                visited,
                depth,
            ) == Ok::<bool, Error>(false),
            _ => true,
        }
    }
}

proof fn lemma_stored_false_all(
    env: EvalEnv,
    ns: Seq<char>,
    obj: u128,
    rel: Seq<char>,
    subj: SubjectV,
    visited: Seq<Frame>,
    depth: nat,
    i: int,
)
    requires
        0 <= i,
        spec_check_stored(env, ns, obj, rel, subj, visited, depth, i) == Ok::<bool, Error>(false),
    ensures
        forall|j: int|
            i <= j ==> #[trigger] stored_subcheck_false(env, ns, obj, rel, subj, visited, depth, j),
    decreases env.tuples.len() - i,
{
    if i < env.tuples.len() {
        lemma_stored_false_all(env, ns, obj, rel, subj, visited, depth, i + 1);
        assert(stored_subcheck_false(env, ns, obj, rel, subj, visited, depth, i));
    } else {
        assert forall|j: int| i <= j implies #[trigger] stored_subcheck_false(
            env,
            ns,
            obj,
            rel,
            subj,
            visited,
            depth,
            j,
        ) by {}
    }
}

/// A tuple opens a tuple-to-subject-set walk that grants.
pub open spec fn ttu_grant_at(
    env: EvalEnv,
    ns: Seq<char>,
    obj: u128,
    rel: Seq<char>,
    computed: Seq<char>,
    subj: SubjectV,
    visited: Seq<Frame>,
    depth: nat,
    j: int,
) -> bool {
    &&& 0 <= j < env.tuples.len()
    &&& tuple_view(env.tuples[j]).namespace == ns
    &&& tuple_view(env.tuples[j]).object == obj
    &&& tuple_view(env.tuples[j]).relation == rel
    &&& (match tuple_view(env.tuples[j]).subject {
        SubjectV::SubjectSet { namespace: sns, object: sobj, relation: srel } => spec_check(
            env,
            sns,
            sobj,
            computed,
            subj,
            visited,
            depth,
        ) == Ok::<bool, Error>(true),
        _ => false,
    })
}

proof fn lemma_ttu_true_witness(
    env: EvalEnv,
    ns: Seq<char>,
    obj: u128,
    rel: Seq<char>,
    computed: Seq<char>,
    subj: SubjectV,
    visited: Seq<Frame>,
    depth: nat,
    i: int,
)
    requires
        0 <= i,
        spec_check_ttu(env, ns, obj, rel, computed, subj, visited, depth, i) == Ok::<bool, Error>(
            true,
        ),
    ensures
        exists|j: int|
            i <= j && #[trigger] ttu_grant_at(env, ns, obj, rel, computed, subj, visited, depth, j),
    decreases env.tuples.len() - i,
{
    if 0 <= i < env.tuples.len() {
        if ttu_grant_at(env, ns, obj, rel, computed, subj, visited, depth, i) {
        } else {
            lemma_ttu_true_witness(env, ns, obj, rel, computed, subj, visited, depth, i + 1);
        }
    }
}

/// Below a denied walk, every matching subject-set tuple's referent check
/// answered `Ok(false)`.
pub open spec fn ttu_subcheck_false(
    env: EvalEnv,
    ns: Seq<char>,
    obj: u128,
    rel: Seq<char>,
    computed: Seq<char>,
    subj: SubjectV,
    visited: Seq<Frame>,
    depth: nat,
    j: int,
) -> bool {
    (0 <= j < env.tuples.len() && tuple_view(env.tuples[j]).namespace == ns && tuple_view(
        env.tuples[j],
    ).object == obj && tuple_view(env.tuples[j]).relation == rel) ==> match tuple_view(
        env.tuples[j],
    ).subject {
        SubjectV::SubjectSet { namespace: sns, object: sobj, relation: srel } => spec_check(
            env,
            sns,
            sobj,
            computed,
            subj,
            visited,
            depth,
        ) == Ok::<bool, Error>(false),
        _ => true,
    }
}

proof fn lemma_ttu_false_all(
    env: EvalEnv,
    ns: Seq<char>,
    obj: u128,
    rel: Seq<char>,
    computed: Seq<char>,
    subj: SubjectV,
    visited: Seq<Frame>,
    depth: nat,
    i: int,
)
    requires
        0 <= i,
        spec_check_ttu(env, ns, obj, rel, computed, subj, visited, depth, i) == Ok::<bool, Error>(
            false,
        ),
    ensures
        forall|j: int|
            i <= j ==> #[trigger] ttu_subcheck_false(
                env,
                ns,
                obj,
                rel,
                computed,
                subj,
                visited,
                depth,
                j,
            ),
    decreases env.tuples.len() - i,
{
    if i < env.tuples.len() {
        lemma_ttu_false_all(env, ns, obj, rel, computed, subj, visited, depth, i + 1);
        assert(ttu_subcheck_false(env, ns, obj, rel, computed, subj, visited, depth, i));
    } else {
        assert forall|j: int| i <= j implies #[trigger] ttu_subcheck_false(
            env,
            ns,
            obj,
            rel,
            computed,
            subj,
            visited,
            depth,
            j,
        ) by {}
    }
}

/// Law (monotonicity of `check` in the tuple set): on a negation-free
/// schema, adding tuples never turns a true result into false, and removing
/// tuples never turns false into true. Precisely: if `check` answers
/// `Ok(true)` over the tuples `t1`, and over a superset `t2` it answers
/// `Ok` at all, then over `t2` it answers `Ok(true)`. (With fewer or more
/// tuples the evaluation may instead exhaust its depth and err; an error is
/// neither a grant nor a denial.)
pub proof fn lemma_check_monotone(
    schema: Schema,
    t1: Seq<RelationTuple>,
    t2: Seq<RelationTuple>,
    ns: Seq<char>,
    obj: u128,
    rel: Seq<char>,
    subj: SubjectV,
    visited: Seq<Frame>,
    depth: nat,
)
    requires
        schema_negation_free(schema),
        tuples_subset(t1, t2),
        spec_check(EvalEnv { schema, tuples: t1 }, ns, obj, rel, subj, visited, depth) == Ok::<
            bool,
            Error,
        >(true),
        spec_check(EvalEnv { schema, tuples: t2 }, ns, obj, rel, subj, visited, depth) is Ok,
    ensures
        spec_check(EvalEnv { schema, tuples: t2 }, ns, obj, rel, subj, visited, depth) == Ok::<
            bool,
            Error,
        >(true),
    decreases depth, 0int, Operator::And, 0int,
{
    let env1 = EvalEnv { schema, tuples: t1 };
    let env2 = EvalEnv { schema, tuples: t2 };
    let f = Frame { ns, obj, rel, subj: spec_unique_id(subj) };
    assert(depth > 0);
    assert(!visited.contains(f));
    let nsp = find_namespace(schema.namespaces@, ns)->0;
    let r = find_relation(nsp.relations@, rel)->0;
    let visited2 = visited.push(f);
    let d2 = (depth - 1) as nat;
    match r.subject_set_rewrite {
        Option::None => {
            assert(spec_check(env1, ns, obj, rel, subj, visited, depth) == spec_check_stored(
                env1,
                ns,
                obj,
                rel,
                subj,
                visited2,
                d2,
                0,
            ));
            assert(spec_check(env2, ns, obj, rel, subj, visited, depth) == spec_check_stored(
                env2,
                ns,
                obj,
                rel,
                subj,
                visited2,
                d2,
                0,
            ));
            lemma_stored_true_witness(env1, ns, obj, rel, subj, visited2, d2, 0);
            let j = choose|j: int|
                0 <= j && #[trigger] stored_grant_at(env1, ns, obj, rel, subj, visited2, d2, j);
            let jv = tuple_view(t1[j]);
            assert(exists|j2: int| 0 <= j2 < t2.len() && tuple_view(t2[j2]) == tuple_view(t1[j]));
            let j2 = choose|j2: int| 0 <= j2 < t2.len() && tuple_view(t2[j2]) == tuple_view(t1[j]);
            assert(tuple_view(t2[j2]) == jv);
            if spec_check_stored(env2, ns, obj, rel, subj, visited2, d2, 0) == Ok::<bool, Error>(
                false,
            ) {
                lemma_stored_false_all(env2, ns, obj, rel, subj, visited2, d2, 0);
                assert(stored_subcheck_false(env2, ns, obj, rel, subj, visited2, d2, j2));
                if jv.subject == subj {
                    assert(false);
                } else {
                    match jv.subject {
                        SubjectV::SubjectSet { namespace: sns, object: sobj, relation: srel } => {
                            assert(spec_check(env2, sns, sobj, srel, subj, visited2, d2) == Ok::<
                                bool,
                                Error,
                            >(false));
                            lemma_check_monotone(
                                schema,
                                t1,
                                t2,
                                sns,
                                sobj,
                                srel,
                                subj,
                                visited2,
                                d2,
                            );
                            assert(false);
                        },
                        _ => {
                            assert(false);
                        },
                    }
                }
            }
            match spec_check_stored(env2, ns, obj, rel, subj, visited2, d2, 0) {
                Result::Err(e) => {
                    assert(false);
                },
                Result::Ok(b) => {
                    assert(b == true);
                    assert(spec_check_stored(env2, ns, obj, rel, subj, visited2, d2, 0) == Ok::<
                        bool,
                        Error,
                    >(b));
                },
            }
        },
        Option::Some(rw) => {
            lemma_find_namespace_contains(schema.namespaces@, ns);
            lemma_find_relation_contains(nsp.relations@, rel);
            let ni = choose|i: int|
                0 <= i < schema.namespaces@.len() && schema.namespaces@[i] == nsp;
            let ri = choose|i: int| 0 <= i < nsp.relations@.len() && nsp.relations@[i] == r;
            assert(rewrite_negation_free(rewrite_view(*rw)));
            assert(spec_check(env1, ns, obj, rel, subj, visited, depth) == spec_eval_children(
                env1,
                ns,
                obj,
                subj,
                visited2,
                d2,
                rewrite_view(*rw),
                0,
            ));
            assert(spec_check(env2, ns, obj, rel, subj, visited, depth) == spec_eval_children(
                env2,
                ns,
                obj,
                subj,
                visited2,
                d2,
                rewrite_view(*rw),
                0,
            ));
            lemma_children_monotone(
                schema,
                t1,
                t2,
                ns,
                obj,
                subj,
                visited2,
                d2,
                rewrite_view(*rw),
                0,
            );
        },
    }
}

/// Monotonicity for the children of one rewrite node, from index `i` on.
proof fn lemma_children_monotone(
    schema: Schema,
    t1: Seq<RelationTuple>,
    t2: Seq<RelationTuple>,
    ns: Seq<char>,
    obj: u128,
    subj: SubjectV,
    visited: Seq<Frame>,
    depth: nat,
    rw: RewriteV,
    i: int,
)
    requires
        schema_negation_free(schema),
        tuples_subset(t1, t2),
        rewrite_negation_free(rw),
        spec_eval_children(EvalEnv { schema, tuples: t1 }, ns, obj, subj, visited, depth, rw, i)
            == Ok::<bool, Error>(true),
        spec_eval_children(EvalEnv { schema, tuples: t2 }, ns, obj, subj, visited, depth, rw, i)
            is Ok,
    ensures
        spec_eval_children(EvalEnv { schema, tuples: t2 }, ns, obj, subj, visited, depth, rw, i)
            == Ok::<bool, Error>(true),
    decreases depth, 2int, rw, rw.children.len() - i,
{
    let env1 = EvalEnv { schema, tuples: t1 };
    let env2 = EvalEnv { schema, tuples: t2 };
    if i < 0 || i >= rw.children.len() {
    } else {
        let c = rw.children[i];
        let c1 = spec_eval_child(env1, ns, obj, subj, visited, depth, c);
        let c2 = spec_eval_child(env2, ns, obj, subj, visited, depth, c);
        assert(c2 is Ok);
        match rw.operation {
            Operator::And => {
                assert(c1 == Ok::<bool, Error>(true));
                lemma_child_monotone(schema, t1, t2, ns, obj, subj, visited, depth, c);
                assert(c2 == Ok::<bool, Error>(true));
                lemma_children_monotone(
                    schema,
                    t1,
                    t2,
                    ns,
                    obj,
                    subj,
                    visited,
                    depth,
                    rw,
                    i + 1,
                );
            },
            Operator::Or => {
                if c1 == Ok::<bool, Error>(true) {
                    lemma_child_monotone(schema, t1, t2, ns, obj, subj, visited, depth, c);
                } else {
                    assert(c1 == Ok::<bool, Error>(false));
                    if c2 == Ok::<bool, Error>(false) {
                        lemma_children_monotone(
                            schema,
                            t1,
                            t2,
                            ns,
                            obj,
                            subj,
                            visited,
                            depth,
                            rw,
                            i + 1,
                        );
                    }
                }
            },
        }
    }
}

/// Monotonicity for one rewrite child.
proof fn lemma_child_monotone(
    schema: Schema,
    t1: Seq<RelationTuple>,
    t2: Seq<RelationTuple>,
    ns: Seq<char>,
    obj: u128,
    subj: SubjectV,
    visited: Seq<Frame>,
    depth: nat,
    c: ChildV,
)
    requires
        schema_negation_free(schema),
        tuples_subset(t1, t2),
        child_negation_free(c),
        spec_eval_child(EvalEnv { schema, tuples: t1 }, ns, obj, subj, visited, depth, c) == Ok::<
            bool,
            Error,
        >(true),
        spec_eval_child(EvalEnv { schema, tuples: t2 }, ns, obj, subj, visited, depth, c) is Ok,
    ensures
        spec_eval_child(EvalEnv { schema, tuples: t2 }, ns, obj, subj, visited, depth, c) == Ok::<
            bool,
            Error,
        >(true),
    decreases depth, 2int, c, 0int,
{
    let env1 = EvalEnv { schema, tuples: t1 };
    let env2 = EvalEnv { schema, tuples: t2 };
    match c {
        ChildV::Rewrite { rewrite } => {
            assert(spec_eval_child(env1, ns, obj, subj, visited, depth, c) == spec_eval_node(
                env1,
                ns,
                obj,
                subj,
                visited,
                depth,
                *rewrite,
            ));
            assert(spec_eval_child(env2, ns, obj, subj, visited, depth, c) == spec_eval_node(
                env2,
                ns,
                obj,
                subj,
                visited,
                depth,
                *rewrite,
            ));
            assert(spec_eval_child(env1, ns, obj, subj, visited, depth, c) == spec_eval_children(
                env1,
                ns,
                obj,
                subj,
                visited,
                depth,
                *rewrite,
                0,
            ));
            assert(spec_eval_child(env2, ns, obj, subj, visited, depth, c) == spec_eval_children(
                env2,
                ns,
                obj,
                subj,
                visited,
                depth,
                *rewrite,
                0,
            ));
            lemma_children_monotone(schema, t1, t2, ns, obj, subj, visited, depth, *rewrite, 0);
        },
        ChildV::ComputerSubjectSet { relation } => {
            lemma_check_monotone(schema, t1, t2, ns, obj, relation, subj, visited, depth);
        },
        ChildV::TupleToSubjectSet { relation, computed_subject_set_relation } => {
            let computed = computed_subject_set_relation;
            lemma_ttu_true_witness(
                env1,
                ns,
                obj,
                relation,
                computed,
                subj,
                visited,
                depth,
                0,
            );
            let j = choose|j: int|
                0 <= j && #[trigger] ttu_grant_at(
                    env1,
                    ns,
                    obj,
                    relation,
                    computed,
                    subj,
                    visited,
                    depth,
                    j,
                );
            let jv = tuple_view(t1[j]);
            assert(exists|j2: int| 0 <= j2 < t2.len() && tuple_view(t2[j2]) == tuple_view(t1[j]));
            let j2 = choose|j2: int| 0 <= j2 < t2.len() && tuple_view(t2[j2]) == tuple_view(t1[j]);
            assert(spec_eval_child(env1, ns, obj, subj, visited, depth, c) == spec_check_ttu(
                env1,
                ns,
                obj,
                relation,
                computed,
                subj,
                visited,
                depth,
                0,
            ));
            assert(spec_eval_child(env2, ns, obj, subj, visited, depth, c) == spec_check_ttu(
                env2,
                ns,
                obj,
                relation,
                computed,
                subj,
                visited,
                depth,
                0,
            ));
            if spec_check_ttu(env2, ns, obj, relation, computed, subj, visited, depth, 0) == Ok::<
                bool,
                Error,
            >(false) {
                lemma_ttu_false_all(env2, ns, obj, relation, computed, subj, visited, depth, 0);
                assert(ttu_subcheck_false(env2, ns, obj, relation, computed, subj, visited, depth, j2));
                assert(tuple_view(t2[j2]) == jv);
                match jv.subject {
                    SubjectV::SubjectSet { namespace: sns, object: sobj, relation: srel } => {
                        assert(spec_check(env2, sns, sobj, computed, subj, visited, depth) == Ok::<
                            bool,
                            Error,
                        >(false));
                        lemma_check_monotone(
                            schema,
                            t1,
                            t2,
                            sns,
                            sobj,
                            computed,
                            subj,
                            visited,
                            depth,
                        );
                        assert(false);
                    },
                    _ => {
                        assert(false);
                    },
                }
            }
            match spec_check_ttu(env2, ns, obj, relation, computed, subj, visited, depth, 0) {
                Result::Err(e) => {
                    assert(false);
                },
                Result::Ok(b) => {
                    assert(b == true);
                    assert(spec_check_ttu(env2, ns, obj, relation, computed, subj, visited, depth, 0)
                        == Ok::<bool, Error>(b));
                },
            }
        },
        ChildV::InvertResult { .. } => {
            assert(false);
        },
        ChildV::AttributeReference { relation } => {
            assert(spec_attr_present(t1, ns, obj, relation));
            let w = choose|i: int|
                0 <= i < t1.len() && #[trigger] tuple_view(t1[i]).namespace == ns && tuple_view(
                    t1[i],
                ).object == obj && tuple_view(t1[i]).relation == relation;
            let w2 = choose|j2: int| 0 <= j2 < t2.len() && tuple_view(t2[j2]) == tuple_view(t1[w]);
            assert(tuple_view(t2[w2]).namespace == ns && tuple_view(t2[w2]).object == obj
                && tuple_view(t2[w2]).relation == relation);
            assert(spec_attr_present(t2, ns, obj, relation));
        },
    }
}

// ---------------------------------------------------------------------------
// Expand
// ---------------------------------------------------------------------------

/// A subject tree: the result of expanding a stored relation. The root is
/// the subject set being expanded; every direct identity sits at a leaf.
#[derive(Debug)]
pub struct Tree {
    pub subject: Subject,
    pub children: Vec<Tree>,
}

/// The mathematical value of a subject tree.
#[verifier::ext_equal]
pub ghost struct TreeV {
    pub subject: SubjectV,
    pub children: Seq<TreeV>,
}

pub open spec fn tree_view(t: Tree) -> TreeV
    decreases t,
{
    TreeV {
        subject: subject_view(t.subject),
        children: Seq::new(
            t.children@.len(),
            |i: int|
                if 0 <= i < t.children@.len() {
                    tree_view(t.children@[i])
                } else {
                    TreeV { subject: SubjectV::Direct { id: 0 }, children: Seq::empty() }
                },
        ),
    }
}

/// The visited-set key of the subject set `(ns, obj, rel)` being expanded.
pub open spec fn expand_frame(ns: Seq<char>, obj: u128, rel: Seq<char>) -> Frame {
    Frame {
        ns,
        obj,
        rel,
        subj: spec_unique_id(SubjectV::SubjectSet { namespace: ns, object: obj, relation: rel }),
    }
}

/// Expands the subject set `(ns, obj, rel)`: the children are the subjects
/// of the tuples on that triple in declaration order, duplicates (same
/// subject unique id) dropped; a child whose subject is itself a subject
/// set recurses, unless its frame is already on the path, in which case the
/// subtree is omitted. A missing namespace or relation is a typed error,
/// and so is asking to expand a computed (rewrite-carrying) relation.
pub open spec fn spec_expand(
    env: EvalEnv,
    ns: Seq<char>,
    obj: u128,
    rel: Seq<char>,
    visited: Seq<Frame>,
    depth: nat,
) -> Result<TreeV, Error>
    decreases depth, 0int, Operator::And, 0int,
{
    if depth == 0 {
        Err(Error::MaxDepthExceeded)
    } else {
        match find_namespace(env.schema.namespaces@, ns) {
            Option::None => Err(Error::NamespaceNotFound),
            Option::Some(nsp) => match find_relation(nsp.relations@, rel) {
                Option::None => Err(Error::RelationNotFound),
                Option::Some(r) => {
                    if r.subject_set_rewrite is Some {
                        // Only stored relations expand into subject trees; a
                        // computed relation is rejected as an invalid subject
                        // set reference.
                        Err(Error::InvalidSubjectSet)
                    } else {
                        match spec_expand_scan(
                            env,
                            ns,
                            obj,
                            rel,
                            visited.push(expand_frame(ns, obj, rel)),
                            (depth - 1) as nat,
                            0,
                            Seq::empty(),
                        ) {
                            Result::Err(e) => Err(e),
                            Result::Ok(children) => Ok(
                                TreeV {
                                    subject: SubjectV::SubjectSet {
                                        namespace: ns,
                                        object: obj,
                                        relation: rel,
                                    },
                                    children,
                                },
                            ),
                        }
                    }
                },
            },
        }
    }
}

/// Collects the child subtrees for the tuples on `(ns, obj, rel)` from
/// index `i` on; `seen` holds the unique ids already emitted.
pub open spec fn spec_expand_scan(
    env: EvalEnv,
    ns: Seq<char>,
    obj: u128,
    rel: Seq<char>,
    visited: Seq<Frame>,
    depth: nat,
    i: int,
    seen: Seq<u128>,
) -> Result<Seq<TreeV>, Error>
    decreases depth, 3int, Operator::And, env.tuples.len() - i,
{
    if i < 0 || i >= env.tuples.len() {
        Ok(Seq::empty())
    } else {
        let t = tuple_view(env.tuples[i]);
        if t.namespace == ns && t.object == obj && t.relation == rel {
            let uid = spec_unique_id(t.subject);
            if seen.contains(uid) {
                spec_expand_scan(env, ns, obj, rel, visited, depth, i + 1, seen)
            } else {
                match t.subject {
                    SubjectV::Direct { id } => {
                        match spec_expand_scan(
                            env,
                            ns,
                            obj,
                            rel,
                            visited,
                            depth,
                            i + 1,
                            seen.push(uid),
                        ) {
                            Result::Err(e) => Err(e),
                            Result::Ok(rest) => Ok(
                                seq![TreeV { subject: t.subject, children: Seq::empty() }] + rest,
                            ),
                        }
                    },
                    SubjectV::SubjectSet { namespace: sns, object: sobj, relation: srel } => {
                        if visited.contains(expand_frame(sns, sobj, srel)) {
                            // Revisiting a frame: the subtree is omitted.
                            spec_expand_scan(env, ns, obj, rel, visited, depth, i + 1, seen.push(uid))
                        } else {
                            match spec_expand(env, sns, sobj, srel, visited, depth) {
                                Result::Err(e) => Err(e),
                                Result::Ok(sub) => {
                                    match spec_expand_scan(
                                        env,
                                        ns,
                                        obj,
                                        rel,
                                        visited,
                                        depth,
                                        i + 1,
                                        seen.push(uid),
                                    ) {
                                        Result::Err(e) => Err(e),
                                        Result::Ok(rest) => Ok(seq![sub] + rest),
                                    }
                                },
                            }
                        }
                    },
                }
            }
        } else {
            spec_expand_scan(env, ns, obj, rel, visited, depth, i + 1, seen)
        }
    }
}

/// In every tree `expand` produces, a direct identity has no children: the
/// direct subjects are exactly the leaves.
pub open spec fn tree_directs_are_leaves(t: TreeV) -> bool
    decreases t,
{
    &&& (t.subject is Direct ==> t.children.len() == 0)
    &&& forall|i: int|
        0 <= i < t.children.len() ==> tree_directs_are_leaves(#[trigger] t.children[i])
}

proof fn lemma_expand_scan_directs(
    env: EvalEnv,
    ns: Seq<char>,
    obj: u128,
    rel: Seq<char>,
    visited: Seq<Frame>,
    depth: nat,
    i: int,
    seen: Seq<u128>,
)
    ensures
        spec_expand_scan(env, ns, obj, rel, visited, depth, i, seen) matches Ok(cs)
            ==> forall|k: int| 0 <= k < cs.len() ==> tree_directs_are_leaves(#[trigger] cs[k]),
    decreases depth, 3int, Operator::And, env.tuples.len() - i,
{
    if i < 0 || i >= env.tuples.len() {
    } else {
        let t = tuple_view(env.tuples[i]);
        if t.namespace == ns && t.object == obj && t.relation == rel {
            let uid = spec_unique_id(t.subject);
            if seen.contains(uid) {
                lemma_expand_scan_directs(env, ns, obj, rel, visited, depth, i + 1, seen);
            } else {
                match t.subject {
                    SubjectV::Direct { id } => {
                        lemma_expand_scan_directs(
                            env,
                            ns,
                            obj,
                            rel,
                            visited,
                            depth,
                            i + 1,
                            seen.push(uid),
                        );
                        if spec_expand_scan(env, ns, obj, rel, visited, depth, i, seen) is Ok {
                            let rest = spec_expand_scan(
                                env,
                                ns,
                                obj,
                                rel,
                                visited,
                                depth,
                                i + 1,
                                seen.push(uid),
                            )->Ok_0;
                            let leaf = TreeV { subject: t.subject, children: Seq::empty() };
                            assert(tree_directs_are_leaves(leaf));
                            assert forall|k: int|
                                0 <= k < (seq![leaf] + rest).len() implies tree_directs_are_leaves(
                                #[trigger] (seq![leaf] + rest)[k],
                            ) by {
                                if k > 0 {
                                    assert((seq![leaf] + rest)[k] == rest[k - 1]);
                                }
                            }
                        }
                    },
                    SubjectV::SubjectSet { namespace: sns, object: sobj, relation: srel } => {
                        if visited.contains(expand_frame(sns, sobj, srel)) {
                            lemma_expand_scan_directs(
                                env,
                                ns,
                                obj,
                                rel,
                                visited,
                                depth,
                                i + 1,
                                seen.push(uid),
                            );
                        } else {
                            lemma_expand_directs(env, sns, sobj, srel, visited, depth);
                            lemma_expand_scan_directs(
                                env,
                                ns,
                                obj,
                                rel,
                                visited,
                                depth,
                                i + 1,
                                seen.push(uid),
                            );
                            if spec_expand_scan(env, ns, obj, rel, visited, depth, i, seen) is Ok {
                                let sub = spec_expand(env, sns, sobj, srel, visited, depth)->Ok_0;
                                let rest = spec_expand_scan(
                                    env,
                                    ns,
                                    obj,
                                    rel,
                                    visited,
                                    depth,
                                    i + 1,
                                    seen.push(uid),
                                )->Ok_0;
                                assert forall|k: int|
                                    0 <= k < (seq![sub] + rest).len()
                                        implies tree_directs_are_leaves(
                                    #[trigger] (seq![sub] + rest)[k],
                                ) by {
                                    if k > 0 {
                                        assert((seq![sub] + rest)[k] == rest[k - 1]);
                                    }
                                }
                            }
                        }
                    },
                }
            }
        } else {
            lemma_expand_scan_directs(env, ns, obj, rel, visited, depth, i + 1, seen);
        }
    }
}

/// Law (shape of `expand`): every tree that `expand` returns keeps direct
/// identities at the leaves -- a direct subject never carries children.
pub proof fn lemma_expand_directs(
    env: EvalEnv,
    ns: Seq<char>,
    obj: u128,
    rel: Seq<char>,
    visited: Seq<Frame>,
    depth: nat,
)
    ensures
        spec_expand(env, ns, obj, rel, visited, depth) matches Ok(t) ==> tree_directs_are_leaves(
            t,
        ),
    decreases depth, 0int, Operator::And, 0int,
{
    if depth > 0 {
        lemma_expand_scan_directs(
            env,
            ns,
            obj,
            rel,
            visited.push(expand_frame(ns, obj, rel)),
            (depth - 1) as nat,
            0,
            Seq::empty(),
        );
    }
}

/// The models of a sequence of subtrees, in order.
pub open spec fn trees_view(ts: Seq<Tree>) -> Seq<TreeV> {
    ts.map_values(|t: Tree| tree_view(t))
}

fn contains_uid(seen: &Vec<u128>, x: u128) -> (r: bool)
    ensures
        r == seen@.contains(x),
{
    let mut i: usize = 0;
    while i < seen.len()
        invariant
            i <= seen@.len(),
            forall|j: int| 0 <= j < i ==> seen@[j] != x,
        decreases seen@.len() - i,
    {
        if seen[i] == x {
            return true;
        }
        i = i + 1;
    }
    false
}

/// Expands the subject set `(namespace, object, relation)` into a subject
/// tree, exactly as the functional model `spec_expand` describes: children
/// in declaration order, duplicates by unique id dropped, subject-set
/// children recursing unless their frame is already on the path. Depth
/// exhaustion, a missing namespace or relation, and a computed
/// (rewrite-carrying) relation are typed errors.
#[verifier::loop_isolation(false)]
pub fn expand(
    schema: &Schema,
    tuples: &Vec<RelationTuple>,
    namespace: &String,
    object: Uuid,
    relation: &String,
    max_depth: u64,
) -> (r: Result<Tree, Error>)
    ensures
        match r {
            Result::Ok(t) => spec_expand(
                EvalEnv { schema: *schema, tuples: tuples@ },
                namespace@,
                object.value,
                relation@,
                Seq::<Frame>::empty(),
                max_depth as nat,
            ) == Ok::<TreeV, Error>(tree_view(t)),
            Result::Err(e) => spec_expand(
                EvalEnv { schema: *schema, tuples: tuples@ },
                namespace@,
                object.value,
                relation@,
                Seq::<Frame>::empty(),
                max_depth as nat,
            ) == Err::<TreeV, Error>(e),
        },
{
    let visited: Vec<VisitedFrame> = Vec::new();
    proof {
        assert(frames_view(visited@) =~= Seq::<Frame>::empty());
    }
    expand_frames(schema, tuples, namespace, object, relation, &visited, max_depth)
}

/// Expands one subject set along an explicit path: mirrors `spec_expand`.
#[verifier::loop_isolation(false)]
fn expand_frames(
    schema: &Schema,
    tuples: &Vec<RelationTuple>,
    ns: &String,
    obj: Uuid,
    rel: &String,
    visited: &Vec<VisitedFrame>,
    depth: u64,
) -> (r: Result<Tree, Error>)
    ensures
        match r {
            Result::Ok(t) => spec_expand(
                EvalEnv { schema: *schema, tuples: tuples@ },
                ns@,
                obj.value,
                rel@,
                frames_view(visited@),
                depth as nat,
            ) == Ok::<TreeV, Error>(tree_view(t)),
            Result::Err(e) => spec_expand(
                EvalEnv { schema: *schema, tuples: tuples@ },
                ns@,
                obj.value,
                rel@,
                frames_view(visited@),
                depth as nat,
            ) == Err::<TreeV, Error>(e),
        },
    decreases depth,
{
    let ghost env = EvalEnv { schema: *schema, tuples: tuples@ };
    if depth == 0 {
        return Err(Error::MaxDepthExceeded);
    }
    let nsp = match get_namespace(schema, ns) {
        None => {
            return Err(Error::NamespaceNotFound);
        },
        Some(n) => n,
    };
    let relation = match get_relation(nsp, rel) {
        None => {
            return Err(Error::RelationNotFound);
        },
        Some(x) => x,
    };
    if relation.subject_set_rewrite.is_some() {
        return Err(Error::InvalidSubjectSet);
    }
    let root_set = SubjectSet { namespace: ns.clone(), object: obj, relation: rel.clone() };
    let root_uid = root_set.unique_id();
    let visited2 = push_frame(visited, ns, obj, rel, root_uid);
    proof {
        assert(frames_view(visited2@) == frames_view(visited@).push(expand_frame(
            ns@,
            obj.value,
            rel@,
        )));
    }
    let d2 = depth - 1;
    let mut children: Vec<Tree> = Vec::new();
    let mut seen: Vec<u128> = Vec::new();
    let mut i: usize = 0;
    proof {
        assert(trees_view(children@) =~= Seq::<TreeV>::empty());
    }
    loop
        invariant
            i <= tuples@.len(),
            spec_expand_scan(env, ns@, obj.value, rel@, frames_view(visited2@), d2 as nat, 0, Seq::empty())
                == (match spec_expand_scan(
                env,
                ns@,
                obj.value,
                rel@,
                frames_view(visited2@),
                d2 as nat,
                i as int,
                seen@,
            ) {
                Result::Err(e) => Err::<Seq<TreeV>, Error>(e),
                Result::Ok(rest) => Ok::<Seq<TreeV>, Error>(trees_view(children@) + rest),
            }),
        decreases tuples@.len() - i,
    {
        let ghost scan_i = spec_expand_scan(
            env,
            ns@,
            obj.value,
            rel@,
            frames_view(visited2@),
            d2 as nat,
            i as int,
            seen@,
        );
        if i >= tuples.len() {
            proof {
                assert(scan_i == Ok::<Seq<TreeV>, Error>(Seq::empty()));
                assert(trees_view(children@) + Seq::<TreeV>::empty() =~= trees_view(children@));
            }
            break ;
        }
        let t = &tuples[i];
        proof {
            assert(tuples@[i as int] == *t);
        }
        if t.namespace.eq(ns) && t.object.value == obj.value && t.relation.eq(rel) {
            let uid = t.subject.unique_id();
            if contains_uid(&seen, uid.value) {
                proof {
                    assert(scan_i == spec_expand_scan(
                        env,
                        ns@,
                        obj.value,
                        rel@,
                        frames_view(visited2@),
                        d2 as nat,
                        i + 1,
                        seen@,
                    ));
                }
            } else {
                match &t.subject {
                    Subject::Direct(d) => {
                        let ghost old_children = children@;
                        let leaf = Tree { subject: t.subject.duplicate(), children: Vec::new() };
                        proof {
                            assert(tree_view(leaf).children =~= Seq::<TreeV>::empty());
                            assert(tree_view(leaf).subject == tuple_view(
                                tuples@[i as int],
                            ).subject);
                            assert(tree_view(leaf) =~~= (TreeV {
                                subject: tuple_view(tuples@[i as int]).subject,
                                children: Seq::empty(),
                            }));
                        }
                        children.push(leaf);
                        seen.push(uid.value);
                        proof {
                            assert(trees_view(children@) =~= trees_view(old_children).push(
                                TreeV {
                                    subject: tuple_view(tuples@[i as int]).subject,
                                    children: Seq::empty(),
                                },
                            ));
                            assert forall|rest: Seq<TreeV>| true implies trees_view(children@)
                                + rest =~= trees_view(old_children) + (seq![
                                TreeV {
                                    subject: tuple_view(tuples@[i as int]).subject,
                                    children: Seq::empty(),
                                },
                            ] + rest) by {}
                        }
                    },
                    Subject::SubjectSet(ss) => {
                        let child_uid = t.subject.unique_id();
                        if contains_frame(
                            &visited2,
                            &ss.namespace,
                            ss.object,
                            &ss.relation,
                            child_uid,
                        ) {
                            seen.push(uid.value);
                            proof {
                                assert(frames_view(visited2@).contains(expand_frame(
                                    ss.namespace@,
                                    ss.object.value,
                                    ss.relation@,
                                )));
                            }
                        } else {
                            proof {
                                assert(!frames_view(visited2@).contains(expand_frame(
                                    ss.namespace@,
                                    ss.object.value,
                                    ss.relation@,
                                )));
                            }
                            let sub = expand_frames(
                                schema,
                                tuples,
                                &ss.namespace,
                                ss.object,
                                &ss.relation,
                                &visited2,
                                d2,
                            );
                            match sub {
                                Err(e) => {
                                    proof {
                                        assert(scan_i == Err::<Seq<TreeV>, Error>(e));
                                    }
                                    return Err(e);
                                },
                                Ok(subtree) => {
                                    let ghost old_children = children@;
                                    let ghost sv = tree_view(subtree);
                                    children.push(subtree);
                                    seen.push(uid.value);
                                    proof {
                                        assert(trees_view(children@) =~= trees_view(
                                            old_children,
                                        ).push(sv));
                                        assert forall|rest: Seq<TreeV>| true implies trees_view(
                                            children@,
                                        ) + rest =~= trees_view(old_children) + (seq![sv] + rest)
                                            by {}
                                    }
                                },
                            }
                        }
                    },
                }
            }
        } else {
            proof {
                assert(scan_i == spec_expand_scan(
                    env,
                    ns@,
                    obj.value,
                    rel@,
                    frames_view(visited2@),
                    d2 as nat,
                    i + 1,
                    seen@,
                ));
            }
        }
        i = i + 1;
    }
    let out = Tree { subject: Subject::SubjectSet(root_set), children };
    proof {
        assert(tree_view(out).subject == (SubjectV::SubjectSet {
            namespace: ns@,
            object: obj.value,
            relation: rel@,
        }));
        assert(tree_view(out).children =~= trees_view(out.children@));
        assert(tree_view(out) =~~= (TreeV {
            subject: SubjectV::SubjectSet { namespace: ns@, object: obj.value, relation: rel@ },
            children: trees_view(out.children@),
        }));
    }
    Ok(out)
}

// ---------------------------------------------------------------------------
// Expand leaves pass check
// ---------------------------------------------------------------------------

/// The identity `id` stands at some leaf of the tree.
pub open spec fn tree_has_leaf(t: TreeV, id: u128) -> bool
    decreases t,
{
    ||| (t.subject matches SubjectV::Direct { id: x } && x == id)
    ||| exists|i: int| 0 <= i < t.children.len() && tree_has_leaf(#[trigger] t.children[i], id)
}

/// Every frame on an expansion path keys the subject set of its own triple.
pub open spec fn expand_path_wf(visited: Seq<Frame>) -> bool {
    forall|k: int|
        0 <= k < visited.len() ==> #[trigger] visited[k] == expand_frame(
            visited[k].ns,
            visited[k].obj,
            visited[k].rel,
        )
}

/// A tuple from which the identity `id` enters the expansion of
/// `(ns, obj, rel)`: either it grants `id` directly, or it points to a
/// subject set, not yet on the path, whose expansion holds `id` at a leaf.
pub open spec fn expand_entry_at(
    env: EvalEnv,
    ns: Seq<char>,
    obj: u128,
    rel: Seq<char>,
    visited: Seq<Frame>,
    depth: nat,
    id: u128,
    j: int,
) -> bool {
    &&& 0 <= j < env.tuples.len()
    &&& tuple_view(env.tuples[j]).namespace == ns
    &&& tuple_view(env.tuples[j]).object == obj
    &&& tuple_view(env.tuples[j]).relation == rel
    &&& (match tuple_view(env.tuples[j]).subject {
        SubjectV::Direct { id: x } => x == id,
        SubjectV::SubjectSet { namespace: sns, object: sobj, relation: srel } => {
            &&& !visited.contains(expand_frame(sns, sobj, srel))
            &&& spec_expand(env, sns, sobj, srel, visited, depth) matches Ok(sub)
            &&& tree_has_leaf(sub, id)
        },
    })
}

/// A leaf below a collected child traces back to some tuple of the scan.
proof fn lemma_scan_leaf_witness(
    env: EvalEnv,
    ns: Seq<char>,
    obj: u128,
    rel: Seq<char>,
    visited: Seq<Frame>,
    depth: nat,
    i: int,
    seen: Seq<u128>,
    id: u128,
)
    requires
        0 <= i,
        spec_expand_scan(env, ns, obj, rel, visited, depth, i, seen) matches Ok(cs) && exists|k: int|
            0 <= k < cs.len() && tree_has_leaf(#[trigger] cs[k], id),
    ensures
        exists|j: int|
            i <= j && #[trigger] expand_entry_at(env, ns, obj, rel, visited, depth, id, j),
    decreases env.tuples.len() - i,
{
    let cs = spec_expand_scan(env, ns, obj, rel, visited, depth, i, seen)->Ok_0;
    if i >= env.tuples.len() {
        assert(cs.len() == 0);
    } else {
        let t = tuple_view(env.tuples[i]);
        if t.namespace == ns && t.object == obj && t.relation == rel {
            let uid = spec_unique_id(t.subject);
            if seen.contains(uid) {
                lemma_scan_leaf_witness(env, ns, obj, rel, visited, depth, i + 1, seen, id);
            } else {
                match t.subject {
                    SubjectV::Direct { id: x } => {
                        let rest = spec_expand_scan(
                            env,
                            ns,
                            obj,
                            rel,
                            visited,
                            depth,
                            i + 1,
                            seen.push(uid),
                        )->Ok_0;
                        let leaf = TreeV { subject: t.subject, children: Seq::empty() };
                        assert(cs == seq![leaf] + rest);
                        let k = choose|k: int| 0 <= k < cs.len() && tree_has_leaf(#[trigger] cs[k], id);
                        if k == 0 {
                            assert(cs[0] == leaf);
                            assert(x == id);
                            assert(expand_entry_at(env, ns, obj, rel, visited, depth, id, i));
                        } else {
                            assert(cs[k] == rest[k - 1]);
                            lemma_scan_leaf_witness(
                                env,
                                ns,
                                obj,
                                rel,
                                visited,
                                depth,
                                i + 1,
                                seen.push(uid),
                                id,
                            );
                        }
                    },
                    SubjectV::SubjectSet { namespace: sns, object: sobj, relation: srel } => {
                        if visited.contains(expand_frame(sns, sobj, srel)) {
                            lemma_scan_leaf_witness(
                                env,
                                ns,
                                obj,
                                rel,
                                visited,
                                depth,
                                i + 1,
                                seen.push(uid),
                                id,
                            );
                        } else {
                            let sub = spec_expand(env, sns, sobj, srel, visited, depth)->Ok_0;
                            let rest = spec_expand_scan(
                                env,
                                ns,
                                obj,
                                rel,
                                visited,
                                depth,
                                i + 1,
                                seen.push(uid),
                            )->Ok_0;
                            assert(cs == seq![sub] + rest);
                            let k = choose|k: int| 0 <= k < cs.len() && tree_has_leaf(#[trigger] cs[k], id);
                            if k == 0 {
                                assert(cs[0] == sub);
                                assert(expand_entry_at(env, ns, obj, rel, visited, depth, id, i));
                            } else {
                                assert(cs[k] == rest[k - 1]);
                                lemma_scan_leaf_witness(
                                    env,
                                    ns,
                                    obj,
                                    rel,
                                    visited,
                                    depth,
                                    i + 1,
                                    seen.push(uid),
                                    id,
                                );
                            }
                        }
                    },
                }
            }
        } else {
            lemma_scan_leaf_witness(env, ns, obj, rel, visited, depth, i + 1, seen, id);
        }
    }
}

/// Law (soundness of `expand`, one direction of the leaf set equality):
/// every identity at a leaf of a successful expansion of `(ns, obj, rel)`
/// passes `check` for `(ns, obj, rel)` -- whenever that `check` answers at
/// all, it answers `Ok(true)`. (A successful expansion itself guarantees
/// that every relation it walked exists and is stored.) The converse
/// inclusion needs the subject unique ids of the reachable subject sets to
/// be collision-free, which the hash does not guarantee, so it is not
/// claimed here.
pub proof fn lemma_expand_leaf_passes_check(
    env: EvalEnv,
    ns: Seq<char>,
    obj: u128,
    rel: Seq<char>,
    visited_e: Seq<Frame>,
    depth: nat,
    visited_c: Seq<Frame>,
    depth_c: nat,
    id: u128,
)
    requires
        expand_path_wf(visited_e),
        !visited_e.contains(expand_frame(ns, obj, rel)),
        forall|f: Frame|
            #[trigger] visited_c.contains(f) ==> visited_e.contains(
                expand_frame(f.ns, f.obj, f.rel),
            ),
        spec_expand(env, ns, obj, rel, visited_e, depth) matches Ok(t) && tree_has_leaf(t, id),
        spec_check(env, ns, obj, rel, SubjectV::Direct { id }, visited_c, depth_c) is Ok,
    ensures
        spec_check(env, ns, obj, rel, SubjectV::Direct { id }, visited_c, depth_c) == Ok::<
            bool,
            Error,
        >(true),
    decreases depth,
{
    let subj = SubjectV::Direct { id };
    let t = spec_expand(env, ns, obj, rel, visited_e, depth)->Ok_0;
    assert(depth > 0);
    let ve2 = visited_e.push(expand_frame(ns, obj, rel));
    let d2 = (depth - 1) as nat;
    let cs = spec_expand_scan(env, ns, obj, rel, ve2, d2, 0, Seq::empty())->Ok_0;
    assert(t.children == cs);
    assert(t.subject is SubjectSet);
    assert(exists|k: int| 0 <= k < cs.len() && tree_has_leaf(#[trigger] cs[k], id));
    lemma_scan_leaf_witness(env, ns, obj, rel, ve2, d2, 0, Seq::empty(), id);
    let j = choose|j: int|
        0 <= j && #[trigger] expand_entry_at(env, ns, obj, rel, ve2, d2, id, j);

    // The check side: its frame is new, the relation is stored, so the
    // result is the stored scan over the same tuples.
    assert(depth_c > 0);
    let fc = Frame { ns, obj, rel, subj: spec_unique_id(subj) };
    assert(!visited_c.contains(fc));
    let nsp = find_namespace(env.schema.namespaces@, ns)->0;
    let r = find_relation(nsp.relations@, rel)->0;
    lemma_find_namespace_contains(env.schema.namespaces@, ns);
    lemma_find_relation_contains(nsp.relations@, rel);
    assert(r.subject_set_rewrite is None);
    let vc2 = visited_c.push(fc);
    let dc2 = (depth_c - 1) as nat;
    assert(spec_check(env, ns, obj, rel, subj, visited_c, depth_c) == spec_check_stored(
        env,
        ns,
        obj,
        rel,
        subj,
        vc2,
        dc2,
        0,
    ));

    if spec_check_stored(env, ns, obj, rel, subj, vc2, dc2, 0) == Ok::<bool, Error>(false) {
        lemma_stored_false_all(env, ns, obj, rel, subj, vc2, dc2, 0);
        assert(stored_subcheck_false(env, ns, obj, rel, subj, vc2, dc2, j));
        let jv = tuple_view(env.tuples[j]);
        match jv.subject {
            SubjectV::Direct { id: x } => {
                // The entry tuple grants `id` directly, yet the scan says no
                // tuple's subject equals the queried subject.
                assert(jv.subject == subj);
                assert(false);
            },
            SubjectV::SubjectSet { namespace: sns, object: sobj, relation: srel } => {
                assert(spec_check(env, sns, sobj, srel, subj, vc2, dc2) == Ok::<bool, Error>(
                    false,
                ));
                // The recursive paths stay aligned: the new check frame's
                // triple is on the new expansion path.
                assert forall|f: Frame| #[trigger] vc2.contains(f) implies ve2.contains(
                    expand_frame(f.ns, f.obj, f.rel),
                ) by {
                    if f == fc {
                        assert(ve2[ve2.len() - 1] == expand_frame(ns, obj, rel));
                        assert(ve2.contains(expand_frame(f.ns, f.obj, f.rel)));
                    } else {
                        let k = choose|k: int| 0 <= k < vc2.len() && vc2[k] == f;
                        if k < visited_c.len() {
                            assert(visited_c[k] == f);
                            assert(visited_c.contains(f));
                        } else {
                            assert(vc2[k] == fc);
                            assert(false);
                        }
                        assert(visited_e.contains(expand_frame(f.ns, f.obj, f.rel)));
                        let g = expand_frame(f.ns, f.obj, f.rel);
                        let k2 = choose|k2: int| 0 <= k2 < visited_e.len() && visited_e[k2] == g;
                        assert(ve2[k2] == g);
                        assert(ve2.contains(g));
                    }
                }
                assert(expand_path_wf(ve2)) by {
                    assert forall|k: int| 0 <= k < ve2.len() implies #[trigger] ve2[k]
                        == expand_frame(ve2[k].ns, ve2[k].obj, ve2[k].rel) by {
                        if k < visited_e.len() {
                            assert(ve2[k] == visited_e[k]);
                        }
                    }
                }
                lemma_expand_leaf_passes_check(env, sns, sobj, srel, ve2, d2, vc2, dc2, id);
                assert(false);
            },
        }
    }
    match spec_check_stored(env, ns, obj, rel, subj, vc2, dc2, 0) {
        Result::Err(e) => {
            assert(false);
        },
        Result::Ok(b) => {
            assert(b == true);
            assert(spec_check_stored(env, ns, obj, rel, subj, vc2, dc2, 0) == Ok::<bool, Error>(
                b,
            ));
        },
    }
}

/// The same law at the top level, with fresh paths on both sides: if
/// `expand` answers a tree and `check` answers at all, every identity at a
/// leaf of the tree is permitted.
pub proof fn lemma_expand_leaves_sound(
    env: EvalEnv,
    ns: Seq<char>,
    obj: u128,
    rel: Seq<char>,
    depth: nat,
    depth_c: nat,
    id: u128,
)
    requires
        spec_expand(env, ns, obj, rel, Seq::empty(), depth) matches Ok(t) && tree_has_leaf(t, id),
        spec_check(
            env,
            ns,
            obj,
            rel,
            SubjectV::Direct { id },
            Seq::<Frame>::empty(),
            depth_c,
        ) is Ok,
    ensures
        spec_check(env, ns, obj, rel, SubjectV::Direct { id }, Seq::<Frame>::empty(), depth_c)
            == Ok::<bool, Error>(true),
{
    lemma_expand_leaf_passes_check(
        env,
        ns,
        obj,
        rel,
        Seq::empty(),
        depth,
        Seq::empty(),
        depth_c,
        id,
    );
}

} // verus!
