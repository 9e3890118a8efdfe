use heimdall::lexer::Lexer;
use heimdall::parser::SchemaParser;
use heimdall::relation_tuple::{RelationTuple, Subject, SubjectId, SubjectSet, Uuid};
use heimdall::schema::Schema;
use heimdall::traversal::{check, expand, Error, Tree, DEFAULT_MAX_DEPTH};

fn parse(input: &str) -> Schema {
    let tokens = Lexer::new(input).tokenize();
    let mut parser = SchemaParser::new(&tokens);
    parser.parse().expect("schema should parse")
}

fn direct(id: u128) -> Subject {
    Subject::Direct(SubjectId::new(Uuid { value: id }))
}

fn subject_set(ns: &str, obj: u128, rel: &str) -> Subject {
    Subject::SubjectSet(SubjectSet {
        namespace: ns.to_string(),
        object: Uuid { value: obj },
        relation: rel.to_string(),
    })
}

fn tuple(ns: &str, obj: u128, rel: &str, subject: Subject) -> RelationTuple {
    RelationTuple {
        namespace: ns.to_string(),
        object: Uuid { value: obj },
        relation: rel.to_string(),
        subject,
    }
}

fn run_check(
    schema: &Schema,
    tuples: &Vec<RelationTuple>,
    ns: &str,
    obj: u128,
    rel: &str,
    subject: &Subject,
) -> Result<bool, Error> {
    check(
        schema,
        tuples,
        &ns.to_string(),
        Uuid { value: obj },
        &rel.to_string(),
        subject,
        DEFAULT_MAX_DEPTH,
    )
}

const DOC: u128 = 0xd0c;
const USER_U: u128 = 0x1;
const USER_V: u128 = 0x2;

#[test]
fn test_check_includes_scenario() {
    // S2: a permission defined through `includes` grants exactly the
    // subjects of the stored relation.
    let schema = parse(
        r#"
        class Document implements Namespace {
            related: { owner: User[]; }
            permits: { view: (ctx) => this.related.owner.includes(ctx.subject); }
        }
        "#,
    );
    let tuples = vec![tuple("Document", DOC, "owner", direct(USER_U))];
    assert_eq!(run_check(&schema, &tuples, "Document", DOC, "view", &direct(USER_U)), Ok(true));
    assert_eq!(run_check(&schema, &tuples, "Document", DOC, "view", &direct(USER_V)), Ok(false));
}

#[test]
fn test_check_or_and_not_scenario() {
    // S3: edit = A || B, share = A && !C (C an attribute).
    let schema = parse(
        r#"
        class Document implements Namespace {
            related: {
                owner: User[];
                editors: User[];
                confidential: boolean;
            }
            permits: {
                edit: (ctx) => this.related.owner.includes(ctx.subject) || this.related.editors.includes(ctx.subject);
                share: (ctx) => this.related.owner.includes(ctx.subject) && !this.related.confidential;
            }
        }
        "#,
    );
    // Only the owner tuple: edit is granted, and share too while the
    // attribute is absent.
    let tuples = vec![tuple("Document", DOC, "owner", direct(USER_U))];
    assert_eq!(run_check(&schema, &tuples, "Document", DOC, "edit", &direct(USER_U)), Ok(true));
    assert_eq!(run_check(&schema, &tuples, "Document", DOC, "edit", &direct(USER_V)), Ok(false));
    assert_eq!(run_check(&schema, &tuples, "Document", DOC, "share", &direct(USER_U)), Ok(true));

    // Setting the confidential attribute turns share off.
    let tuples2 = vec![
        tuple("Document", DOC, "owner", direct(USER_U)),
        tuple("Document", DOC, "confidential", direct(0xff)),
    ];
    assert_eq!(run_check(&schema, &tuples2, "Document", DOC, "share", &direct(USER_U)), Ok(false));
    assert_eq!(run_check(&schema, &tuples2, "Document", DOC, "edit", &direct(USER_U)), Ok(true));
}

const FOLDER_F: u128 = 0xf01;

#[test]
fn test_check_traverse_scenario() {
    // S4: Document.view walks parent_folder to the folder and evaluates the
    // folder's own view permission there.
    let schema = parse(
        r#"
        class Folder implements Namespace {
            related: { owner: User[]; }
            permits: { view: (ctx) => this.related.owner.includes(ctx.subject); }
        }
        class Document implements Namespace {
            related: { parent_folder: Folder[]; }
            permits: { view: (ctx) => this.related.parent_folder.traverse(p => p.permits.view(ctx)); }
        }
        "#,
    );
    let tuples = vec![
        tuple("Document", DOC, "parent_folder", subject_set("Folder", FOLDER_F, "member")),
        tuple("Folder", FOLDER_F, "owner", direct(USER_U)),
    ];
    assert_eq!(run_check(&schema, &tuples, "Document", DOC, "view", &direct(USER_U)), Ok(true));
    assert_eq!(run_check(&schema, &tuples, "Document", DOC, "view", &direct(USER_V)), Ok(false));

    // A direct-subject tuple under parent_folder is ignored by the walk.
    let tuples2 = vec![
        tuple("Document", DOC, "parent_folder", direct(USER_U)),
    ];
    assert_eq!(run_check(&schema, &tuples2, "Document", DOC, "view", &direct(USER_U)), Ok(false));
}

#[test]
fn test_check_cycle_terminates_with_deny() {
    // S5: mutually recursive permissions terminate with a deny, not an
    // error and not a stack overflow.
    let schema = parse(
        r#"
        class X implements Namespace {
            permits: {
                a: (ctx) => this.permits.b(ctx);
                b: (ctx) => this.permits.a(ctx);
            }
        }
        "#,
    );
    let tuples: Vec<RelationTuple> = vec![];
    assert_eq!(run_check(&schema, &tuples, "X", 7, "a", &direct(USER_U)), Ok(false));
    assert_eq!(run_check(&schema, &tuples, "X", 7, "b", &direct(USER_U)), Ok(false));
}

#[test]
fn test_check_subject_set_expansion_of_stored_relation() {
    // A stored relation grants through a subject-set subject: membership in
    // the team grants viewership of the document.
    let schema = parse(
        r#"
        class Team implements Namespace { related: { member: User[]; } }
        class Document implements Namespace { related: { viewer: User[]; } }
        "#,
    );
    let team: u128 = 0x7e44;
    let tuples = vec![
        tuple("Document", DOC, "viewer", subject_set("Team", team, "member")),
        tuple("Team", team, "member", direct(USER_U)),
    ];
    assert_eq!(run_check(&schema, &tuples, "Document", DOC, "viewer", &direct(USER_U)), Ok(true));
    assert_eq!(run_check(&schema, &tuples, "Document", DOC, "viewer", &direct(USER_V)), Ok(false));
    // Asking for the subject set itself also succeeds: the tuple is there.
    assert_eq!(
        run_check(&schema, &tuples, "Document", DOC, "viewer", &subject_set("Team", team, "member")),
        Ok(true)
    );
}

#[test]
fn test_check_missing_namespace_and_relation_are_errors() {
    let schema = parse(
        r#"class Document implements Namespace { related: { owner: User[]; } }"#,
    );
    let tuples: Vec<RelationTuple> = vec![];
    assert_eq!(
        run_check(&schema, &tuples, "Nowhere", DOC, "owner", &direct(USER_U)),
        Err(Error::NamespaceNotFound)
    );
    assert_eq!(
        run_check(&schema, &tuples, "Document", DOC, "missing", &direct(USER_U)),
        Err(Error::RelationNotFound)
    );
}

#[test]
fn test_check_depth_exhaustion_is_an_error() {
    let schema = parse(
        r#"class Document implements Namespace { related: { owner: User[]; } }"#,
    );
    let tuples = vec![tuple("Document", DOC, "owner", direct(USER_U))];
    let r = check(
        &schema,
        &tuples,
        &"Document".to_string(),
        Uuid { value: DOC },
        &"owner".to_string(),
        &direct(USER_U),
        0,
    );
    assert_eq!(r, Err(Error::MaxDepthExceeded));
}

#[test]
fn test_check_monotone_scenario() {
    // P6 on concrete values: a grant stays granted when tuples are added.
    let schema = parse(
        r#"
        class Document implements Namespace {
            related: { owner: User[]; editors: User[]; }
            permits: {
                edit: (ctx) => this.related.owner.includes(ctx.subject) || this.related.editors.includes(ctx.subject);
            }
        }
        "#,
    );
    let t1 = vec![tuple("Document", DOC, "owner", direct(USER_U))];
    let mut t2 = vec![
        tuple("Document", DOC, "editors", direct(USER_V)),
        tuple("Document", DOC, "owner", direct(USER_U)),
    ];
    assert_eq!(run_check(&schema, &t1, "Document", DOC, "edit", &direct(USER_U)), Ok(true));
    assert_eq!(run_check(&schema, &t2, "Document", DOC, "edit", &direct(USER_U)), Ok(true));
    // And the added tuple grants the new editor without taking anything away.
    assert_eq!(run_check(&schema, &t2, "Document", DOC, "edit", &direct(USER_V)), Ok(true));
    t2.push(tuple("Document", DOC, "owner", direct(0x3)));
    assert_eq!(run_check(&schema, &t2, "Document", DOC, "edit", &direct(USER_U)), Ok(true));
}

fn collect_leaves(tree: &Tree, out: &mut Vec<u128>) {
    match &tree.subject {
        Subject::Direct(d) => {
            assert!(tree.children.is_empty(), "direct identities are leaves");
            out.push(d.id.value);
        }
        Subject::SubjectSet(_) => {
            for c in tree.children.iter() {
                collect_leaves(c, out);
            }
        }
    }
}

#[test]
fn test_expand_leaves_match_check() {
    // P7 on concrete values: for a stored relation the leaves of the
    // expansion are exactly the direct subjects that pass check.
    let schema = parse(
        r#"
        class Team implements Namespace { related: { member: User[]; } }
        class Document implements Namespace { related: { viewer: User[]; } }
        "#,
    );
    let team: u128 = 0x7e44;
    let tuples = vec![
        tuple("Document", DOC, "viewer", direct(0x10)),
        tuple("Document", DOC, "viewer", subject_set("Team", team, "member")),
        tuple("Team", team, "member", direct(0x11)),
        tuple("Team", team, "member", direct(0x12)),
    ];
    let tree = expand(
        &schema,
        &tuples,
        &"Document".to_string(),
        Uuid { value: DOC },
        &"viewer".to_string(),
        DEFAULT_MAX_DEPTH,
    )
    .expect("expand should succeed");

    let mut leaves = Vec::new();
    collect_leaves(&tree, &mut leaves);
    leaves.sort();
    assert_eq!(leaves, vec![0x10, 0x11, 0x12]);

    for id in [0x10u128, 0x11, 0x12] {
        assert_eq!(
            run_check(&schema, &tuples, "Document", DOC, "viewer", &direct(id)),
            Ok(true),
            "every leaf passes check"
        );
    }
    assert_eq!(run_check(&schema, &tuples, "Document", DOC, "viewer", &direct(0x13)), Ok(false));
}

#[test]
fn test_expand_deduplicates_and_omits_cycles() {
    let schema = parse(
        r#"class Team implements Namespace { related: { member: User[]; } }"#,
    );
    let team_a: u128 = 0xa;
    let team_b: u128 = 0xb;
    let tuples = vec![
        // The same member twice: deduplicated.
        tuple("Team", team_a, "member", direct(0x21)),
        tuple("Team", team_a, "member", direct(0x21)),
        // Two teams that contain each other: the cycle is cut.
        tuple("Team", team_a, "member", subject_set("Team", team_b, "member")),
        tuple("Team", team_b, "member", subject_set("Team", team_a, "member")),
        tuple("Team", team_b, "member", direct(0x22)),
    ];
    let tree = expand(
        &schema,
        &tuples,
        &"Team".to_string(),
        Uuid { value: team_a },
        &"member".to_string(),
        DEFAULT_MAX_DEPTH,
    )
    .expect("expand should succeed");

    let mut leaves = Vec::new();
    collect_leaves(&tree, &mut leaves);
    leaves.sort();
    assert_eq!(leaves, vec![0x21, 0x22]);
}

#[test]
fn test_expand_depth_exhaustion_is_an_error() {
    let schema = parse(
        r#"class Team implements Namespace { related: { member: User[]; } }"#,
    );
    let tuples = vec![tuple("Team", 0xa, "member", direct(0x21))];
    let r = expand(
        &schema,
        &tuples,
        &"Team".to_string(),
        Uuid { value: 0xa },
        &"member".to_string(),
        0,
    );
    assert!(matches!(r, Err(Error::MaxDepthExceeded)));
}

#[test]
fn test_expand_missing_namespace_and_computed_relation_are_errors() {
    let schema = parse(
        r#"
        class Team implements Namespace {
            related: { member: User[]; }
            permits: { view: (ctx) => this.related.member.includes(ctx.subject); }
        }
        "#,
    );
    let tuples = vec![tuple("Team", 0xa, "member", direct(0x21))];
    // A namespace the schema does not hold.
    let r = expand(
        &schema,
        &tuples,
        &"Nowhere".to_string(),
        Uuid { value: 0xa },
        &"member".to_string(),
        DEFAULT_MAX_DEPTH,
    );
    assert!(matches!(r, Err(Error::NamespaceNotFound)));
    // A relation the namespace does not hold.
    let r = expand(
        &schema,
        &tuples,
        &"Team".to_string(),
        Uuid { value: 0xa },
        &"missing".to_string(),
        DEFAULT_MAX_DEPTH,
    );
    assert!(matches!(r, Err(Error::RelationNotFound)));
    // A computed relation does not expand into a subject tree.
    let r = expand(
        &schema,
        &tuples,
        &"Team".to_string(),
        Uuid { value: 0xa },
        &"view".to_string(),
        DEFAULT_MAX_DEPTH,
    );
    assert!(matches!(r, Err(Error::InvalidSubjectSet)));
}
