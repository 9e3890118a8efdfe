use heimdall::error::ParserError;
use heimdall::lexer::Lexer;
use heimdall::parser::SchemaParser;
use heimdall::printer::print_schema;
use heimdall::schema::{Child, Operator, RelationType, Schema};

fn parse(input: &str) -> Result<Schema, Vec<ParserError>> {
    let tokens = Lexer::new(input).tokenize();
    let mut parser = SchemaParser::new(&tokens);
    parser.parse()
}

#[test]
fn test_print_simple_namespace_exact() {
    let schema = parse("class User implements Namespace { related: { manager: User[]; } }")
        .expect("should parse");
    let printed = print_schema(&schema);
    assert_eq!(
        printed,
        "class User implements Namespace {\nrelated: {\n  manager: User[];\n}\npermits: {\n}\n}\n"
    );
}

#[test]
fn test_print_parse_round_trip_simple() {
    // P2 on a concrete schema: parse(tokenize(print(schema))) = schema.
    let input = "class User implements Namespace { related: { manager: User[]; } }";
    let s1 = parse(input).expect("should parse");
    let text1 = print_schema(&s1);
    let s2 = parse(&text1).expect("printed schema should parse");
    assert_eq!(print_schema(&s2), text1);
    assert_eq!(s2.namespaces.len(), 1);
    assert_eq!(s2.namespaces[0].name.as_str(), "User");
    assert_eq!(s2.namespaces[0].relations.len(), 1);
    assert_eq!(s2.namespaces[0].relations[0].name.as_str(), "manager");
    match &s2.namespaces[0].relations[0].relation_type[0] {
        RelationType::Reference { namespace, relation } => {
            assert_eq!(namespace.as_str(), "User");
            assert!(relation.is_none());
        }
        _ => panic!("round trip changed the relation type"),
    }
}

#[test]
fn test_print_parse_round_trip_full() {
    // P2 on the canonical document schema: the printed form re-parses to a
    // schema that prints identically, and the tree shapes survive.
    let input = r#"
        class Document implements Namespace {
          related: {
            owner: User[];
            editors: User[];
            viewers: (User | SubjectSet<Team, "members">)[];
            parent_folder: Folder[];
            confidential: boolean;
            title: string;
          }
          permits: {
            edit: (ctx) =>
              this.related.owner.includes(ctx.subject) ||
              this.related.editors.includes(ctx.subject) ||
              this.related.parent_folder.traverse(parent => parent.permits.edit(ctx));
            view: (ctx) => this.permits.edit(ctx) || this.related.viewers.includes(ctx.subject);
            share: (ctx) => this.related.owner.includes(ctx.subject) && !this.related.confidential;
          }
        }
        "#;
    let s1 = parse(input).expect("should parse");
    let text1 = print_schema(&s1);
    let s2 = parse(&text1).expect("printed schema should parse");
    let text2 = print_schema(&s2);
    assert_eq!(text2, text1, "printing is a fixed point after one round");

    // The same relations in the same order, with the same shapes.
    assert_eq!(s2.namespaces[0].relations.len(), s1.namespaces[0].relations.len());
    let edit2 = s2.namespaces[0]
        .relations
        .iter()
        .find(|r| r.name.as_str() == "edit")
        .unwrap();
    let rw = edit2.subject_set_rewrite.as_ref().unwrap();
    assert_eq!(rw.operation, Operator::Or);
    assert_eq!(rw.children.len(), 3);
    let share2 = s2.namespaces[0]
        .relations
        .iter()
        .find(|r| r.name.as_str() == "share")
        .unwrap();
    let srw = share2.subject_set_rewrite.as_ref().unwrap();
    assert_eq!(srw.operation, Operator::And);
    assert!(matches!(srw.children[1], Child::InvertResult { .. }));

    let viewers2 = s2.namespaces[0]
        .relations
        .iter()
        .find(|r| r.name.as_str() == "viewers")
        .unwrap();
    assert_eq!(viewers2.relation_type.len(), 2);
    match &viewers2.relation_type[1] {
        RelationType::Reference { namespace, relation } => {
            assert_eq!(namespace.as_str(), "Team");
            assert_eq!(relation.as_ref().unwrap().as_str(), "members");
        }
        _ => panic!("round trip changed the subject set member"),
    }
}

#[test]
fn test_print_parse_round_trip_negation_and_nesting() {
    let input = r#"
        class D implements Namespace {
            related: { a: U[]; c: boolean; }
            permits: {
                p: (ctx) => (this.permits.x(ctx) || this.permits.y(ctx)) && !this.related.c;
            }
        }
        "#;
    let s1 = parse(input).expect("should parse");
    let text1 = print_schema(&s1);
    let s2 = parse(&text1).expect("printed schema should parse");
    assert_eq!(print_schema(&s2), text1);
    let p1 = s1.namespaces[0].relations.iter().find(|r| r.name.as_str() == "p").unwrap();
    let p2 = s2.namespaces[0].relations.iter().find(|r| r.name.as_str() == "p").unwrap();
    let rw1 = p1.subject_set_rewrite.as_ref().unwrap();
    let rw2 = p2.subject_set_rewrite.as_ref().unwrap();
    assert_eq!(rw1.operation, rw2.operation);
    assert_eq!(rw1.children.len(), rw2.children.len());
}
