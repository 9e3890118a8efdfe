use heimdall::relation_tuple::{RelationTuple, Subject, SubjectId, SubjectSet, Uuid};
use heimdall::tuple_text::parse_tuple;

fn direct(id: u128) -> Subject {
    Subject::Direct(SubjectId::new(Uuid { value: id }))
}

fn subject_set(ns: &str, obj: u128, rel: &str) -> Subject {
    Subject::SubjectSet(SubjectSet {
        namespace: ns.to_string(),
        object: Uuid { value: obj },
        relation: rel.to_string(),
    })
}

#[test]
fn test_uuid_text_matches_outside_formatter() {
    // The verified formatter agrees with the uuid crate's hyphenated form.
    for v in [
        0u128,
        1,
        0xa1a2a3a4_b1b2_c1c2_d1d2_d3d4d5d6d7d8,
        u128::MAX,
        0x0123_4567_89ab_cdef_0123_4567_89ab_cdef,
    ] {
        let t = RelationTuple {
            namespace: "ns".to_string(),
            object: Uuid { value: v },
            relation: "r".to_string(),
            subject: direct(v),
        };
        let printed = t.canonical_string();
        let expected = format!(
            "ns:{}#r@{}",
            uuid::Uuid::from_u128(v),
            uuid::Uuid::from_u128(v)
        );
        assert_eq!(printed, expected);
    }
}

#[test]
fn test_canonical_string_exact() {
    let t = RelationTuple {
        namespace: "Document".to_string(),
        object: Uuid { value: 0 },
        relation: "owner".to_string(),
        subject: direct(1),
    };
    assert_eq!(
        t.canonical_string(),
        "Document:00000000-0000-0000-0000-000000000000#owner@00000000-0000-0000-0000-000000000001"
    );
}

#[test]
fn test_tuple_text_round_trip_direct() {
    let t = RelationTuple {
        namespace: "Document".to_string(),
        object: Uuid { value: 0xd0c },
        relation: "owner".to_string(),
        subject: direct(0xabc),
    };
    let text = t.canonical_string();
    let back = parse_tuple(&text).expect("canonical text must parse");
    assert_eq!(back.namespace, t.namespace);
    assert_eq!(back.object, t.object);
    assert_eq!(back.relation, t.relation);
    assert!(back.subject.equals(&t.subject));
    assert_eq!(back.canonical_string(), text);
}

#[test]
fn test_tuple_text_round_trip_subject_set() {
    let t = RelationTuple {
        namespace: "Document".to_string(),
        object: Uuid { value: 0xd0c },
        relation: "viewer".to_string(),
        subject: subject_set("Team", 0x7e44, "member"),
    };
    let text = t.canonical_string();
    let back = parse_tuple(&text).expect("canonical text must parse");
    assert_eq!(back.namespace, t.namespace);
    assert_eq!(back.relation, t.relation);
    assert!(back.subject.equals(&t.subject));
    assert_eq!(back.canonical_string(), text);
}

#[test]
fn test_parse_tuple_rejects_trailing_garbage() {
    let t = RelationTuple {
        namespace: "Document".to_string(),
        object: Uuid { value: 0xd0c },
        relation: "owner".to_string(),
        subject: direct(0xabc),
    };
    let mut text = t.canonical_string();
    assert!(parse_tuple(&text).is_some());
    text.push('x');
    assert!(parse_tuple(&text).is_none(), "trailing garbage must be rejected");
}

#[test]
fn test_parse_tuple_rejects_malformed_input() {
    assert!(parse_tuple("").is_none());
    assert!(parse_tuple("no-separators-at-all").is_none());
    assert!(parse_tuple("ns:not-a-uuid#rel@x").is_none());
    // Upper-case hex is not canonical.
    assert!(
        parse_tuple("ns:00000000-0000-0000-0000-00000000000A#rel@00000000-0000-0000-0000-000000000001")
            .is_none()
    );
    // A missing subject is rejected.
    assert!(parse_tuple("ns:00000000-0000-0000-0000-000000000001#rel@").is_none());
    // An empty relation name is rejected.
    assert!(
        parse_tuple("ns:00000000-0000-0000-0000-000000000001#@00000000-0000-0000-0000-000000000001")
            .is_none()
    );
}
