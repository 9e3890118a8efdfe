use heimdall::relation_tuple::{
    get_matching_tuples, RelationTuple, RelationTupleQuery, Subject, SubjectId, SubjectSet, Uuid,
};
use heimdall::uuid_mapping::map_string_to_uuids_readonly;

fn set(ns: &str, obj: u128, rel: &str) -> SubjectSet {
    SubjectSet {
        namespace: ns.to_string(),
        object: Uuid { value: obj },
        relation: rel.to_string(),
    }
}

#[test]
fn test_direct_unique_id_is_the_identity() {
    let id = Uuid { value: 0xabcdef };
    let s = SubjectId::new(id);
    assert_eq!(s.unique_id(), id);
    assert_eq!(Subject::Direct(SubjectId::new(id)).unique_id(), id);
}

#[test]
fn test_direct_unique_ids_injective() {
    // P5 on direct subjects: distinct identities, distinct unique ids.
    let a = Subject::Direct(SubjectId::new(Uuid { value: 1 }));
    let b = Subject::Direct(SubjectId::new(Uuid { value: 2 }));
    assert!(!a.equals(&b));
    assert_ne!(a.unique_id(), b.unique_id());
    let a2 = Subject::Direct(SubjectId::new(Uuid { value: 1 }));
    assert!(a.equals(&a2));
    assert_eq!(a.unique_id(), a2.unique_id());
}

#[test]
fn test_subject_set_unique_id_matches_v5_hash() {
    // The unique id of a subject set is the v5 UUID of
    // "{namespace}-{relation}" in the namespace of the object.
    let obj: u128 = 0x1234_5678_9abc_def0;
    let s = set("Team", obj, "members");
    let expected = uuid::Uuid::new_v5(&uuid::Uuid::from_u128(obj), b"Team-members").as_u128();
    assert_eq!(s.unique_id().value, expected);
    // A different relation gives a different id.
    let other = set("Team", obj, "owners");
    assert_ne!(other.unique_id().value, expected);
}

#[test]
fn test_subject_set_unique_ids_can_collide() {
    // The id hashes the joined text "{namespace}-{relation}", so two
    // distinct subject sets whose joins agree share one id: injectivity
    // holds only up to that join.
    let obj: u128 = 42;
    let a = Subject::SubjectSet(set("a-b", obj, "c"));
    let b = Subject::SubjectSet(set("a", obj, "b-c"));
    assert!(!a.equals(&b));
    assert_eq!(a.unique_id(), b.unique_id());
}

#[test]
fn test_subject_equality() {
    let a = Subject::Direct(SubjectId::new(Uuid { value: 9 }));
    let b = Subject::SubjectSet(set("Team", 9, "member"));
    assert!(!a.equals(&b));
    assert!(!b.equals(&a));
    assert!(a.equals(&a));
    assert!(b.equals(&b));
    let c = Subject::SubjectSet(set("Team", 9, "other"));
    assert!(!b.equals(&c));

    let id = SubjectId::new(Uuid { value: 9 });
    assert!(id.equals(&a));
    assert!(!id.equals(&b));
    let ss = set("Team", 9, "member");
    assert!(ss.equals(&b));
    assert!(!ss.equals(&a));
}

#[test]
fn test_subject_set_new_takes_all_columns() {
    let s = SubjectSet::new(
        Some("Team".to_string()),
        Some(Uuid { value: 5 }),
        Some("member".to_string()),
    );
    assert_eq!(s.namespace.as_str(), "Team");
    assert_eq!(s.object.value, 5);
    assert_eq!(s.relation.as_str(), "member");
}

#[test]
fn test_map_string_to_uuids_readonly_is_the_v5_mapping() {
    let nid = Uuid { value: 0xfeed };
    let strings = vec!["alice".to_string(), "bob".to_string(), "alice".to_string()];
    let ids = map_string_to_uuids_readonly(&nid, &strings);
    assert_eq!(ids.len(), 3);
    let expected_alice = uuid::Uuid::new_v5(&uuid::Uuid::from_u128(0xfeed), b"alice").as_u128();
    let expected_bob = uuid::Uuid::new_v5(&uuid::Uuid::from_u128(0xfeed), b"bob").as_u128();
    assert_eq!(ids[0].value, expected_alice);
    assert_eq!(ids[1].value, expected_bob);
    // Deterministic: the same string maps to the same id.
    assert_eq!(ids[2], ids[0]);
    // The mapping actually depends on the network id.
    let other = map_string_to_uuids_readonly(&Uuid { value: 0xbeef }, &strings);
    assert_ne!(other[0], ids[0]);
}

#[test]
fn test_get_matching_tuples_filters_by_every_present_field() {
    let tuples = vec![
        RelationTuple {
            namespace: "Document".to_string(),
            object: Uuid { value: 1 },
            relation: "owner".to_string(),
            subject: Subject::Direct(SubjectId::new(Uuid { value: 7 })),
        },
        RelationTuple {
            namespace: "Document".to_string(),
            object: Uuid { value: 2 },
            relation: "owner".to_string(),
            subject: Subject::Direct(SubjectId::new(Uuid { value: 8 })),
        },
        RelationTuple {
            namespace: "Folder".to_string(),
            object: Uuid { value: 1 },
            relation: "owner".to_string(),
            subject: Subject::Direct(SubjectId::new(Uuid { value: 7 })),
        },
    ];

    // An empty query matches everything.
    let all = RelationTupleQuery { namespace: None, object: None, relation: None, subject: None };
    assert_eq!(get_matching_tuples(&tuples, &all).len(), 3);

    // Namespace alone.
    let by_ns = RelationTupleQuery {
        namespace: Some("Document".to_string()),
        object: None,
        relation: None,
        subject: None,
    };
    let docs = get_matching_tuples(&tuples, &by_ns);
    assert_eq!(docs.len(), 2);
    assert_eq!(docs[0].object.value, 1);
    assert_eq!(docs[1].object.value, 2);

    // Namespace, object and subject together.
    let narrow = RelationTupleQuery {
        namespace: Some("Document".to_string()),
        object: Some(Uuid { value: 1 }),
        relation: Some("owner".to_string()),
        subject: Some(Subject::Direct(SubjectId::new(Uuid { value: 7 }))),
    };
    let found = get_matching_tuples(&tuples, &narrow);
    assert_eq!(found.len(), 1);
    assert_eq!(found[0].namespace.as_str(), "Document");

    // A mismatching subject filters everything out.
    let none = RelationTupleQuery {
        namespace: Some("Document".to_string()),
        object: Some(Uuid { value: 1 }),
        relation: None,
        subject: Some(Subject::Direct(SubjectId::new(Uuid { value: 9 }))),
    };
    assert!(get_matching_tuples(&tuples, &none).is_empty());
}
