use heimdall::context::RequestContext;
use heimdall::error::HeimdallError;
use heimdall::ident::{new_shard_id, NIL};
use heimdall::models::query::TokenPagination;
use heimdall::models::relation_tuple::{RelationTuple, Subject, SubjectID, SubjectSet};
use heimdall::models::traversal::Traversal;
use heimdall::persistance::schema;
use uuid::Uuid;

fn set(namespace: &str, object: u128, relation: &str) -> SubjectSet {
    SubjectSet::new(namespace.to_string(), object, relation.to_string())
}

#[test]
fn context_hands_back_what_it_was_given() {
    let ctx = RequestContext::new(7, "req".to_string(), "trace".to_string());
    assert_eq!(ctx.network_id(), 7);
    assert_eq!(ctx.request_id(), "req");
    assert_eq!(ctx.trace_id(), "trace");
}

#[test]
fn subject_id_equals_only_the_same_direct_subject() {
    let a = SubjectID::new(5);
    assert_eq!(a.unique_id(), 5);
    assert!(a.equals(Subject::Direct(SubjectID::new(5))));
    assert!(!a.equals(Subject::Direct(SubjectID::new(6))));
    assert!(!a.equals(Subject::Indirect(set("group", 5, "member"))));
}

#[test]
fn subject_set_equals_compares_all_three_fields() {
    let a = set("group", 9, "member");
    assert!(a.equals(Subject::Indirect(set("group", 9, "member"))));
    assert!(!a.equals(Subject::Indirect(set("groups", 9, "member"))));
    assert!(!a.equals(Subject::Indirect(set("group", 10, "member"))));
    assert!(!a.equals(Subject::Indirect(set("group", 9, "owner"))));
    assert!(!a.equals(Subject::Direct(SubjectID::new(9))));
}

#[test]
fn subject_set_unique_id_is_name_based_under_the_object() {
    let object = 0x6ba7b810_9dad_11d1_80b4_00c04fd430c8u128;
    let a = set("group", object, "member");
    let expected = Uuid::new_v5(&Uuid::from_u128(object), b"group-member").as_u128();
    assert_eq!(a.unique_id(), expected);
    assert_ne!(a.unique_id(), object);
    assert_ne!(a.unique_id(), set("group", object, "owner").unique_id());
}

#[test]
fn token_is_the_hyphenated_lower_case_text() {
    let id = 0x0123_4567_89AB_CDEF_0123_4567_89AB_CDEFu128;
    assert_eq!(
        TokenPagination::encode_next_page_token(&id),
        "01234567-89ab-cdef-0123-456789abcdef"
    );
    assert_eq!(
        TokenPagination::encode_next_page_token(&NIL),
        "00000000-0000-0000-0000-000000000000"
    );
    assert_eq!(
        TokenPagination::encode_next_page_token(&u128::MAX),
        "ffffffff-ffff-ffff-ffff-ffffffffffff"
    );
    assert_eq!(TokenPagination::encode_next_page_token(&id), Uuid::from_u128(id).to_string());
}

#[test]
fn pagination_defaults() {
    let none = TokenPagination { last_id: None, page_size: None };
    assert_eq!(none.effective_page_size(), 100);
    assert_eq!(none.effective_cursor(), NIL);
    let some = TokenPagination { last_id: Some(3), page_size: Some(7) };
    assert_eq!(some.effective_page_size(), 7);
    assert_eq!(some.effective_cursor(), 3);
}

#[test]
fn shard_ids_are_random_version_four() {
    let a = new_shard_id();
    let b = new_shard_id();
    assert_ne!(a, NIL);
    assert_eq!(Uuid::from_u128(a).get_version_num(), 4);
    assert_eq!(Uuid::from_u128(b).get_version_num(), 4);
    assert_ne!(a, b);
}

#[test]
fn each_error_has_its_diagnostic() {
    assert_eq!(HeimdallError::NilSubjectError.message(), "Subject missing\n");
    assert_eq!(HeimdallError::MalformedInput.message(), "Malformed Input\n");
    assert_eq!(
        HeimdallError::database("pool timed out".to_string()).message(),
        "Database Error: pool timed out\n"
    );
    assert_eq!(HeimdallError::Unimplemented.message(), "Unimplemented\n");
}

#[test]
fn each_edge_kind_has_its_name() {
    assert_eq!(Traversal::Unknown.name(), "unknown\n");
    assert_eq!(Traversal::SubjectSetExpand.name(), "subject set expand\n");
    assert_eq!(Traversal::ComputedUserset.name(), "computed userset\n");
    assert_eq!(Traversal::TupleToUserset.name(), "tuple to userset\n");
}

#[test]
fn direct_row_reads_back_as_direct_subject() {
    let tuple = RelationTuple {
        namespace: "doc".to_string(),
        object: 1,
        relation: "view".to_string(),
        subject: Subject::Direct(SubjectID::new(42)),
    };
    let row = schema::RelationTuple::encode(11, 22, &tuple, 1_700_000_000_000_000);
    assert_eq!(row.shard_id, 11);
    assert_eq!(row.nid, 22);
    assert_eq!(row.subject_id, Some(42));
    assert_eq!(row.subject_set_namespace, None);
    assert_eq!(row.subject_set_object, None);
    assert_eq!(row.subject_set_relation, None);
    assert_eq!(row.commit_time, 1_700_000_000_000_000);
    assert!(row.is_subject_exclusive());
    assert_eq!(RelationTuple::from(row), tuple);
}

#[test]
fn set_row_reads_back_as_set_subject() {
    let tuple = RelationTuple {
        namespace: "doc".to_string(),
        object: 1,
        relation: "view".to_string(),
        subject: Subject::Indirect(set("group", 77, "member")),
    };
    let row = schema::RelationTuple::encode(11, 22, &tuple, 5);
    assert_eq!(row.subject_id, None);
    assert_eq!(row.subject_set_namespace, Some("group".to_string()));
    assert_eq!(row.subject_set_object, Some(77));
    assert_eq!(row.subject_set_relation, Some("member".to_string()));
    assert!(row.is_subject_exclusive());
    assert_eq!(RelationTuple::from(row.clone()), tuple);
    assert_eq!(row.clone(), row);
}

#[test]
fn rows_with_both_or_neither_encoding_are_not_exclusive() {
    let tuple = RelationTuple {
        namespace: "doc".to_string(),
        object: 1,
        relation: "view".to_string(),
        subject: Subject::Direct(SubjectID::new(42)),
    };
    let mut both = schema::RelationTuple::encode(1, 2, &tuple, 0);
    both.subject_set_object = Some(3);
    assert!(!both.is_subject_exclusive());
    let mut neither = schema::RelationTuple::encode(1, 2, &tuple, 0);
    neither.subject_id = None;
    assert!(!neither.is_subject_exclusive());
    let mut partial = schema::RelationTuple::encode(1, 2, &tuple, 0);
    partial.subject_id = None;
    partial.subject_set_namespace = Some("group".to_string());
    partial.subject_set_object = Some(3);
    assert!(!partial.is_subject_exclusive());
}

#[test]
fn subjects_have_their_text() {
    let id = 0x0123_4567_89AB_CDEF_0123_4567_89AB_CDEFu128;
    assert_eq!(SubjectID::new(id).text(), "01234567-89ab-cdef-0123-456789abcdef");
    assert_eq!(
        set("group", id, "member").text(),
        "group:01234567-89ab-cdef-0123-456789abcdef#member\n"
    );
}
