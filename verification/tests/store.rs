use heimdall::context::RequestContext;
use heimdall::error::HeimdallError;
use heimdall::models::query::{RelationTupleQuery, TokenPagination};
use heimdall::models::relation_tuple::{RelationTuple, Subject, SubjectID, SubjectSet};
use heimdall::persistance::schema;
use heimdall::services::relation_tuple::{
    RelationTupleService, DELETE_TUPLES, DELETE_WHERE, INSERT_TUPLES, SELECT_EXISTS, SELECT_TUPLES,
};
use heimdall::statement::{Bind, Part, Statement};
use uuid::Uuid;

const NID: u128 = 0xAAAA_0000_0000_0000_0000_0000_0000_0001;

fn ctx() -> RequestContext {
    RequestContext::new(NID, "r".to_string(), "t".to_string())
}

fn direct(object: u128, user: u128) -> RelationTuple {
    RelationTuple {
        namespace: "doc".to_string(),
        object,
        relation: "view".to_string(),
        subject: Subject::Direct(SubjectID::new(user)),
    }
}

fn indirect(object: u128, group: u128) -> RelationTuple {
    RelationTuple {
        namespace: "doc".to_string(),
        object,
        relation: "view".to_string(),
        subject: Subject::Indirect(SubjectSet::new("group".to_string(), group, "member".to_string())),
    }
}

fn text(s: &str) -> Part {
    Part::Sql(s.to_string())
}

fn binds(statement: &Statement) -> Vec<&Bind> {
    let mut out = Vec::new();
    for part in &statement.parts {
        if let Part::Bind(b) = part {
            out.push(b);
        }
    }
    out
}

fn stored(shard: u128, tuple: &RelationTuple) -> schema::RelationTuple {
    schema::RelationTuple::encode(shard, NID, tuple, 0)
}

#[test]
fn empty_write_is_malformed_input() {
    let service = RelationTupleService::new();
    let result = service.write_relation_tuples(&ctx(), &[]);
    assert_eq!(result, Err(HeimdallError::MalformedInput));
}

#[test]
fn write_lays_tuples_out_by_column() {
    let service = RelationTupleService::new();
    let tuples = vec![direct(1, 10), indirect(2, 20)];
    let plan = service.write_relation_tuples(&ctx(), &tuples).unwrap();
    assert_eq!(plan.len(), 1);
    let statement = &plan[0];
    assert_eq!(statement.parts.len(), 21);
    assert_eq!(binds(statement).len(), 10);
    assert_eq!(statement.parts[0], text(INSERT_TUPLES));
    assert_eq!(statement.parts[20], text("::TIMESTAMPTZ[])"));
    let b = binds(statement);
    match b[0] {
        Bind::UuidArray(shards) => {
            assert_eq!(shards.len(), 2);
            assert_ne!(shards[0], shards[1]);
            assert_eq!(Uuid::from_u128(shards[0]).get_version_num(), 4);
            assert_eq!(Uuid::from_u128(shards[1]).get_version_num(), 4);
        }
        other => panic!("shard column is {:?}", other),
    }
    assert_eq!(*b[1], Bind::UuidArray(vec![NID, NID]));
    assert_eq!(*b[2], Bind::TextArray(vec!["doc".to_string(), "doc".to_string()]));
    assert_eq!(*b[3], Bind::UuidArray(vec![1, 2]));
    assert_eq!(*b[4], Bind::TextArray(vec!["view".to_string(), "view".to_string()]));
    assert_eq!(*b[5], Bind::OptUuidArray(vec![Some(10), None]));
    assert_eq!(*b[6], Bind::OptTextArray(vec![None, Some("group".to_string())]));
    assert_eq!(*b[7], Bind::OptUuidArray(vec![None, Some(20)]));
    assert_eq!(*b[8], Bind::OptTextArray(vec![None, Some("member".to_string())]));
    match b[9] {
        Bind::TimeArray(times) => {
            assert_eq!(times.len(), 2);
            assert_eq!(times[0], times[1]);
            assert!(times[0] > 1_600_000_000_000_000);
        }
        other => panic!("time column is {:?}", other),
    }
}

#[test]
fn plan_write_is_fixed_by_its_arguments() {
    let tuples = vec![direct(1, 10), direct(2, 11), direct(3, 12)];
    let plan = RelationTupleService::plan_write(NID, &tuples, &vec![7, 8, 9], 123);
    assert_eq!(plan.len(), 1);
    let b = binds(&plan[0]);
    assert_eq!(*b[0], Bind::UuidArray(vec![7, 8, 9]));
    assert_eq!(*b[3], Bind::UuidArray(vec![1, 2, 3]));
    assert_eq!(*b[5], Bind::OptUuidArray(vec![Some(10), Some(11), Some(12)]));
    assert_eq!(*b[9], Bind::TimeArray(vec![123, 123, 123]));
}

#[test]
fn write_of_3001_rows_takes_two_inserts() {
    let service = RelationTupleService::new();
    let mut tuples = Vec::new();
    for i in 0..3001u128 {
        tuples.push(direct(i, 1));
    }
    let plan = service.write_relation_tuples(&ctx(), &tuples).unwrap();
    assert_eq!(plan.len(), 2);
    match binds(&plan[0])[3] {
        Bind::UuidArray(objects) => {
            assert_eq!(objects.len(), 3000);
            assert_eq!(objects[0], 0);
            assert_eq!(objects[2999], 2999);
        }
        other => panic!("object column is {:?}", other),
    }
    assert_eq!(*binds(&plan[1])[3], Bind::UuidArray(vec![3000]));
    assert_eq!(*binds(&plan[1])[1], Bind::UuidArray(vec![NID]));
}

#[test]
fn write_of_3000_and_6000_rows_fills_chunks_exactly() {
    let service = RelationTupleService::new();
    let mut tuples = Vec::new();
    for i in 0..3000u128 {
        tuples.push(direct(i, 1));
    }
    assert_eq!(service.write_relation_tuples(&ctx(), &tuples).unwrap().len(), 1);
    for i in 3000..6000u128 {
        tuples.push(direct(i, 1));
    }
    assert_eq!(service.write_relation_tuples(&ctx(), &tuples).unwrap().len(), 2);
}

#[test]
fn delete_of_nothing_is_no_statement() {
    let service = RelationTupleService::new();
    assert_eq!(service.delete_relation_tuples(&ctx(), &[]).len(), 0);
}

#[test]
fn delete_goes_in_chunks_of_100() {
    let service = RelationTupleService::new();
    let mut tuples = Vec::new();
    for i in 0..101u128 {
        tuples.push(indirect(i, 5));
    }
    let plan = service.delete_relation_tuples(&ctx(), &tuples);
    assert_eq!(plan.len(), 2);
    assert_eq!(plan[0].parts.len(), 17);
    assert_eq!(plan[0].parts[0], text(DELETE_TUPLES));
    let first = binds(&plan[0]);
    assert_eq!(first.len(), 8);
    match first[1] {
        Bind::UuidArray(objects) => assert_eq!(objects.len(), 100),
        other => panic!("object column is {:?}", other),
    }
    let second = binds(&plan[1]);
    assert_eq!(*second[0], Bind::TextArray(vec!["doc".to_string()]));
    assert_eq!(*second[1], Bind::UuidArray(vec![100]));
    assert_eq!(*second[2], Bind::TextArray(vec!["view".to_string()]));
    assert_eq!(*second[3], Bind::OptUuidArray(vec![None]));
    assert_eq!(*second[4], Bind::OptTextArray(vec![Some("group".to_string())]));
    assert_eq!(*second[5], Bind::OptUuidArray(vec![Some(5)]));
    assert_eq!(*second[6], Bind::OptTextArray(vec![Some("member".to_string())]));
    assert_eq!(*second[7], Bind::UuidArray(vec![NID]));
}

#[test]
fn read_binds_tenant_filter_cursor_and_limit() {
    let service = RelationTupleService::new();
    let query = RelationTupleQuery {
        namespace: Some("doc".to_string()),
        object: Some(9),
        relation: Some("view".to_string()),
        subject: Some(Subject::Direct(SubjectID::new(4))),
    };
    let page = TokenPagination { last_id: Some(77), page_size: Some(25) };
    let statement = service.get_relation_tuples(&ctx(), &query, &page);
    let expected = vec![
        text(SELECT_TUPLES),
        text(" nid = "),
        Part::Bind(Bind::Uuid(NID)),
        text(" AND namespace = "),
        Part::Bind(Bind::Text("doc".to_string())),
        text(" AND object = "),
        Part::Bind(Bind::Uuid(9)),
        text(" AND relation = "),
        Part::Bind(Bind::Text("view".to_string())),
        text(" AND subject_id = "),
        Part::Bind(Bind::Uuid(4)),
        text(" AND subject_set_namespace IS NULL AND subject_set_object IS NULL AND subject_set_relation IS NULL"),
        text(" AND shard_id > "),
        Part::Bind(Bind::Uuid(77)),
        text(" ORDER BY shard_id ASC LIMIT "),
        Part::Bind(Bind::Int(26)),
    ];
    assert_eq!(statement.parts, expected);
}

#[test]
fn read_without_filter_or_page_uses_defaults() {
    let service = RelationTupleService::new();
    let query = RelationTupleQuery { namespace: None, object: None, relation: None, subject: None };
    let page = TokenPagination { last_id: None, page_size: None };
    let statement = service.get_relation_tuples(&ctx(), &query, &page);
    let expected = vec![
        text(SELECT_TUPLES),
        text(" nid = "),
        Part::Bind(Bind::Uuid(NID)),
        text(" AND shard_id > "),
        Part::Bind(Bind::Uuid(0)),
        text(" ORDER BY shard_id ASC LIMIT "),
        Part::Bind(Bind::Int(101)),
    ];
    assert_eq!(statement.parts, expected);
}

#[test]
fn read_with_largest_page_size_does_not_overflow() {
    let service = RelationTupleService::new();
    let query = RelationTupleQuery { namespace: None, object: None, relation: None, subject: None };
    let page = TokenPagination { last_id: None, page_size: Some(i32::MAX) };
    let statement = service.get_relation_tuples(&ctx(), &query, &page);
    assert_eq!(statement.parts[6], Part::Bind(Bind::Int(2_147_483_648)));
}

#[test]
fn set_subject_filter_binds_every_value() {
    let mut statement = Statement::new("x");
    let subject = Subject::Indirect(SubjectSet::new("group".to_string(), 3, "member".to_string()));
    RelationTupleService::with_subject_filters(&mut statement, &subject);
    let expected = vec![
        text("x"),
        text(" AND subject_set_namespace = "),
        Part::Bind(Bind::Text("group".to_string())),
        text(" AND subject_set_object = "),
        Part::Bind(Bind::Uuid(3)),
        text(" AND subject_set_relation = "),
        Part::Bind(Bind::Text("member".to_string())),
        text(" AND subject_id IS NULL"),
    ];
    assert_eq!(statement.parts, expected);
}

#[test]
fn exists_wraps_the_filter() {
    let service = RelationTupleService::new();
    let query = RelationTupleQuery {
        namespace: None,
        object: Some(9),
        relation: None,
        subject: None,
    };
    let statement = service.exists_relation_tuples(&ctx(), &query);
    let expected = vec![
        text(SELECT_EXISTS),
        text(" nid = "),
        Part::Bind(Bind::Uuid(NID)),
        text(" AND object = "),
        Part::Bind(Bind::Uuid(9)),
        text(")"),
    ];
    assert_eq!(statement.parts, expected);
}

#[test]
fn delete_all_is_bound_to_the_tenant() {
    let service = RelationTupleService::new();
    let query = RelationTupleQuery {
        namespace: Some("doc".to_string()),
        object: None,
        relation: None,
        subject: None,
    };
    let statement = service.delete_all_relation_tuples(&ctx(), &query);
    let expected = vec![
        text(DELETE_WHERE),
        text(" nid = "),
        Part::Bind(Bind::Uuid(NID)),
        text(" AND namespace = "),
        Part::Bind(Bind::Text("doc".to_string())),
    ];
    assert_eq!(statement.parts, expected);
    let other = RequestContext::new(NID + 1, "r".to_string(), "t".to_string());
    let theirs = service.delete_all_relation_tuples(&other, &query);
    assert_eq!(theirs.parts[2], Part::Bind(Bind::Uuid(NID + 1)));
}

#[test]
fn page_boundary_of_101_rows() {
    let mut rows = Vec::new();
    let mut tuples = Vec::new();
    for i in 1..=101u128 {
        let t = direct(i, 1);
        rows.push(stored(1000 + i, &t));
        tuples.push(t);
    }
    let params = TokenPagination { last_id: None, page_size: Some(100) };
    let first = RelationTupleService::paginate(rows, &params);
    assert_eq!(first.data.len(), 100);
    assert_eq!(first.data[..], tuples[..100]);
    assert_eq!(first.token, Uuid::from_u128(1100).to_string());
    assert_ne!(first.token, Uuid::nil().to_string());

    let last = vec![stored(1101, &tuples[100])];
    let next = TokenPagination { last_id: Some(1100), page_size: Some(100) };
    let second = RelationTupleService::paginate(last, &next);
    assert_eq!(second.data.len(), 1);
    assert_eq!(second.data[0], tuples[100]);
    assert_eq!(second.token, "00000000-0000-0000-0000-000000000000");
}

#[test]
fn page_that_is_exactly_full_is_final() {
    let t = direct(1, 1);
    let rows = vec![stored(5, &t), stored(6, &t)];
    let params = TokenPagination { last_id: None, page_size: Some(2) };
    let page = RelationTupleService::paginate(rows, &params);
    assert_eq!(page.data.len(), 2);
    assert_eq!(page.token, Uuid::nil().to_string());
}

#[test]
fn empty_page_is_final() {
    let params = TokenPagination { last_id: Some(9), page_size: None };
    let page = RelationTupleService::paginate(Vec::new(), &params);
    assert_eq!(page.data.len(), 0);
    assert_eq!(page.token, Uuid::nil().to_string());
}

#[test]
fn page_of_size_zero_keeps_the_cursor() {
    let t = direct(1, 1);
    let params = TokenPagination { last_id: Some(9), page_size: Some(0) };
    let page = RelationTupleService::paginate(vec![stored(10, &t)], &params);
    assert_eq!(page.data.len(), 0);
    assert_eq!(page.token, Uuid::from_u128(9).to_string());
}

#[test]
fn negative_page_size_keeps_every_row() {
    let t = direct(1, 1);
    let params = TokenPagination { last_id: None, page_size: Some(-1) };
    let page = RelationTupleService::paginate(vec![stored(10, &t), stored(11, &t)], &params);
    assert_eq!(page.data.len(), 2);
    assert_eq!(page.token, Uuid::nil().to_string());
}

#[test]
fn written_rows_read_back_as_the_tuples() {
    let tuples = vec![direct(1, 10), indirect(2, 20)];
    let rows = vec![stored(1, &tuples[0]), stored(2, &tuples[1])];
    for row in &rows {
        assert!(row.is_subject_exclusive());
        assert_eq!(row.nid, NID);
    }
    let params = TokenPagination { last_id: None, page_size: None };
    let page = RelationTupleService::paginate(rows, &params);
    assert_eq!(page.data, tuples);
}

#[test]
fn pages_cover_every_row_once_in_order() {
    let mut table = Vec::new();
    let mut tuples = Vec::new();
    for i in 1..=7u128 {
        let t = direct(i, 1);
        table.push(stored(10 * i, &t));
        tuples.push(t);
    }
    let mut seen = Vec::new();
    let mut cursor: Option<u128> = None;
    let mut reads = 0;
    loop {
        let params = TokenPagination { last_id: cursor, page_size: Some(3) };
        let after = params.effective_cursor();
        let fetched: Vec<schema::RelationTuple> =
            table.iter().filter(|r| r.shard_id > after).take(4).cloned().collect();
        let page = RelationTupleService::paginate(fetched, &params);
        seen.extend(page.data);
        reads += 1;
        let next = Uuid::parse_str(&page.token).unwrap().as_u128();
        if next == 0 {
            break;
        }
        assert!(next > after);
        cursor = Some(next);
    }
    assert_eq!(reads, 3);
    assert_eq!(seen, tuples);
}
