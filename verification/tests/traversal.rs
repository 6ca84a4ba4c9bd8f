use heimdall::context::RequestContext;
use heimdall::error::HeimdallError;
use heimdall::models::relation_tuple::{RelationTuple, Subject, SubjectID, SubjectSet};
use heimdall::models::traversal::{Traversal, TraversalResult};
use heimdall::persistance::schema::SubjectExapandedRelationTupleRow;
use heimdall::services::traversal::{
    Round, TraversalService, FROM_EDGES, QUERY_LIMIT, SELECT_EDGES, SELECT_TERMINAL,
};
use heimdall::statement::{Bind, Part, Statement};

const NID: u128 = 99;
const DOC: u128 = 1;
const GROUP: u128 = 2;
const USER: u128 = 3;

fn ctx() -> RequestContext {
    RequestContext::new(NID, "r".to_string(), "t".to_string())
}

fn start() -> RelationTuple {
    RelationTuple {
        namespace: "doc".to_string(),
        object: DOC,
        relation: "view".to_string(),
        subject: Subject::Direct(SubjectID::new(USER)),
    }
}

fn edge(shard: u128, object: u128, found: bool) -> SubjectExapandedRelationTupleRow {
    SubjectExapandedRelationTupleRow {
        shard_id: shard,
        subject_set_namespace: "group".to_string(),
        subject_set_object: object,
        subject_set_relation: "member".to_string(),
        found,
    }
}

fn text(s: &str) -> Part {
    Part::Sql(s.to_string())
}

#[test]
fn traversal_hit_is_a_single_found_step() {
    let mut trace: Vec<TraversalResult> = Vec::new();
    let outcome = TraversalService::absorb_round(&start(), &mut trace, &vec![edge(10, GROUP, true)]);
    assert_eq!(outcome, Round::Found);
    assert_eq!(trace.len(), 1);
    assert_eq!(trace[0].via, Traversal::SubjectSetExpand);
    assert!(trace[0].found);
    assert_eq!(trace[0].from, start());
    assert_eq!(
        trace[0].to,
        RelationTuple {
            namespace: "group".to_string(),
            object: GROUP,
            relation: "member".to_string(),
            subject: Subject::Direct(SubjectID::new(USER)),
        }
    );
}

#[test]
fn traversal_miss_ends_after_one_short_round() {
    let mut trace: Vec<TraversalResult> = Vec::new();
    let outcome = TraversalService::absorb_round(&start(), &mut trace, &vec![edge(10, GROUP, false)]);
    assert_eq!(outcome, Round::Exhausted);
    assert_eq!(trace.len(), 1);
    assert!(!trace[0].found);
    assert_eq!(trace[0].to.object, GROUP);
}

#[test]
fn empty_round_ends_the_search() {
    let mut trace: Vec<TraversalResult> = Vec::new();
    let outcome = TraversalService::absorb_round(&start(), &mut trace, &Vec::new());
    assert_eq!(outcome, Round::Exhausted);
    assert!(trace.is_empty());
}

#[test]
fn edges_after_the_first_found_are_left_out() {
    let mut trace: Vec<TraversalResult> = Vec::new();
    let rows = vec![edge(10, 4, false), edge(11, 5, true), edge(12, 6, false), edge(13, 7, true)];
    let outcome = TraversalService::absorb_round(&start(), &mut trace, &rows);
    assert_eq!(outcome, Round::Found);
    assert_eq!(trace.len(), 2);
    assert!(!trace[0].found);
    assert!(trace[1].found);
    assert_eq!(trace[1].to.object, 5);
}

#[test]
fn full_round_continues_after_its_last_shard() {
    let mut rows = Vec::new();
    for i in 0..1000u128 {
        rows.push(edge(100 + i, i, false));
    }
    let mut trace: Vec<TraversalResult> = Vec::new();
    let outcome = TraversalService::absorb_round(&start(), &mut trace, &rows);
    assert_eq!(outcome, Round::Continue(1099));
    assert_eq!(trace.len(), 1000);

    let outcome = TraversalService::absorb_round(&start(), &mut trace, &vec![edge(1100, 7, false)]);
    assert_eq!(outcome, Round::Exhausted);
    assert_eq!(trace.len(), 1001);
    assert_eq!(trace[1000].to.object, 7);
}

#[test]
fn round_of_999_edges_is_the_last() {
    let mut rows = Vec::new();
    for i in 0..999u128 {
        rows.push(edge(100 + i, i, false));
    }
    let mut trace: Vec<TraversalResult> = Vec::new();
    assert_eq!(TraversalService::absorb_round(&start(), &mut trace, &rows), Round::Exhausted);
    assert_eq!(trace.len(), 999);
}

#[test]
fn full_round_that_ends_found_is_found() {
    let mut rows = Vec::new();
    for i in 0..999u128 {
        rows.push(edge(100 + i, i, false));
    }
    rows.push(edge(2000, 5, true));
    let mut trace: Vec<TraversalResult> = Vec::new();
    assert_eq!(TraversalService::absorb_round(&start(), &mut trace, &rows), Round::Found);
    assert_eq!(trace.len(), 1000);
}

#[test]
fn round_statement_for_a_direct_subject() {
    let service = TraversalService::new();
    let statement = service.expansion_round(&ctx(), &start(), 55);
    let expected = vec![
        text(SELECT_EDGES),
        text(SELECT_TERMINAL),
        text(" subject_id = "),
        Part::Bind(Bind::Uuid(USER)),
        text(" AND subject_set_namespace IS NULL AND subject_set_object IS NULL AND subject_set_relation IS NULL"),
        text(FROM_EDGES),
        text(" current.nid = "),
        Part::Bind(Bind::Uuid(NID)),
        text(" AND current.shard_id > "),
        Part::Bind(Bind::Uuid(55)),
        text(" AND current.namespace = "),
        Part::Bind(Bind::Text("doc".to_string())),
        text(" AND current.object = "),
        Part::Bind(Bind::Uuid(DOC)),
        text(" AND current.relation = "),
        Part::Bind(Bind::Text("view".to_string())),
        text(" AND current.subject_id IS NULL"),
        text(" ORDER BY current.shard_id"),
        text(" LIMIT "),
        Part::Bind(Bind::Int(1000)),
    ];
    assert_eq!(statement.parts, expected);
    assert_eq!(QUERY_LIMIT, 1000);
}

#[test]
fn terminal_filter_for_a_set_subject() {
    let mut statement = Statement::new("x");
    let subject = Subject::Indirect(SubjectSet::new("team".to_string(), 8, "lead".to_string()));
    TraversalService::with_subject_filter(&mut statement, &subject);
    let expected = vec![
        text("x"),
        text(" subject_id IS NULL"),
        text(" AND subject_set_namespace = "),
        Part::Bind(Bind::Text("team".to_string())),
        text(" AND subject_set_object = "),
        Part::Bind(Bind::Uuid(8)),
        text(" AND subject_set_relation = "),
        Part::Bind(Bind::Text("lead".to_string())),
    ];
    assert_eq!(statement.parts, expected);
}

#[test]
fn rewrite_traversal_is_unimplemented() {
    let service = TraversalService::new();
    let result = service.traverse_subject_set_rewrite(&ctx(), &start(), &["viewer".to_string()]);
    assert_eq!(result, Err(HeimdallError::Unimplemented));
}
