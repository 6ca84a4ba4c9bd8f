//! The subject-set walk: a cursor that moves up the shards, one bounded round
//! at a time, until an edge leads to the subject or no edge is left.

use vstd::prelude::*;
use crate::context::RequestContext;
use crate::error::{HeimdallError, HeimdallResult};
use crate::models::relation_tuple::{RelationTuple, Subject, SubjectModel, TupleModel};
use crate::models::traversal::{StepModel, Traversal, TraversalResult};
use crate::persistance::schema::{EdgeModel, SubjectExapandedRelationTupleRow};
use crate::services::relation_tuple::SUBJECT_SET_IS_NULL;
use crate::statement::{bind_int, bind_text, bind_uuid, sql, Bind, PartModel, Statement};

verus! {

/// Most edges that one round asks for.
pub const QUERY_LIMIT: i32 = 1000;

/// Head of a round: the columns of an edge, and the opening of `found`.
pub const SELECT_EDGES: &'static str =
    "SELECT current.shard_id AS shard_id, current.subject_set_namespace AS subject_set_namespace, current.subject_set_object AS subject_set_object, current.subject_set_relation AS subject_set_relation, EXISTS (";

/// Head of the probe behind an edge: a tuple of the same tenant in the
/// namespace and relation that the edge leads to; the subject follows.
pub const SELECT_TERMINAL: &'static str =
    "SELECT 1 FROM heimdall_relation_tuples WHERE nid = current.nid AND namespace = current.subject_set_namespace AND relation = current.subject_set_relation AND";

/// The table that the edges are taken from; the predicate on them follows.
pub const FROM_EDGES: &'static str = ") AS found FROM heimdall_relation_tuples AS current WHERE";

/// The predicate that a row holds exactly the given subject, to stand behind
/// an `AND`.
pub open spec fn terminal_clause(subject: SubjectModel) -> Seq<PartModel> {
    match subject {
        SubjectModel::Direct(id) => seq![
            sql(" subject_id = "@),
            bind_uuid(id),
            sql(SUBJECT_SET_IS_NULL@),
        ],
        SubjectModel::Indirect(set) => seq![
            sql(" subject_id IS NULL"@),
            sql(" AND subject_set_namespace = "@),
            bind_text(set.namespace),
            sql(" AND subject_set_object = "@),
            bind_uuid(set.object),
            sql(" AND subject_set_relation = "@),
            bind_text(set.relation),
        ],
    }
}

/// The predicate that picks the set-valued edges of `start`'s head after the
/// cursor, ascending by shard, a bounded number of them.
pub open spec fn edge_clause(nid: u128, start: TupleModel, cursor: u128) -> Seq<PartModel> {
    seq![
        sql(" current.nid = "@),
        bind_uuid(nid),
        sql(" AND current.shard_id > "@),
        bind_uuid(cursor),
        sql(" AND current.namespace = "@),
        bind_text(start.namespace),
        sql(" AND current.object = "@),
        bind_uuid(start.object),
        sql(" AND current.relation = "@),
        bind_text(start.relation),
        sql(" AND current.subject_id IS NULL"@),
        sql(" ORDER BY current.shard_id"@),
        sql(" LIMIT "@),
        bind_int(1000),
    ]
}

/// The statement of one round: each edge with, as `found`, whether a tuple
/// with `start`'s subject exists behind it.
pub open spec fn expansion_statement(nid: u128, start: TupleModel, cursor: u128) -> Seq<PartModel> {
    seq![sql(SELECT_EDGES@), sql(SELECT_TERMINAL@)] + terminal_clause(start.subject) + seq![
        sql(FROM_EDGES@),
    ] + edge_clause(nid, start, cursor)
}

/// What one edge adds to the trace.
pub open spec fn step_of(start: TupleModel, edge: EdgeModel) -> StepModel {
    StepModel {
        from: start,
        to: TupleModel {
            namespace: edge.subject_set_namespace,
            object: edge.subject_set_object,
            relation: edge.subject_set_relation,
            subject: start.subject,
        },
        via: Traversal::SubjectSetExpand,
        found: edge.found,
    }
}

/// The index, from `from` on, of the first edge with `found` set; the number
/// of edges where there is none.
pub open spec fn first_found(edges: Seq<EdgeModel>, from: int) -> int
    decreases edges.len() - from,
{
    if from < 0 || from >= edges.len() {
        edges.len() as int
    } else if edges[from].found {
        from
    } else {
        first_found(edges, from + 1)
    }
}

/// How many edges of a round reach the trace: all up to and with the first
/// that is found, or all.
pub open spec fn taken(edges: Seq<EdgeModel>) -> int {
    if first_found(edges, 0) < edges.len() {
        first_found(edges, 0) + 1
    } else {
        edges.len() as int
    }
}

/// What a round adds to the trace.
pub open spec fn absorbed(start: TupleModel, edges: Seq<EdgeModel>) -> Seq<StepModel> {
    edges.take(taken(edges)).map_values(|e: EdgeModel| step_of(start, e))
}

/// What follows a round.
#[derive(Debug, Clone, Copy, PartialEq, Eq, Structural)]
pub enum Round {
    /// An edge led to the subject: the trace ends with it.
    Found,
    /// The round came back short and nothing was found: the search is over.
    Exhausted,
    /// The round was full: ask again, after this shard.
    Continue(u128),
}

/// What follows a round with these edges.
pub open spec fn outcome_of(edges: Seq<EdgeModel>) -> Round {
    if first_found(edges, 0) < edges.len() {
        Round::Found
    } else if edges.len() < 1000 {
        Round::Exhausted
    } else {
        Round::Continue(edges.last().shard_id)
    }
}

/// Every edge lies after the cursor, and the edges ascend strictly by shard:
/// what the backend returns for a round.
pub open spec fn ascending_after(edges: Seq<EdgeModel>, cursor: u128) -> bool {
    &&& forall|i: int| 0 <= i < edges.len() ==> cursor < (#[trigger] edges[i]).shard_id
    &&& forall|i: int, j: int|
        0 <= i < j < edges.len() ==> (#[trigger] edges[i]).shard_id < (#[trigger] edges[j]).shard_id
}

/// `first_found` is the least index with `found` set.
pub proof fn lemma_first_found(edges: Seq<EdgeModel>, from: int, at: int)
    requires
        0 <= from <= at <= edges.len(),
        forall|j: int| from <= j < at ==> !(#[trigger] edges[j]).found,
        at < edges.len() ==> edges[at].found,
    ensures
        first_found(edges, from) == at,
    decreases at - from,
{
    if from < at {
        lemma_first_found(edges, from + 1, at);
    }
}

/// Where `first_found` points, `found` is set, and nowhere before.
pub proof fn lemma_first_found_is_least(edges: Seq<EdgeModel>, from: int)
    requires
        0 <= from <= edges.len(),
    ensures
        from <= first_found(edges, from) <= edges.len(),
        first_found(edges, from) < edges.len() ==> edges[first_found(edges, from)].found,
        forall|j: int| from <= j < first_found(edges, from) ==> !(#[trigger] edges[j]).found,
    decreases edges.len() - from,
{
    if from < edges.len() && !edges[from].found {
        lemma_first_found_is_least(edges, from + 1);
    }
}

/// While the walk goes on the cursor moves strictly up, and a later round
/// holds no edge of an earlier one.
pub proof fn lemma_rounds_advance(
    first: Seq<EdgeModel>,
    cursor: u128,
    second: Seq<EdgeModel>,
)
    requires
        ascending_after(first, cursor),
        outcome_of(first) is Continue,
        ascending_after(second, outcome_of(first)->Continue_0),
    ensures
        cursor < outcome_of(first)->Continue_0,
        forall|i: int, j: int|
            0 <= i < first.len() && 0 <= j < second.len() ==> (#[trigger] first[i]).shard_id < (
            #[trigger] second[j]).shard_id,
{
    let next = first.last().shard_id;
    assert forall|i: int, j: int| 0 <= i < first.len() && 0 <= j < second.len() implies (
    #[trigger] first[i]).shard_id < (#[trigger] second[j]).shard_id by {
        assert(first[i].shard_id <= next);
        assert(next < second[j].shard_id);
    }
}

/// A round's part of the trace tells the truth about the round: only its
/// last step can be found; it is found exactly if some edge of the round was,
/// and the outcome is then `Found`; where none was, every edge is in it.
pub proof fn lemma_absorbed_sound(start: TupleModel, edges: Seq<EdgeModel>)
    ensures
        forall|i: int| 0 <= i < absorbed(start, edges).len() - 1 ==> !(#[trigger] absorbed(start, edges)[i]).found,
        (absorbed(start, edges).len() > 0 && absorbed(start, edges).last().found) <==> (exists|j: int|
            0 <= j < edges.len() && (#[trigger] edges[j]).found),
        outcome_of(edges) is Found <==> (exists|j: int| 0 <= j < edges.len() && (#[trigger] edges[j]).found),
        !(outcome_of(edges) is Found) ==> absorbed(start, edges) == edges.map_values(
            |e: EdgeModel| step_of(start, e),
        ),
        forall|i: int| 0 <= i < absorbed(start, edges).len() ==> #[trigger] absorbed(start, edges)[i] == step_of(start, edges[i]),
{
    lemma_first_found_is_least(edges, 0);
    let k = first_found(edges, 0);
    if k < edges.len() {
        assert(edges[k].found);
        assert(absorbed(start, edges).last() == step_of(start, edges[k]));
    } else {
        assert(edges.take(edges.len() as int) =~= edges);
    }
}

/// Every round is bound to the tenant and to the cursor it was built for: its
/// statement ends with the predicate on the edges, which binds both.
pub proof fn lemma_round_names_tenant(nid: u128, start: TupleModel, cursor: u128)
    ensures
        expansion_statement(nid, start, cursor).skip(
            expansion_statement(nid, start, cursor).len() - 14,
        ) == edge_clause(nid, start, cursor),
        edge_clause(nid, start, cursor)[1] == bind_uuid(nid),
        edge_clause(nid, start, cursor)[3] == bind_uuid(cursor),
{
    let statement = expansion_statement(nid, start, cursor);
    assert(statement.skip(statement.len() - 14) =~= edge_clause(nid, start, cursor));
}

/// The trace of a walk that meets the given rounds in order: each round is
/// taken in, and the next one only if the round asks to continue.
pub open spec fn walked(start: TupleModel, rounds: Seq<Seq<EdgeModel>>) -> Seq<StepModel>
    decreases rounds.len(),
{
    if rounds.len() == 0 {
        Seq::empty()
    } else if outcome_of(rounds[0]) is Continue {
        absorbed(start, rounds[0]) + walked(start, rounds.drop_first())
    } else {
        absorbed(start, rounds[0])
    }
}

/// Whether the walk over the given rounds met an edge with `found` set
/// before it stopped.
pub open spec fn walk_found(rounds: Seq<Seq<EdgeModel>>) -> bool
    decreases rounds.len(),
{
    if rounds.len() == 0 {
        false
    } else if outcome_of(rounds[0]) is Continue {
        walk_found(rounds.drop_first())
    } else {
        outcome_of(rounds[0]) is Found
    }
}

/// In the trace of a whole walk no step but the last is found, and the last
/// is found exactly if the walk met an edge that is.
pub proof fn lemma_only_last_found(start: TupleModel, rounds: Seq<Seq<EdgeModel>>)
    ensures
        forall|i: int|
            0 <= i < walked(start, rounds).len() - 1 ==> !(#[trigger] walked(start, rounds)[i]).found,
        (walked(start, rounds).len() > 0 && walked(start, rounds).last().found) <==> walk_found(
            rounds,
        ),
    decreases rounds.len(),
{
    if rounds.len() > 0 {
        let first = absorbed(start, rounds[0]);
        lemma_absorbed_sound(start, rounds[0]);
        lemma_first_found_is_least(rounds[0], 0);
        if outcome_of(rounds[0]) is Continue {
            let rest = walked(start, rounds.drop_first());
            lemma_only_last_found(start, rounds.drop_first());
            assert(first.len() == rounds[0].len());
            assert forall|i: int| 0 <= i < first.len() implies !(#[trigger] first[i]).found by {
                assert(first[i] == step_of(start, rounds[0][i]));
            }
            assert forall|i: int| 0 <= i < walked(start, rounds).len() - 1 implies !(
            #[trigger] walked(start, rounds)[i]).found by {
                if i < first.len() {
                    assert(walked(start, rounds)[i] == first[i]);
                } else {
                    assert(walked(start, rounds)[i] == rest[i - first.len()]);
                }
            }
            if rest.len() > 0 {
                assert(walked(start, rounds).last() == rest.last());
            } else {
                assert(walked(start, rounds) =~= first);
                if first.len() > 0 {
                    assert(!first[first.len() - 1].found);
                }
            }
        }
    }
}

/// The planner of the walk. It holds no state.
#[derive(Debug)]
pub struct TraversalService {}

impl TraversalService {
    pub fn new() -> Self {
        Self {  }
    }

    /// Appends the predicate that a row holds exactly `subject`.
    pub fn with_subject_filter(builder: &mut Statement, subject: &Subject)
        ensures
            final(builder).deep_view() == old(builder).deep_view() + terminal_clause(
                subject.deep_view(),
            ),
    {
        match subject {
            Subject::Direct(direct) => {
                builder.push(" subject_id = ");
                builder.push_bind(Bind::Uuid(direct.id));
                builder.push(SUBJECT_SET_IS_NULL);
            },
            Subject::Indirect(set) => {
                builder.push(" subject_id IS NULL");
                builder.push(" AND subject_set_namespace = ");
                builder.push_bind(Bind::Text(set.namespace.clone()));
                builder.push(" AND subject_set_object = ");
                builder.push_bind(Bind::Uuid(set.object));
                builder.push(" AND subject_set_relation = ");
                builder.push_bind(Bind::Text(set.relation.clone()));
            },
        }
        assert(builder.deep_view() =~= old(builder).deep_view() + terminal_clause(
            subject.deep_view(),
        ));
    }

    /// The statement of the round that starts after `cursor`. The first round
    /// starts after the nil identifier.
    pub fn expansion_round(&self, ctx: &RequestContext, start: &RelationTuple, cursor: u128) -> (statement:
        Statement)
        ensures
            statement.deep_view() == expansion_statement(ctx.nid(), start.deep_view(), cursor),
    {
        let mut builder = Statement::new(SELECT_EDGES);
        builder.push(SELECT_TERMINAL);
        Self::with_subject_filter(&mut builder, &start.subject);
        let ghost head = builder.deep_view();
        builder.push(FROM_EDGES);
        builder.push(" current.nid = ");
        builder.push_bind(Bind::Uuid(ctx.network_id()));
        builder.push(" AND current.shard_id > ");
        builder.push_bind(Bind::Uuid(cursor));
        builder.push(" AND current.namespace = ");
        builder.push_bind(Bind::Text(start.namespace.clone()));
        builder.push(" AND current.object = ");
        builder.push_bind(Bind::Uuid(start.object));
        builder.push(" AND current.relation = ");
        builder.push_bind(Bind::Text(start.relation.clone()));
        builder.push(" AND current.subject_id IS NULL");
        builder.push(" ORDER BY current.shard_id");
        builder.push(" LIMIT ");
        builder.push_bind(Bind::Int(1000));
        assert(builder.deep_view() =~= head + seq![sql(FROM_EDGES@)] + edge_clause(
            ctx.nid(),
            start.deep_view(),
            cursor,
        ));
        assert(head =~= seq![sql(SELECT_EDGES@), sql(SELECT_TERMINAL@)] + terminal_clause(
            start.deep_view().subject,
        ));
        builder
    }

    /// Takes the edges of one round into the trace and says what follows.
    /// Edges are taken in order, up to and with the first that is found.
    pub fn absorb_round(
        start: &RelationTuple,
        results: &mut Vec<TraversalResult>,
        rows: &Vec<SubjectExapandedRelationTupleRow>,
    ) -> (outcome: Round)
        ensures
            final(results).deep_view() == old(results).deep_view() + absorbed(
                start.deep_view(),
                rows.deep_view(),
            ),
            outcome == outcome_of(rows.deep_view()),
    {
        let ghost edges = rows.deep_view();
        let ghost before = results.deep_view();
        let mut i: usize = 0;
        while i < rows.len()
            invariant
                i <= rows@.len(),
                edges == rows.deep_view(),
                before == old(results).deep_view(),
                forall|j: int| 0 <= j < i ==> !(#[trigger] edges[j]).found,
                results.deep_view() == before + edges.take(i as int).map_values(
                    |e: EdgeModel| step_of(start.deep_view(), e),
                ),
            decreases rows@.len() - i,
        {
            let row = &rows[i];
            let to = RelationTuple {
                namespace: row.subject_set_namespace.clone(),
                object: row.subject_set_object,
                relation: row.subject_set_relation.clone(),
                subject: start.subject.clone(),
            };
            let result = TraversalResult {
                from: start.clone(),
                to,
                via: Traversal::SubjectSetExpand,
                found: row.found,
            };
            assert(result.deep_view() == step_of(start.deep_view(), edges[i as int]));
            let ghost so_far = results.deep_view();
            results.push(result);
            assert(results.deep_view() =~= so_far.push(step_of(start.deep_view(), edges[i as int])));
            assert(results.deep_view() =~= before + edges.take(i + 1).map_values(
                |e: EdgeModel| step_of(start.deep_view(), e),
            ));
            if row.found {
                proof {
                    lemma_first_found(edges, 0, i as int);
                    assert(taken(edges) == i + 1);
                }
                return Round::Found;
            }
            i = i + 1;
        }
        proof {
            lemma_first_found(edges, 0, edges.len() as int);
        }
        if rows.len() < 1000 {
            Round::Exhausted
        } else {
            Round::Continue(rows[rows.len() - 1].shard_id)
        }
    }

    /// The walk over computed subject sets. Its meaning is not settled, so it
    /// always fails, and says so.
    pub fn traverse_subject_set_rewrite(
        &self,
        _ctx: &RequestContext,
        _start: &RelationTuple,
        _computed_subject_sets: &[String],
    ) -> (result: HeimdallResult<Vec<TraversalResult>>)
        ensures
            result is Err,
            result->Err_0 is Unimplemented,
    {
        Err(HeimdallError::Unimplemented)
    }
}

} // verus!
