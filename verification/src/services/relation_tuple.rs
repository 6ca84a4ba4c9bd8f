//! The relation-tuple store: what it sends to the backend, and what it makes
//! of the rows that come back.

use vstd::prelude::*;
use crate::context::RequestContext;
use crate::error::{HeimdallError, HeimdallResult};
use crate::ident::{hyphenated, is_random_version, new_shard_id, utc_now_micros, NIL};
use crate::models::query::{QueryModel, RelationTupleQuery, TokenPagination};
use crate::models::relation_tuple::{
    tuple_of_row, RelationTuple, Subject, SubjectModel, TupleModel,
};
use crate::models::response::PaginatedResponse;
use crate::persistance::schema;
use crate::persistance::schema::{row_of_tuple, subject_exclusive, RowModel};
use crate::statement::{
    bind_int, bind_opt_texts, bind_opt_uuids, bind_text, bind_texts, bind_times, bind_uuid,
    bind_uuids, chunk, chunk_count, sql, Bind, PartModel, Statement,
};

verus! {

/// Most rows that one insert carries.
pub const CHUNK_SIZE_INSERT_TUPLE: usize = 3000;

/// Most rows that one delete carries.
pub const CHUNK_SIZE_DELETE_TUPLE: usize = 100;

/// Head of the paged read: all ten columns of the tuple table.
pub const SELECT_TUPLES: &'static str =
    "SELECT shard_id, nid, namespace, object, relation, subject_id, subject_set_namespace, subject_set_object, subject_set_relation, commit_time FROM heimdall_relation_tuples WHERE";

/// Head of the existence probe; the predicates and a closing bracket follow.
pub const SELECT_EXISTS: &'static str = "SELECT EXISTS (SELECT 1 FROM heimdall_relation_tuples WHERE";

/// Head of the delete by filter.
pub const DELETE_WHERE: &'static str = "DELETE FROM heimdall_relation_tuples WHERE";

/// Head of the multi-row insert; the ten column arrays follow, each with its
/// cast.
pub const INSERT_TUPLES: &'static str =
    "INSERT INTO heimdall_relation_tuples (shard_id, nid, namespace, object, relation, subject_id, subject_set_namespace, subject_set_object, subject_set_relation, commit_time) SELECT * FROM UNNEST (";

/// Head of the multi-row delete; the eight column arrays follow.
pub const DELETE_TUPLES: &'static str = "DELETE FROM heimdall_relation_tuples t USING UNNEST (";

/// End of the multi-row delete: the cast of the last array, and the join of
/// the table against the arrays on all eight columns, an absent subject
/// column matching an absent one.
pub const DELETE_TUPLES_JOIN: &'static str =
    "::UUID[]) AS u(namespace, object, relation, subject_id, subject_set_namespace, subject_set_object, subject_set_relation, nid) WHERE t.namespace = u.namespace AND t.object = u.object AND t.relation = u.relation AND t.subject_id IS NOT DISTINCT FROM u.subject_id AND t.subject_set_namespace IS NOT DISTINCT FROM u.subject_set_namespace AND t.subject_set_object IS NOT DISTINCT FROM u.subject_set_object AND t.subject_set_relation IS NOT DISTINCT FROM u.subject_set_relation AND t.nid = u.nid";

/// The predicate that none of the three set columns is filled.
pub const SUBJECT_SET_IS_NULL: &'static str =
    " AND subject_set_namespace IS NULL AND subject_set_object IS NULL AND subject_set_relation IS NULL";

/// The predicate that binds a statement to one tenant.
pub open spec fn network_clause(nid: u128) -> Seq<PartModel> {
    seq![sql(" nid = "@), bind_uuid(nid)]
}

/// The predicate for a subject: the encoding that the subject has is
/// compared, the other one must be empty.
pub open spec fn subject_clause(subject: SubjectModel) -> Seq<PartModel> {
    match subject {
        SubjectModel::Direct(id) => seq![
            sql(" AND subject_id = "@),
            bind_uuid(id),
            sql(SUBJECT_SET_IS_NULL@),
        ],
        SubjectModel::Indirect(set) => seq![
            sql(" AND subject_set_namespace = "@),
            bind_text(set.namespace),
            sql(" AND subject_set_object = "@),
            bind_uuid(set.object),
            sql(" AND subject_set_relation = "@),
            bind_text(set.relation),
            sql(" AND subject_id IS NULL"@),
        ],
    }
}

/// The predicate on the namespace, where the filter names one.
pub open spec fn namespace_clause(namespace: Option<Seq<char>>) -> Seq<PartModel> {
    match namespace {
        Some(text) => seq![sql(" AND namespace = "@), bind_text(text)],
        None => Seq::empty(),
    }
}

/// The predicate on the object, where the filter names one.
pub open spec fn object_clause(object: Option<u128>) -> Seq<PartModel> {
    match object {
        Some(id) => seq![sql(" AND object = "@), bind_uuid(id)],
        None => Seq::empty(),
    }
}

/// The predicate on the relation, where the filter names one.
pub open spec fn relation_clause(relation: Option<Seq<char>>) -> Seq<PartModel> {
    match relation {
        Some(text) => seq![sql(" AND relation = "@), bind_text(text)],
        None => Seq::empty(),
    }
}

/// The predicate on the subject, where the filter names one.
pub open spec fn optional_subject_clause(subject: Option<SubjectModel>) -> Seq<PartModel> {
    match subject {
        Some(s) => subject_clause(s),
        None => Seq::empty(),
    }
}

/// The predicates of a filter: one for each field that is present, in the
/// order namespace, object, relation, subject.
pub open spec fn filter_clause(query: QueryModel) -> Seq<PartModel> {
    namespace_clause(query.namespace) + object_clause(query.object) + relation_clause(
        query.relation,
    ) + optional_subject_clause(query.subject)
}

/// The end of a paged read: rows after the cursor, ascending, one more than
/// the page holds.
pub open spec fn page_clause(cursor: u128, limit: i32) -> Seq<PartModel> {
    seq![
        sql(" AND shard_id > "@),
        bind_uuid(cursor),
        sql(" ORDER BY shard_id ASC LIMIT "@),
        bind_int((limit + 1) as i64),
    ]
}

/// The paged read of the tuples of tenant `nid` that match `query`.
pub open spec fn select_statement(nid: u128, query: QueryModel, cursor: u128, limit: i32) -> Seq<
    PartModel,
> {
    seq![sql(SELECT_TUPLES@)] + network_clause(nid) + filter_clause(query) + page_clause(
        cursor,
        limit,
    )
}

/// The probe whether any tuple of tenant `nid` matches `query`.
pub open spec fn exists_statement(nid: u128, query: QueryModel) -> Seq<PartModel> {
    seq![sql(SELECT_EXISTS@)] + network_clause(nid) + filter_clause(query) + seq![sql(")"@)]
}

/// The delete of every tuple of tenant `nid` that matches `query`.
pub open spec fn delete_all_statement(nid: u128, query: QueryModel) -> Seq<PartModel> {
    seq![sql(DELETE_WHERE@)] + network_clause(nid) + filter_clause(query)
}

/// Whether the backend returned the one row more that tells of a next page.
pub open spec fn has_more(fetched: nat, limit: i32) -> bool {
    0 <= limit < fetched
}

/// The rows that the page keeps.
pub open spec fn page_of(rows: Seq<RowModel>, limit: i32) -> Seq<RowModel> {
    if has_more(rows.len(), limit) {
        rows.take(limit as int)
    } else {
        rows
    }
}

/// Where the next page resumes: after the last row of this page, or at nil
/// when there is no next page. A page that may hold no row leaves the cursor
/// where it was.
pub open spec fn next_cursor(rows: Seq<RowModel>, cursor: u128, limit: i32) -> u128 {
    if has_more(rows.len(), limit) {
        if limit > 0 {
            rows[limit - 1].shard_id
        } else {
            cursor
        }
    } else {
        NIL
    }
}

/// The rows written for `tuples`: row `i` holds tuple `i` under `shard_ids[i]`,
/// all for tenant `nid` and with one commit time.
pub open spec fn rows_of(nid: u128, tuples: Seq<TupleModel>, shard_ids: Seq<u128>, commit_time: i64) -> Seq<
    RowModel,
> {
    Seq::new(tuples.len(), |i: int| row_of_tuple(shard_ids[i], nid, tuples[i], commit_time))
}

/// One insert for `rows`: ten columns, each bound as an array with one entry
/// for each row, from which the backend puts the rows together by position.
pub open spec fn insert_statement(rows: Seq<RowModel>) -> Seq<PartModel> {
    seq![
        sql(INSERT_TUPLES@),
        bind_uuids(rows.map_values(|r: RowModel| r.shard_id)),
        sql("::UUID[], "@),
        bind_uuids(rows.map_values(|r: RowModel| r.nid)),
        sql("::UUID[], "@),
        bind_texts(rows.map_values(|r: RowModel| r.namespace)),
        sql("::VARCHAR[], "@),
        bind_uuids(rows.map_values(|r: RowModel| r.object)),
        sql("::UUID[], "@),
        bind_texts(rows.map_values(|r: RowModel| r.relation)),
        sql("::VARCHAR[], "@),
        bind_opt_uuids(rows.map_values(|r: RowModel| r.subject_id)),
        sql("::UUID[], "@),
        bind_opt_texts(rows.map_values(|r: RowModel| r.subject_set_namespace)),
        sql("::VARCHAR[], "@),
        bind_opt_uuids(rows.map_values(|r: RowModel| r.subject_set_object)),
        sql("::UUID[], "@),
        bind_opt_texts(rows.map_values(|r: RowModel| r.subject_set_relation)),
        sql("::VARCHAR[], "@),
        bind_times(rows.map_values(|r: RowModel| r.commit_time)),
        sql("::TIMESTAMPTZ[])"@),
    ]
}

/// One delete for `rows`: the seven columns of the tuple and the tenant, each
/// bound as an array, joined against the table on all eight.
pub open spec fn delete_statement(rows: Seq<RowModel>) -> Seq<PartModel> {
    seq![
        sql(DELETE_TUPLES@),
        bind_texts(rows.map_values(|r: RowModel| r.namespace)),
        sql("::VARCHAR[], "@),
        bind_uuids(rows.map_values(|r: RowModel| r.object)),
        sql("::UUID[], "@),
        bind_texts(rows.map_values(|r: RowModel| r.relation)),
        sql("::VARCHAR[], "@),
        bind_opt_uuids(rows.map_values(|r: RowModel| r.subject_id)),
        sql("::UUID[], "@),
        bind_opt_texts(rows.map_values(|r: RowModel| r.subject_set_namespace)),
        sql("::VARCHAR[], "@),
        bind_opt_uuids(rows.map_values(|r: RowModel| r.subject_set_object)),
        sql("::UUID[], "@),
        bind_opt_texts(rows.map_values(|r: RowModel| r.subject_set_relation)),
        sql("::VARCHAR[], "@),
        bind_uuids(rows.map_values(|r: RowModel| r.nid)),
        sql(DELETE_TUPLES_JOIN@),
    ]
}

/// The inserts of one write: one for each chunk of at most 3000 rows, in
/// the order of the input.
pub open spec fn write_plan(nid: u128, tuples: Seq<TupleModel>, shard_ids: Seq<u128>, commit_time: i64) -> Seq<
    Seq<PartModel>,
> {
    Seq::new(
        chunk_count(tuples.len() as int, 3000) as nat,
        |k: int| insert_statement(chunk(rows_of(nid, tuples, shard_ids, commit_time), 3000, k)),
    )
}

/// The deletes of one call: one for each chunk of at most 100 tuples, in the
/// order of the input. Shard and commit time take no part in a delete.
pub open spec fn delete_plan(nid: u128, tuples: Seq<TupleModel>) -> Seq<Seq<PartModel>> {
    Seq::new(
        chunk_count(tuples.len() as int, 100) as nat,
        |k: int|
            delete_statement(
                chunk(rows_of(nid, tuples, Seq::new(tuples.len(), |i: int| NIL), 0), 100, k),
            ),
    )
}


/// Every row that a write lays out belongs to the tenant of the write, fills
/// exactly one encoding of its subject, and reads back as the tuple it was
/// laid out from.
pub proof fn lemma_written_rows(nid: u128, tuples: Seq<TupleModel>, shard_ids: Seq<u128>, commit_time: i64)
    ensures
        rows_of(nid, tuples, shard_ids, commit_time).len() == tuples.len(),
        forall|i: int|
            0 <= i < tuples.len() ==> {
                let row = #[trigger] rows_of(nid, tuples, shard_ids, commit_time)[i];
                &&& row.nid == nid
                &&& subject_exclusive(row)
                &&& tuple_of_row(row) == tuples[i]
            },
{
    assert forall|i: int| 0 <= i < tuples.len() implies {
        let row = #[trigger] rows_of(nid, tuples, shard_ids, commit_time)[i];
        &&& row.nid == nid
        &&& subject_exclusive(row)
        &&& tuple_of_row(row) == tuples[i]
    } by {
        schema::lemma_row_round_trip(shard_ids[i], nid, tuples[i], commit_time);
    }
}

/// Every statement on tuples begins, after its head, with the predicate of
/// the tenant it was built for; so statements built for two tenants never
/// bind the same tenant.
pub proof fn lemma_statements_name_tenant(nid: u128, query: QueryModel, cursor: u128, limit: i32)
    ensures
        select_statement(nid, query, cursor, limit).subrange(1, 3) == network_clause(nid),
        exists_statement(nid, query).subrange(1, 3) == network_clause(nid),
        delete_all_statement(nid, query).subrange(1, 3) == network_clause(nid),
        forall|other: u128| other != nid ==> #[trigger] network_clause(other) != network_clause(nid),
{
    assert(select_statement(nid, query, cursor, limit).subrange(1, 3) =~= network_clause(nid));
    assert(exists_statement(nid, query).subrange(1, 3) =~= network_clause(nid));
    assert(delete_all_statement(nid, query).subrange(1, 3) =~= network_clause(nid));
    assert forall|other: u128| other != nid implies #[trigger] network_clause(other)
        != network_clause(nid) by {
        assert(network_clause(other)[1] == bind_uuid(other));
        assert(network_clause(nid)[1] == bind_uuid(nid));
    }
}

/// The rows ascend strictly by shard, and none has the nil shard: the rows
/// that match one filter, as the backend orders them.
pub open spec fn ascending(stored: Seq<RowModel>) -> bool {
    &&& forall|i: int| 0 <= i < stored.len() ==> (#[trigger] stored[i]).shard_id != NIL
    &&& forall|i: int, j: int|
        0 <= i < j < stored.len() ==> (#[trigger] stored[i]).shard_id < (#[trigger] stored[j]).shard_id
}

/// How many of the ascending rows lie at or before the cursor.
pub open spec fn position_after(stored: Seq<RowModel>, cursor: u128) -> int
    decreases stored.len(),
{
    if stored.len() == 0 {
        0
    } else if stored.last().shard_id <= cursor {
        stored.len() as int
    } else {
        position_after(stored.drop_last(), cursor)
    }
}

/// What a paged read returns when `stored` are the rows that match: the rows
/// after the cursor, at most one more than the page size.
pub open spec fn fetched(stored: Seq<RowModel>, cursor: u128, limit: i32) -> Seq<RowModel> {
    let from = position_after(stored, cursor);
    let to = if from + limit + 1 < stored.len() {
        from + limit + 1
    } else {
        stored.len() as int
    };
    stored.subrange(from, to)
}

/// The pages that a reader gets who starts at `cursor` and follows each token
/// until it is nil, over at most `rounds` reads, one after the other.
pub open spec fn pages_from(stored: Seq<RowModel>, cursor: u128, limit: i32, rounds: nat) -> Seq<
    RowModel,
>
    decreases rounds,
{
    let rows = fetched(stored, cursor, limit);
    if rounds == 0 {
        Seq::empty()
    } else if has_more(rows.len(), limit) {
        page_of(rows, limit) + pages_from(
            stored,
            next_cursor(rows, cursor, limit),
            limit,
            (rounds - 1) as nat,
        )
    } else {
        page_of(rows, limit)
    }
}

/// The position after a cursor lies within the rows; after the shard of row
/// `k` it is `k + 1`, and after the nil cursor it is the start.
pub proof fn lemma_position_after(stored: Seq<RowModel>, cursor: u128)
    requires
        ascending(stored),
    ensures
        0 <= position_after(stored, cursor) <= stored.len(),
        cursor == NIL ==> position_after(stored, cursor) == 0,
        forall|k: int|
            0 <= k < stored.len() && (#[trigger] stored[k]).shard_id == cursor ==> position_after(
                stored,
                cursor,
            ) == k + 1,
    decreases stored.len(),
{
    if stored.len() > 0 {
        let rest = stored.drop_last();
        assert forall|i: int, j: int| 0 <= i < j < rest.len() implies (#[trigger] rest[i]).shard_id < (
        #[trigger] rest[j]).shard_id by {
            assert(rest[i] == stored[i] && rest[j] == stored[j]);
        }
        assert forall|i: int| 0 <= i < rest.len() implies (#[trigger] rest[i]).shard_id != NIL by {
            assert(rest[i] == stored[i]);
        }
        lemma_position_after(rest, cursor);
        assert forall|k: int|
            0 <= k < stored.len() && (#[trigger] stored[k]).shard_id == cursor implies position_after(
            stored,
            cursor,
        ) == k + 1 by {
            if k < stored.len() - 1 {
                assert(stored[k].shard_id < stored.last().shard_id);
                assert(rest[k] == stored[k]);
            }
        }
    }
}

/// One read of a page: the page is the next rows in order, and the token
/// either names the place right after the page or, nil, tells that the page
/// reached the end.
pub proof fn lemma_page_step(stored: Seq<RowModel>, cursor: u128, limit: i32)
    requires
        ascending(stored),
        limit >= 1,
    ensures
        ({
            let from = position_after(stored, cursor);
            let rows = fetched(stored, cursor, limit);
            let next = next_cursor(rows, cursor, limit);
            &&& 0 <= from <= stored.len()
            &&& has_more(rows.len(), limit) <==> from + limit < stored.len()
            &&& has_more(rows.len(), limit) ==> {
                &&& page_of(rows, limit) == stored.subrange(from, from + limit)
                &&& next != NIL
                &&& position_after(stored, next) == from + limit
            }
            &&& !has_more(rows.len(), limit) ==> {
                &&& page_of(rows, limit) == stored.skip(from)
                &&& next == NIL
            }
        }),
{
    lemma_position_after(stored, cursor);
    let from = position_after(stored, cursor);
    let rows = fetched(stored, cursor, limit);
    if has_more(rows.len(), limit) {
        assert(page_of(rows, limit) =~= stored.subrange(from, from + limit));
        let last = stored[from + limit - 1];
        assert(rows[limit - 1] == last);
        lemma_position_after(stored, last.shard_id);
    } else {
        assert(page_of(rows, limit) =~= stored.skip(from));
    }
}

/// Reading page after page, each from the token of the one before, gives
/// every row after the first cursor exactly once and in ascending order; from
/// the nil cursor, every row.
pub proof fn lemma_pages_cover(stored: Seq<RowModel>, cursor: u128, limit: i32, rounds: nat)
    requires
        ascending(stored),
        limit >= 1,
        rounds > stored.len() - position_after(stored, cursor),
    ensures
        pages_from(stored, cursor, limit, rounds) == stored.skip(position_after(stored, cursor)),
        cursor == NIL ==> pages_from(stored, cursor, limit, rounds) == stored,
    decreases rounds,
{
    lemma_position_after(stored, cursor);
    lemma_page_step(stored, cursor, limit);
    let from = position_after(stored, cursor);
    let rows = fetched(stored, cursor, limit);
    if has_more(rows.len(), limit) {
        let next = next_cursor(rows, cursor, limit);
        lemma_pages_cover(stored, next, limit, (rounds - 1) as nat);
        assert(stored.subrange(from, from + limit) + stored.skip(from + limit) =~= stored.skip(from));
    }
    if cursor == NIL {
        assert(stored.skip(0) =~= stored);
    }
}

/// A tuple laid out as a row, shard, tenant and commit time left blank.
pub open spec fn blank_row(tuple: TupleModel) -> RowModel {
    row_of_tuple(NIL, NIL, tuple, 0)
}

/// The seven columns that hold the tuples of one chunk.
pub struct TupleColumns {
    pub namespaces: Vec<String>,
    pub objects: Vec<u128>,
    pub relations: Vec<String>,
    pub subject_ids: Vec<Option<u128>>,
    pub subject_set_namespaces: Vec<Option<String>>,
    pub subject_set_objects: Vec<Option<u128>>,
    pub subject_set_relations: Vec<Option<String>>,
}

impl TupleColumns {
    /// Entry `i` of each column is the field of tuple `i`.
    pub open spec fn holds(&self, tuples: Seq<TupleModel>) -> bool {
        &&& self.namespaces.deep_view() == tuples.map_values(|t: TupleModel| t.namespace)
        &&& self.objects@ == tuples.map_values(|t: TupleModel| t.object)
        &&& self.relations.deep_view() == tuples.map_values(|t: TupleModel| t.relation)
        &&& self.subject_ids@ == tuples.map_values(|t: TupleModel| blank_row(t).subject_id)
        &&& self.subject_set_namespaces.deep_view() == tuples.map_values(
            |t: TupleModel| blank_row(t).subject_set_namespace,
        )
        &&& self.subject_set_objects@ == tuples.map_values(
            |t: TupleModel| blank_row(t).subject_set_object,
        )
        &&& self.subject_set_relations.deep_view() == tuples.map_values(
            |t: TupleModel| blank_row(t).subject_set_relation,
        )
    }

    /// Lays the tuples `rs[lo..hi]` out by column.
    pub fn of(rs: &[RelationTuple], lo: usize, hi: usize) -> (columns: Self)
        requires
            lo <= hi <= rs@.len(),
        ensures
            columns.holds(rs.deep_view().subrange(lo as int, hi as int)),
    {
        let ghost tuples = rs.deep_view().subrange(lo as int, hi as int);
        let mut namespaces: Vec<String> = Vec::new();
        let mut objects: Vec<u128> = Vec::new();
        let mut relations: Vec<String> = Vec::new();
        let mut subject_ids: Vec<Option<u128>> = Vec::new();
        let mut subject_set_namespaces: Vec<Option<String>> = Vec::new();
        let mut subject_set_objects: Vec<Option<u128>> = Vec::new();
        let mut subject_set_relations: Vec<Option<String>> = Vec::new();
        let mut i: usize = lo;
        while i < hi
            invariant
                lo <= i <= hi <= rs@.len(),
                tuples == rs.deep_view().subrange(lo as int, hi as int),
                namespaces@.len() == i - lo,
                objects@.len() == i - lo,
                relations@.len() == i - lo,
                subject_ids@.len() == i - lo,
                subject_set_namespaces@.len() == i - lo,
                subject_set_objects@.len() == i - lo,
                subject_set_relations@.len() == i - lo,
                forall|j: int| 0 <= j < i - lo ==> (#[trigger] namespaces@[j])@ == tuples[j].namespace,
                forall|j: int| 0 <= j < i - lo ==> #[trigger] objects@[j] == tuples[j].object,
                forall|j: int| 0 <= j < i - lo ==> (#[trigger] relations@[j])@ == tuples[j].relation,
                forall|j: int|
                    0 <= j < i - lo ==> #[trigger] subject_ids@[j] == blank_row(tuples[j]).subject_id,
                forall|j: int|
                    0 <= j < i - lo ==> (#[trigger] subject_set_namespaces@[j]).deep_view()
                        == blank_row(tuples[j]).subject_set_namespace,
                forall|j: int|
                    0 <= j < i - lo ==> #[trigger] subject_set_objects@[j] == blank_row(
                        tuples[j],
                    ).subject_set_object,
                forall|j: int|
                    0 <= j < i - lo ==> (#[trigger] subject_set_relations@[j]).deep_view()
                        == blank_row(tuples[j]).subject_set_relation,
            decreases hi - i,
        {
            let r = &rs[i];
            assert(tuples[i - lo] == r.deep_view());
            namespaces.push(r.namespace.clone());
            objects.push(r.object);
            relations.push(r.relation.clone());
            match &r.subject {
                Subject::Direct(direct) => {
                    subject_ids.push(Some(direct.id));
                    subject_set_namespaces.push(None);
                    subject_set_objects.push(None);
                    subject_set_relations.push(None);
                },
                Subject::Indirect(set) => {
                    subject_ids.push(None);
                    subject_set_namespaces.push(Some(set.namespace.clone()));
                    subject_set_objects.push(Some(set.object));
                    subject_set_relations.push(Some(set.relation.clone()));
                },
            }
            i = i + 1;
        }
        let columns = TupleColumns {
            namespaces,
            objects,
            relations,
            subject_ids,
            subject_set_namespaces,
            subject_set_objects,
            subject_set_relations,
        };
        proof {
            assert(columns.namespaces.deep_view() =~= tuples.map_values(|t: TupleModel| t.namespace));
            assert(columns.objects@ =~= tuples.map_values(|t: TupleModel| t.object));
            assert(columns.relations.deep_view() =~= tuples.map_values(|t: TupleModel| t.relation));
            assert(columns.subject_ids@ =~= tuples.map_values(
                |t: TupleModel| blank_row(t).subject_id,
            ));
            assert(columns.subject_set_namespaces.deep_view() =~= tuples.map_values(
                |t: TupleModel| blank_row(t).subject_set_namespace,
            ));
            assert(columns.subject_set_objects@ =~= tuples.map_values(
                |t: TupleModel| blank_row(t).subject_set_object,
            ));
            assert(columns.subject_set_relations.deep_view() =~= tuples.map_values(
                |t: TupleModel| blank_row(t).subject_set_relation,
            ));
        }
        columns
    }
}

/// `count` copies of `value`.
fn repeated<T: Copy>(value: T, count: usize) -> (column: Vec<T>)
    ensures
        column@ == Seq::new(count as nat, |i: int| value),
{
    let mut column: Vec<T> = Vec::new();
    let mut i: usize = 0;
    while i < count
        invariant
            i <= count,
            column@.len() == i,
            forall|j: int| 0 <= j < i ==> column@[j] == value,
        decreases count - i,
    {
        column.push(value);
        i = i + 1;
    }
    assert(column@ =~= Seq::new(count as nat, |i: int| value));
    column
}

/// The items `items[lo..hi]`.
fn copy_range(items: &Vec<u128>, lo: usize, hi: usize) -> (column: Vec<u128>)
    requires
        lo <= hi <= items@.len(),
    ensures
        column@ == items@.subrange(lo as int, hi as int),
{
    let mut column: Vec<u128> = Vec::new();
    let mut i: usize = lo;
    while i < hi
        invariant
            lo <= i <= hi <= items@.len(),
            column@.len() == i - lo,
            forall|j: int| 0 <= j < i - lo ==> column@[j] == items@[lo + j],
        decreases hi - i,
    {
        column.push(items[i]);
        i = i + 1;
    }
    assert(column@ =~= items@.subrange(lo as int, hi as int));
    column
}

/// The planner of the relation-tuple store. It holds no state: what it
/// returns depends on its arguments, the clock and the random source alone.
#[derive(Debug)]
pub struct RelationTupleService {}

impl RelationTupleService {
    pub fn new() -> Self {
        Self {  }
    }

    /// Appends the predicate that binds the statement to the request's tenant.
    pub fn with_network(builder: &mut Statement, ctx: &RequestContext)
        ensures
            final(builder).deep_view() == old(builder).deep_view() + network_clause(ctx.nid()),
    {
        builder.push(" nid = ");
        builder.push_bind(Bind::Uuid(ctx.network_id()));
        assert(builder.deep_view() =~= old(builder).deep_view() + network_clause(ctx.nid()));
    }

    /// Appends the predicate for each field of the filter that is present.
    pub fn with_query_filters(builder: &mut Statement, rs_query: &RelationTupleQuery)
        ensures
            final(builder).deep_view() == old(builder).deep_view() + filter_clause(
                rs_query.deep_view(),
            ),
    {
        let ghost query = rs_query.deep_view();
        if let Some(namespace) = &rs_query.namespace {
            builder.push(" AND namespace = ");
            builder.push_bind(Bind::Text(namespace.clone()));
        }
        assert(builder.deep_view() =~= old(builder).deep_view() + namespace_clause(query.namespace));
        if let Some(object) = &rs_query.object {
            builder.push(" AND object = ");
            builder.push_bind(Bind::Uuid(*object));
        }
        assert(builder.deep_view() =~= old(builder).deep_view() + namespace_clause(query.namespace)
            + object_clause(query.object));
        if let Some(relation) = &rs_query.relation {
            builder.push(" AND relation = ");
            builder.push_bind(Bind::Text(relation.clone()));
        }
        assert(builder.deep_view() =~= old(builder).deep_view() + namespace_clause(query.namespace)
            + object_clause(query.object) + relation_clause(query.relation));
        if let Some(subject) = &rs_query.subject {
            Self::with_subject_filters(builder, subject);
        }
        assert(builder.deep_view() =~= old(builder).deep_view() + filter_clause(query));
    }

    /// Appends the predicate for a subject.
    pub fn with_subject_filters(builder: &mut Statement, subject: &Subject)
        ensures
            final(builder).deep_view() == old(builder).deep_view() + subject_clause(
                subject.deep_view(),
            ),
    {
        match subject {
            Subject::Direct(direct) => {
                builder.push(" AND subject_id = ");
                builder.push_bind(Bind::Uuid(direct.id));
                builder.push(SUBJECT_SET_IS_NULL);
            },
            Subject::Indirect(set) => {
                builder.push(" AND subject_set_namespace = ");
                builder.push_bind(Bind::Text(set.namespace.clone()));
                builder.push(" AND subject_set_object = ");
                builder.push_bind(Bind::Uuid(set.object));
                builder.push(" AND subject_set_relation = ");
                builder.push_bind(Bind::Text(set.relation.clone()));
                builder.push(" AND subject_id IS NULL");
            },
        }
        assert(builder.deep_view() =~= old(builder).deep_view() + subject_clause(
            subject.deep_view(),
        ));
    }

    /// One insert for the tuples `rs[lo..hi]`, row `i` under `shard_ids[i]`.
    pub fn insert_chunk(
        nid: u128,
        rs: &[RelationTuple],
        shard_ids: &Vec<u128>,
        commit_time: i64,
        lo: usize,
        hi: usize,
    ) -> (statement: Statement)
        requires
            lo <= hi <= rs@.len(),
            shard_ids@.len() == rs@.len(),
        ensures
            statement.deep_view() == insert_statement(
                rows_of(nid, rs.deep_view(), shard_ids@, commit_time).subrange(lo as int, hi as int),
            ),
    {
        let ghost rows = rows_of(nid, rs.deep_view(), shard_ids@, commit_time).subrange(
            lo as int,
            hi as int,
        );
        let columns = TupleColumns::of(rs, lo, hi);
        let shards = copy_range(shard_ids, lo, hi);
        let nids = repeated(nid, hi - lo);
        let commit_times = repeated(commit_time, hi - lo);
        proof {
            assert(shards@ =~= rows.map_values(|r: RowModel| r.shard_id));
            assert(nids@ =~= rows.map_values(|r: RowModel| r.nid));
            assert(commit_times@ =~= rows.map_values(|r: RowModel| r.commit_time));
            assert(columns.namespaces.deep_view() =~= rows.map_values(|r: RowModel| r.namespace));
            assert(columns.objects@ =~= rows.map_values(|r: RowModel| r.object));
            assert(columns.relations.deep_view() =~= rows.map_values(|r: RowModel| r.relation));
            assert(columns.subject_ids@ =~= rows.map_values(|r: RowModel| r.subject_id));
            assert(columns.subject_set_namespaces.deep_view() =~= rows.map_values(
                |r: RowModel| r.subject_set_namespace,
            ));
            assert(columns.subject_set_objects@ =~= rows.map_values(
                |r: RowModel| r.subject_set_object,
            ));
            assert(columns.subject_set_relations.deep_view() =~= rows.map_values(
                |r: RowModel| r.subject_set_relation,
            ));
        }
        let mut statement = Statement::new(INSERT_TUPLES);
        statement.push_bind(Bind::UuidArray(shards));
        statement.push("::UUID[], ");
        statement.push_bind(Bind::UuidArray(nids));
        statement.push("::UUID[], ");
        statement.push_bind(Bind::TextArray(columns.namespaces));
        statement.push("::VARCHAR[], ");
        statement.push_bind(Bind::UuidArray(columns.objects));
        statement.push("::UUID[], ");
        statement.push_bind(Bind::TextArray(columns.relations));
        statement.push("::VARCHAR[], ");
        statement.push_bind(Bind::OptUuidArray(columns.subject_ids));
        statement.push("::UUID[], ");
        statement.push_bind(Bind::OptTextArray(columns.subject_set_namespaces));
        statement.push("::VARCHAR[], ");
        statement.push_bind(Bind::OptUuidArray(columns.subject_set_objects));
        statement.push("::UUID[], ");
        statement.push_bind(Bind::OptTextArray(columns.subject_set_relations));
        statement.push("::VARCHAR[], ");
        statement.push_bind(Bind::TimeArray(commit_times));
        statement.push("::TIMESTAMPTZ[])");
        assert(statement.deep_view() =~= insert_statement(rows));
        statement
    }

    /// One delete for the tuples `rs[lo..hi]` of tenant `nid`.
    pub fn delete_chunk(nid: u128, rs: &[RelationTuple], lo: usize, hi: usize) -> (statement:
        Statement)
        requires
            lo <= hi <= rs@.len(),
        ensures
            statement.deep_view() == delete_statement(
                rows_of(nid, rs.deep_view(), Seq::new(rs@.len(), |i: int| NIL), 0).subrange(
                    lo as int,
                    hi as int,
                ),
            ),
    {
        let ghost rows = rows_of(nid, rs.deep_view(), Seq::new(rs@.len(), |i: int| NIL), 0).subrange(
            lo as int,
            hi as int,
        );
        let columns = TupleColumns::of(rs, lo, hi);
        let nids = repeated(nid, hi - lo);
        proof {
            assert(nids@ =~= rows.map_values(|r: RowModel| r.nid));
            assert(columns.namespaces.deep_view() =~= rows.map_values(|r: RowModel| r.namespace));
            assert(columns.objects@ =~= rows.map_values(|r: RowModel| r.object));
            assert(columns.relations.deep_view() =~= rows.map_values(|r: RowModel| r.relation));
            assert(columns.subject_ids@ =~= rows.map_values(|r: RowModel| r.subject_id));
            assert(columns.subject_set_namespaces.deep_view() =~= rows.map_values(
                |r: RowModel| r.subject_set_namespace,
            ));
            assert(columns.subject_set_objects@ =~= rows.map_values(
                |r: RowModel| r.subject_set_object,
            ));
            assert(columns.subject_set_relations.deep_view() =~= rows.map_values(
                |r: RowModel| r.subject_set_relation,
            ));
        }
        let mut statement = Statement::new(DELETE_TUPLES);
        statement.push_bind(Bind::TextArray(columns.namespaces));
        statement.push("::VARCHAR[], ");
        statement.push_bind(Bind::UuidArray(columns.objects));
        statement.push("::UUID[], ");
        statement.push_bind(Bind::TextArray(columns.relations));
        statement.push("::VARCHAR[], ");
        statement.push_bind(Bind::OptUuidArray(columns.subject_ids));
        statement.push("::UUID[], ");
        statement.push_bind(Bind::OptTextArray(columns.subject_set_namespaces));
        statement.push("::VARCHAR[], ");
        statement.push_bind(Bind::OptUuidArray(columns.subject_set_objects));
        statement.push("::UUID[], ");
        statement.push_bind(Bind::OptTextArray(columns.subject_set_relations));
        statement.push("::VARCHAR[], ");
        statement.push_bind(Bind::UuidArray(nids));
        statement.push(DELETE_TUPLES_JOIN);
        assert(statement.deep_view() =~= delete_statement(rows));
        statement
    }

    /// The inserts that write `rs` for tenant `nid`, given the shard of each
    /// row and the commit time of all.
    pub fn plan_write(nid: u128, rs: &[RelationTuple], shard_ids: &Vec<u128>, commit_time: i64) -> (plan:
        Vec<Statement>)
        requires
            shard_ids@.len() == rs@.len(),
        ensures
            plan.deep_view() == write_plan(nid, rs.deep_view(), shard_ids@, commit_time),
    {
        let ghost rows = rows_of(nid, rs.deep_view(), shard_ids@, commit_time);
        let n = rs.len();
        let mut plan: Vec<Statement> = Vec::new();
        let mut lo: usize = 0;
        while lo < n
            invariant
                n == rs@.len(),
                rows == rows_of(nid, rs.deep_view(), shard_ids@, commit_time),
                shard_ids@.len() == rs@.len(),
                lo <= n,
                lo < n ==> lo == 3000 * plan@.len(),
                lo == n ==> plan@.len() == chunk_count(n as int, 3000),
                forall|k: int|
                    0 <= k < plan@.len() ==> (#[trigger] plan@[k]).deep_view() == insert_statement(
                        chunk(rows, 3000, k),
                    ),
            decreases n - lo,
        {
            let hi: usize = if n - lo > CHUNK_SIZE_INSERT_TUPLE {
                lo + CHUNK_SIZE_INSERT_TUPLE
            } else {
                n
            };
            let statement = Self::insert_chunk(nid, rs, shard_ids, commit_time, lo, hi);
            assert(rows.subrange(lo as int, hi as int) == chunk(rows, 3000, plan@.len() as int));
            plan.push(statement);
            lo = hi;
        }
        assert(plan.deep_view() =~= write_plan(nid, rs.deep_view(), shard_ids@, commit_time));
        plan
    }

    /// The statements that write `rs` under the request's tenant, to be run in
    /// order inside one transaction. An empty batch is refused. Each row gets
    /// a shard of its own from the random source, and all rows the one commit
    /// time read from the clock.
    pub fn write_relation_tuples(&self, ctx: &RequestContext, rs: &[RelationTuple]) -> (result:
        HeimdallResult<Vec<Statement>>)
        ensures
            result is Err <==> rs@.len() == 0,
            result is Err ==> result->Err_0 is MalformedInput,
            result is Ok ==> exists|shard_ids: Seq<u128>, commit_time: i64|
                {
                    &&& shard_ids.len() == rs@.len()
                    &&& forall|i: int|
                        0 <= i < shard_ids.len() ==> is_random_version(#[trigger] shard_ids[i])
                    &&& result->Ok_0.deep_view() == write_plan(
                        ctx.nid(),
                        rs.deep_view(),
                        shard_ids,
                        commit_time,
                    )
                },
    {
        if rs.len() == 0 {
            return Err(HeimdallError::MalformedInput);
        }
        let commit_time: i64 = utc_now_micros();
        let mut shard_ids: Vec<u128> = Vec::new();
        let mut i: usize = 0;
        while i < rs.len()
            invariant
                i <= rs@.len(),
                shard_ids@.len() == i,
                forall|j: int| 0 <= j < i ==> is_random_version(#[trigger] shard_ids@[j]),
            decreases rs@.len() - i,
        {
            shard_ids.push(new_shard_id());
            i = i + 1;
        }
        let plan = Self::plan_write(ctx.network_id(), rs, &shard_ids, commit_time);
        Ok(plan)
    }

    /// The statement that reads one page of the tuples that match the filter:
    /// rows after the cursor, ascending by shard, one more than the page holds.
    pub fn get_relation_tuples(
        &self,
        ctx: &RequestContext,
        rs_query: &RelationTupleQuery,
        pagination_params: &TokenPagination,
    ) -> (statement: Statement)
        ensures
            statement.deep_view() == select_statement(
                ctx.nid(),
                rs_query.deep_view(),
                pagination_params.cursor(),
                pagination_params.limit(),
            ),
    {
        let limit: i32 = pagination_params.effective_page_size();
        let mut builder = Statement::new(SELECT_TUPLES);
        Self::with_network(&mut builder, ctx);
        Self::with_query_filters(&mut builder, rs_query);
        let ghost head = builder.deep_view();
        builder.push(" AND shard_id > ");
        builder.push_bind(Bind::Uuid(pagination_params.effective_cursor()));
        builder.push(" ORDER BY shard_id ASC LIMIT ");
        builder.push_bind(Bind::Int(limit as i64 + 1));
        assert(builder.deep_view() =~= head + page_clause(
            pagination_params.cursor(),
            pagination_params.limit(),
        ));
        builder
    }

    /// Makes the page out of the rows that the read returned: the row beyond
    /// the page size, if it came, is dropped, and the token then names the
    /// last row kept; else the token is the nil identifier.
    pub fn paginate(rows: Vec<schema::RelationTuple>, pagination_params: &TokenPagination) -> (page:
        PaginatedResponse<Vec<RelationTuple>>)
        requires
            forall|i: int| 0 <= i < rows@.len() ==> subject_exclusive(#[trigger] rows@[i].deep_view()),
        ensures
            page.data.deep_view() == page_of(rows.deep_view(), pagination_params.limit()).map_values(
                |r: RowModel| tuple_of_row(r),
            ),
            page.token@ == hyphenated(
                next_cursor(rows.deep_view(), pagination_params.cursor(), pagination_params.limit()),
            ),
    {
        let limit: i32 = pagination_params.effective_page_size();
        let more: bool = limit >= 0 && rows.len() > limit as usize;
        let keep: usize = if more {
            limit as usize
        } else {
            rows.len()
        };
        let next: u128 = if more {
            if limit > 0 {
                rows[keep - 1].shard_id
            } else {
                pagination_params.effective_cursor()
            }
        } else {
            NIL
        };
        let ghost kept = page_of(rows.deep_view(), limit);
        let mut data: Vec<RelationTuple> = Vec::new();
        let mut i: usize = 0;
        while i < keep
            invariant
                i <= keep <= rows@.len(),
                kept == rows.deep_view().take(keep as int),
                forall|j: int|
                    0 <= j < rows@.len() ==> subject_exclusive(#[trigger] rows@[j].deep_view()),
                data@.len() == i,
                forall|j: int| 0 <= j < i ==> (#[trigger] data@[j]).deep_view() == tuple_of_row(kept[j]),
            decreases keep - i,
        {
            let row = rows[i].clone();
            data.push(RelationTuple::from(row));
            i = i + 1;
        }
        assert(data.deep_view() =~= kept.map_values(|r: RowModel| tuple_of_row(r)));
        PaginatedResponse { data, token: TokenPagination::encode_next_page_token(&next) }
    }

    /// The statement that tells whether any tuple matches the filter.
    pub fn exists_relation_tuples(&self, ctx: &RequestContext, rs_query: &RelationTupleQuery) -> (statement:
        Statement)
        ensures
            statement.deep_view() == exists_statement(ctx.nid(), rs_query.deep_view()),
    {
        let mut builder = Statement::new(SELECT_EXISTS);
        Self::with_network(&mut builder, ctx);
        Self::with_query_filters(&mut builder, rs_query);
        builder.push(")");
        assert(builder.deep_view() =~= exists_statement(ctx.nid(), rs_query.deep_view()));
        builder
    }

    /// The statements that delete the rows equal to any of `rs` under the
    /// request's tenant, to be run in order inside one transaction. No tuple,
    /// no statement.
    pub fn delete_relation_tuples(&self, ctx: &RequestContext, rs: &[RelationTuple]) -> (plan: Vec<
        Statement,
    >)
        ensures
            plan.deep_view() == delete_plan(ctx.nid(), rs.deep_view()),
    {
        let nid = ctx.network_id();
        let ghost rows = rows_of(nid, rs.deep_view(), Seq::new(rs@.len(), |i: int| NIL), 0);
        let n = rs.len();
        let mut plan: Vec<Statement> = Vec::new();
        let mut lo: usize = 0;
        while lo < n
            invariant
                n == rs@.len(),
                rows == rows_of(nid, rs.deep_view(), Seq::new(rs@.len(), |i: int| NIL), 0),
                lo <= n,
                lo < n ==> lo == 100 * plan@.len(),
                lo == n ==> plan@.len() == chunk_count(n as int, 100),
                forall|k: int|
                    0 <= k < plan@.len() ==> (#[trigger] plan@[k]).deep_view() == delete_statement(
                        chunk(rows, 100, k),
                    ),
            decreases n - lo,
        {
            let hi: usize = if n - lo > CHUNK_SIZE_DELETE_TUPLE {
                lo + CHUNK_SIZE_DELETE_TUPLE
            } else {
                n
            };
            let statement = Self::delete_chunk(nid, rs, lo, hi);
            assert(rows.subrange(lo as int, hi as int) == chunk(rows, 100, plan@.len() as int));
            plan.push(statement);
            lo = hi;
        }
        assert(plan.deep_view() =~= delete_plan(nid, rs.deep_view()));
        plan
    }

    /// The statement that deletes every tuple that matches the filter.
    pub fn delete_all_relation_tuples(&self, ctx: &RequestContext, rs_query: &RelationTupleQuery) -> (statement:
        Statement)
        ensures
            statement.deep_view() == delete_all_statement(ctx.nid(), rs_query.deep_view()),
    {
        let mut builder = Statement::new(DELETE_WHERE);
        Self::with_network(&mut builder, ctx);
        Self::with_query_filters(&mut builder, rs_query);
        assert(builder.deep_view() =~= delete_all_statement(ctx.nid(), rs_query.deep_view()));
        builder
    }
}

} // verus!
