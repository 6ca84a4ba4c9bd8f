//! The identifier mapping: names to identifiers by derivation, identifiers
//! back to names through a table.

use std::collections::HashMap;
use vstd::prelude::*;
use vstd::arithmetic::div_mod::lemma_fundamental_div_mod_converse;
use crate::context::RequestContext;
use crate::error::{HeimdallError, HeimdallResult};
use crate::ident::{derive_v5, uuid_v5};
use crate::models::query::TokenPagination;
use crate::persistance::schema::UuidMapping;
use crate::statement::{
    bind_texts, bind_uuids, chunk, chunk_count, sql, Bind, PartModel, Statement,
};

verus! {

broadcast use vstd::std_specs::hash::group_hash_axioms;

/// Most rows that one insert into the mapping table carries.
pub const CHUNK_SIZE_INSERT_UUID_MAPPINGS: usize = 15000;

/// Head of the insert of mappings; the two column arrays follow.
pub const INSERT_MAPPINGS: &'static str =
    "INSERT INTO heimdall_uuid_mappings (id, string_representation) SELECT * FROM UNNEST (";

/// End of the insert of mappings: a row whose identifier is taken is skipped.
pub const INSERT_MAPPINGS_TAIL: &'static str = "::VARCHAR[]) ON CONFLICT (id) DO NOTHING";

/// Head of a lookup; the array of identifiers and a closing bracket follow.
pub const SELECT_MAPPINGS: &'static str =
    "SELECT id, string_representation FROM heimdall_uuid_mappings WHERE id = ANY(";

/// The identifier of each name under the tenant `nid`, in the order of the
/// names.
pub open spec fn derived_ids(nid: u128, values: Seq<Seq<char>>) -> Seq<u128> {
    values.map_values(|s: Seq<char>| uuid_v5(nid, s))
}

/// The order of pairs: by the first part, then by the second.
pub open spec fn pair_le(a: (u128, usize), b: (u128, usize)) -> bool {
    a.0 < b.0 || (a.0 == b.0 && a.1 <= b.1)
}

/// Some pair holds `id`.
pub open spec fn holds_id(pairs: Seq<(u128, usize)>, id: u128) -> bool {
    exists|k: int| 0 <= k < pairs.len() && (#[trigger] pairs[k]).0 == id
}

/// Some pair holds `id` with the index `at`.
pub open spec fn holds_pair(pairs: Seq<(u128, usize)>, id: u128, at: int) -> bool {
    exists|k: int| 0 <= k < pairs.len() && (#[trigger] pairs[k]).0 == id && pairs[k].1 == at
}

/// `firsts` lists every identifier that occurs in `ids` once, ascending, each
/// with the index at which it occurs first.
pub open spec fn are_first_occurrences(firsts: Seq<(u128, usize)>, ids: Seq<u128>) -> bool {
    &&& forall|a: int, b: int|
        0 <= a < b < firsts.len() ==> (#[trigger] firsts[a]).0 < (#[trigger] firsts[b]).0
    &&& forall|k: int|
        0 <= k < firsts.len() ==> (#[trigger] firsts[k]).1 < ids.len() && ids[firsts[k].1 as int]
            == firsts[k].0
    &&& forall|k: int, j: int|
        0 <= k < firsts.len() && 0 <= j < firsts[k].1 ==> #[trigger] ids[j] != (
        #[trigger] firsts[k]).0
    &&& forall|i: int| 0 <= i < ids.len() ==> holds_id(firsts, #[trigger] ids[i])
}

/// The rows to persist: for each first occurrence the identifier and the name
/// that stands at that index.
pub open spec fn mappings_of(firsts: Seq<(u128, usize)>, values: Seq<Seq<char>>) -> Seq<
    (u128, Seq<char>),
> {
    Seq::new(firsts.len(), |k: int| (firsts[k].0, values[firsts[k].1 as int]))
}

/// One insert into the mapping table: two columns bound as arrays. A row
/// whose identifier is there already is left as it is.
pub open spec fn insert_mappings_statement(mappings: Seq<(u128, Seq<char>)>) -> Seq<PartModel> {
    seq![
        sql(INSERT_MAPPINGS@),
        bind_uuids(mappings.map_values(|m: (u128, Seq<char>)| m.0)),
        sql("::UUID[], "@),
        bind_texts(mappings.map_values(|m: (u128, Seq<char>)| m.1)),
        sql(INSERT_MAPPINGS_TAIL@),
    ]
}

/// The inserts that persist `mappings`: one for each chunk of at most 15000.
pub open spec fn persist_plan(mappings: Seq<(u128, Seq<char>)>) -> Seq<Seq<PartModel>> {
    Seq::new(
        chunk_count(mappings.len() as int, 15000) as nat,
        |k: int| insert_mappings_statement(chunk(mappings, 15000, k)),
    )
}

/// `statements` persist, for each identifier of `ids`, the name of `values`
/// that stands where the identifier occurs first, `firsts` listing those
/// places.
pub open spec fn persists_first_names(
    statements: Seq<Seq<PartModel>>,
    firsts: Seq<(u128, usize)>,
    ids: Seq<u128>,
    values: Seq<Seq<char>>,
) -> bool {
    &&& are_first_occurrences(firsts, ids)
    &&& statements == persist_plan(mappings_of(firsts, values))
}

/// `statements` look up every identifier of `ids` once, `firsts` listing
/// them, in chunks of `size`.
pub open spec fn looks_up_each_once(
    statements: Seq<Seq<PartModel>>,
    firsts: Seq<(u128, usize)>,
    ids: Seq<u128>,
    size: int,
) -> bool {
    &&& are_first_occurrences(firsts, ids)
    &&& statements == lookup_plan(firsts.map_values(|p: (u128, usize)| p.0), size)
}

/// One lookup: the rows whose identifier is any of `keys`.
pub open spec fn lookup_statement(keys: Seq<u128>) -> Seq<PartModel> {
    seq![sql(SELECT_MAPPINGS@), bind_uuids(keys), sql(")"@)]
}

/// How many identifiers one lookup carries: the page size, or, where that is
/// negative, as many as there are.
pub open spec fn lookup_chunk_size(limit: i32) -> int {
    if limit < 0 {
        usize::MAX as int
    } else {
        limit as int
    }
}

/// The lookups for `keys`, one for each chunk of `size`.
pub open spec fn lookup_plan(keys: Seq<u128>, size: int) -> Seq<Seq<PartModel>> {
    Seq::new(
        chunk_count(keys.len() as int, size) as nat,
        |k: int| lookup_statement(chunk(keys, size, k)),
    )
}

/// The name that the rows give for `id`: that of the last row which holds
/// `id`, or the empty text where no row does.
pub open spec fn looked_up(rows: Seq<(u128, Seq<char>)>, id: u128) -> Seq<char>
    decreases rows.len(),
{
    if rows.len() == 0 {
        Seq::empty()
    } else if rows.last().0 == id {
        rows.last().1
    } else {
        looked_up(rows.drop_last(), id)
    }
}

/// The names for `ids`, position by position.
pub open spec fn resolved(ids: Seq<u128>, rows: Seq<(u128, Seq<char>)>) -> Seq<Seq<char>> {
    Seq::new(ids.len(), |i: int| looked_up(rows, ids[i]))
}

/// Where no later row holds the identifier of row `k`, the rows give the
/// name of row `k` for it.
pub proof fn lemma_looked_up_last(rows: Seq<(u128, Seq<char>)>, k: int)
    requires
        0 <= k < rows.len(),
        forall|j: int| k < j < rows.len() ==> (#[trigger] rows[j]).0 != rows[k].0,
    ensures
        looked_up(rows, rows[k].0) == rows[k].1,
    decreases rows.len(),
{
    if k < rows.len() - 1 {
        let rest = rows.drop_last();
        assert(rest[k] == rows[k]);
        assert forall|j: int| k < j < rest.len() implies (#[trigger] rest[j]).0 != rest[k].0 by {
            assert(rest[j] == rows[j]);
        }
        lemma_looked_up_last(rest, k);
    }
}

/// Names that were mapped and persisted resolve back to themselves: where no
/// two names of `values` share an identifier, the persisted rows give, for
/// the identifier at each position, the name at that position.
pub proof fn lemma_mapping_round_trip(
    firsts: Seq<(u128, usize)>,
    ids: Seq<u128>,
    values: Seq<Seq<char>>,
)
    requires
        ids.len() == values.len(),
        are_first_occurrences(firsts, ids),
        forall|i: int, j: int|
            0 <= i < ids.len() && 0 <= j < ids.len() && #[trigger] ids[i] == #[trigger] ids[j]
                ==> values[i] == values[j],
    ensures
        resolved(ids, mappings_of(firsts, values)) == values,
{
    let rows = mappings_of(firsts, values);
    assert forall|i: int| 0 <= i < ids.len() implies looked_up(rows, #[trigger] ids[i])
        == values[i] by {
        assert(holds_id(firsts, ids[i]));
        let k = choose|k: int| 0 <= k < firsts.len() && (#[trigger] firsts[k]).0 == ids[i];
        assert forall|j: int| k < j < rows.len() implies (#[trigger] rows[j]).0 != rows[k].0 by {
            assert(firsts[k].0 < firsts[j].0);
        }
        lemma_looked_up_last(rows, k);
        let at = firsts[k].1 as int;
        assert(ids[at] == ids[i]);
    }
    assert(resolved(ids, rows) =~= values);
}

/// Calls `sort` of slices, on pairs of integers. Trusted: afterwards the
/// vector holds the same pairs as before, each as often, in ascending order,
/// a pair being ordered by its first part and then by its second.
#[verifier::external_body]
fn sort_pairs(pairs: &mut Vec<(u128, usize)>)
    ensures
        final(pairs)@.to_multiset() == old(pairs)@.to_multiset(),
        forall|i: int, j: int|
            0 <= i < j < final(pairs)@.len() ==> pair_le(
                #[trigger] final(pairs)@[i],
                #[trigger] final(pairs)@[j],
            ),
{
    pairs.sort();
}

/// What sorting keeps of the pairs of each identifier with its index.
proof fn lemma_sorted_entries(input: Seq<(u128, usize)>, sorted: Seq<(u128, usize)>, ids: Seq<u128>)
    requires
        input.len() == ids.len(),
        forall|j: int|
            0 <= j < input.len() ==> (#[trigger] input[j]).0 == ids[j] && input[j].1 == j,
        sorted.to_multiset() == input.to_multiset(),
    ensures
        sorted.len() == input.len(),
        forall|k: int|
            0 <= k < sorted.len() ==> (#[trigger] sorted[k]).1 < ids.len() && ids[sorted[k].1 as int]
                == sorted[k].0,
        forall|i: int| 0 <= i < ids.len() ==> holds_pair(sorted, #[trigger] ids[i], i),
{
    input.to_multiset_ensures();
    sorted.to_multiset_ensures();
    assert forall|k: int| 0 <= k < sorted.len() implies (#[trigger] sorted[k]).1 < ids.len()
        && ids[sorted[k].1 as int] == sorted[k].0 by {
        assert(sorted.contains(sorted[k]));
        assert(input.to_multiset().count(sorted[k]) > 0);
        assert(input.contains(sorted[k]));
        let j = choose|j: int| 0 <= j < input.len() && input[j] == sorted[k];
        assert(input[j].1 == j);
    }
    assert forall|i: int| 0 <= i < ids.len() implies holds_pair(sorted, #[trigger] ids[i], i) by {
        assert(input[i].1 == i);
        assert(input.contains(input[i]));
        assert(sorted.to_multiset().count(input[i]) > 0);
        assert(sorted.contains(input[i]));
        let p = choose|p: int| 0 <= p < sorted.len() && sorted[p] == input[i];
        assert(sorted[p].0 == ids[i] && sorted[p].1 == i);
    }
}

/// In the sorted pairs, the first of a run of one identifier holds the index
/// at which the identifier occurs first.
proof fn lemma_run_head_is_first(sorted: Seq<(u128, usize)>, ids: Seq<u128>, k: int)
    requires
        forall|i: int, j: int|
            0 <= i < j < sorted.len() ==> pair_le(#[trigger] sorted[i], #[trigger] sorted[j]),
        forall|i: int| 0 <= i < ids.len() ==> holds_pair(sorted, #[trigger] ids[i], i),
        0 <= k < sorted.len(),
        sorted[k].1 < ids.len(),
        k == 0 || sorted[k - 1].0 != sorted[k].0,
    ensures
        forall|j: int| 0 <= j < sorted[k].1 ==> #[trigger] ids[j] != sorted[k].0,
{
    assert forall|j: int| 0 <= j < sorted[k].1 implies #[trigger] ids[j] != sorted[k].0 by {
        if ids[j] == sorted[k].0 {
            assert(holds_pair(sorted, ids[j], j));
            let p = choose|p: int|
                0 <= p < sorted.len() && (#[trigger] sorted[p]).0 == ids[j] && sorted[p].1 == j;
            if p > k {
                assert(pair_le(sorted[k], sorted[p]));
            } else if p < k {
                if p < k - 1 {
                    assert(pair_le(sorted[p], sorted[k - 1]));
                }
                assert(pair_le(sorted[k - 1], sorted[k]));
            }
            assert(false);
        }
    }
}

/// The mapper. It holds no state.
#[derive(Debug, PartialEq, Eq)]
pub struct UuidMappingService {}

/// What `map_strings_to_uuids` decides: the identifiers to return, and the
/// statements that persist the mappings.
#[derive(Debug, PartialEq, Eq)]
pub struct MappingPlan {
    pub ids: Vec<u128>,
    pub statements: Vec<Statement>,
}

impl UuidMappingService {
    pub fn new() -> Self {
        Self {  }
    }

    /// Every identifier of `ids` once, ascending, each with the index at
    /// which it occurs first.
    pub fn first_occurrences(ids: &[u128]) -> (firsts: Vec<(u128, usize)>)
        ensures
            are_first_occurrences(firsts@, ids@),
    {
        let mut pairs: Vec<(u128, usize)> = Vec::new();
        let mut i: usize = 0;
        while i < ids.len()
            invariant
                i <= ids@.len(),
                pairs@.len() == i,
                forall|j: int|
                    0 <= j < i ==> (#[trigger] pairs@[j]).0 == ids@[j] && pairs@[j].1 == j,
            decreases ids@.len() - i,
        {
            pairs.push((ids[i], i));
            i = i + 1;
        }
        let ghost input = pairs@;
        sort_pairs(&mut pairs);
        let ghost sorted = pairs@;
        proof {
            lemma_sorted_entries(input, sorted, ids@);
        }
        let mut firsts: Vec<(u128, usize)> = Vec::new();
        let mut k: usize = 0;
        while k < pairs.len()
            invariant
                k <= pairs@.len(),
                sorted == pairs@,
                sorted.len() == ids@.len(),
                forall|i: int, j: int|
                    0 <= i < j < sorted.len() ==> pair_le(#[trigger] sorted[i], #[trigger] sorted[j]),
                forall|i: int| 0 <= i < ids@.len() ==> holds_pair(sorted, #[trigger] ids@[i], i),
                forall|q: int|
                    0 <= q < sorted.len() ==> (#[trigger] sorted[q]).1 < ids@.len() && ids@[sorted[q].1 as int]
                        == sorted[q].0,
                forall|a: int, b: int|
                    0 <= a < b < firsts@.len() ==> (#[trigger] firsts@[a]).0 < (#[trigger] firsts@[b]).0,
                forall|m: int|
                    0 <= m < firsts@.len() ==> (#[trigger] firsts@[m]).1 < ids@.len() && ids@[firsts@[m].1 as int]
                        == firsts@[m].0,
                forall|m: int, j: int|
                    0 <= m < firsts@.len() && 0 <= j < firsts@[m].1 ==> #[trigger] ids@[j] != (
                    #[trigger] firsts@[m]).0,
                k > 0 ==> firsts@.len() > 0 && firsts@.last().0 == sorted[k - 1].0,
                k == 0 ==> firsts@.len() == 0,
                forall|q: int| 0 <= q < k ==> holds_id(firsts@, (#[trigger] sorted[q]).0),
            decreases pairs@.len() - k,
        {
            let entry = pairs[k];
            let ghost kept = firsts@;
            if k == 0 || pairs[k - 1].0 != entry.0 {
                proof {
                    lemma_run_head_is_first(sorted, ids@, k as int);
                    if k > 0 {
                        assert(pair_le(sorted[k - 1], sorted[k as int]));
                    }
                }
                firsts.push(entry);
                proof {
                    assert forall|a: int, b: int| 0 <= a < b < firsts@.len() implies (
                    #[trigger] firsts@[a]).0 < (#[trigger] firsts@[b]).0 by {
                        if b == kept.len() {
                            assert(firsts@[a] == kept[a]);
                            assert(kept[a].0 <= kept.last().0);
                        } else {
                            assert(firsts@[a] == kept[a] && firsts@[b] == kept[b]);
                        }
                    }
                    assert forall|m: int, j: int|
                        0 <= m < firsts@.len() && 0 <= j < firsts@[m].1 implies #[trigger] ids@[j] != (
                    #[trigger] firsts@[m]).0 by {
                        if m < kept.len() {
                            assert(firsts@[m] == kept[m]);
                        }
                    }
                    assert(firsts@[kept.len() as int].0 == sorted[k as int].0);
                }
            } else {
                proof {
                    assert(firsts@.last().0 == sorted[k as int].0);
                }
            }
            proof {
                assert forall|q: int| 0 <= q < k + 1 implies holds_id(
                    firsts@,
                    (#[trigger] sorted[q]).0,
                ) by {
                    if q < k {
                        assert(holds_id(kept, sorted[q].0));
                        let m = choose|m: int| 0 <= m < kept.len() && (#[trigger] kept[m]).0 == sorted[q].0;
                        assert(firsts@[m] == kept[m]);
                    }
                }
            }
            k = k + 1;
        }
        proof {
            assert forall|i: int| 0 <= i < ids@.len() implies holds_id(firsts@, #[trigger] ids@[i]) by {
                assert(holds_pair(sorted, ids@[i], i));
                let q = choose|q: int|
                    0 <= q < sorted.len() && (#[trigger] sorted[q]).0 == ids@[i] && sorted[q].1 == i;
                assert(holds_id(firsts@, sorted[q].0));
            }
        }
        firsts
    }

    /// The identifier of each name under the request's tenant, in the order
    /// of the names. Nothing is persisted.
    pub fn map_strings_to_uuids_readonly(&self, ctx: &RequestContext, values: &[String]) -> (result:
        HeimdallResult<Vec<u128>>)
        ensures
            result is Ok,
            result->Ok_0@ == derived_ids(ctx.nid(), values.deep_view()),
    {
        let nid = ctx.network_id();
        let mut ids: Vec<u128> = Vec::new();
        let mut i: usize = 0;
        while i < values.len()
            invariant
                i <= values@.len(),
                nid == ctx.nid(),
                ids@.len() == i,
                forall|j: int| 0 <= j < i ==> #[trigger] ids@[j] == uuid_v5(nid, values@[j]@),
            decreases values@.len() - i,
        {
            ids.push(derive_v5(nid, values[i].as_str()));
            i = i + 1;
        }
        assert(ids@ =~= derived_ids(ctx.nid(), values.deep_view()));
        Ok(ids)
    }

    /// One insert for the mappings `values[lo..hi]`.
    pub fn insert_uuids(values: &Vec<UuidMapping>, lo: usize, hi: usize) -> (statement: Statement)
        requires
            lo <= hi <= values@.len(),
        ensures
            statement.deep_view() == insert_mappings_statement(
                values.deep_view().subrange(lo as int, hi as int),
            ),
    {
        let ghost rows = values.deep_view().subrange(lo as int, hi as int);
        let mut ids: Vec<u128> = Vec::new();
        let mut string_reps: Vec<String> = Vec::new();
        let mut i: usize = lo;
        while i < hi
            invariant
                lo <= i <= hi <= values@.len(),
                ids@.len() == i - lo,
                string_reps@.len() == i - lo,
                forall|j: int| 0 <= j < i - lo ==> #[trigger] ids@[j] == values@[lo + j].id,
                forall|j: int|
                    0 <= j < i - lo ==> (#[trigger] string_reps@[j])@ == values@[lo
                        + j].string_representation@,
            decreases hi - i,
        {
            ids.push(values[i].id);
            string_reps.push(values[i].string_representation.clone());
            i = i + 1;
        }
        proof {
            assert(ids@ =~= rows.map_values(|m: (u128, Seq<char>)| m.0));
            assert(string_reps.deep_view() =~= rows.map_values(|m: (u128, Seq<char>)| m.1));
        }
        let mut statement = Statement::new(INSERT_MAPPINGS);
        statement.push_bind(Bind::UuidArray(ids));
        statement.push("::UUID[], ");
        statement.push_bind(Bind::TextArray(string_reps));
        statement.push(INSERT_MAPPINGS_TAIL);
        assert(statement.deep_view() =~= insert_mappings_statement(rows));
        statement
    }

    /// The inserts that persist `mappings`, in chunks of at most 15000.
    pub fn plan_inserts(mappings: &Vec<UuidMapping>) -> (plan: Vec<Statement>)
        ensures
            plan.deep_view() == persist_plan(mappings.deep_view()),
    {
        let ghost rows = mappings.deep_view();
        let n = mappings.len();
        let mut plan: Vec<Statement> = Vec::new();
        let mut lo: usize = 0;
        while lo < n
            invariant
                n == mappings@.len(),
                rows == mappings.deep_view(),
                lo <= n,
                lo < n ==> lo == 15000 * plan@.len(),
                lo == n ==> plan@.len() == chunk_count(n as int, 15000),
                forall|k: int|
                    0 <= k < plan@.len() ==> (#[trigger] plan@[k]).deep_view()
                        == insert_mappings_statement(chunk(rows, 15000, k)),
            decreases n - lo,
        {
            let hi: usize = if n - lo > CHUNK_SIZE_INSERT_UUID_MAPPINGS {
                lo + CHUNK_SIZE_INSERT_UUID_MAPPINGS
            } else {
                n
            };
            let statement = Self::insert_uuids(mappings, lo, hi);
            assert(rows.subrange(lo as int, hi as int) == chunk(rows, 15000, plan@.len() as int));
            plan.push(statement);
            lo = hi;
        }
        assert(plan.deep_view() =~= persist_plan(mappings.deep_view()));
        plan
    }

    /// The identifier of each name, in the order of the names, and the
    /// statements that persist the mappings: every identifier once,
    /// ascending, with the name that gave it first.
    pub fn map_strings_to_uuids(&self, ctx: &RequestContext, values: &[String]) -> (plan: MappingPlan)
        ensures
            plan.ids@ == derived_ids(ctx.nid(), values.deep_view()),
            exists|firsts: Seq<(u128, usize)>|
                #[trigger] persists_first_names(
                    plan.statements.deep_view(),
                    firsts,
                    plan.ids@,
                    values.deep_view(),
                ),
    {
        let ids = match self.map_strings_to_uuids_readonly(ctx, values) {
            Ok(ids) => ids,
            Err(_) => Vec::new(),
        };
        let firsts = Self::first_occurrences(ids.as_slice());
        let mut mappings: Vec<UuidMapping> = Vec::new();
        let mut k: usize = 0;
        while k < firsts.len()
            invariant
                k <= firsts@.len(),
                ids@.len() == values@.len(),
                are_first_occurrences(firsts@, ids@),
                mappings@.len() == k,
                forall|m: int|
                    0 <= m < k ==> (#[trigger] mappings@[m]).deep_view() == (
                        firsts@[m].0,
                        values@[firsts@[m].1 as int]@,
                    ),
            decreases firsts@.len() - k,
        {
            let (id, at) = firsts[k];
            assert(firsts@[k as int].1 < ids@.len());
            mappings.push(UuidMapping { id, string_representation: values[at].clone() });
            k = k + 1;
        }
        assert(mappings.deep_view() =~= mappings_of(firsts@, values.deep_view()));
        let statements = Self::plan_inserts(&mappings);
        let plan = MappingPlan { ids, statements };
        assert(persists_first_names(
            plan.statements.deep_view(),
            firsts@,
            plan.ids@,
            values.deep_view(),
        ));
        plan
    }

    /// The lookups that fetch the names of `ids`: every identifier once,
    /// ascending, in chunks of the page size. A page size of zero cannot
    /// carry any identifier and is refused, unless there is none to carry.
    pub fn map_uuids_to_strings(
        &self,
        _ctx: &RequestContext,
        ids: &[u128],
        pagination_params: &TokenPagination,
    ) -> (result: HeimdallResult<Vec<Statement>>)
        ensures
            result is Err <==> ids@.len() > 0 && pagination_params.limit() == 0,
            result is Err ==> result->Err_0 is MalformedInput,
            result is Ok ==> exists|firsts: Seq<(u128, usize)>|
                #[trigger] looks_up_each_once(
                    result->Ok_0.deep_view(),
                    firsts,
                    ids@,
                    lookup_chunk_size(pagination_params.limit()),
                ),
    {
        let limit: i32 = pagination_params.effective_page_size();
        if ids.len() > 0 && limit == 0 {
            return Err(HeimdallError::MalformedInput);
        }
        let size: usize = if limit < 0 {
            usize::MAX
        } else {
            limit as usize
        };
        let firsts = Self::first_occurrences(ids);
        let mut keys: Vec<u128> = Vec::new();
        let mut i: usize = 0;
        while i < firsts.len()
            invariant
                i <= firsts@.len(),
                keys@.len() == i,
                forall|j: int| 0 <= j < i ==> #[trigger] keys@[j] == firsts@[j].0,
            decreases firsts@.len() - i,
        {
            keys.push(firsts[i].0);
            i = i + 1;
        }
        assert(keys@ =~= firsts@.map_values(|p: (u128, usize)| p.0));
        let n = keys.len();
        let mut plan: Vec<Statement> = Vec::new();
        if n == 0 {
            assert(plan.deep_view() =~= lookup_plan(keys@, size as int));
            let result: HeimdallResult<Vec<Statement>> = Ok(plan);
            assert(looks_up_each_once(
                result->Ok_0.deep_view(),
                firsts@,
                ids@,
                lookup_chunk_size(pagination_params.limit()),
            ));
            return result;
        }
        assert(firsts@[0].1 < ids@.len());
        let mut lo: usize = 0;
        while lo < n
            invariant
                n == keys@.len(),
                size > 0,
                lo <= n,
                lo < n ==> lo == plan@.len() * size,
                lo == n ==> plan@.len() == chunk_count(n as int, size as int),
                forall|k: int|
                    0 <= k < plan@.len() ==> (#[trigger] plan@[k]).deep_view() == lookup_statement(
                        chunk(keys@, size as int, k),
                    ),
            decreases n - lo,
        {
            let hi: usize = if n - lo > size {
                lo + size
            } else {
                n
            };
            let ghost k = plan@.len() as int;
            proof {
                let d = size as int;
                let q = k + 1;
                assert(q * d == k * d + d) by (nonlinear_arith)
                    requires
                        q == k + 1,
                ;
                assert(q * d == lo + d);
                if hi == n {
                    let r = n + d - 1 - q * d;
                    lemma_fundamental_div_mod_converse(n + d - 1, d, q, r);
                }
            }
            let mut chunk_keys: Vec<u128> = Vec::new();
            let mut j: usize = lo;
            while j < hi
                invariant
                    lo <= j <= hi <= keys@.len(),
                    chunk_keys@.len() == j - lo,
                    forall|m: int| 0 <= m < j - lo ==> #[trigger] chunk_keys@[m] == keys@[lo + m],
                decreases hi - j,
            {
                chunk_keys.push(keys[j]);
                j = j + 1;
            }
            assert(chunk_keys@ =~= chunk(keys@, size as int, k));
            let mut statement = Statement::new(SELECT_MAPPINGS);
            statement.push_bind(Bind::UuidArray(chunk_keys));
            statement.push(")");
            assert(statement.deep_view() =~= lookup_statement(chunk(keys@, size as int, k)));
            plan.push(statement);
            lo = hi;
        }
        assert(plan.deep_view() =~= lookup_plan(keys@, size as int));
        let result: HeimdallResult<Vec<Statement>> = Ok(plan);
        assert(looks_up_each_once(
            result->Ok_0.deep_view(),
            firsts@,
            ids@,
            lookup_chunk_size(pagination_params.limit()),
        ));
        result
    }

    /// The names for `ids`, position by position, out of the rows that the
    /// lookups returned: the name of the row that holds the identifier (of the
    /// last such row, if there are several), the empty text where none does.
    pub fn batch_from_uuids(ids: &[u128], rows: &Vec<UuidMapping>) -> (results: Vec<String>)
        ensures
            results@.len() == ids@.len(),
            results.deep_view() == resolved(ids@, rows.deep_view()),
    {
        let ghost all = rows.deep_view();
        let mut names: HashMap<u128, String> = HashMap::new();
        let mut k: usize = 0;
        while k < rows.len()
            invariant
                k <= rows@.len(),
                all == rows.deep_view(),
                forall|id: u128|
                    #[trigger] looked_up(all.take(k as int), id) == (if names@.contains_key(id) {
                        names@[id]@
                    } else {
                        Seq::empty()
                    }),
            decreases rows@.len() - k,
        {
            let ghost before = names@;
            let row = &rows[k];
            names.insert(row.id, row.string_representation.clone());
            proof {
                let next = all.take(k + 1);
                assert(next.drop_last() =~= all.take(k as int));
                assert(next.last() == (row.id, row.string_representation@));
                assert forall|id: u128|
                    #[trigger] looked_up(next, id) == (if names@.contains_key(id) {
                        names@[id]@
                    } else {
                        Seq::empty()
                    }) by {
                    if id != row.id {
                        assert(looked_up(next, id) == looked_up(all.take(k as int), id));
                        assert(names@.contains_key(id) == before.contains_key(id));
                    }
                }
            }
            k = k + 1;
        }
        assert(all.take(k as int) =~= all);
        let mut results: Vec<String> = Vec::new();
        let mut i: usize = 0;
        while i < ids.len()
            invariant
                i <= ids@.len(),
                results@.len() == i,
                forall|id: u128|
                    #[trigger] looked_up(all, id) == (if names@.contains_key(id) {
                        names@[id]@
                    } else {
                        Seq::empty()
                    }),
                forall|j: int| 0 <= j < i ==> (#[trigger] results@[j])@ == looked_up(all, ids@[j]),
            decreases ids@.len() - i,
        {
            let id: u128 = ids[i];
            let name = match names.get(&id) {
                Some(text) => text.clone(),
                None => String::new(),
            };
            assert(name@ == looked_up(all, id));
            results.push(name);
            i = i + 1;
        }
        assert(results.deep_view() =~= resolved(ids@, rows.deep_view()));
        results
    }
}

} // verus!
