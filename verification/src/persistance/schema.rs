//! Row shapes of the two tables and of the traversal query.

use vstd::prelude::*;
use crate::models::relation_tuple::{RelationTuple as Tuple, Subject, SubjectModel, TupleModel};

verus! {

/// What a stored tuple row stands for.
pub struct RowModel {
    pub shard_id: u128,
    pub nid: u128,
    pub namespace: Seq<char>,
    pub object: u128,
    pub relation: Seq<char>,
    pub subject_id: Option<u128>,
    pub subject_set_namespace: Option<Seq<char>>,
    pub subject_set_object: Option<u128>,
    pub subject_set_relation: Option<Seq<char>>,
    pub commit_time: i64,
}

/// A row of the tuple table. `commit_time` counts microseconds since the Unix
/// epoch, in UTC.
#[derive(Debug, PartialEq, Eq)]
pub struct RelationTuple {
    pub shard_id: u128,
    pub nid: u128,
    pub namespace: String,
    pub object: u128,
    pub relation: String,
    pub subject_id: Option<u128>,
    pub subject_set_namespace: Option<String>,
    pub subject_set_object: Option<u128>,
    pub subject_set_relation: Option<String>,
    pub commit_time: i64,
}

impl DeepView for RelationTuple {
    type V = RowModel;

    open spec fn deep_view(&self) -> RowModel {
        RowModel {
            shard_id: self.shard_id,
            nid: self.nid,
            namespace: self.namespace@,
            object: self.object,
            relation: self.relation@,
            subject_id: self.subject_id,
            subject_set_namespace: self.subject_set_namespace.deep_view(),
            subject_set_object: self.subject_set_object,
            subject_set_relation: self.subject_set_relation.deep_view(),
            commit_time: self.commit_time,
        }
    }
}

/// Exactly one encoding of the subject is filled: the direct column alone, or
/// the three set columns alone.
pub open spec fn subject_exclusive(row: RowModel) -> bool {
    if row.subject_id is Some {
        row.subject_set_namespace is None && row.subject_set_object is None
            && row.subject_set_relation is None
    } else {
        row.subject_set_namespace is Some && row.subject_set_object is Some
            && row.subject_set_relation is Some
    }
}

/// The row that holds `tuple` for tenant `nid`.
pub open spec fn row_of_tuple(shard_id: u128, nid: u128, tuple: TupleModel, commit_time: i64) -> RowModel {
    RowModel {
        shard_id,
        nid,
        namespace: tuple.namespace,
        object: tuple.object,
        relation: tuple.relation,
        subject_id: match tuple.subject {
            SubjectModel::Direct(id) => Some(id),
            SubjectModel::Indirect(_) => None,
        },
        subject_set_namespace: match tuple.subject {
            SubjectModel::Direct(_) => None,
            SubjectModel::Indirect(set) => Some(set.namespace),
        },
        subject_set_object: match tuple.subject {
            SubjectModel::Direct(_) => None,
            SubjectModel::Indirect(set) => Some(set.object),
        },
        subject_set_relation: match tuple.subject {
            SubjectModel::Direct(_) => None,
            SubjectModel::Indirect(set) => Some(set.relation),
        },
        commit_time,
    }
}

impl Clone for RelationTuple {
    fn clone(&self) -> (copy: Self)
        ensures
            copy.deep_view() == self.deep_view(),
    {
        let subject_set_namespace = match &self.subject_set_namespace {
            Some(text) => Some(text.clone()),
            None => None,
        };
        let subject_set_relation = match &self.subject_set_relation {
            Some(text) => Some(text.clone()),
            None => None,
        };
        RelationTuple {
            shard_id: self.shard_id,
            nid: self.nid,
            namespace: self.namespace.clone(),
            object: self.object,
            relation: self.relation.clone(),
            subject_id: self.subject_id,
            subject_set_namespace,
            subject_set_object: self.subject_set_object,
            subject_set_relation,
            commit_time: self.commit_time,
        }
    }
}

impl RelationTuple {
    /// Whether the row fills exactly one encoding of the subject.
    pub fn is_subject_exclusive(&self) -> (ok: bool)
        ensures
            ok == subject_exclusive(self.deep_view()),
    {
        if self.subject_id.is_some() {
            self.subject_set_namespace.is_none() && self.subject_set_object.is_none()
                && self.subject_set_relation.is_none()
        } else {
            self.subject_set_namespace.is_some() && self.subject_set_object.is_some()
                && self.subject_set_relation.is_some()
        }
    }

    /// Lays `tuple` out as a row of tenant `nid`.
    pub fn encode(shard_id: u128, nid: u128, tuple: &Tuple, commit_time: i64) -> (row: Self)
        ensures
            row.deep_view() == row_of_tuple(shard_id, nid, tuple.deep_view(), commit_time),
            subject_exclusive(row.deep_view()),
    {
        let (subject_id, subject_set_namespace, subject_set_object, subject_set_relation) =
            match &tuple.subject {
            Subject::Direct(direct) => (Some(direct.id), None, None, None),
            Subject::Indirect(set) => (
                None,
                Some(set.namespace.clone()),
                Some(set.object),
                Some(set.relation.clone()),
            ),
        };
        RelationTuple {
            shard_id,
            nid,
            namespace: tuple.namespace.clone(),
            object: tuple.object,
            relation: tuple.relation.clone(),
            subject_id,
            subject_set_namespace,
            subject_set_object,
            subject_set_relation,
            commit_time,
        }
    }
}

/// A row of the traversal query: one set-valued edge, and whether the tuple
/// that ends the search exists behind it.
#[derive(Debug, PartialEq, Eq)]
pub struct SubjectExapandedRelationTupleRow {
    pub shard_id: u128,
    pub subject_set_namespace: String,
    pub subject_set_object: u128,
    pub subject_set_relation: String,
    pub found: bool,
}

/// What a row of the traversal query stands for.
pub struct EdgeModel {
    pub shard_id: u128,
    pub subject_set_namespace: Seq<char>,
    pub subject_set_object: u128,
    pub subject_set_relation: Seq<char>,
    pub found: bool,
}

impl DeepView for SubjectExapandedRelationTupleRow {
    type V = EdgeModel;

    open spec fn deep_view(&self) -> EdgeModel {
        EdgeModel {
            shard_id: self.shard_id,
            subject_set_namespace: self.subject_set_namespace@,
            subject_set_object: self.subject_set_object,
            subject_set_relation: self.subject_set_relation@,
            found: self.found,
        }
    }
}

/// A row of the mapping table.
#[derive(Debug, PartialEq, Eq)]
pub struct UuidMapping {
    pub id: u128,
    pub string_representation: String,
}

impl DeepView for UuidMapping {
    type V = (u128, Seq<char>);

    open spec fn deep_view(&self) -> (u128, Seq<char>) {
        (self.id, self.string_representation@)
    }
}

/// Storing a tuple and reading the row back gives the tuple, and every row
/// laid out from a tuple fills exactly one encoding of the subject.
pub proof fn lemma_row_round_trip(shard_id: u128, nid: u128, tuple: TupleModel, commit_time: i64)
    ensures
        subject_exclusive(row_of_tuple(shard_id, nid, tuple, commit_time)),
        crate::models::relation_tuple::tuple_of_row(row_of_tuple(shard_id, nid, tuple, commit_time))
            == tuple,
        row_of_tuple(shard_id, nid, tuple, commit_time).nid == nid,
{
}

} // verus!
