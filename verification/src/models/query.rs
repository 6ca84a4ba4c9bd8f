//! What a caller asks for: a filter and a page.

use vstd::prelude::*;
use crate::ident::{format_hyphenated, hyphenated};
use crate::models::relation_tuple::{Subject, SubjectModel};

verus! {

/// Page size used where the caller names none.
pub const DEFAULT_PAGE_SIZE: i32 = 100;

/// Where to resume and how many items to return.
#[derive(Debug, PartialEq, Eq)]
pub struct TokenPagination {
    pub last_id: Option<u128>,
    pub page_size: Option<i32>,
}

impl TokenPagination {
    /// The page size in force.
    pub open spec fn limit(&self) -> i32 {
        match self.page_size {
            Some(n) => n,
            None => DEFAULT_PAGE_SIZE,
        }
    }

    /// The cursor in force: rows after it are wanted. Nil stands for the start.
    pub open spec fn cursor(&self) -> u128 {
        match self.last_id {
            Some(id) => id,
            None => 0,
        }
    }

    pub fn effective_page_size(&self) -> (n: i32)
        ensures
            n == self.limit(),
    {
        match self.page_size {
            Some(n) => n,
            None => DEFAULT_PAGE_SIZE,
        }
    }

    pub fn effective_cursor(&self) -> (id: u128)
        ensures
            id == self.cursor(),
    {
        match self.last_id {
            Some(id) => id,
            None => 0,
        }
    }

    /// The token that names `last_id` as the place to resume from.
    pub fn encode_next_page_token(last_id: &u128) -> (token: String)
        ensures
            token@ == hyphenated(*last_id),
    {
        format_hyphenated(*last_id)
    }
}

/// What a `RelationTupleQuery` stands for.
pub struct QueryModel {
    pub namespace: Option<Seq<char>>,
    pub object: Option<u128>,
    pub relation: Option<Seq<char>>,
    pub subject: Option<SubjectModel>,
}

/// A filter on tuples. An absent field restricts nothing.
#[derive(Debug, PartialEq, Eq)]
pub struct RelationTupleQuery {
    pub namespace: Option<String>,
    pub object: Option<u128>,
    pub relation: Option<String>,
    pub subject: Option<Subject>,
}

impl DeepView for RelationTupleQuery {
    type V = QueryModel;

    open spec fn deep_view(&self) -> QueryModel {
        QueryModel {
            namespace: self.namespace.deep_view(),
            object: self.object,
            relation: self.relation.deep_view(),
            subject: self.subject.deep_view(),
        }
    }
}

} // verus!
