//! Results of a walk over the relation graph.

use vstd::prelude::*;
use crate::models::relation_tuple::{RelationTuple, TupleModel};

verus! {

/// The kind of edge that led from one tuple to the next.
#[derive(Debug, Clone, Copy, PartialEq, Eq, Structural)]
pub enum Traversal {
    Unknown,
    SubjectSetExpand,
    ComputedUserset,
    TupleToUserset,
}

/// The name of each kind of edge, one line with its line feed.
pub open spec fn edge_name(via: Traversal) -> Seq<char> {
    match via {
        Traversal::Unknown => "unknown\n"@,
        Traversal::SubjectSetExpand => "subject set expand\n"@,
        Traversal::ComputedUserset => "computed userset\n"@,
        Traversal::TupleToUserset => "tuple to userset\n"@,
    }
}

impl Traversal {
    /// The text shown for this kind of edge.
    pub fn name(&self) -> (text: String)
        ensures
            text@ == edge_name(*self),
    {
        match self {
            Traversal::Unknown => "unknown\n".to_owned(),
            Traversal::SubjectSetExpand => "subject set expand\n".to_owned(),
            Traversal::ComputedUserset => "computed userset\n".to_owned(),
            Traversal::TupleToUserset => "tuple to userset\n".to_owned(),
        }
    }
}

/// What a `TraversalResult` stands for.
pub struct StepModel {
    pub from: TupleModel,
    pub to: TupleModel,
    pub via: Traversal,
    pub found: bool,
}

/// One explored edge: from where, to where, how, and whether the tuple that
/// ends the search was found behind it.
#[derive(Debug, PartialEq, Eq)]
pub struct TraversalResult {
    pub from: RelationTuple,
    pub to: RelationTuple,
    pub via: Traversal,
    pub found: bool,
}

impl DeepView for TraversalResult {
    type V = StepModel;

    open spec fn deep_view(&self) -> StepModel {
        StepModel {
            from: self.from.deep_view(),
            to: self.to.deep_view(),
            via: self.via,
            found: self.found,
        }
    }
}

} // verus!
