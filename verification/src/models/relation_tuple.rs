//! Relation tuples and their subjects.

use vstd::prelude::*;
use crate::ident::{derive_v5, format_hyphenated, hyphenated, uuid_v5};
use crate::persistance::schema;
use vstd::string::StringExecFns;

verus! {

/// What a `SubjectSet` stands for.
pub struct SubjectSetModel {
    pub namespace: Seq<char>,
    pub object: u128,
    pub relation: Seq<char>,
}

/// What a `Subject` stands for: a direct principal or a set.
pub enum SubjectModel {
    Direct(u128),
    Indirect(SubjectSetModel),
}

/// What a `RelationTuple` stands for: `namespace:object#relation@subject`.
pub struct TupleModel {
    pub namespace: Seq<char>,
    pub object: u128,
    pub relation: Seq<char>,
    pub subject: SubjectModel,
}

/// A direct principal.
#[derive(Debug, PartialEq, Eq)]
pub struct SubjectID {
    pub id: u128,
}

/// The subjects that hold `relation` on `object` in `namespace`.
#[derive(Debug, PartialEq, Eq)]
pub struct SubjectSet {
    pub namespace: String,
    pub object: u128,
    pub relation: String,
}

#[derive(Debug, PartialEq, Eq)]
pub enum Subject {
    Direct(SubjectID),
    Indirect(SubjectSet),
}

#[derive(Debug, PartialEq, Eq)]
pub struct RelationTuple {
    pub namespace: String,
    pub object: u128,
    pub relation: String,
    pub subject: Subject,
}

impl DeepView for SubjectID {
    type V = u128;

    open spec fn deep_view(&self) -> u128 {
        self.id
    }
}

impl DeepView for SubjectSet {
    type V = SubjectSetModel;

    open spec fn deep_view(&self) -> SubjectSetModel {
        SubjectSetModel {
            namespace: self.namespace@,
            object: self.object,
            relation: self.relation@,
        }
    }
}

impl DeepView for Subject {
    type V = SubjectModel;

    open spec fn deep_view(&self) -> SubjectModel {
        match self {
            Subject::Direct(direct) => SubjectModel::Direct(direct.id),
            Subject::Indirect(set) => SubjectModel::Indirect(set.deep_view()),
        }
    }
}

impl DeepView for RelationTuple {
    type V = TupleModel;

    open spec fn deep_view(&self) -> TupleModel {
        TupleModel {
            namespace: self.namespace@,
            object: self.object,
            relation: self.relation@,
            subject: self.subject.deep_view(),
        }
    }
}

/// The text of a subject set: `namespace:object#relation`, the object
/// hyphenated, and a line feed.
pub open spec fn set_text(set: SubjectSetModel) -> Seq<char> {
    set.namespace + seq![':'] + hyphenated(set.object) + seq!['#'] + set.relation + seq!['\n']
}

/// The name under which a subject set is hashed: namespace, a hyphen, relation.
pub open spec fn set_name(set: SubjectSetModel) -> Seq<char> {
    set.namespace + seq!['-'] + set.relation
}

impl Clone for SubjectID {
    fn clone(&self) -> (copy: Self)
        ensures
            copy == *self,
    {
        SubjectID { id: self.id }
    }
}

impl SubjectID {
    pub fn new(id: u128) -> (subject: Self)
        ensures
            subject.id == id,
    {
        Self { id }
    }

    pub fn unique_id(&self) -> (id: u128)
        ensures
            id == self.id,
    {
        self.id
    }

    /// The text of the subject: its identifier, hyphenated.
    pub fn text(&self) -> (text: String)
        ensures
            text@ == hyphenated(self.id),
    {
        format_hyphenated(self.id)
    }

    /// Whether `other` is the same direct principal.
    pub fn equals(&self, other: Subject) -> (same: bool)
        ensures
            same == (other.deep_view() == SubjectModel::Direct(self.id)),
    {
        match other {
            Subject::Indirect(_) => false,
            Subject::Direct(SubjectID { id }) => self.id == id,
        }
    }
}

impl Clone for SubjectSet {
    fn clone(&self) -> (copy: Self)
        ensures
            copy == *self,
    {
        SubjectSet {
            namespace: self.namespace.clone(),
            object: self.object,
            relation: self.relation.clone(),
        }
    }
}

impl SubjectSet {
    pub fn new(namespace: String, object: u128, relation: String) -> (set: Self)
        ensures
            set.namespace == namespace,
            set.object == object,
            set.relation == relation,
    {
        Self { namespace, object, relation }
    }

    /// An identifier of the set: the name-based identifier, under the object,
    /// of the namespace and the relation joined by a hyphen.
    pub fn unique_id(&self) -> (id: u128)
        ensures
            id == uuid_v5(self.object, set_name(self.deep_view())),
    {
        let name = self.namespace.clone().concat("-").concat(self.relation.as_str());
        proof {
            reveal_strlit("-");
            assert("-"@ =~= seq!['-']);
        }
        derive_v5(self.object, name.as_str())
    }

    /// The text of the set.
    pub fn text(&self) -> (text: String)
        ensures
            text@ == set_text(self.deep_view()),
    {
        let object = format_hyphenated(self.object);
        proof {
            reveal_strlit(":");
            reveal_strlit("#");
            reveal_strlit("\n");
            assert(":"@ =~= seq![':']);
            assert("#"@ =~= seq!['#']);
            assert("\n"@ =~= seq!['\n']);
        }
        self.namespace.clone().concat(":").concat(object.as_str()).concat("#").concat(
            self.relation.as_str(),
        ).concat("\n")
    }

    /// Whether `other` is the same set: namespace, object and relation agree.
    pub fn equals(&self, other: Subject) -> (same: bool)
        ensures
            same == (other.deep_view() == SubjectModel::Indirect(self.deep_view())),
    {
        match other {
            Subject::Direct(_) => false,
            Subject::Indirect(SubjectSet { namespace, object, relation }) => {
                self.namespace == namespace && self.object == object && self.relation == relation
            },
        }
    }
}

impl Clone for Subject {
    fn clone(&self) -> (copy: Self)
        ensures
            copy == *self,
    {
        match self {
            Subject::Direct(direct) => Subject::Direct(direct.clone()),
            Subject::Indirect(set) => Subject::Indirect(set.clone()),
        }
    }
}

impl Clone for RelationTuple {
    fn clone(&self) -> (copy: Self)
        ensures
            copy == *self,
    {
        RelationTuple {
            namespace: self.namespace.clone(),
            object: self.object,
            relation: self.relation.clone(),
            subject: self.subject.clone(),
        }
    }
}

/// The tuple that a stored row holds. The subject is told from which of the
/// subject columns are filled.
pub open spec fn tuple_of_row(row: schema::RowModel) -> TupleModel {
    TupleModel {
        namespace: row.namespace,
        object: row.object,
        relation: row.relation,
        subject: match row.subject_id {
            Some(id) => SubjectModel::Direct(id),
            None => SubjectModel::Indirect(
                SubjectSetModel {
                    namespace: row.subject_set_namespace.unwrap(),
                    object: row.subject_set_object.unwrap(),
                    relation: row.subject_set_relation.unwrap(),
                },
            ),
        },
    }
}

impl RelationTuple {
    /// Rebuilds the tuple from a stored row.
    pub fn from(value: schema::RelationTuple) -> (tuple: Self)
        requires
            schema::subject_exclusive(value.deep_view()),
        ensures
            tuple.deep_view() == tuple_of_row(value.deep_view()),
    {
        let subject = match value.subject_id {
            Some(id) => Subject::Direct(SubjectID { id }),
            None => Subject::Indirect(
                SubjectSet {
                    namespace: value.subject_set_namespace.unwrap(),
                    object: value.subject_set_object.unwrap(),
                    relation: value.subject_set_relation.unwrap(),
                },
            ),
        };
        Self { namespace: value.namespace, object: value.object, relation: value.relation, subject }
    }
}

} // verus!
