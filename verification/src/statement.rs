//! Statements for the backend: SQL text interleaved with bound parameters.
//!
//! A statement is the ordered list of what is appended to it. No value is
//! ever written into the SQL text: each one travels as a bound parameter, and
//! whoever runs the statement puts a placeholder where the parameter stands.

use vstd::prelude::*;

verus! {

/// What a `Bind` stands for.
pub enum BindModel {
    Uuid(u128),
    Text(Seq<char>),
    Int(i64),
    UuidArray(Seq<u128>),
    TextArray(Seq<Seq<char>>),
    OptUuidArray(Seq<Option<u128>>),
    OptTextArray(Seq<Option<Seq<char>>>),
    TimeArray(Seq<i64>),
}

/// What a `Part` stands for.
pub enum PartModel {
    Sql(Seq<char>),
    Bind(BindModel),
}

/// A bound parameter. The arrays are columns: one entry for each row of a
/// multi-row statement. A time is in microseconds since the Unix epoch, UTC.
#[derive(Debug, PartialEq, Eq)]
pub enum Bind {
    Uuid(u128),
    Text(String),
    Int(i64),
    UuidArray(Vec<u128>),
    TextArray(Vec<String>),
    OptUuidArray(Vec<Option<u128>>),
    OptTextArray(Vec<Option<String>>),
    TimeArray(Vec<i64>),
}

/// One piece of a statement: SQL text, or the place of a bound parameter.
#[derive(Debug, PartialEq, Eq)]
pub enum Part {
    Sql(String),
    Bind(Bind),
}

/// A statement under construction, or ready to run.
#[derive(Debug, PartialEq, Eq)]
pub struct Statement {
    pub parts: Vec<Part>,
}

impl DeepView for Bind {
    type V = BindModel;

    open spec fn deep_view(&self) -> BindModel {
        match self {
            Bind::Uuid(id) => BindModel::Uuid(*id),
            Bind::Text(text) => BindModel::Text(text@),
            Bind::Int(n) => BindModel::Int(*n),
            Bind::UuidArray(column) => BindModel::UuidArray(column@),
            Bind::TextArray(column) => BindModel::TextArray(column.deep_view()),
            Bind::OptUuidArray(column) => BindModel::OptUuidArray(column@),
            Bind::OptTextArray(column) => BindModel::OptTextArray(column.deep_view()),
            Bind::TimeArray(column) => BindModel::TimeArray(column@),
        }
    }
}

impl DeepView for Part {
    type V = PartModel;

    open spec fn deep_view(&self) -> PartModel {
        match self {
            Part::Sql(text) => PartModel::Sql(text@),
            Part::Bind(bind) => PartModel::Bind(bind.deep_view()),
        }
    }
}

impl DeepView for Statement {
    type V = Seq<PartModel>;

    open spec fn deep_view(&self) -> Seq<PartModel> {
        self.parts.deep_view()
    }
}

/// SQL text as a part.
pub open spec fn sql(text: Seq<char>) -> PartModel {
    PartModel::Sql(text)
}

/// A bound identifier as a part.
pub open spec fn bind_uuid(id: u128) -> PartModel {
    PartModel::Bind(BindModel::Uuid(id))
}

/// A bound text as a part.
pub open spec fn bind_text(text: Seq<char>) -> PartModel {
    PartModel::Bind(BindModel::Text(text))
}

/// A bound integer as a part.
pub open spec fn bind_int(n: i64) -> PartModel {
    PartModel::Bind(BindModel::Int(n))
}

/// A bound column of identifiers as a part.
pub open spec fn bind_uuids(column: Seq<u128>) -> PartModel {
    PartModel::Bind(BindModel::UuidArray(column))
}

/// A bound column of texts as a part.
pub open spec fn bind_texts(column: Seq<Seq<char>>) -> PartModel {
    PartModel::Bind(BindModel::TextArray(column))
}

/// A bound column of identifiers, some absent, as a part.
pub open spec fn bind_opt_uuids(column: Seq<Option<u128>>) -> PartModel {
    PartModel::Bind(BindModel::OptUuidArray(column))
}

/// A bound column of texts, some absent, as a part.
pub open spec fn bind_opt_texts(column: Seq<Option<Seq<char>>>) -> PartModel {
    PartModel::Bind(BindModel::OptTextArray(column))
}

/// A bound column of times as a part.
pub open spec fn bind_times(column: Seq<i64>) -> PartModel {
    PartModel::Bind(BindModel::TimeArray(column))
}

/// How many chunks of at most `size` items `n` items make.
pub open spec fn chunk_count(n: int, size: int) -> int {
    if n <= 0 {
        0
    } else {
        (n + size - 1) / size
    }
}

/// The `k`-th chunk of `items`, each chunk but the last holding `size` items.
pub open spec fn chunk<T>(items: Seq<T>, size: int, k: int) -> Seq<T> {
    items.subrange(k * size, if (k + 1) * size < items.len() {
        (k + 1) * size
    } else {
        items.len() as int
    })
}

impl Statement {
    /// A statement that begins with `text`.
    pub fn new(text: &str) -> (statement: Self)
        ensures
            statement.deep_view() == seq![sql(text@)],
    {
        let mut parts: Vec<Part> = Vec::new();
        parts.push(Part::Sql(text.to_owned()));
        let statement = Statement { parts };
        assert(statement.deep_view() =~= seq![sql(text@)]);
        statement
    }

    /// Appends SQL text.
    pub fn push(&mut self, text: &str)
        ensures
            final(self).deep_view() == old(self).deep_view().push(sql(text@)),
    {
        self.parts.push(Part::Sql(text.to_owned()));
        assert(self.deep_view() =~= old(self).deep_view().push(sql(text@)));
    }

    /// Appends the place of a bound parameter, and binds `value` to it.
    pub fn push_bind(&mut self, value: Bind)
        ensures
            final(self).deep_view() == old(self).deep_view().push(
                PartModel::Bind(value.deep_view()),
            ),
    {
        let ghost bound = value.deep_view();
        self.parts.push(Part::Bind(value));
        assert(self.deep_view() =~= old(self).deep_view().push(PartModel::Bind(bound)));
    }
}

} // verus!
