//! The domain model: tuples, filters, pages and traversal results.

pub mod query;
pub mod relation_tuple;
pub mod response;
pub mod traversal;
