//! The three capabilities of the core.

pub mod relation_tuple;
pub mod traversal;
pub mod uuid_mapper;
