//! Storage and traversal core of a relationship-based authorization service.
//!
//! The library decides what is sent to the relational backend and what is made
//! of the rows that come back: statements with bound parameters, chunked write
//! and delete plans, page assembly, the subject-set walk and the identifier
//! mapping. Running a statement is left to the caller.

pub mod context;
pub mod error;
pub mod ident;
pub mod models;
pub mod persistance;
pub mod services;
pub mod statement;
