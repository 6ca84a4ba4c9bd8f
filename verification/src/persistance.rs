//! How the domain model lies in the backend.

pub mod schema;
