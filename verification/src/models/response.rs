//! What a paged read returns.

use vstd::prelude::*;

verus! {

/// One page, and the token that asks for the next.
#[derive(Debug, PartialEq, Eq)]
pub struct PaginatedResponse<T> {
    pub data: T,
    pub token: String,
}

} // verus!
