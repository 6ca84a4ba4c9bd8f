//! Per-request identity.

use vstd::prelude::*;

verus! {

/// What a request carries through the core: the tenant it acts for, and two
/// identifiers that the core only hands on.
#[derive(Debug, PartialEq, Eq)]
pub struct RequestContext {
    network_id: u128,
    request_id: String,
    trace_id: String,
}

impl RequestContext {
    pub closed spec fn nid(&self) -> u128 {
        self.network_id
    }

    pub closed spec fn request(&self) -> Seq<char> {
        self.request_id@
    }

    pub closed spec fn trace(&self) -> Seq<char> {
        self.trace_id@
    }

    pub fn new(network_id: u128, request_id: String, trace_id: String) -> (ctx: Self)
        ensures
            ctx.nid() == network_id,
            ctx.request() == request_id@,
            ctx.trace() == trace_id@,
    {
        RequestContext { network_id, request_id, trace_id }
    }

    /// The tenant that every statement of this request is bound to.
    pub fn network_id(&self) -> (nid: u128)
        ensures
            nid == self.nid(),
    {
        self.network_id
    }

    pub fn request_id(&self) -> (id: &String)
        ensures
            id@ == self.request(),
    {
        &self.request_id
    }

    pub fn trace_id(&self) -> (id: &String)
        ensures
            id@ == self.trace(),
    {
        &self.trace_id
    }
}

} // verus!
