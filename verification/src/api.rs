//! Plain value types exchanged with the HTTP-facing layer.

use vstd::prelude::*;
use crate::strmap::StrMap;

verus! {

/// What the health endpoint reports.
#[derive(Debug)]
pub struct HealthResponse {
    pub status: String,
    pub version: String,
    pub runtime: String,
}

/// Query parameters of an invocation call.
#[derive(Debug)]
pub struct InvokeParams {
    pub query: StrMap,
}

impl Default for InvokeParams {
    /// No query parameters.
    fn default() -> (r: Self)
        ensures
            r.query@ == Map::<Seq<char>, Seq<char>>::empty(),
    {
        InvokeParams { query: StrMap::new() }
    }
}

} // verus!
