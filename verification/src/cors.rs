//! The origins from which a browser may call the service.

use vstd::prelude::*;
use crate::text::str_eq;

verus! {

/// Whether `origin` is one of the two allowed origins.
pub open spec fn allowed_origin(origin: Seq<char>) -> bool {
    origin == "http://localhost:8888"@ || origin == "https://kafka-repo-dev001.azurewebsites.net"@
}

/// Whether a browser at `origin` may call the service.
pub fn is_allowed_origin(origin: &str) -> (allowed: bool)
    ensures
        allowed == allowed_origin(origin@),
{
    str_eq(origin, "http://localhost:8888") || str_eq(
        origin,
        "https://kafka-repo-dev001.azurewebsites.net",
    )
}

} // verus!
