//! The answer to the health check.

use vstd::prelude::*;

verus! {

/// Answers the health check: status 204, no content.
pub fn hc() -> (r: u16)
    ensures
        r == 204,
{
    204
}

} // verus!
