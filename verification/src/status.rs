//! Status codes of answers.

use vstd::prelude::*;

verus! {

/// Whether a status code reports success: the codes from 200 to 299 do.
pub open spec fn is_success(status: u16) -> bool {
    200 <= status <= 299
}

/// Whether a status code reports success.
pub fn reports_success(status: u16) -> (success: bool)
    ensures
        success == is_success(status),
{
    200 <= status && status <= 299
}

} // verus!
