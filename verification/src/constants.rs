//! Fixed strings the tool identifies itself with.

use vstd::prelude::*;

verus! {

/// The user-agent string sent with every request.
pub fn get_user_agent() -> (r: String)
    ensures
        r@ == "ia-get/1.6.0"@,
{
    String::from_str("ia-get/1.6.0")
}

} // verus!
