//! Defaults for the fields a target's configuration may leave out.

use vstd::prelude::*;
use crate::source_query::DEFAULT_PORT;

verus! {

/// The port of a target whose configuration names none.
pub fn default_port() -> (r: u16)
    ensures
        r == 27015,
{
    DEFAULT_PORT
}

/// The label of a target whose configuration names none.
pub fn default_unknown() -> (r: String)
    ensures
        r@ == "unknown"@,
{
    "unknown".to_string()
}

} // verus!
