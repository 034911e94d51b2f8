//! The machine the runner is on: the `hostname` crate.

use vstd::prelude::*;

verus! {

/// `hostname::get`: the machine's name when it is known and is text.
/// Nothing is claimed of it: it depends on the machine.
#[verifier::external_body]
pub(crate) fn hostname() -> (r: Option<String>)
{
    hostname::get().ok().and_then(|h| h.into_string().ok())
}

} // verus!
