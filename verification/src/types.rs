use vstd::prelude::*;

verus! {

/// The result of a call that answers with no body worth reading.
#[derive(Clone, Copy, Debug, PartialEq, Eq, Structural)]
pub struct Done;

} // verus!
