use vstd::prelude::*;

verus! {

/// Where a session stands in its lifecycle, from the session layer's point of
/// view.
#[derive(Clone, Copy, PartialEq, Eq, Structural, Debug)]
pub enum SessionStatus {
    Pending,
    Active,
    Completed,
    Error,
}

} // verus!
