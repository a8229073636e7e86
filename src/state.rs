use vstd::prelude::*;

verus! {

/// The phase of a BGP session.
#[derive(PartialEq, Eq, Structural, Debug, Clone, Copy, Hash)]
pub enum State {
    Idle,
    Connect,
    OpenSent,
    OpenConfirm,
    Established,
}

} // verus!
