use vstd::prelude::*;

verus! {

/// Whether the casino plays on local chips or, later, against a server.
#[derive(Debug, Clone, Copy, PartialEq, Eq, Structural)]
pub enum Mode {
    Offline,
    Online,
}

} // verus!
