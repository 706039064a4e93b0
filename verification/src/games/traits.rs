use vstd::prelude::*;

verus! {

/// A game the casino floor can host.
pub trait GameEngine: Send {
    fn name(&self) -> &'static str;

    fn tick(&mut self);
}

} // verus!
