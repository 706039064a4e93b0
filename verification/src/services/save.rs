use vstd::prelude::*;
use vstd::string::*;

use crate::storage::local::SaveStore;

verus! {

/// The save as the game uses it: one store.
pub struct SaveService {
    store: SaveStore,
}

impl SaveService {
    pub closed spec fn path_spec(&self) -> Seq<char> {
        self.store.path_spec()
    }

    /// A service over `store`.
    pub fn new(store: SaveStore) -> (s: SaveService)
        ensures
            s.path_spec() == store.path_spec(),
    {
        SaveService { store }
    }

    /// The store the service writes to.
    pub fn store(&self) -> (s: &SaveStore)
        ensures
            s.path_spec() == self.path_spec(),
    {
        &self.store
    }

    /// The save file, as shown to the player.
    pub fn path(&self) -> (p: String)
        ensures
            p@ == self.path_spec(),
    {
        String::from_str(self.store.path())
    }
}

} // verus!
