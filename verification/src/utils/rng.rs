use vstd::prelude::*;

verus! {

/// Where random numbers come from in each mode.
pub struct RngPolicy {
    pub offline_note: &'static str,
    pub online_note: &'static str,
}

impl Default for RngPolicy {
    fn default() -> (p: Self)
        ensures
            p.offline_note == "Offline RNG is local and user-modifiable.",
            p.online_note == "Online RNG must be authoritative and server-validated.",
    {
        Self {
            offline_note: "Offline RNG is local and user-modifiable.",
            online_note: "Online RNG must be authoritative and server-validated.",
        }
    }
}

} // verus!
