use vstd::prelude::*;

verus! {

/// Notes on how online play must be secured.
pub struct SecurityArchitecture {
    pub note: &'static str,
}

impl Default for SecurityArchitecture {
    fn default() -> (s: Self)
        ensures
            s.note == "Online mode: all game logic, RNG, and balances must be server-authoritative. The client is never trusted. All actions must be validated server-side. Replay logs and session tokens enforce integrity.",
    {
        Self {
            note: "Online mode: all game logic, RNG, and balances must be server-authoritative. The client is never trusted. All actions must be validated server-side. Replay logs and session tokens enforce integrity.",
        }
    }
}

pub enum SecurityLevel {
    Offline,
    Online,
}

impl SecurityLevel {
    /// Only the online level is server-authoritative.
    pub fn is_authoritative(&self) -> (b: bool)
        ensures
            b == (*self is Online),
    {
        matches!(self, SecurityLevel::Online)
    }
}

} // verus!
