use vstd::prelude::*;

use crate::network::protocol::{ClientAction, ServerEvent};

verus! {

/// The online client. Online play is a placeholder: it never connects.
pub struct OnlineClient {
    connected: bool,
}

impl OnlineClient {
    pub closed spec fn connected_spec(&self) -> bool {
        self.connected
    }

    pub fn new() -> (c: Self)
        ensures
            !c.connected_spec(),
    {
        OnlineClient { connected: false }
    }

    /// Tries to connect; as a placeholder it stays disconnected.
    pub fn connect(&mut self, _endpoint: &str)
        ensures
            !final(self).connected_spec(),
    {
        self.connected = false;
    }

    /// Sends an action; as a placeholder it sends nothing.
    pub fn send_action(&self, _action: ClientAction) {
    }

    /// The next event from the server; as a placeholder there is none.
    pub fn next_event(&self) -> (e: Option<ServerEvent>)
        ensures
            e is None,
    {
        None
    }

    pub fn is_connected(&self) -> (b: bool)
        ensures
            b == self.connected_spec(),
    {
        self.connected
    }
}

impl Default for OnlineClient {
    fn default() -> (c: Self)
        ensures
            !c.connected_spec(),
    {
        OnlineClient { connected: false }
    }
}

} // verus!
