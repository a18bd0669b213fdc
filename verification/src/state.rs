//! The process-wide flags: whether the heartbeat listener runs and whether the server is to start.
use vstd::prelude::*;

verus! {

/// `listen_leader_beat`: the heartbeat listener is running;
/// `start_server`: the command line asked for the server to start.
pub struct GlobalState {
    pub listen_leader_beat: bool,
    pub start_server: bool,
}

impl GlobalState {
    /// Both flags start cleared.
    pub fn new() -> (r: GlobalState)
        ensures
            !r.listen_leader_beat,
            !r.start_server,
    {
        GlobalState { listen_leader_beat: false, start_server: false }
    }
}

} // verus!
