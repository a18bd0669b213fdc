//! The HTTP server's own logic: the visit counter, the form a peer posts its
//! table in, and the start-up probe.
use vstd::prelude::*;
use crate::text::{decimal_string, decimal_text};

verus! {

/// The server's shared counter of visits.
pub struct AppState {
    pub count: u32,
}

/// Counts a visit and returns the new count as text, the reply's body.
pub fn visit_count(app_state: &mut AppState) -> (r: String)
    requires
        old(app_state).count < u32::MAX,
    ensures
        final(app_state).count == old(app_state).count + 1,
        r@ == decimal_text(final(app_state).count as nat),
{
    app_state.count = app_state.count + 1;
    decimal_string(app_state.count)
}

/// The form in which a peer posts its table: the table as JSON text.
pub struct SyncForm {
    pub content: String,
}

/// What the start-up probe of the server decides after one try.
#[derive(PartialEq, Eq, Structural)]
pub enum ServerWatch {
    /// The server answered: it is up.
    Started,
    /// No answer yet: try again in two seconds.
    Retry,
    /// No answer on four tries: give up.
    GiveUp,
}

/// One try of the probe, given how many tries failed before it; returns the
/// decision and the new count of failures.
pub fn watch_server_step(failures: u32, reachable: bool) -> (r: (ServerWatch, u32))
    requires
        failures < u32::MAX,
    ensures
        reachable ==> r == (ServerWatch::Started, failures),
        !reachable ==> r.1 == failures + 1 && r.0 == (if failures + 1 > 3 {
            ServerWatch::GiveUp
        } else {
            ServerWatch::Retry
        }),
{
    if reachable {
        (ServerWatch::Started, failures)
    } else {
        let count = failures + 1;
        if count > 3 {
            (ServerWatch::GiveUp, count)
        } else {
            (ServerWatch::Retry, count)
        }
    }
}

} // verus!
