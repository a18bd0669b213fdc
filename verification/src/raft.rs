//! A second heartbeat watch, which keeps the node's role with the node itself.
use vstd::prelude::*;
use crate::outside::{now_timestamp, random_in_range};
use crate::text::text_eq;

verus! {

/// The node's role (`FOLLOWER`, `CANDIDATE` or `LEADER`), how long it waits for
/// the leader (in milliseconds, drawn from 300..500) and the Unix time of the
/// last heartbeat.
#[allow(non_snake_case)]
pub struct Node {
    ROLE: String,
    WAIT_FOR_LEADER: i64,
    LAST_BEAT: i64,
}

impl Node {
    #[verifier::type_invariant]
    spec fn wait_is_in_range(&self) -> bool {
        300 <= self.WAIT_FOR_LEADER < 500
    }

    pub closed spec fn role_text(&self) -> Seq<char> {
        self.ROLE@
    }

    pub closed spec fn wait(&self) -> i64 {
        self.WAIT_FOR_LEADER
    }

    pub closed spec fn last_beat(&self) -> i64 {
        self.LAST_BEAT
    }

    /// A follower with a random wait in 300..500 and the current time as its
    /// last heartbeat.
    pub fn new() -> (r: Node)
        ensures
            r.role_text() == "FOLLOWER"@,
            300 <= r.wait() < 500,
    {
        let wait = random_in_range(300, 500);
        let now = now_timestamp();
        Node::new_at(wait, now)
    }

    /// A follower that waits `wait` milliseconds for the leader and last heard
    /// it at Unix time `now`.
    pub fn new_at(wait: i64, now: i64) -> (r: Node)
        requires
            300 <= wait < 500,
        ensures
            r.role_text() == "FOLLOWER"@,
            r.wait() == wait,
            r.last_beat() == now,
    {
        Node { ROLE: String::from_str("FOLLOWER"), WAIT_FOR_LEADER: wait, LAST_BEAT: now }
    }

    /// The node's role.
    pub fn role(&self) -> (r: String)
        ensures
            r@ == self.role_text(),
    {
        self.ROLE.clone()
    }

    /// Changes the node's role.
    pub fn set_role(&mut self, role: String)
        ensures
            final(self).role_text() == role@,
            final(self).wait() == old(self).wait(),
            final(self).last_beat() == old(self).last_beat(),
    {
        proof {
            use_type_invariant(&*self);
        }
        self.ROLE = role;
    }

    /// Sets the Unix time of the last heartbeat.
    pub fn set_last_beat(&mut self, beat: i64)
        ensures
            final(self).last_beat() == beat,
            final(self).role_text() == old(self).role_text(),
            final(self).wait() == old(self).wait(),
    {
        proof {
            use_type_invariant(&*self);
        }
        self.LAST_BEAT = beat;
    }

    /// The wait for the leader, in milliseconds.
    pub fn wait_for_leader(&self) -> (r: i64)
        ensures
            r == self.wait(),
            300 <= r < 500,
    {
        proof {
            use_type_invariant(self);
        }
        self.WAIT_FOR_LEADER
    }

    /// The Unix time of the last heartbeat.
    pub fn last_leader_beat(&self) -> (r: i64)
        ensures
            r == self.last_beat(),
    {
        self.LAST_BEAT
    }
}

/// What one look of the watch finds.
#[derive(PartialEq, Eq, Structural)]
pub enum RaftWatch {
    /// The node became the leader: the watch stops.
    Leader,
    /// The node became a candidate: the watch stops.
    Candidate,
    /// The heartbeat is overdue (reported; the watch goes on).
    Timeout,
    /// The heartbeat is not overdue.
    Waiting,
}

/// The heartbeat part of a look: overdue when the last beat plus the wait
/// counted in whole seconds lies before `now`.
pub open spec fn beat_watch(now: i64, last_beat: i64, wait: i64) -> RaftWatch {
    if now > last_beat + wait / 1000 {
        RaftWatch::Timeout
    } else {
        RaftWatch::Waiting
    }
}

/// One look of the watch, which runs every 150 ms: a leader or a candidate
/// stops it; any other role (a follower among them) goes on to the heartbeat.
pub fn listen_leader_beat_step(node: &Node, now: i64) -> (r: RaftWatch)
    ensures
        r == (if node.role_text() == "FOLLOWER"@ {
            beat_watch(now, node.last_beat(), node.wait())
        } else if node.role_text() == "LEADER"@ {
            RaftWatch::Leader
        } else if node.role_text() == "CANDIDATE"@ {
            RaftWatch::Candidate
        } else {
            beat_watch(now, node.last_beat(), node.wait())
        }),
{
    proof {
        use_type_invariant(node);
    }
    if text_eq(&node.ROLE, "FOLLOWER") {
    } else if text_eq(&node.ROLE, "LEADER") {
        return RaftWatch::Leader;
    } else if text_eq(&node.ROLE, "CANDIDATE") {
        return RaftWatch::Candidate;
    }
    let seconds: i64 = node.WAIT_FOR_LEADER / 1000;
    if now > node.LAST_BEAT + seconds {
        RaftWatch::Timeout
    } else {
        RaftWatch::Waiting
    }
}

} // verus!
