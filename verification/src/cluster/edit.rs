//! Local edits of one node's record: its state and its role. Each edit raises
//! the record's `nv` by one, so that peers adopt the edited copy.
use vstd::prelude::*;
use crate::cluster::{Cluster, ClusterView, NodeRecordView};
use crate::text::text_eq;

verus! {

/// An edit refused for its argument, which the error carries.
pub enum EditError {
    InvalidState(String),
    InvalidRole(String),
}

pub open spec fn valid_state(s: Seq<char>) -> bool {
    s == "del"@ || s == "on"@ || s == "off"@
}

pub open spec fn valid_role(s: Seq<char>) -> bool {
    s == "follower"@ || s == "leader"@ || s == "candidate"@
}

/// The table after node `id` was given state `s`.
pub open spec fn with_state(c: ClusterView, id: Seq<char>, s: Seq<char>) -> ClusterView {
    c.insert(id, NodeRecordView { state: s, nv: (c[id].nv + 1) as i64, ..c[id] })
}

/// The table after node `id` was given role `role`.
pub open spec fn with_role(c: ClusterView, id: Seq<char>, role: Seq<char>) -> ClusterView {
    c.insert(id, NodeRecordView { role: role, nv: (c[id].nv + 1) as i64, ..c[id] })
}

/// Sets the state of node `id` to `del`, `on` or `off` and raises its `nv`;
/// any other state is refused and leaves the table as it was.
pub fn state(cluster: &mut Cluster, id: &String, new_state: &String) -> (r: Result<(), EditError>)
    requires
        valid_state(new_state@) ==> old(cluster)@.contains_key(id@) && old(cluster)@[id@].nv < i64::MAX,
    ensures
        match r {
            Ok(()) => {
                &&& valid_state(new_state@)
                &&& final(cluster)@ == with_state(old(cluster)@, id@, new_state@)
                &&& final(cluster)@.dom() == old(cluster)@.dom()
                &&& final(cluster)@[id@] == (NodeRecordView {
                    address: old(cluster)@[id@].address,
                    state: new_state@,
                    role: old(cluster)@[id@].role,
                    version: old(cluster)@[id@].version,
                    term: old(cluster)@[id@].term,
                    nv: (old(cluster)@[id@].nv + 1) as i64,
                    others: old(cluster)@[id@].others,
                })
            },
            Err(e) => !valid_state(new_state@) && final(cluster)@ == old(cluster)@ && (e matches EditError::InvalidState(s) && s@ == new_state@),
        },
{
    if !text_eq(new_state, "del") && !text_eq(new_state, "on") && !text_eq(new_state, "off") {
        return Err(EditError::InvalidState(new_state.clone()));
    }
    let mut rec = match cluster.get(id) {
        Some(rec) => rec.duplicate(),
        None => {
            return Err(EditError::InvalidState(new_state.clone()));
        },
    };
    rec.state = new_state.clone();
    rec.nv = rec.nv + 1;
    cluster.insert(id.clone(), rec);
    Ok(())
}

/// Sets the role of node `id` to `follower`, `leader` or `candidate` and raises
/// its `nv`; any other role is refused and leaves the table as it was.
pub fn role(cluster: &mut Cluster, id: &String, new_role: &String) -> (r: Result<(), EditError>)
    requires
        valid_role(new_role@) ==> old(cluster)@.contains_key(id@) && old(cluster)@[id@].nv < i64::MAX,
    ensures
        match r {
            Ok(()) => {
                &&& valid_role(new_role@)
                &&& final(cluster)@ == with_role(old(cluster)@, id@, new_role@)
                &&& final(cluster)@.dom() == old(cluster)@.dom()
                &&& final(cluster)@[id@] == (NodeRecordView {
                    address: old(cluster)@[id@].address,
                    state: old(cluster)@[id@].state,
                    role: new_role@,
                    version: old(cluster)@[id@].version,
                    term: old(cluster)@[id@].term,
                    nv: (old(cluster)@[id@].nv + 1) as i64,
                    others: old(cluster)@[id@].others,
                })
            },
            Err(e) => !valid_role(new_role@) && final(cluster)@ == old(cluster)@ && (e matches EditError::InvalidRole(s) && s@ == new_role@),
        },
{
    if !text_eq(new_role, "follower") && !text_eq(new_role, "leader") && !text_eq(new_role, "candidate") {
        return Err(EditError::InvalidRole(new_role.clone()));
    }
    let mut rec = match cluster.get(id) {
        Some(rec) => rec.duplicate(),
        None => {
            return Err(EditError::InvalidRole(new_role.clone()));
        },
    };
    rec.role = new_role.clone();
    rec.nv = rec.nv + 1;
    cluster.insert(id.clone(), rec);
    Ok(())
}

/// A state edit changes one record: the table keeps its nodes, every other
/// node's record stays as it was, and the edited record gets the new state and
/// an `nv` one higher while its address, role, version, term and other fields
/// stay as they were.
pub proof fn law_state_edit_is_local(c: ClusterView, id: Seq<char>, s: Seq<char>)
    requires
        c.contains_key(id),
        c[id].nv < i64::MAX,
    ensures
        with_state(c, id, s).dom() == c.dom(),
        forall|other: Seq<char>| #[trigger] c.contains_key(other) && other != id ==> with_state(c, id, s)[other] == c[other],
        with_state(c, id, s)[id].state == s,
        with_state(c, id, s)[id].nv == c[id].nv + 1,
        with_state(c, id, s)[id].address == c[id].address,
        with_state(c, id, s)[id].role == c[id].role,
        with_state(c, id, s)[id].version == c[id].version,
        with_state(c, id, s)[id].term == c[id].term,
        with_state(c, id, s)[id].others == c[id].others,
{
    assert(with_state(c, id, s).dom() =~= c.dom());
}

/// A role edit changes one record: the edited record gets the new role and an
/// `nv` one higher while its address, state, version, term and other fields
/// stay as they were; every other node's record stays as it was.
pub proof fn law_role_edit_is_local(c: ClusterView, id: Seq<char>, role: Seq<char>)
    requires
        c.contains_key(id),
        c[id].nv < i64::MAX,
    ensures
        with_role(c, id, role).dom() == c.dom(),
        forall|other: Seq<char>| #[trigger] c.contains_key(other) && other != id ==> with_role(c, id, role)[other] == c[other],
        with_role(c, id, role)[id].role == role,
        with_role(c, id, role)[id].nv == c[id].nv + 1,
        with_role(c, id, role)[id].address == c[id].address,
        with_role(c, id, role)[id].state == c[id].state,
        with_role(c, id, role)[id].version == c[id].version,
        with_role(c, id, role)[id].term == c[id].term,
        with_role(c, id, role)[id].others == c[id].others,
{
    assert(with_role(c, id, role).dom() =~= c.dom());
}

} // verus!
