//! Synchronisation of cluster tables between nodes: how a node merges the
//! table a peer sends it, and which synchronisation a node runs.
use vstd::prelude::*;
use crate::cluster::{
    Cluster, ClusterView, NodeRecordView, distinct_ids, entries_view, lemma_table_of,
    table_of,
};
use crate::cluster::edit::{with_role, with_state};
use crate::outside::{json_string_text, json_text_of_string, lemma_json_string_text_quoted};
use crate::text::text_eq;

verus! {

/// Whether a merge takes the peer's record for `id`: the peer knows the node
/// and either the local table does not, or the peer's copy has a higher `nv`.
pub open spec fn adopts(local: ClusterView, remote: ClusterView, id: Seq<char>) -> bool {
    remote.contains_key(id) && (!local.contains_key(id) || remote[id].nv > local[id].nv)
}

/// The local table after merging the peer's table `remote` into it.
pub open spec fn merged(local: ClusterView, remote: ClusterView) -> ClusterView {
    Map::new(
        |id: Seq<char>| local.contains_key(id) || remote.contains_key(id),
        |id: Seq<char>|
            if adopts(local, remote, id) {
                remote[id]
            } else {
                local[id]
            },
    )
}

/// Whether the local table holds a newer copy (higher `nv`) of some node the
/// peer sent, so that the peer should be answered with the local table.
pub open spec fn local_is_newer(local: ClusterView, remote: ClusterView) -> bool {
    exists|id: Seq<char>|
        #[trigger] local.contains_key(id) && remote.contains_key(id) && remote[id].nv < local[id].nv
}

/// The answer to a peer's synchronisation request.
#[derive(PartialEq, Eq, Structural)]
pub enum SyncReply {
    /// Nothing newer here: answered with state `ok`.
    UpToDate,
    /// This node holds newer copies: answered with state `edit` and the table.
    Edit,
}

proof fn lemma_merge_step(local: ClusterView, m: ClusterView, k: Seq<char>, v: NodeRecordView)
    requires
        !m.contains_key(k),
    ensures
        adopts(local, m.insert(k, v), k) ==> merged(local, m.insert(k, v)) == merged(local, m).insert(k, v),
        !adopts(local, m.insert(k, v), k) ==> local.contains_key(k) && merged(local, m.insert(k, v))
            == merged(local, m),
        local_is_newer(local, m.insert(k, v)) == (local_is_newer(local, m) || (local.contains_key(k)
            && v.nv < local[k].nv)),
{
    let m2 = m.insert(k, v);
    if adopts(local, m2, k) {
        assert(merged(local, m2) =~= merged(local, m).insert(k, v));
    } else {
        assert(merged(local, m2) =~= merged(local, m));
    }
    if local_is_newer(local, m2) {
        let id = choose|id: Seq<char>|
            #[trigger] local.contains_key(id) && m2.contains_key(id) && m2[id].nv < local[id].nv;
        if id != k {
            assert(local.contains_key(id) && m.contains_key(id) && m[id].nv < local[id].nv);
        }
    }
    if local_is_newer(local, m) {
        let id = choose|id: Seq<char>|
            #[trigger] local.contains_key(id) && m.contains_key(id) && m[id].nv < local[id].nv;
        assert(local.contains_key(id) && m2.contains_key(id) && m2[id].nv < local[id].nv);
    }
    if local.contains_key(k) && v.nv < local[k].nv {
        assert(local.contains_key(k) && m2.contains_key(k) && m2[k].nv < local[k].nv);
    }
}

/// Merges the table a peer sent into the local one: each node the local table
/// lacks is added, each node whose copy from the peer has a higher `nv`
/// replaces the local copy, and the reply is `Edit` exactly when the local
/// table holds a higher `nv` for some node the peer sent.
pub fn node_sync_v1(local: &mut Cluster, remote: &Cluster) -> (r: SyncReply)
    ensures
        final(local)@ == merged(old(local)@, remote@),
        (r == SyncReply::Edit) == local_is_newer(old(local)@, remote@),
{
    let ghost start = local@;
    let theirs = remote.entries();
    let ghost rs = entries_view(theirs@);
    let n = theirs.len();
    let mut callback = false;
    let mut i: usize = 0;
    assert(table_of(rs.take(0)) =~= Map::empty());
    assert(merged(start, Map::empty()) =~= start);
    assert(!local_is_newer(start, Map::empty()));
    while i < n
        invariant
            n == theirs@.len(),
            rs == entries_view(theirs@),
            distinct_ids(rs),
            table_of(rs) == remote@,
            i <= n,
            local@ == merged(start, table_of(rs.take(i as int))),
            callback == local_is_newer(start, table_of(rs.take(i as int))),
        decreases n - i,
    {
        let id = &theirs[i].0;
        let rec = &theirs[i].1;
        let ghost m = table_of(rs.take(i as int));
        proof {
            let p = rs.take(i as int + 1);
            assert(p.drop_last() =~= rs.take(i as int));
            assert(p.last() == rs[i as int]);
            assert(rs[i as int] == (id@, rec@));
            assert(distinct_ids(rs.take(i as int)));
            lemma_table_of(rs.take(i as int));
            if m.contains_key(id@) {
                let j = choose|j: int| 0 <= j < i && rs.take(i as int)[j].0 == id@;
                assert(rs[j].0 == rs[i as int].0);
            }
            lemma_merge_step(start, m, id@, rec@);
        }
        let local_nv: Option<i64> = match local.get(id) {
            Some(mine) => Some(mine.nv),
            None => None,
        };
        match local_nv {
            None => {
                local.insert(id.clone(), rec.duplicate());
            },
            Some(mine) => {
                if rec.nv > mine {
                    local.insert(id.clone(), rec.duplicate());
                } else if rec.nv < mine {
                    callback = true;
                }
            },
        }
        i = i + 1;
    }
    assert(rs.take(n as int) =~= rs);
    if callback {
        SyncReply::Edit
    } else {
        SyncReply::UpToDate
    }
}

/// Which synchronisation a node runs after its table changed.
#[derive(PartialEq, Eq, Structural)]
pub enum SyncPlan {
    /// The leader's synchronisation (which does nothing).
    Leader,
    /// Sending the table to peers (`sync_node_v1`).
    Gossip,
    /// No synchronisation.
    Idle,
}

/// The plan: the leader's synchronisation when the rendering of the node's
/// role as JSON text equals `leader`; otherwise gossip in a table of fewer
/// than three nodes, and nothing in a larger one.
pub open spec fn sync_plan(c: ClusterView, local_id: Seq<char>) -> SyncPlan {
    if json_string_text(c[local_id].role) == "leader"@ {
        SyncPlan::Leader
    } else if c.len() < 3 {
        SyncPlan::Gossip
    } else {
        SyncPlan::Idle
    }
}

/// Decides which synchronisation node `local_id` runs. The role is compared in
/// its JSON rendering, which is quoted, so the leader's branch is never taken.
pub fn sync_node_plan(cluster: &Cluster, local_id: &String) -> (r: SyncPlan)
    requires
        cluster@.contains_key(local_id@),
    ensures
        r == sync_plan(cluster@, local_id@),
        r != SyncPlan::Leader,
{
    let size = cluster.len();
    let role_text = match cluster.get(local_id) {
        Some(rec) => json_text_of_string(&rec.role),
        None => {
            return SyncPlan::Idle;
        },
    };
    proof {
        reveal_strlit("leader");
        lemma_json_string_text_quoted(cluster@[local_id@].role);
    }
    plan_for(&role_text, size)
}

/// The plan for a node whose role renders as the JSON text `role_text`, in a
/// table of `size` nodes.
pub fn plan_for(role_text: &String, size: usize) -> (r: SyncPlan)
    ensures
        r == (if role_text@ == "leader"@ {
            SyncPlan::Leader
        } else if size < 3 {
            SyncPlan::Gossip
        } else {
            SyncPlan::Idle
        }),
{
    if text_eq(role_text, "leader") {
        SyncPlan::Leader
    } else if size < 3 {
        SyncPlan::Gossip
    } else {
        SyncPlan::Idle
    }
}

/// Whether gossip sends the table to node `id` with record `rec`: its state,
/// rendered as JSON text, equals `on`, and it is not the local node.
pub open spec fn gossip_target(id: Seq<char>, rec: NodeRecordView, local_id: Seq<char>) -> bool {
    json_string_text(rec.state) == "on"@ && id != local_id
}

/// The address gossip posts to for a node listening at `address`, rendered
/// as JSON text.
pub open spec fn gossip_url(address: Seq<char>) -> Seq<char> {
    "http://"@ + json_string_text(address) + "/api/node/sync/v1"@
}

/// Whether a node whose state renders as the JSON text `state_text` is a
/// gossip target for node `local_id`.
pub fn gossip_target_check(state_text: &String, id: &String, local_id: &String) -> (r: bool)
    ensures
        r == (state_text@ == "on"@ && id@ != local_id@),
{
    text_eq(state_text, "on") && !(*id == *local_id)
}

/// The address gossip posts to, for a node address already rendered as JSON
/// text.
pub fn gossip_url_for(address_text: &String) -> (r: String)
    ensures
        r@ == "http://"@ + address_text@ + "/api/node/sync/v1"@,
{
    let mut url = String::from_str("http://");
    url.append(address_text.as_str());
    url.append("/api/node/sync/v1");
    url
}

/// The addresses gossip (`sync_node_v1`) posts the table to, in table order:
/// one for each node that is a gossip target. A state rendered as JSON text is
/// quoted and never equals `on`, so there is no target and the list is empty.
pub fn sync_node_v1_targets(cluster: &Cluster, local_id: &String) -> (r: Vec<String>)
    ensures
        forall|id: Seq<char>| #[trigger] cluster@.contains_key(id) ==> !gossip_target(id, cluster@[id], local_id@),
        r@.len() == 0,
{
    let entries = cluster.entries();
    let ghost es = entries_view(entries@);
    proof {
        lemma_table_of(es);
        reveal_strlit("on");
    }
    let n = entries.len();
    let mut urls: Vec<String> = Vec::new();
    let mut i: usize = 0;
    while i < n
        invariant
            n == entries@.len(),
            es == entries_view(entries@),
            i <= n,
            urls@.len() == 0,
            "on"@ =~= seq!['o', 'n'],
            forall|j: int| 0 <= j < i ==> !#[trigger] gossip_target(es[j].0, es[j].1, local_id@),
        decreases n - i,
    {
        let state_text = json_text_of_string(&entries[i].1.state);
        assert(es[i as int] == (entries@[i as int].0@, entries@[i as int].1@));
        proof {
            lemma_json_string_text_quoted(entries@[i as int].1.state@);
        }
        if gossip_target_check(&state_text, &entries[i].0, local_id) {
            let address_text = json_text_of_string(&entries[i].1.address);
            urls.push(gossip_url_for(&address_text));
        }
        i = i + 1;
    }
    assert forall|id: Seq<char>| #[trigger] cluster@.contains_key(id) implies !gossip_target(
        id,
        cluster@[id],
        local_id@,
    ) by {
        let j = choose|j: int| 0 <= j < es.len() && es[j].0 == id;
        assert(!gossip_target(es[j].0, es[j].1, local_id@));
    }
    urls
}

/// A merge loses no node: the merged table knows exactly the nodes of both
/// tables, and each of its records carries an `nv` at least as high as either
/// side's copy.
pub proof fn law_merge_keeps_every_node(local: ClusterView, remote: ClusterView)
    ensures
        merged(local, remote).dom() == local.dom().union(remote.dom()),
        forall|id: Seq<char>| #[trigger] remote.contains_key(id) ==> merged(local, remote)[id].nv >= remote[id].nv,
        forall|id: Seq<char>| #[trigger] local.contains_key(id) ==> merged(local, remote)[id].nv >= local[id].nv,
{
    assert(merged(local, remote).dom() =~= local.dom().union(remote.dom()));
}

/// Receiving the same table twice changes nothing the second time, and the
/// reply is the same both times.
pub proof fn law_sync_is_idempotent(local: ClusterView, remote: ClusterView)
    ensures
        merged(merged(local, remote), remote) == merged(local, remote),
        local_is_newer(merged(local, remote), remote) == local_is_newer(local, remote),
{
    let once = merged(local, remote);
    assert(merged(once, remote) =~= once);
    if local_is_newer(once, remote) {
        let id = choose|id: Seq<char>|
            #[trigger] once.contains_key(id) && remote.contains_key(id) && remote[id].nv < once[id].nv;
        assert(local.contains_key(id) && remote.contains_key(id) && remote[id].nv < local[id].nv);
    }
    if local_is_newer(local, remote) {
        let id = choose|id: Seq<char>|
            #[trigger] local.contains_key(id) && remote.contains_key(id) && remote[id].nv < local[id].nv;
        assert(once.contains_key(id) && remote.contains_key(id) && remote[id].nv < once[id].nv);
    }
}

/// A node that receives its own table keeps it unchanged and answers `ok`.
pub proof fn law_self_sync_is_quiet(local: ClusterView)
    ensures
        merged(local, local) == local,
        !local_is_newer(local, local),
{
    assert(merged(local, local) =~= local);
}

/// After node A merges B's table and B merges A's result, both know the same
/// nodes and hold the same `nv` for each of them.
pub proof fn law_exchange_agrees_on_versions(a: ClusterView, b: ClusterView)
    ensures
        merged(a, b).dom() == merged(b, merged(a, b)).dom(),
        forall|id: Seq<char>| #[trigger] merged(a, b).contains_key(id) ==> merged(a, b)[id].nv
            == merged(b, merged(a, b))[id].nv,
{
    let a2 = merged(a, b);
    let b2 = merged(b, a2);
    assert(a2.dom() =~= b2.dom());
}

/// A state edit wins the next synchronisation: a peer whose copy of the node
/// is no newer than the edited node's copy before the edit adopts the edited
/// record when it merges the edited table.
pub proof fn law_state_edit_is_adopted(
    mine: ClusterView,
    peer: ClusterView,
    id: Seq<char>,
    s: Seq<char>,
)
    requires
        mine.contains_key(id),
        mine[id].nv < i64::MAX,
        peer.contains_key(id) ==> peer[id].nv <= mine[id].nv,
    ensures
        merged(peer, with_state(mine, id, s))[id] == with_state(mine, id, s)[id],
        merged(peer, with_state(mine, id, s))[id].state == s,
{
}

/// A role edit wins the next synchronisation, as a state edit does.
pub proof fn law_role_edit_is_adopted(
    mine: ClusterView,
    peer: ClusterView,
    id: Seq<char>,
    role: Seq<char>,
)
    requires
        mine.contains_key(id),
        mine[id].nv < i64::MAX,
        peer.contains_key(id) ==> peer[id].nv <= mine[id].nv,
    ensures
        merged(peer, with_role(mine, id, role))[id] == with_role(mine, id, role)[id],
        merged(peer, with_role(mine, id, role))[id].role == role,
{
}

} // verus!
