use cluster_node::cluster::edit::{role, state, EditError};
use cluster_node::cluster::{
    cluster_add, cluster_init_table, cluster_input_device_step, leader_beat_lost, leader_beat_tick,
    listen_leader_beat_begin, node_add_check, node_info_from_reply, BeatCheck, Cluster, Node,
    NodeAddCheck, NodeInfo, NodeRecord, ReplyError,
};
use cluster_node::state::GlobalState;
use cluster_node::sync::{
    gossip_target_check, gossip_url_for, node_sync_v1, plan_for, sync_node_plan,
    sync_node_v1_targets, SyncPlan, SyncReply,
};

fn rec(address: &str, state: &str, nv: i64) -> NodeRecord {
    NodeRecord {
        address: address.to_string(),
        state: state.to_string(),
        role: "follower".to_string(),
        version: "0.1.0".to_string(),
        term: 0,
        nv,
        others: Vec::new(),
    }
}

fn table(items: &[(&str, &str, i64)]) -> Cluster {
    let mut c = Cluster::new();
    for (id, addr, nv) in items {
        c.insert(id.to_string(), rec(addr, "on", *nv));
    }
    c
}

fn nv_of(c: &Cluster, id: &str) -> Option<i64> {
    c.get(&id.to_string()).map(|r| r.nv)
}

fn addr_of(c: &Cluster, id: &str) -> Option<String> {
    c.get(&id.to_string()).map(|r| r.address.clone())
}

fn ids(c: &Cluster) -> Vec<String> {
    let mut v: Vec<String> = c.entries().iter().map(|e| e.0.clone()).collect();
    v.sort();
    v
}

#[test]
fn insert_then_get_and_len() {
    let mut c = Cluster::new();
    assert_eq!(c.len(), 0);
    assert!(c.get(&"a".to_string()).is_none());
    c.insert("a".to_string(), rec("1.1.1.1:8000", "on", 0));
    c.insert("b".to_string(), rec("2.2.2.2:8000", "on", 0));
    assert_eq!(c.len(), 2);
    c.insert("a".to_string(), rec("3.3.3.3:8000", "off", 4));
    assert_eq!(c.len(), 2);
    assert_eq!(addr_of(&c, "a"), Some("3.3.3.3:8000".to_string()));
    assert_eq!(nv_of(&c, "a"), Some(4));
    assert!(c.contains(&"b".to_string()));
    assert!(!c.contains(&"c".to_string()));
    assert_eq!(ids(&c), vec!["a".to_string(), "b".to_string()]);
}

#[test]
fn initial_table_holds_the_node_alone() {
    let c = cluster_init_table(
        "id1".to_string(),
        &"192.168.1.5".to_string(),
        &"8000".to_string(),
        &"0.1.0".to_string(),
    );
    assert_eq!(c.len(), 1);
    let r = c.get(&"id1".to_string()).unwrap();
    assert_eq!(r.address, "192.168.1.5:8000");
    assert_eq!(r.state, "on");
    assert_eq!(r.role, "follower");
    assert_eq!(r.version, "0.1.0");
    assert_eq!((r.term, r.nv), (0, 0));
}

#[test]
fn cluster_add_stores_the_reported_fields() {
    let mut c = table(&[("a", "1:1", 0)]);
    let info = NodeInfo {
        id: "null".to_string(),
        state: "on".to_string(),
        role: "follower".to_string(),
        version: "0.1.0".to_string(),
        term: 2,
        nv: 7,
    };
    cluster_add(&mut c, &"10.0.0.9:8000".to_string(), info);
    assert_eq!(c.len(), 2);
    let r = c.get(&"null".to_string()).unwrap();
    assert_eq!(r.address, "10.0.0.9:8000");
    assert_eq!((r.term, r.nv), (2, 7));
}

#[test]
fn node_add_decisions() {
    let c = table(&[("a", "1:1", 0), ("b", "2:2", 0)]);
    let a = "a".to_string();
    assert!(node_add_check(&a, &a, &c) == NodeAddCheck::LocalAddress);
    assert!(node_add_check(&"b".to_string(), &a, &c) == NodeAddCheck::AlreadyMember);
    assert!(node_add_check(&"z".to_string(), &a, &c) == NodeAddCheck::Join);
}

#[test]
fn state_edit_bumps_version() {
    let mut c = table(&[("a", "1:1", 3), ("b", "2:2", 5)]);
    assert!(state(&mut c, &"a".to_string(), &"off".to_string()).is_ok());
    let r = c.get(&"a".to_string()).unwrap();
    assert_eq!(r.state, "off");
    assert_eq!(r.nv, 4);
    assert_eq!(nv_of(&c, "b"), Some(5));
    assert!(state(&mut c, &"a".to_string(), &"del".to_string()).is_ok());
    assert_eq!(nv_of(&c, "a"), Some(5));
}

#[test]
fn state_edit_refuses_unknown_state() {
    let mut c = table(&[("a", "1:1", 3)]);
    match state(&mut c, &"a".to_string(), &"paused".to_string()) {
        Err(EditError::InvalidState(s)) => assert_eq!(s, "paused"),
        _ => panic!("expected a refusal"),
    }
    assert_eq!(nv_of(&c, "a"), Some(3));
    assert_eq!(c.get(&"a".to_string()).unwrap().state, "on");
}

#[test]
fn role_edit_and_refusal() {
    let mut c = table(&[("a", "1:1", 0)]);
    assert!(role(&mut c, &"a".to_string(), &"leader".to_string()).is_ok());
    assert_eq!(c.get(&"a".to_string()).unwrap().role, "leader");
    assert_eq!(nv_of(&c, "a"), Some(1));
    match role(&mut c, &"a".to_string(), &"boss".to_string()) {
        Err(EditError::InvalidRole(s)) => assert_eq!(s, "boss"),
        _ => panic!("expected a refusal"),
    }
    assert_eq!(nv_of(&c, "a"), Some(1));
}

#[test]
fn merge_adds_replaces_and_reports() {
    let mut local = table(&[("a", "local-a", 5), ("b", "local-b", 1), ("c", "local-c", 2)]);
    let remote = table(&[("a", "remote-a", 3), ("b", "remote-b", 4), ("d", "remote-d", 0), ("c", "remote-c", 2)]);
    let reply = node_sync_v1(&mut local, &remote);
    assert!(reply == SyncReply::Edit);
    assert_eq!(addr_of(&local, "a"), Some("local-a".to_string()));
    assert_eq!(addr_of(&local, "b"), Some("remote-b".to_string()));
    assert_eq!(addr_of(&local, "c"), Some("local-c".to_string()));
    assert_eq!(addr_of(&local, "d"), Some("remote-d".to_string()));
    assert_eq!(local.len(), 4);
}

#[test]
fn merge_without_newer_local_copy_replies_ok() {
    let mut local = table(&[("a", "local-a", 1)]);
    let remote = table(&[("a", "remote-a", 1), ("b", "remote-b", 0)]);
    assert!(node_sync_v1(&mut local, &remote) == SyncReply::UpToDate);
    assert_eq!(addr_of(&local, "a"), Some("local-a".to_string()));
    assert_eq!(local.len(), 2);
}

#[test]
fn sync_is_idempotent_on_sample() {
    let mut local = table(&[("a", "la", 5), ("b", "lb", 1)]);
    let remote = table(&[("a", "ra", 3), ("b", "rb", 4), ("d", "rd", 0)]);
    let first = node_sync_v1(&mut local, &remote);
    let snapshot: Vec<(String, String, i64)> =
        local.entries().iter().map(|e| (e.0.clone(), e.1.address.clone(), e.1.nv)).collect();
    let second = node_sync_v1(&mut local, &remote);
    assert!(first == second);
    let again: Vec<(String, String, i64)> =
        local.entries().iter().map(|e| (e.0.clone(), e.1.address.clone(), e.1.nv)).collect();
    assert_eq!(snapshot, again);
}

#[test]
fn self_sync_is_quiet_on_sample() {
    let mut local = table(&[("a", "la", 5), ("b", "lb", 1)]);
    let copy = table(&[("a", "la", 5), ("b", "lb", 1)]);
    assert!(node_sync_v1(&mut local, &copy) == SyncReply::UpToDate);
    assert_eq!(local.len(), 2);
    assert_eq!(nv_of(&local, "a"), Some(5));
}

#[test]
fn exchange_agrees_on_versions_on_sample() {
    let mut a = table(&[("x", "ax", 5), ("y", "ay", 1)]);
    let mut b = table(&[("x", "bx", 2), ("z", "bz", 9)]);
    let b_copy = table(&[("x", "bx", 2), ("z", "bz", 9)]);
    node_sync_v1(&mut a, &b_copy);
    node_sync_v1(&mut b, &a);
    assert_eq!(ids(&a), ids(&b));
    for id in ["x", "y", "z"] {
        assert_eq!(nv_of(&a, id), nv_of(&b, id));
    }
}

#[test]
fn edited_record_is_adopted_by_peer() {
    let mut mine = table(&[("a", "1:1", 3)]);
    let mut peer = table(&[("a", "1:1", 3)]);
    state(&mut mine, &"a".to_string(), &"off".to_string()).ok().unwrap();
    node_sync_v1(&mut peer, &mine);
    assert_eq!(peer.get(&"a".to_string()).unwrap().state, "off");
    assert_eq!(nv_of(&peer, "a"), Some(4));
}

#[test]
fn sync_plan_never_takes_leader_branch() {
    let mut c = table(&[("a", "1:1", 0)]);
    role(&mut c, &"a".to_string(), &"leader".to_string()).ok().unwrap();
    assert!(sync_node_plan(&c, &"a".to_string()) == SyncPlan::Gossip);
    let big = table(&[("a", "1", 0), ("b", "2", 0), ("c", "3", 0)]);
    assert!(sync_node_plan(&big, &"a".to_string()) == SyncPlan::Idle);
}

#[test]
fn gossip_has_no_target_even_for_nodes_on() {
    let c = table(&[("a", "1:1", 0), ("b", "2:2", 0)]);
    assert!(c.get(&"b".to_string()).unwrap().state == "on");
    assert!(sync_node_v1_targets(&c, &"a".to_string()).is_empty());
}

#[test]
fn new_node_waits_in_range() {
    for _ in 0..50 {
        let n = Node::new();
        assert!((300..700).contains(&n.wait_for_leader()));
    }
}

#[test]
fn beat_ticks_count_consecutive_misses() {
    let n = Node::new();
    let last = n.last_leader_beat();
    assert!(leader_beat_tick(0, last, &n) == BeatCheck::Alive);
    assert!(leader_beat_tick(2, last - 5, &n) == BeatCheck::Alive);
    assert!(leader_beat_tick(0, last + 1, &n) == BeatCheck::Missed(1));
    assert!(leader_beat_tick(1, last + 1, &n) == BeatCheck::Missed(2));
    assert!(leader_beat_tick(2, last + 1, &n) == BeatCheck::Lost);
}

#[test]
fn leader_beat_refreshes_last_beat() {
    let mut n = Node::new();
    let wait = n.wait_for_leader();
    n.leader_beat();
    assert_eq!(n.wait_for_leader(), wait);
    assert!(leader_beat_tick(0, n.last_leader_beat(), &n) == BeatCheck::Alive);
}

#[test]
fn listener_runs_only_in_clusters_of_three() {
    let mut s = GlobalState::new();
    assert!(!listen_leader_beat_begin(&table(&[("a", "1", 0), ("b", "2", 0)]), &mut s));
    assert!(!s.listen_leader_beat);
    assert!(listen_leader_beat_begin(&table(&[("a", "1", 0), ("b", "2", 0), ("c", "3", 0)]), &mut s));
    assert!(s.listen_leader_beat);
}

#[test]
fn lost_leader_makes_node_candidate() {
    let mut c = table(&[("a", "1", 0), ("b", "2", 0), ("c", "3", 0)]);
    let mut s = GlobalState::new();
    s.listen_leader_beat = true;
    leader_beat_lost(&mut c, &mut s, &"b".to_string());
    assert_eq!(c.get(&"b".to_string()).unwrap().role, "candidate");
    assert_eq!(nv_of(&c, "b"), Some(1));
    assert!(!s.listen_leader_beat);
}

#[test]
fn input_device_detects_changes() {
    let (first, changed) = cluster_input_device_step(&String::new(), &"{}".to_string());
    assert!(changed);
    assert_eq!(first.len(), 32);
    let (second, changed_again) = cluster_input_device_step(&first, &"{}".to_string());
    assert!(!changed_again);
    assert_eq!(first, second);
    let (_, changed_third) = cluster_input_device_step(&first, &"{\"a\":1}".to_string());
    assert!(changed_third);
}

#[test]
fn plan_for_rendered_roles() {
    assert!(plan_for(&"leader".to_string(), 5) == SyncPlan::Leader);
    assert!(plan_for(&"\"leader\"".to_string(), 2) == SyncPlan::Gossip);
    assert!(plan_for(&"follower".to_string(), 3) == SyncPlan::Idle);
}

#[test]
fn gossip_target_rules() {
    let a = "a".to_string();
    let b = "b".to_string();
    assert!(gossip_target_check(&"on".to_string(), &b, &a));
    assert!(!gossip_target_check(&"on".to_string(), &a, &a));
    assert!(!gossip_target_check(&"\"on\"".to_string(), &b, &a));
    assert!(!gossip_target_check(&"off".to_string(), &b, &a));
    assert_eq!(gossip_url_for(&"\"1.2.3.4:8000\"".to_string()), "http://\"1.2.3.4:8000\"/api/node/sync/v1");
}

#[test]
fn leader_beat_at_records_the_time() {
    let mut n = Node::new();
    let wait = n.wait_for_leader();
    n.leader_beat_at(1_700_000_000);
    assert_eq!(n.last_leader_beat(), 1_700_000_000);
    assert_eq!(n.wait_for_leader(), wait);
    assert!(leader_beat_tick(0, 1_700_000_001, &n) == BeatCheck::Missed(1));
}

#[test]
fn node_info_is_read_from_reply() {
    let reply = r#"{"address":"10.0.0.2:8000","state":"on","role":"follower","term":3,"nv":9,"version":"0.1.0"}"#;
    let info = node_info_from_reply(reply).ok().unwrap();
    assert_eq!(info.id, "null");
    assert_eq!(info.state, "on");
    assert_eq!(info.role, "follower");
    assert_eq!(info.version, "0.1.0");
    assert_eq!((info.term, info.nv), (3, 9));
    let with_id = node_info_from_reply(r#"{"id":"abc","term":0,"nv":1}"#).ok().unwrap();
    assert_eq!(with_id.id, "abc");
    assert_eq!(with_id.state, "null");
    assert!(matches!(node_info_from_reply("not json"), Err(ReplyError::NotJson)));
    assert!(matches!(node_info_from_reply(r#"{"nv":1}"#), Err(ReplyError::MissingTerm)));
    assert!(matches!(node_info_from_reply(r#"{"term":"1","nv":1}"#), Err(ReplyError::MissingTerm)));
    assert!(matches!(node_info_from_reply(r#"{"term":1}"#), Err(ReplyError::MissingNv)));
}

#[test]
fn node_new_at_holds_its_arguments() {
    let n = Node::new_at(450, 1_000);
    assert_eq!(n.wait_for_leader(), 450);
    assert_eq!(n.last_leader_beat(), 1_000);
    assert!(leader_beat_tick(0, 1_000, &n) == BeatCheck::Alive);
    assert!(leader_beat_tick(0, 1_001, &n) == BeatCheck::Missed(1));
}

#[test]
fn leader_lost_at_third_miss_in_a_row() {
    let n = Node::new_at(300, 100);
    // overdue looks (now > 100) and in-time looks (now = 100)
    let looks = [101, 101, 100, 101, 101, 100, 101, 101, 101, 101];
    let mut count: u32 = 0;
    let mut lost_at = None;
    for (i, now) in looks.iter().enumerate() {
        match leader_beat_tick(count, *now, &n) {
            BeatCheck::Alive => count = 0,
            BeatCheck::Missed(c) => count = c,
            BeatCheck::Lost => {
                lost_at = Some(i);
                break;
            }
        }
    }
    assert_eq!(lost_at, Some(8));
}

#[test]
fn other_fields_travel_with_the_record() {
    let mut peer_rec = rec("remote-a", "on", 7);
    peer_rec.others = vec![("zone".to_string(), "\"eu\"".to_string()), ("weight".to_string(), "3".to_string())];
    let mut remote = Cluster::new();
    remote.insert("a".to_string(), peer_rec);
    let mut local = table(&[("a", "local-a", 1)]);
    node_sync_v1(&mut local, &remote);
    let got = local.get(&"a".to_string()).unwrap();
    assert_eq!(got.others, vec![("zone".to_string(), "\"eu\"".to_string()), ("weight".to_string(), "3".to_string())]);
    state(&mut local, &"a".to_string(), &"off".to_string()).ok().unwrap();
    let edited = local.get(&"a".to_string()).unwrap();
    assert_eq!(edited.nv, 8);
    assert_eq!(edited.others.len(), 2);
    assert_eq!(edited.duplicate().others, edited.others);
}
