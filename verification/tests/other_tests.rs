use cluster_node::raft::{listen_leader_beat_step, Node, RaftWatch};
use cluster_node::server::{visit_count, watch_server_step, AppState, ServerWatch, SyncForm};
use cluster_node::utils::{id_from_ipconfig, id_from_serial, md5, ColorPrint, Config};

#[test]
fn md5_known_digests() {
    assert_eq!(md5(""), "d41d8cd98f00b204e9800998ecf8427e");
    assert_eq!(md5("abc"), "900150983cd24fb0d6963f7d28e17f72");
}

#[test]
fn ids_from_command_output() {
    assert_eq!(id_from_serial("abc"), "900150983cd24fb0d6963f7d28e17f72");
    let out = "Host\r\n   DUID  . . . . . . . : 00-01-AB\r\n   more\r\n";
    let id = id_from_ipconfig(out, &"8000".to_string()).unwrap();
    assert_eq!(id, md5("00-01-AB8000"));
    assert!(id_from_ipconfig("no duid here", &"8000".to_string()).is_none());
}

#[test]
fn coloured_lines() {
    assert_eq!(ColorPrint::redln("x".to_string()), "\u{001B}[31;1mx\u{001B}[0m");
    assert_eq!(ColorPrint::greenln("ok".to_string()), "\u{001B}[32;1mok\u{001B}[0m");
    let c = Config { port: "8000".to_string() };
    assert_eq!(c.port, "8000");
}

#[test]
fn raft_node_starts_as_follower() {
    let n = Node::new();
    assert_eq!(n.role(), "FOLLOWER");
    assert!((300..500).contains(&n.wait_for_leader()));
}

#[test]
fn raft_watch_steps() {
    let mut n = Node::new();
    let last = n.last_leader_beat();
    assert!(listen_leader_beat_step(&n, last) == RaftWatch::Waiting);
    assert!(listen_leader_beat_step(&n, last + 1) == RaftWatch::Timeout);
    n.set_role("LEADER".to_string());
    assert!(listen_leader_beat_step(&n, last + 1) == RaftWatch::Leader);
    n.set_role("CANDIDATE".to_string());
    assert!(listen_leader_beat_step(&n, last) == RaftWatch::Candidate);
    n.set_role("OBSERVER".to_string());
    assert!(listen_leader_beat_step(&n, last + 1) == RaftWatch::Timeout);
}

#[test]
fn visit_counter_counts() {
    let mut s = AppState { count: 0 };
    assert_eq!(visit_count(&mut s), "1");
    assert_eq!(visit_count(&mut s), "2");
    let mut big = AppState { count: 41 };
    assert_eq!(visit_count(&mut big), "42");
    let form = SyncForm { content: "{}".to_string() };
    assert_eq!(form.content, "{}");
}

#[test]
fn server_probe_gives_up_after_four_failures() {
    assert!(watch_server_step(0, true) == (ServerWatch::Started, 0));
    assert!(watch_server_step(0, false) == (ServerWatch::Retry, 1));
    assert!(watch_server_step(2, false) == (ServerWatch::Retry, 3));
    assert!(watch_server_step(3, false) == (ServerWatch::GiveUp, 4));
    assert!(watch_server_step(3, true) == (ServerWatch::Started, 3));
}

#[test]
fn raft_node_new_at_and_last_beat() {
    let mut n = Node::new_at(400, 50);
    assert_eq!(n.role(), "FOLLOWER");
    assert_eq!(n.wait_for_leader(), 400);
    assert_eq!(n.last_leader_beat(), 50);
    assert!(listen_leader_beat_step(&n, 51) == RaftWatch::Timeout);
    n.set_last_beat(60);
    assert_eq!(n.last_leader_beat(), 60);
    assert!(listen_leader_beat_step(&n, 55) == RaftWatch::Waiting);
}
