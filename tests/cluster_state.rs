use corvus::{ClusterState, LeaderAction, SID_LEN};

#[test]
fn leader_needed_after_construction() {
    let s = ClusterState::with_sid("home".to_string(), "sid-a".to_string(), 1_000);
    assert!(s.leader_needed(1_000));
    assert!(s.leader_needed(500_000));
    assert!(!s.is_leader());
    assert_eq!(s.get_leader(), None);
    assert_eq!(s.heartbeat(1_000), LeaderAction::Announce);
}

#[test]
fn leader_needed_follows_staleness_window() {
    let mut s = ClusterState::with_sid("home".to_string(), "sid-a".to_string(), 0);
    s.set_leader("sid-b".to_string(), 100_000);
    assert!(!s.leader_needed(100_000));
    assert!(!s.leader_needed(110_000));
    assert!(!s.leader_needed(160_000));
    assert!(s.leader_needed(160_001));
    assert!(!s.leader_needed(50_000));
    assert_eq!(s.get_leader(), Some("sid-b".to_string()));
    assert_eq!(s.heartbeat(110_000), LeaderAction::Idle);
    assert_eq!(s.heartbeat(170_000), LeaderAction::Announce);
}

#[test]
fn own_announcement_makes_leader() {
    let mut s = ClusterState::with_sid("home".to_string(), "sid-a".to_string(), 0);
    s.set_leader("sid-a".to_string(), 10);
    assert!(s.is_leader());
    assert_eq!(s.heartbeat(10_000), LeaderAction::Announce);
    assert_eq!(s.heartbeat(1_000_000), LeaderAction::Announce);
    assert_eq!(s.get_sid(), "sid-a");
}

#[test]
fn two_nodes_racing_settle_on_one_leader() {
    let mut a = ClusterState::with_sid("a".to_string(), "AAA".to_string(), 0);
    let mut b = ClusterState::with_sid("b".to_string(), "BBB".to_string(), 0);
    assert_eq!(a.heartbeat(10_000), LeaderAction::Announce);
    assert_eq!(b.heartbeat(10_000), LeaderAction::Announce);
    for (id, t) in [("AAA", 10_001), ("BBB", 10_002)] {
        a.set_leader(id.to_string(), t);
        b.set_leader(id.to_string(), t);
    }
    assert!(!a.is_leader());
    assert!(b.is_leader());
    let mut t = 20_000;
    while t < 200_000 {
        let aa = a.heartbeat(t);
        let ba = b.heartbeat(t);
        assert_eq!(aa, LeaderAction::Idle);
        assert_eq!(ba, LeaderAction::Announce);
        a.set_leader(b.get_sid(), t + 1);
        b.set_leader(b.get_sid(), t + 1);
        assert!(b.is_leader() && !a.is_leader());
        t += 10_000;
    }
}

#[test]
fn fresh_session_identity_is_thirty_alphanumerics() {
    let s = ClusterState::new("home".to_string(), 0);
    let sid = s.get_sid();
    assert_eq!(sid.chars().count(), SID_LEN);
    assert!(sid.chars().all(|c| c.is_ascii_alphanumeric()));
    let t = ClusterState::new("home".to_string(), 0);
    assert_ne!(sid, t.get_sid());
}
