use zenoh_proto::congestion::{CongestionControl, LinkQueue, PushResult, ReliableWindow};
use zenoh_proto::consolidation::{consolidate, Reply};
use zenoh_proto::encoding::Encoding;
use zenoh_proto::hlc::{new_hlc, now_timestamp, Timestamp};
use zenoh_proto::peer_id::PeerId;
use zenoh_proto::query::{ConsolidationMode, QueryableInfo, Target};
use zenoh_proto::rname;
use zenoh_proto::routing::{select_targets, QueryableEntry};
use zenoh_proto::scouting::{scout_filter, Hello};
use zenoh_proto::session::{Session, SessionState};
use zenoh_proto::sub::{SubInfo, SubMode};
use zenoh_proto::whatami;
use zenoh_proto::zerror::ZError;

fn pid(b: u8) -> PeerId {
    let mut id = [0u8; 16];
    id[0] = b;
    PeerId::new(16, id)
}

fn reply(key: &str, t: u64, src: u8) -> Reply {
    Reply {
        key: String::from(key),
        payload: vec![t as u8],
        timestamp: Timestamp::new(t, pid(src)),
        source: pid(src),
    }
}

#[test]
fn selector_algebra() {
    assert!(rname::intersect("/a/**", "/a/b/c"));
    assert!(rname::intersect("/a/*/c", "/a/b/c"));
    assert!(!rname::intersect("/a/*/c", "/a/b/d/c"));
    assert!(rname::includes("/a/**", "/a/*"));
    assert!(!rname::includes("/a/*", "/a/**"));
    assert!(rname::intersect("/a/b", "/a/b"));
    assert!(!rname::intersect("/a/b", "/a/c"));
}

#[test]
fn selector_validity() {
    assert!(rname::is_valid_name("/a/b"));
    assert!(!rname::is_valid_name(""));
    assert!(!rname::is_valid_name("/"));
    assert!(!rname::is_valid_name("a/b"));
    assert!(!rname::is_valid_name("/a//b"));
    assert!(!rname::is_valid_name("/a/b/"));
}

#[test]
fn consolidation_full_latest_wins() {
    let replies = vec![reply("/k", 1, 1), reply("/k", 3, 3), reply("/k", 2, 2)];
    let out = consolidate(ConsolidationMode::Full, replies);
    assert_eq!(out.len(), 1);
    assert_eq!(out[0].timestamp.time, 3);
    assert_eq!(out[0].payload, vec![3]);
}

#[test]
fn consolidation_full_ties_break_by_source() {
    let replies = vec![reply("/k", 5, 1), reply("/k", 5, 9)];
    let out = consolidate(ConsolidationMode::Full, replies);
    assert_eq!(out.len(), 1);
    assert_eq!(out[0].source.as_slice()[0], 9);
}

#[test]
fn consolidation_lazy_keeps_first_per_key() {
    let replies = vec![reply("/k", 1, 1), reply("/k", 3, 3), reply("/j", 2, 2)];
    let out = consolidate(ConsolidationMode::Lazy, replies);
    assert_eq!(out.len(), 2);
    assert_eq!(out[0].key, "/k");
    assert_eq!(out[0].timestamp.time, 1);
    assert_eq!(out[1].key, "/j");
}

#[test]
fn consolidation_off_forwards_everything() {
    let replies = vec![reply("/k", 1, 1), reply("/k", 3, 3)];
    let out = consolidate(ConsolidationMode::Off, replies);
    assert_eq!(out.len(), 2);
}

#[test]
fn pub_sub_push_delivers_one_sample() {
    let mut s = Session::open(1000, 0);
    s.establish().unwrap();
    let id = s.declare_subscriber(String::from("/demo/example/**"), SubInfo::default()).unwrap();
    assert_eq!(id, 1);
    let enc = Encoding::from_prefix(3);
    s.route_publication(&String::from("/demo/example/a"), &b"hello".to_vec(), &enc).unwrap();
    assert_eq!(s.subscribers.len(), 1);
    assert_eq!(s.subscribers[0].delivered.len(), 1);
    assert_eq!(s.subscribers[0].delivered[0].key, "/demo/example/a");
    assert_eq!(s.subscribers[0].delivered[0].payload, b"hello".to_vec());
    assert_eq!(s.subscribers[0].buffer.len(), 0);
    // a publication outside the selector is not delivered
    s.route_publication(&String::from("/other/x"), &b"nope".to_vec(), &enc).unwrap();
    assert_eq!(s.subscribers[0].delivered.len(), 1);
}

#[test]
fn pull_subscription_buffers_until_pull() {
    let mut s = Session::open(1000, 0);
    s.establish().unwrap();
    let info = SubInfo { mode: SubMode::Pull, ..SubInfo::default() };
    let id = s.declare_subscriber(String::from("/demo/**"), info).unwrap();
    let enc = Encoding::from_prefix(3);
    for payload in [b"one".to_vec(), b"two".to_vec(), b"three".to_vec()] {
        s.route_publication(&String::from("/demo/a"), &payload, &enc).unwrap();
    }
    // nothing delivered before the pull
    assert_eq!(s.subscribers[0].delivered.len(), 0);
    assert_eq!(s.subscribers[0].buffer.len(), 3);
    let samples = s.pull(id).unwrap();
    assert_eq!(samples.len(), 3);
    assert_eq!(samples[0].payload, b"one".to_vec());
    assert_eq!(samples[1].payload, b"two".to_vec());
    assert_eq!(samples[2].payload, b"three".to_vec());
    assert_eq!(s.subscribers[0].buffer.len(), 0);
    // a second pull yields nothing new
    assert_eq!(s.pull(id).unwrap().len(), 0);
}

#[test]
fn query_best_matching_picks_nearest_complete() {
    let entries = vec![
        QueryableEntry {
            peer: pid(1),
            selector: String::from("/demo/**"),
            info: QueryableInfo { complete: 1, distance: 2 },
        },
        QueryableEntry {
            peer: pid(2),
            selector: String::from("/demo/**"),
            info: QueryableInfo { complete: 1, distance: 5 },
        },
    ];
    let r = select_targets(&entries, "/demo/a", &Target::BestMatching);
    assert_eq!(r, vec![0usize]);
}

#[test]
fn query_best_matching_prefers_complete() {
    let entries = vec![
        QueryableEntry {
            peer: pid(1),
            selector: String::from("/demo/**"),
            info: QueryableInfo { complete: 0, distance: 0 },
        },
        QueryableEntry {
            peer: pid(2),
            selector: String::from("/demo/**"),
            info: QueryableInfo { complete: 1, distance: 9 },
        },
    ];
    let r = select_targets(&entries, "/demo/a", &Target::BestMatching);
    assert_eq!(r, vec![1usize]);
}

#[test]
fn query_target_variants() {
    let entries = vec![
        QueryableEntry {
            peer: pid(1),
            selector: String::from("/demo/**"),
            info: QueryableInfo { complete: 1, distance: 2 },
        },
        QueryableEntry {
            peer: pid(2),
            selector: String::from("/elsewhere/**"),
            info: QueryableInfo { complete: 1, distance: 1 },
        },
        QueryableEntry {
            peer: pid(3),
            selector: String::from("/demo/a"),
            info: QueryableInfo { complete: 0, distance: 0 },
        },
    ];
    assert_eq!(select_targets(&entries, "/demo/a", &Target::All), vec![0usize, 2]);
    assert_eq!(select_targets(&entries, "/demo/a", &Target::AllComplete), vec![0usize]);
    assert_eq!(select_targets(&entries, "/demo/a", &Target::NoTarget), Vec::<usize>::new());
    assert_eq!(select_targets(&entries, "/demo/a", &Target::Complete(5)), vec![0usize]);
    assert_eq!(select_targets(&entries, "/demo/a", &Target::Complete(0)), Vec::<usize>::new());
}

#[test]
fn keep_alive_timeout_closes_session() {
    let mut s = Session::open(1000, 0);
    s.establish().unwrap();
    assert_eq!(s.state, SessionState::Established);
    assert_eq!(s.keep_alive_interval(), 250);
    // an inbound frame resets the countdown
    s.on_inbound(100);
    assert!(!s.check_lease(3500));
    assert_eq!(s.state, SessionState::Established);
    // 3.5 leases of silence after the last inbound frame
    assert!(s.check_lease(3601));
    assert_eq!(s.state, SessionState::KeepAliveLost);
    s.start_closing();
    assert_eq!(s.state, SessionState::Closing);
    s.finish_close();
    assert_eq!(s.state, SessionState::Closed);
    assert_eq!(s.resources.len(), 0);
}

#[test]
fn keep_alive_due_at_quarter_lease() {
    let s = Session::open(1000, 0);
    assert!(!s.keep_alive_due(200, 0));
    assert!(s.keep_alive_due(250, 0));
}

#[test]
fn operations_fail_off_established_sessions() {
    let mut s = Session::open(1000, 0);
    let e = s.declare_subscriber(String::from("/a"), SubInfo::default()).unwrap_err();
    assert!(matches!(e, ZError::SessionClosed));
    let e = s.route_publication(&String::from("/a"), &vec![1], &Encoding::default()).unwrap_err();
    assert!(matches!(e, ZError::SessionClosed));
    let e = s.pull(1).unwrap_err();
    assert!(matches!(e, ZError::SessionClosed));
    // a second establish attempt is a handshake failure
    s.establish().unwrap();
    let e = s.establish().unwrap_err();
    assert!(matches!(e, ZError::Handshake));
}

#[test]
fn declarations_validate_selectors() {
    let mut s = Session::open(1000, 0);
    s.establish().unwrap();
    let e = s.declare_subscriber(String::from("a//b"), SubInfo::default()).unwrap_err();
    assert!(matches!(e, ZError::InvalidSelector));
    let e = s.declare_resource(String::from("")).unwrap_err();
    assert!(matches!(e, ZError::InvalidSelector));
}

#[test]
fn resource_registration_and_resolution() {
    let mut s = Session::open(1000, 0);
    s.establish().unwrap();
    let rid = s.declare_resource(String::from("/demo/example")).unwrap();
    assert_eq!(rid, 1);
    let rid2 = s.declare_resource(String::from("/demo/other")).unwrap();
    assert_eq!(rid2, 2);
    assert_eq!(s.resolve(rid).unwrap().as_str(), "/demo/example");
    assert_eq!(s.resolve(rid2).unwrap().as_str(), "/demo/other");
    assert!(s.resolve(99).is_none());
}

#[test]
fn queryable_declaration_and_undeclare() {
    let mut s = Session::open(1000, 0);
    s.establish().unwrap();
    s.declare_queryable(String::from("/demo/**"), QueryableInfo::default()).unwrap();
    assert_eq!(s.queryables.len(), 1);
    let id = s.declare_subscriber(String::from("/demo/**"), SubInfo::default()).unwrap();
    assert!(s.undeclare_subscriber(id));
    assert!(!s.undeclare_subscriber(id));
    assert_eq!(s.subscribers.len(), 0);
}

#[test]
fn scout_finds_router() {
    let network = vec![
        Hello::new(Some(pid(1)), whatami::ROUTER, vec![String::from("tcp/10.0.0.1:7447")]),
        Hello::new(None, whatami::CLIENT, Vec::new()),
    ];
    let hellos = scout_filter(whatami::PEER | whatami::ROUTER, &network);
    assert_eq!(hellos.len(), 1);
    assert!((hellos[0].whatami & whatami::ROUTER) != 0);
    assert_eq!(hellos[0].locators.len(), 1);
}

#[test]
fn scout_keeps_order_of_matches() {
    let network = vec![
        Hello::new(None, whatami::PEER, Vec::new()),
        Hello::new(None, whatami::CLIENT, Vec::new()),
        Hello::new(None, whatami::ROUTER, Vec::new()),
    ];
    let hellos = scout_filter(whatami::PEER | whatami::ROUTER, &network);
    assert_eq!(hellos.len(), 2);
    assert_eq!(hellos[0].whatami, whatami::PEER);
    assert_eq!(hellos[1].whatami, whatami::ROUTER);
}

#[test]
fn congestion_drop_never_blocks_and_counts() {
    let mut q = LinkQueue::new(2);
    assert_eq!(q.push(vec![1], CongestionControl::Drop), PushResult::Enqueued);
    assert_eq!(q.push(vec![2], CongestionControl::Drop), PushResult::Enqueued);
    assert_eq!(q.dropped(), 0);
    assert_eq!(q.push(vec![3], CongestionControl::Drop), PushResult::Dropped);
    assert_eq!(q.dropped(), 1);
    assert_eq!(q.push(vec![4], CongestionControl::Drop), PushResult::Dropped);
    assert_eq!(q.dropped(), 2);
    assert_eq!(q.len(), 2);
}

#[test]
fn congestion_block_asks_caller_to_wait() {
    let mut q = LinkQueue::new(1);
    assert_eq!(q.push(vec![1], CongestionControl::Block), PushResult::Enqueued);
    assert_eq!(q.push(vec![2], CongestionControl::Block), PushResult::WouldBlock);
    assert_eq!(q.dropped(), 0);
    // space opens up once the link flushes a frame
    assert_eq!(q.pop(), Some(vec![1]));
    assert_eq!(q.push(vec![2], CongestionControl::Block), PushResult::Enqueued);
    assert_eq!(q.pop(), Some(vec![2]));
    assert_eq!(q.pop(), None);
}

#[test]
fn reliable_frames_carry_increasing_sequence_numbers() {
    let mut w = ReliableWindow::new();
    assert_eq!(w.send(vec![1]), Some(0));
    assert_eq!(w.send(vec![2]), Some(1));
    assert_eq!(w.send(vec![3]), Some(2));
}

#[test]
fn timestamps_order_by_time_then_source() {
    let a = Timestamp::new(1, pid(9));
    let b = Timestamp::new(2, pid(1));
    assert!(a.lt(&b));
    assert!(!b.lt(&a));
    let c = Timestamp::new(2, pid(3));
    assert!(b.lt(&c));
}

#[test]
fn hlc_issues_timestamps() {
    let h = new_hlc();
    let t1 = now_timestamp(&h);
    let t2 = now_timestamp(&h);
    assert!(t1.id.size() <= 16);
    // the clock never runs backwards
    assert!(t1.time <= t2.time);
}
