use group_types::event::{Event, PeerId, GROUP_CHAT_ID};
use group_types::log::{EventLog, LogError};
use group_types::members::members;
use group_types::presence::Presence;
use group_types::protocol::{LayerEvent, LayerResult};
use group_types::session::{GroupSession, Lifecycle, Registry, SessionError};
use group_types::sync::{apply_sync_res, sync_response};

fn peer(b: u8) -> PeerId {
    PeerId([b; 20])
}

fn join(b: u8, name: &str) -> Event {
    Event::MemberJoin(peer(b), name.to_string(), vec![b, b + 1])
}

fn message(b: u8, text: &str, time: i64) -> Event {
    Event::MessageCreate(peer(b), text.as_bytes().to_vec(), time)
}

fn log_of(events: Vec<Event>) -> EventLog {
    let mut log = EventLog::new();
    for e in events {
        log.append(e);
    }
    log
}

fn five_events() -> Vec<Event> {
    vec![
        join(1, "alice"),
        join(2, "bob"),
        message(1, "hi", 100),
        message(2, "hello", 101),
        Event::MemberLeave(peer(2)),
    ]
}

fn same_logs(a: &EventLog, b: &EventLog, from: i64, to: i64) -> bool {
    let x = a.read_range(from, to).unwrap();
    let y = b.read_range(from, to).unwrap();
    x.len() == y.len()
        && x.iter().zip(y.iter()).all(|(p, q)| p.0 == q.0 && p.1.same_content(&q.1))
}

fn apply(log: &mut EventLog, res: LayerEvent) -> Result<Option<LayerEvent>, LogError> {
    match res {
        LayerEvent::SyncRes(gid, _, from, to, adds, leaves, msgs) => {
            apply_sync_res(log, gid, from, to, &adds, &leaves, &msgs)
        }
        _ => panic!("not a SyncRes"),
    }
}

#[test]
fn append_assigns_sequential_heights() {
    let mut log = EventLog::new();
    assert_eq!(log.current_height(), 0);
    assert_eq!(log.append(join(1, "alice")), 1);
    assert_eq!(log.append(message(1, "hi", 5)), 2);
    assert_eq!(log.current_height(), 2);
}

#[test]
fn read_range_is_ordered_without_gaps() {
    let log = log_of(five_events());
    let r = log.read_range(2, 4).unwrap();
    let heights: Vec<i64> = r.iter().map(|p| p.0).collect();
    assert_eq!(heights, vec![2, 3, 4]);
    assert!(r[0].1.same_content(&join(2, "bob")));
    assert!(r[2].1.same_content(&message(2, "hello", 101)));
    let all = log.read_range(0, 5).unwrap();
    assert_eq!(all.iter().map(|p| p.0).collect::<Vec<i64>>(), vec![1, 2, 3, 4, 5]);
}

#[test]
fn read_range_rejects_bad_ranges() {
    let log = log_of(five_events());
    assert_eq!(log.read_range(4, 3).err(), Some(LogError::InvalidRange));
    assert_eq!(log.read_range(1, 6).err(), Some(LogError::InvalidRange));
    assert_eq!(log.read_range(3, 3).unwrap().len(), 1);
}

#[test]
fn apply_remote_twice_is_same_as_once() {
    let mut once = log_of(five_events());
    let mut twice = log_of(five_events());
    assert_eq!(once.apply_remote(6, message(1, "again", 7)), Ok(()));
    assert_eq!(twice.apply_remote(6, message(1, "again", 7)), Ok(()));
    assert_eq!(twice.apply_remote(6, message(1, "again", 7)), Ok(()));
    assert_eq!(once.current_height(), 6);
    assert_eq!(twice.current_height(), 6);
    assert!(same_logs(&once, &twice, 1, 6));
}

#[test]
fn apply_remote_past_the_next_height_is_out_of_order() {
    let mut log = log_of(five_events());
    assert_eq!(log.apply_remote(7, message(1, "late", 7)), Err(LogError::OutOfOrder));
    assert_eq!(log.apply_remote(0, message(1, "zero", 7)), Err(LogError::OutOfOrder));
    assert_eq!(log.current_height(), 5);
}

#[test]
fn fork_is_conflicting_history_and_keeps_lower_heights() {
    let mut a = log_of(five_events());
    a.append(message(1, "six", 6));
    let before = log_of(five_events());
    let mut b = log_of(five_events());
    b.append(message(1, "six", 6));
    a.append(message(1, "mine", 7));
    b.append(message(2, "theirs", 7));
    let theirs = b.read_range(7, 7).unwrap().remove(0).1;
    assert_eq!(a.apply_remote(7, theirs), Err(LogError::ConflictingHistory));
    assert_eq!(a.current_height(), 7);
    assert!(same_logs(&a, &b, 1, 6));
    assert!(same_logs(&a, &before, 1, 5));
    assert!(a.event_at(7).same_content(&message(1, "mine", 7)));
}

#[test]
fn empty_requester_catches_up_from_zero() {
    let host = log_of(vec![join(1, "alice"), message(1, "hi", 100), Event::MemberLeave(peer(1))]);
    let res = sync_response(&host, 9, 0);
    match &res {
        LayerEvent::SyncRes(gid, cur, from, to, adds, leaves, msgs) => {
            assert_eq!((*gid, *cur, *from, *to), (9, 3, 0, 3));
            assert_eq!(adds.len(), 1);
            assert_eq!(leaves.len(), 1);
            assert_eq!(msgs.len(), 1);
            assert_eq!(adds[0].0, 1);
            assert_eq!(adds[0].2, "alice");
            assert_eq!(msgs[0].0, 2);
            assert_eq!(msgs[0].2, b"hi".to_vec());
            assert_eq!(leaves[0].0, 3);
        }
        _ => panic!("expected SyncRes"),
    }
    let mut requester = EventLog::new();
    assert!(matches!(apply(&mut requester, res), Ok(None)));
    assert_eq!(requester.current_height(), 3);
    assert!(same_logs(&requester, &host, 1, 3));
}

#[test]
fn equal_heights_give_empty_delta() {
    let host = log_of(five_events());
    let mut requester = log_of(five_events());
    let res = sync_response(&host, 4, 5);
    match &res {
        LayerEvent::SyncRes(_, cur, from, to, adds, leaves, msgs) => {
            assert_eq!((*cur, *from, *to), (5, 5, 5));
            assert!(adds.is_empty() && leaves.is_empty() && msgs.is_empty());
        }
        _ => panic!("expected SyncRes"),
    }
    assert!(matches!(apply(&mut requester, res), Ok(None)));
    assert_eq!(requester.current_height(), 5);
    assert!(same_logs(&requester, &host, 1, 5));
}

#[test]
fn stale_response_is_reissued_from_local_height() {
    let mut host = log_of(five_events());
    host.append(message(2, "host six", 200));
    host.append(message(2, "host seven", 201));
    let mut requester = log_of(five_events());
    let res = sync_response(&host, 4, 5);
    requester.append(message(1, "local six", 300));
    match apply(&mut requester, res) {
        Ok(Some(LayerEvent::SyncReq(gid, from))) => {
            assert_eq!(gid, 4);
            assert_eq!(from, 6);
        }
        _ => panic!("expected a new SyncReq"),
    }
    assert_eq!(requester.current_height(), 6);
    assert!(requester.event_at(6).same_content(&message(1, "local six", 300)));
}

#[test]
fn round_trip_copies_the_host_range() {
    let mut host = log_of(five_events());
    host.append(join(3, "carol"));
    host.append(message(3, "yo", 400));
    host.append(Event::MemberLeave(peer(1)));
    let mut requester = log_of(vec![join(1, "alice"), join(2, "bob")]);
    let res = sync_response(&host, 4, 2);
    assert!(matches!(apply(&mut requester, res), Ok(None)));
    assert_eq!(requester.current_height(), 8);
    assert!(same_logs(&requester, &host, 3, 8));
}

#[test]
fn incomplete_delta_is_out_of_order_and_keeps_prefix() {
    let host = log_of(five_events());
    let mut requester = EventLog::new();
    match sync_response(&host, 4, 0) {
        LayerEvent::SyncRes(gid, _, from, to, adds, leaves, mut msgs) => {
            msgs.remove(0);
            let r = apply_sync_res(&mut requester, gid, from, to, &adds, &leaves, &msgs);
            assert_eq!(r.err(), Some(LogError::OutOfOrder));
        }
        _ => panic!("expected SyncRes"),
    }
    assert_eq!(requester.current_height(), 2);
    assert!(same_logs(&requester, &host, 1, 2));
}

#[test]
fn response_with_to_below_from_is_invalid_range() {
    let mut requester = log_of(five_events());
    let r = apply_sync_res(&mut requester, 4, 5, 3, &vec![], &vec![], &vec![]);
    assert_eq!(r.err(), Some(LogError::InvalidRange));
    assert_eq!(requester.current_height(), 5);
}

#[test]
fn requester_ahead_gets_empty_delta() {
    let host = log_of(vec![join(1, "alice")]);
    match sync_response(&host, 4, 3) {
        LayerEvent::SyncRes(_, cur, from, to, adds, leaves, msgs) => {
            assert_eq!((cur, from, to), (1, 3, 1));
            assert!(adds.is_empty() && leaves.is_empty() && msgs.is_empty());
        }
        _ => panic!("expected SyncRes"),
    }
}

#[test]
fn online_then_offline_restores_presence() {
    let mut p = Presence::new();
    p.mark_online(peer(1));
    p.mark_online(peer(1));
    assert_eq!(p.online_members().len(), 1);
    p.mark_online(peer(2));
    assert!(p.is_online(&peer(2)));
    p.mark_offline(&peer(2));
    assert!(!p.is_online(&peer(2)));
    assert!(p.is_online(&peer(1)));
    assert_eq!(p.online_members().len(), 1);
    p.mark_offline(&peer(2));
    assert_eq!(p.online_members().len(), 1);
}

#[test]
fn reconcile_replaces_presence() {
    let mut p = Presence::new();
    p.mark_online(peer(1));
    p.reconcile(&vec![peer(2), peer(3), peer(2)]);
    assert!(!p.is_online(&peer(1)));
    assert!(p.is_online(&peer(2)) && p.is_online(&peer(3)));
    assert_eq!(p.online_members().len(), 2);
}

#[test]
fn gcd_reads_every_variant() {
    assert_eq!(*LayerEvent::Offline(1).gcd(), 1);
    assert_eq!(*LayerEvent::MemberOnline(2, peer(1)).gcd(), 2);
    assert_eq!(*LayerEvent::GroupName(3, "x".to_string()).gcd(), 3);
    assert_eq!(*LayerEvent::Sync(4, 1, join(1, "a")).gcd(), 4);
    assert_eq!(*LayerEvent::SyncReq(5, 0).gcd(), 5);
    assert_eq!(*LayerEvent::SyncRes(6, 0, 0, 0, vec![], vec![], vec![]).gcd(), 6);
    assert_eq!(GROUP_CHAT_ID, 2);
}

#[test]
fn handshake_reports_name_and_height() {
    let mut s = GroupSession::new(7, "friends".to_string());
    s.log.append(join(1, "alice"));
    match s.handle_connect(peer(2), true) {
        Ok(LayerResult(gid, name, height)) => {
            assert_eq!((gid, name.as_str(), height), (7, "friends", 1));
        }
        _ => panic!("expected a result"),
    }
    assert!(s.presence.is_online(&peer(2)));
    assert_eq!(s.handle_connect(peer(3), false).err(), Some(SessionError::InvalidProof));
    assert!(!s.presence.is_online(&peer(3)));
}

#[test]
fn lifecycle_and_closing() {
    let mut s = GroupSession::new(7, "friends".to_string());
    assert!(matches!(s.handle(LayerEvent::Suspend(7)), Ok(None)));
    assert_eq!(s.state, Lifecycle::Suspended);
    assert!(matches!(s.handle(LayerEvent::Actived(7)), Ok(None)));
    assert_eq!(s.state, Lifecycle::Active);
    assert!(matches!(s.handle(LayerEvent::Offline(7)), Ok(None)));
    assert_eq!(s.state, Lifecycle::Offline);
    assert!(matches!(s.handle(LayerEvent::GroupName(7, "renamed".to_string())), Ok(None)));
    assert_eq!(s.name, "renamed");
    assert!(matches!(s.handle(LayerEvent::GroupClose(7)), Ok(None)));
    assert_eq!(s.state, Lifecycle::Closed);
    assert_eq!(s.handle(LayerEvent::Actived(7)).err(), Some(SessionError::GroupClosed));
    assert_eq!(s.state, Lifecycle::Closed);
    assert_eq!(s.handle_connect(peer(1), true).err(), Some(SessionError::GroupClosed));
}

#[test]
fn session_answers_presence_and_sync() {
    let mut s = GroupSession::new(7, "g".to_string());
    assert!(matches!(s.handle(LayerEvent::MemberOnline(7, peer(1))), Ok(None)));
    match s.handle(LayerEvent::MemberOnlineSync(7)) {
        Ok(Some(LayerEvent::MemberOnlineSyncResult(gid, v))) => {
            assert_eq!(gid, 7);
            assert_eq!(v.len(), 1);
            assert!(v[0].same(&peer(1)));
        }
        _ => panic!("expected a presence snapshot"),
    }
    assert!(matches!(s.handle(LayerEvent::Sync(7, 1, join(1, "a"))), Ok(None)));
    assert_eq!(
        s.handle(LayerEvent::Sync(7, 1, join(2, "b"))).err(),
        Some(SessionError::Log(LogError::ConflictingHistory))
    );
    match s.handle(LayerEvent::SyncReq(7, 0)) {
        Ok(Some(LayerEvent::SyncRes(gid, _, _, to, adds, _, _))) => {
            assert_eq!((gid, to, adds.len()), (7, 1, 1));
        }
        _ => panic!("expected SyncRes"),
    }
}

#[test]
fn registry_routes_by_group_id() {
    let mut reg = Registry::new();
    assert!(reg.open_group(7, "g".to_string()));
    assert!(!reg.open_group(7, "other".to_string()));
    assert_eq!(reg.dispatch(LayerEvent::Suspend(8)).err(), Some(SessionError::UnknownGroup));
    assert_eq!(reg.connect(8, peer(1), true).err(), Some(SessionError::UnknownGroup));
    assert!(matches!(reg.dispatch(LayerEvent::MemberOnline(7, peer(1))), Ok(None)));
    assert!(matches!(reg.connect(7, peer(2), true), Ok(LayerResult(7, _, 0))));
    let s = reg.get(7).unwrap();
    assert_eq!(s.name, "g");
    assert!(s.presence.is_online(&peer(1)) && s.presence.is_online(&peer(2)));
    assert!(reg.get(8).is_none());
    assert_eq!(reg.find(7), Some(0));
}

#[test]
fn member_records_follow_joins_and_leaves() {
    let mut log = log_of(five_events());
    log.append(join(2, "bob again"));
    let m = members(&log);
    assert_eq!(m.len(), 3);
    assert!(m[0].id.same(&peer(1)));
    assert_eq!((m[0].joined, m[0].name.as_str(), m[0].left), (1, "alice", None));
    assert_eq!(m[0].avatar, vec![1, 2]);
    assert!(m[1].id.same(&peer(2)));
    assert_eq!((m[1].joined, m[1].left), (2, Some(5)));
    assert_eq!((m[2].joined, m[2].name.as_str(), m[2].left), (6, "bob again", None));
}
