use lib_udp_server::protocol::{BellMessage, Point};
use lib_udp_server::relay::{GameState, IngressAction, Outbound, PeerAddr};

fn addr(n: u32) -> PeerAddr {
    PeerAddr::V4 { ipv4: 0x7f00_0001, port: 9000 + n as u16 }
}

fn coords(x: f32, y: f32, id: u32) -> Point {
    Point { x: x.to_bits(), y: y.to_bits(), id }
}

fn register(g: &mut GameState, x: f32, y: f32, from: PeerAddr) -> (u32, Vec<Point>) {
    match g.handle_message(BellMessage::PlayerRegistrationMessage(coords(x, y, 0)), from) {
        IngressAction::Reply(r) => (r.assigned_id, r.known_peers),
        other => panic!("registration not answered: {:?}", other),
    }
}

#[test]
fn first_registration_gets_id_zero_and_no_peers() {
    let mut g = GameState::new_with_capacity(8);
    let (id, peers) = register(&mut g, 0.0, 0.0, addr(0));
    assert_eq!(id, 0);
    assert!(peers.is_empty());
}

#[test]
fn second_registration_sees_first_player() {
    let mut g = GameState::new_with_capacity(8);
    register(&mut g, 0.0, 0.0, addr(0));
    let (id, peers) = register(&mut g, 0.0, 0.0, addr(1));
    assert_eq!(id, 1);
    assert_eq!(peers, vec![coords(0.0, 0.0, 0)]);
}

#[test]
fn position_change_is_broadcast_to_others_only() {
    let mut g = GameState::new_with_capacity(8);
    register(&mut g, 0.0, 0.0, addr(0));
    register(&mut g, 0.0, 0.0, addr(1));
    g.flush();
    let pc = BellMessage::PositionChangeMessage(coords(10.0, 5.0, 0));
    assert!(matches!(g.handle_message(pc, addr(0)), IngressAction::Queued));
    let out = g.flush();
    assert_eq!(out, vec![Outbound { to: 1, addr: addr(1), message: pc }]);
    assert!(out.iter().all(|o| o.to != 0));
    assert!(g.is_empty());
}

#[test]
fn overflow_drops_the_third_message() {
    let mut g = GameState::new_with_capacity(2);
    register(&mut g, 0.0, 0.0, addr(0));
    register(&mut g, 0.0, 0.0, addr(1));
    g.flush();
    let m1 = BellMessage::PositionChangeMessage(coords(1.0, 0.0, 0));
    let m2 = BellMessage::PositionChangeMessage(coords(2.0, 0.0, 0));
    let m3 = BellMessage::PositionChangeMessage(coords(3.0, 0.0, 0));
    assert!(matches!(g.handle_message(m1, addr(0)), IngressAction::Queued));
    assert!(matches!(g.handle_message(m2, addr(0)), IngressAction::Queued));
    assert!(matches!(g.handle_message(m3, addr(0)), IngressAction::Dropped));
    let out = g.flush();
    assert_eq!(out.len(), 2);
    assert_eq!(out[0].message, m1);
    assert_eq!(out[1].message, m2);
    assert!(out.iter().all(|o| o.message != m3));
    assert!(g.flush().is_empty());
}

#[test]
fn ids_are_issued_in_order_from_zero() {
    let mut g = GameState::new_with_capacity(1);
    let mut ids = Vec::new();
    for i in 0..5u32 {
        let (id, peers) = register(&mut g, i as f32, 0.0, addr(i));
        assert_eq!(peers.len(), i as usize);
        ids.push(id);
        // gameplay traffic between registrations issues no id
        g.handle_message(BellMessage::DeferMessage, addr(i));
        g.flush();
    }
    assert_eq!(ids, vec![0, 1, 2, 3, 4]);
}

#[test]
fn each_other_player_receives_a_change_once() {
    let mut g = GameState::new_with_capacity(16);
    for i in 0..4u32 {
        register(&mut g, 0.0, 0.0, addr(i));
    }
    g.flush();
    let pc = BellMessage::PositionChangeMessage(coords(4.5, -2.0, 2));
    g.handle_message(pc, addr(2));
    g.handle_message(BellMessage::PositionChangeMessage(coords(1.0, 1.0, 3)), addr(3));
    let out = g.flush();
    for to in 0..4u32 {
        let n = out.iter().filter(|o| o.to == to && o.message == pc).count();
        assert_eq!(n, if to == 2 { 0 } else { 1 });
    }
    assert_eq!(out.len(), 6);
}

#[test]
fn queue_never_exceeds_capacity() {
    let mut g = GameState::new_with_capacity(3);
    register(&mut g, 0.0, 0.0, addr(0));
    register(&mut g, 0.0, 0.0, addr(1));
    g.flush();
    let mut dropped = 0;
    for i in 0..7u32 {
        let m = BellMessage::PositionChangeMessage(coords(i as f32, 0.0, 0));
        if let IngressAction::Dropped = g.handle_message(m, addr(0)) {
            dropped += 1;
        }
    }
    assert_eq!(dropped, 4);
    assert!(g.is_full());
    let out = g.flush();
    assert_eq!(out.len(), 3);
}

#[test]
fn registration_notice_reaches_existing_players_as_insertion() {
    let mut g = GameState::new_with_capacity(8);
    register(&mut g, 0.0, 0.0, addr(0));
    g.flush();
    register(&mut g, 3.0, 4.0, addr(1));
    let out = g.flush();
    assert_eq!(
        out,
        vec![Outbound { to: 0, addr: addr(0), message: BellMessage::PlayerInsertionMessage(coords(3.0, 4.0, 1)) }]
    );
}

#[test]
fn unknown_subject_and_defer_reach_nobody() {
    let mut g = GameState::new_with_capacity(8);
    register(&mut g, 0.0, 0.0, addr(0));
    register(&mut g, 0.0, 0.0, addr(1));
    g.flush();
    g.handle_message(BellMessage::PositionChangeMessage(coords(1.0, 1.0, 42)), addr(5));
    g.handle_message(BellMessage::DeferMessage, addr(0));
    assert!(!g.is_empty());
    assert!(g.flush().is_empty());
    assert!(g.is_empty());
}

#[test]
fn zero_capacity_drops_everything_but_registers() {
    let mut g = GameState::new_with_capacity(0);
    assert!(g.is_full());
    let (id, _) = register(&mut g, 0.0, 0.0, addr(0));
    assert_eq!(id, 0);
    let m = BellMessage::PositionChangeMessage(coords(1.0, 1.0, 0));
    assert!(matches!(g.handle_message(m, addr(0)), IngressAction::Dropped));
    assert!(!g.queue_message(m));
    assert!(g.is_empty());
}

#[test]
fn position_change_updates_snapshot() {
    let mut g = GameState::new_with_capacity(8);
    register(&mut g, 0.0, 0.0, addr(0));
    g.handle_message(BellMessage::PositionChangeMessage(coords(7.0, 8.0, 0)), addr(0));
    let (_, peers) = register(&mut g, 0.0, 0.0, addr(1));
    assert_eq!(peers, vec![coords(7.0, 8.0, 0)]);
    assert_eq!(g.get_points_for_id(0), vec![coords(0.0, 0.0, 1)]);
}

#[test]
fn registry_lookups() {
    let mut g = GameState::new_with_capacity(4);
    register(&mut g, 0.0, 0.0, addr(0));
    register(&mut g, 0.0, 0.0, addr(1));
    register(&mut g, 0.0, 0.0, addr(2));
    assert_eq!(g.get_addr_from_id(1), Some(addr(1)));
    assert_eq!(g.get_addr_from_id(3), None);
    assert_eq!(g.get_addrs_for_id(1), vec![addr(0), addr(2)]);
    assert!(g.get_addrs_for_id(9).is_empty());
    assert!(g.get_addrs_for_id(3).is_empty());
    assert!(g.get_collided_pairs().is_empty());
}

#[test]
fn insert_player_overwrites_and_appends() {
    let mut g = GameState::new_with_capacity(4);
    g.insert_player(0, 1, 2, addr(0));
    g.insert_player(1, 3, 4, addr(1));
    g.insert_player(0, 5, 6, addr(7));
    assert_eq!(g.get_addr_from_id(0), Some(addr(7)));
    assert_eq!(g.get_points_for_id(1), vec![Point { x: 5, y: 6, id: 0 }]);
    let (id, _) = register(&mut g, 0.0, 0.0, addr(2));
    assert_eq!(id, 2);
}

#[test]
fn retrieve_keeps_submission_order() {
    let mut g = GameState::new_with_capacity(3);
    let m1 = BellMessage::PositionChangeMessage(coords(1.0, 0.0, 0));
    let m2 = BellMessage::DeferMessage;
    let m3 = BellMessage::PlayerInsertionMessage(coords(2.0, 0.0, 1));
    assert!(g.queue_message(m1));
    assert!(g.queue_message(m2));
    assert!(g.queue_message(m3));
    assert!(g.is_full());
    assert_eq!(g.retrieve_messages(), vec![m1, m2, m3]);
    assert!(g.is_empty());
}

#[test]
fn allocator_then_insert_issues_ids_in_order() {
    let mut g = GameState::new_with_capacity(2);
    let mut ids = Vec::new();
    for k in 0..4u32 {
        let id = g.next_session_id().expect("ids left");
        g.insert_player(id, k, k + 1, addr(k));
        ids.push(id);
    }
    assert_eq!(ids, vec![0, 1, 2, 3]);
    assert_eq!(g.next_session_id(), Some(4));
    assert_eq!(g.get_addr_from_id(2), Some(addr(2)));
    assert_eq!(g.get_points_for_id(0), vec![Point { x: 1, y: 2, id: 1 }, Point { x: 2, y: 3, id: 2 }, Point { x: 3, y: 4, id: 3 }]);
}
