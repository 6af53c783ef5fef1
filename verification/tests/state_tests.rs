use camhack::events::{AttackTarget, GameEvent, NodeType};
use camhack::grid::NodeCoord;
use camhack::state::{GameState, NodeInitState};

fn join(id: u64, name: &str, q: i32, r: i32, ip: &str, is_client: bool, ts: u64) -> GameEvent {
    GameEvent::PlayerJoin {
        player_id: id,
        name: name.to_string(),
        capital_coord: NodeCoord::new(q, r),
        node_ip: ip.to_string(),
        is_client,
        timestamp: ts,
    }
}

#[test]
fn test_player_join() {
    let mut state = GameState::new();
    let event = GameEvent::PlayerJoin {
        player_id: 1,
        name: "Alice".to_string(),
        capital_coord: NodeCoord::new(0, 0),
        node_ip: "10.0.0.1".to_string(),
        is_client: false,
        timestamp: 1000,
    };

    state.process_event(event, 1);

    assert_eq!(state.players.len(), 1);
    assert_eq!(state.nodes.len(), 1);
    assert!(state.players.get(&1).unwrap().alive);
}

#[test]
fn test_node_capture() {
    let mut state = GameState::new();

    state.process_event(join(1, "Alice", 0, 0, "10.0.0.1", false, 1000), 1);
    state.process_event(join(2, "Bob", 1, 0, "10.0.0.2", false, 1001), 2);

    state.process_event(
        GameEvent::NodeCaptured {
            node_coord: NodeCoord::new(0, 0),
            new_owner_id: 2,
            timestamp: 2000,
        },
        3,
    );

    assert!(!state.players.get(&1).unwrap().alive);
    assert_eq!(state.node(NodeCoord::new(0, 0)).unwrap().owner_id, 2);
}

#[test]
fn join_records_player_tile_and_addresses() {
    let mut state = GameState::new();
    state.process_event(join(7, "Eve", 3, -2, "10.0.0.7", true, 55), 4);

    let p = state.player(7).unwrap();
    assert_eq!(p.player_id, 7);
    assert_eq!(p.name, "Eve");
    assert_eq!(p.capital_coord, NodeCoord::new(3, -2));
    assert!(p.alive);
    assert_eq!(p.join_time, 55);

    let n = state.node(NodeCoord::new(3, -2)).unwrap();
    assert_eq!(n.owner_id, 7);
    assert_eq!(n.node_type, NodeType::Client);
    assert!(n.is_client);
    assert_eq!(n.init_state, NodeInitState::Ready);
    assert_eq!(n.current_target, None);

    let key = NodeCoord::new(3, -2).key();
    assert_eq!(state.node_ips.get(&key).unwrap(), "10.0.0.7");
    assert_eq!(state.client_ips.get(&7).unwrap(), "10.0.0.7");
    assert_eq!(state.last_applied_log_index, 4);
    assert!(!state.game_over);
}

#[test]
fn worker_join_records_no_client_address() {
    let mut state = GameState::new();
    state.process_event(join(1, "A", 0, 0, "10.0.0.1", false, 1), 1);
    assert_eq!(state.node(NodeCoord::new(0, 0)).unwrap().node_type, NodeType::Capital);
    assert!(state.client_ips.is_empty());
    assert_eq!(state.node_ips.len(), 1);
}

#[test]
fn capture_of_capital_ends_the_game_for_two() {
    let mut state = GameState::new();
    state.process_event(join(1, "Alice", 0, 0, "10.0.0.1", false, 1000), 1);
    state.process_event(join(2, "Bob", 1, 0, "10.0.0.2", false, 1001), 2);
    state.process_event(
        GameEvent::SetNodeTarget {
            node_coord: NodeCoord::new(0, 0),
            target: Some(AttackTarget::Coordinate(NodeCoord::new(1, 0))),
            timestamp: 5,
        },
        3,
    );
    assert!(!state.game_over);
    state.process_event(
        GameEvent::NodeCaptured { node_coord: NodeCoord::new(0, 0), new_owner_id: 2, timestamp: 9 },
        4,
    );
    let tile = state.node(NodeCoord::new(0, 0)).unwrap();
    assert_eq!(tile.owner_id, 2);
    assert_eq!(tile.node_type, NodeType::Regular);
    assert_eq!(tile.current_target, None);
    assert!(state.game_over);
    assert_eq!(state.alive_players(), 1);
}

#[test]
fn capture_with_three_players_keeps_the_game_going() {
    let mut state = GameState::new();
    state.process_event(join(1, "A", 0, 0, "a", false, 1), 1);
    state.process_event(join(2, "B", 1, 0, "b", false, 2), 2);
    state.process_event(join(3, "C", 5, 5, "c", false, 3), 3);
    state.process_event(
        GameEvent::NodeCaptured { node_coord: NodeCoord::new(0, 0), new_owner_id: 2, timestamp: 9 },
        4,
    );
    assert!(!state.game_over);
    assert_eq!(state.alive_players(), 2);
    state.process_event(
        GameEvent::NodeCaptured { node_coord: NodeCoord::new(5, 5), new_owner_id: 2, timestamp: 9 },
        5,
    );
    assert!(state.game_over);
}

#[test]
fn game_over_stays_after_more_events() {
    let mut state = GameState::new();
    state.process_event(join(1, "A", 0, 0, "a", false, 1), 1);
    state.process_event(join(2, "B", 1, 0, "b", false, 2), 2);
    state.process_event(
        GameEvent::NodeCaptured { node_coord: NodeCoord::new(0, 0), new_owner_id: 2, timestamp: 9 },
        3,
    );
    assert!(state.game_over);
    state.process_event(join(3, "C", 4, 4, "c", false, 3), 4);
    state.process_event(join(4, "D", 6, 6, "d", false, 3), 5);
    state.process_event(
        GameEvent::NodeMetricsReport {
            node_coord: NodeCoord::new(4, 4),
            bandwidth_in: 1,
            packet_loss: 0,
            timestamp: 3,
        },
        6,
    );
    assert!(state.game_over);
}

#[test]
fn capture_by_present_owner_changes_nothing() {
    let mut state = GameState::new();
    state.process_event(join(1, "A", 0, 0, "a", false, 1), 1);
    state.process_event(join(2, "B", 1, 0, "b", false, 2), 2);
    state.process_event(
        GameEvent::SetNodeTarget {
            node_coord: NodeCoord::new(0, 0),
            target: Some(AttackTarget::Player(2)),
            timestamp: 5,
        },
        3,
    );
    state.process_event(
        GameEvent::NodeCaptured { node_coord: NodeCoord::new(0, 0), new_owner_id: 1, timestamp: 9 },
        4,
    );
    let tile = state.node(NodeCoord::new(0, 0)).unwrap();
    assert_eq!(tile.owner_id, 1);
    assert_eq!(tile.node_type, NodeType::Capital);
    assert_eq!(tile.current_target, Some(AttackTarget::Player(2)));
    assert!(state.player(1).unwrap().alive);
    assert!(!state.game_over);
    assert_eq!(state.last_applied_log_index, 4);
}

#[test]
fn capture_of_absent_tile_changes_nothing() {
    let mut state = GameState::new();
    state.process_event(join(1, "A", 0, 0, "a", false, 1), 1);
    state.process_event(
        GameEvent::NodeCaptured { node_coord: NodeCoord::new(9, 9), new_owner_id: 1, timestamp: 9 },
        2,
    );
    assert_eq!(state.nodes.len(), 1);
    assert!(state.player(1).unwrap().alive);
}

#[test]
fn capture_of_client_tile_changes_owner_only() {
    let mut state = GameState::new();
    state.process_event(join(1, "A", 0, 0, "a", true, 1), 1);
    state.process_event(join(2, "B", 1, 0, "b", false, 2), 2);
    state.process_event(
        GameEvent::NodeCaptured { node_coord: NodeCoord::new(0, 0), new_owner_id: 2, timestamp: 9 },
        3,
    );
    let tile = state.node(NodeCoord::new(0, 0)).unwrap();
    assert_eq!(tile.owner_id, 2);
    assert_eq!(tile.node_type, NodeType::Client);
    assert!(state.player(1).unwrap().alive);
    assert!(!state.game_over);
}

#[test]
fn second_initialization_start_does_not_overwrite() {
    let mut state = GameState::new();
    let c = NodeCoord::new(2, 2);
    state.process_event(
        GameEvent::NodeInitializationStarted { node_coord: c, owner_id: 0, timestamp: 1 },
        1,
    );
    assert_eq!(state.node(c).unwrap().init_state, NodeInitState::Initializing);
    assert_eq!(state.node(c).unwrap().node_type, NodeType::Regular);
    state.process_event(
        GameEvent::NodeInitializationComplete {
            node_coord: c,
            node_ip: "10.1.1.1".to_string(),
            timestamp: 2,
        },
        2,
    );
    assert_eq!(state.node(c).unwrap().init_state, NodeInitState::Ready);
    state.process_event(
        GameEvent::NodeInitializationStarted { node_coord: c, owner_id: 9, timestamp: 3 },
        3,
    );
    assert_eq!(state.node(c).unwrap().owner_id, 0);
    assert_eq!(state.node(c).unwrap().init_state, NodeInitState::Ready);
    assert_eq!(state.nodes.len(), 1);
}

#[test]
fn initialization_complete_for_absent_tile_records_address_only() {
    let mut state = GameState::new();
    let c = NodeCoord::new(2, 2);
    state.process_event(
        GameEvent::NodeInitializationComplete {
            node_coord: c,
            node_ip: "10.1.1.1".to_string(),
            timestamp: 2,
        },
        1,
    );
    assert!(state.node(c).is_none());
    assert_eq!(state.node_ips.get(&c.key()).unwrap(), "10.1.1.1");
}

#[test]
fn set_target_on_absent_tile_is_ignored() {
    let mut state = GameState::new();
    state.process_event(
        GameEvent::SetNodeTarget {
            node_coord: NodeCoord::new(0, 0),
            target: Some(AttackTarget::Coordinate(NodeCoord::new(1, 0))),
            timestamp: 5,
        },
        1,
    );
    assert!(state.nodes.is_empty());
    assert_eq!(state.last_applied_log_index, 1);
}

#[test]
fn metrics_latest_wins_and_reports_commute() {
    let a = GameEvent::NodeMetricsReport {
        node_coord: NodeCoord::new(0, 0),
        bandwidth_in: 10,
        packet_loss: 100_000,
        timestamp: 1,
    };
    let b = GameEvent::NodeMetricsReport {
        node_coord: NodeCoord::new(1, 0),
        bandwidth_in: 20,
        packet_loss: 300_000,
        timestamp: 2,
    };
    let mut first = GameState::new();
    first.process_event(a.clone(), 1);
    first.process_event(b.clone(), 2);
    let mut second = GameState::new();
    second.process_event(b, 1);
    second.process_event(a, 2);
    for c in [NodeCoord::new(0, 0), NodeCoord::new(1, 0)] {
        let x = first.metrics(c).unwrap();
        let y = second.metrics(c).unwrap();
        assert_eq!((x.bandwidth_in, x.packet_loss, x.timestamp), (y.bandwidth_in, y.packet_loss, y.timestamp));
    }
    first.process_event(
        GameEvent::NodeMetricsReport {
            node_coord: NodeCoord::new(0, 0),
            bandwidth_in: 5,
            packet_loss: 0,
            timestamp: 0,
        },
        3,
    );
    let m = first.metrics(NodeCoord::new(0, 0)).unwrap();
    assert_eq!((m.bandwidth_in, m.packet_loss, m.timestamp), (5, 0, 0));
}

#[test]
fn replay_equals_applying_in_order() {
    let events = vec![
        join(1, "A", 0, 0, "a", false, 1),
        join(2, "B", 1, 0, "b", false, 2),
        GameEvent::SetNodeTarget {
            node_coord: NodeCoord::new(1, 0),
            target: Some(AttackTarget::Coordinate(NodeCoord::new(0, 0))),
            timestamp: 3,
        },
        GameEvent::NodeCaptured { node_coord: NodeCoord::new(0, 0), new_owner_id: 2, timestamp: 4 },
    ];
    let replayed = GameState::replay_events(&events);
    let mut applied = GameState::new();
    for (i, e) in events.iter().enumerate() {
        applied.process_event(e.clone(), i as u64 + 1);
    }
    assert_eq!(format!("{:?}", replayed), format!("{:?}", applied));
    assert!(replayed.game_over);
    assert_eq!(replayed.last_applied_log_index, 4);
}

#[test]
fn active_attacks_and_player_nodes_come_in_coordinate_order() {
    let mut state = GameState::new();
    state.process_event(join(1, "A", 0, 0, "a", false, 1), 1);
    state.process_event(join(2, "B", 1, 0, "b", false, 2), 2);
    state.process_event(
        GameEvent::NodeInitializationStarted {
            node_coord: NodeCoord::new(-1, 0),
            owner_id: 2,
            timestamp: 1,
        },
        3,
    );
    for (from, to, idx) in [((1, 0), (0, 0), 4u64), ((-1, 0), (0, 0), 5), ((0, 0), (7, 7), 6)] {
        state.process_event(
            GameEvent::SetNodeTarget {
                node_coord: NodeCoord::new(from.0, from.1),
                target: Some(AttackTarget::Coordinate(NodeCoord::new(to.0, to.1))),
                timestamp: 1,
            },
            idx,
        );
    }
    let attacks = state.get_active_attacks();
    assert_eq!(attacks.len(), 2);
    assert_eq!(attacks[0].attacker_node, NodeCoord::new(-1, 0));
    assert_eq!(attacks[0].attacker_owner, 2);
    assert_eq!(attacks[0].target_node, NodeCoord::new(0, 0));
    assert_eq!(attacks[0].target_owner, 1);
    assert_eq!(attacks[1].attacker_node, NodeCoord::new(1, 0));

    let owned = state.get_player_nodes(2);
    assert_eq!(owned.len(), 2);
    assert_eq!(owned[0].coord, NodeCoord::new(-1, 0));
    assert_eq!(owned[1].coord, NodeCoord::new(1, 0));
    assert_eq!(state.node_count(2), 2);
    assert_eq!(state.node_count(1), 1);
    assert_eq!(state.node_count(3), 0);
    assert!(state.get_player_nodes(3).is_empty());
}
