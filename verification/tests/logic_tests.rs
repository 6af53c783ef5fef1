use camhack::events::{AttackTarget, GameEvent, NodeType};
use camhack::grid::NodeCoord;
use camhack::logic::{GameConfig, GameLogic};
use camhack::state::{GameState, Node, NodeInitState, NodeMetrics, Player};

fn two_player_state(loss: u32) -> GameState {
    let mut game_state = GameState::new();
    game_state.players.insert(
        1,
        Player {
            player_id: 1,
            name: "Alice".to_string(),
            capital_coord: NodeCoord::new(0, 0),
            alive: true,
            join_time: 1000,
        },
    );
    game_state.players.insert(
        2,
        Player {
            player_id: 2,
            name: "Bob".to_string(),
            capital_coord: NodeCoord::new(1, 0),
            alive: true,
            join_time: 1001,
        },
    );
    game_state.nodes.insert(
        NodeCoord::new(0, 0).key(),
        Node {
            coord: NodeCoord::new(0, 0),
            owner_id: 1,
            node_type: NodeType::Capital,
            current_target: None,
            is_client: false,
            init_state: NodeInitState::Ready,
        },
    );
    game_state.nodes.insert(
        NodeCoord::new(1, 0).key(),
        Node {
            coord: NodeCoord::new(1, 0),
            owner_id: 2,
            node_type: NodeType::Capital,
            current_target: Some(AttackTarget::Coordinate(NodeCoord::new(0, 0))),
            is_client: false,
            init_state: NodeInitState::Ready,
        },
    );
    game_state.node_metrics.insert(
        NodeCoord::new(0, 0).key(),
        NodeMetrics { bandwidth_in: 20_000_000, packet_loss: loss, timestamp: 2000 },
    );
    game_state
}

fn captures(events: &[GameEvent]) -> Vec<(NodeCoord, u64, u64)> {
    events
        .iter()
        .map(|e| match e {
            GameEvent::NodeCaptured { node_coord, new_owner_id, timestamp } => {
                (*node_coord, *new_owner_id, *timestamp)
            }
            _ => panic!("Expected NodeCaptured event"),
        })
        .collect()
}

#[test]
fn test_capture_after_sustained_overload() {
    let mut logic = GameLogic::new(GameConfig {
        overload_duration_secs: 5,
        overload_threshold: 500_000,
    });

    let game_state = two_player_state(700_000);

    // First tick - should not capture yet (not sustained)
    let events = logic.tick(&game_state, 5000);
    assert_eq!(events.len(), 0);

    // Pretend the overload started 10 seconds ago
    if let Some((_, start_time)) =
        logic.attack_tracker.overload_start_times.get_mut(&NodeCoord::new(0, 0).key())
    {
        *start_time -= 10;
    }

    // Second tick - should capture now (sustained overload)
    let events = logic.tick(&game_state, 5000);
    assert_eq!(events.len(), 1);
    match &events[0] {
        GameEvent::NodeCaptured { node_coord, new_owner_id, .. } => {
            assert_eq!(*node_coord, NodeCoord::new(0, 0));
            assert_eq!(*new_owner_id, 2);
        }
        _ => panic!("Expected NodeCaptured event"),
    }
}

#[test]
fn default_config_is_ten_seconds_at_one_fifth() {
    let c = GameConfig::default();
    assert_eq!(c.overload_duration_secs, 10);
    assert_eq!(c.overload_threshold, 200_000);
}

#[test]
fn two_tile_capture_gives_exactly_one_capture_and_ends_the_game() {
    // Tiles at (0,0) of player 1 and (1,0) of player 2, which attacks (0,0);
    // loss 0.5 on (0,0) for eleven seconds.
    let mut logic = GameLogic::new(GameConfig::default());
    let mut state = two_player_state(500_000);
    let mut log: Vec<GameEvent> = Vec::new();
    let mut index = 10;
    for t in 0..=11u64 {
        let events = logic.tick(&state, 100 + t);
        if t < 10 {
            assert!(events.is_empty(), "captured too early at t={}", t);
        }
        for e in events {
            index += 1;
            state.process_event(e.clone(), index);
            log.push(e);
        }
    }
    assert_eq!(captures(&log), vec![(NodeCoord::new(0, 0), 2, 110)]);
    assert!(!state.players.get(&1).unwrap().alive);
    assert!(state.players.get(&2).unwrap().alive);
    assert!(state.game_over);
    assert_eq!(state.node(NodeCoord::new(0, 0)).unwrap().owner_id, 2);
}

#[test]
fn loss_drop_in_window_delays_capture_to_sixteen() {
    let mut logic = GameLogic::new(GameConfig::default());
    let mut state = two_player_state(500_000);
    let key = NodeCoord::new(0, 0).key();
    let mut captured_at = None;
    for t in 0..=17u64 {
        let loss = if t == 5 { 0 } else { 500_000 };
        state.node_metrics.insert(key, NodeMetrics { bandwidth_in: 1, packet_loss: loss, timestamp: t });
        let events = logic.tick(&state, t);
        if !events.is_empty() && captured_at.is_none() {
            captured_at = Some(t);
            assert_eq!(captures(&events), vec![(NodeCoord::new(0, 0), 2, t)]);
        }
        if t < 16 {
            assert!(captured_at.is_none(), "captured before t=16, at t={}", t);
        }
    }
    assert_eq!(captured_at, Some(16));
}

#[test]
fn loss_exactly_at_threshold_counts_as_overload() {
    let mut logic = GameLogic::new(GameConfig::default());
    let state = two_player_state(200_000);
    assert!(logic.tick(&state, 0).is_empty());
    assert_eq!(logic.attack_tracker.overload_start_times.get(&NodeCoord::new(0, 0).key()), Some(&(2, 0)));
    assert!(logic.tick(&state, 9).is_empty());
    assert_eq!(captures(&logic.tick(&state, 10)), vec![(NodeCoord::new(0, 0), 2, 10)]);
    assert!(logic.attack_tracker.overload_start_times.is_empty());
}

#[test]
fn loss_just_below_threshold_is_not_followed() {
    let mut logic = GameLogic::new(GameConfig::default());
    let state = two_player_state(199_999);
    for t in 0..30 {
        assert!(logic.tick(&state, t).is_empty());
    }
    assert!(logic.attack_tracker.overload_start_times.is_empty());
}

#[test]
fn tile_without_attacker_is_forgotten() {
    let mut logic = GameLogic::new(GameConfig::default());
    let mut state = two_player_state(900_000);
    assert!(logic.tick(&state, 0).is_empty());
    assert_eq!(logic.attack_tracker.overload_start_times.len(), 1);
    state.nodes.get_mut(&NodeCoord::new(1, 0).key()).unwrap().current_target = None;
    assert!(logic.tick(&state, 5).is_empty());
    assert!(logic.attack_tracker.overload_start_times.is_empty());
}

#[test]
fn tile_without_metrics_keeps_what_the_tracker_holds() {
    let mut logic = GameLogic::new(GameConfig::default());
    let mut state = two_player_state(900_000);
    assert!(logic.tick(&state, 3).is_empty());
    state.node_metrics.clear();
    assert!(logic.tick(&state, 50).is_empty());
    assert_eq!(logic.attack_tracker.overload_start_times.get(&NodeCoord::new(0, 0).key()), Some(&(2, 3)));
}

#[test]
fn lowest_coordinate_wins_among_attackers() {
    let mut logic = GameLogic::new(GameConfig { overload_duration_secs: 0, overload_threshold: 1 });
    let mut state = two_player_state(900_000);
    // a third attacker with a lower coordinate, owned by player 3
    state.nodes.insert(
        NodeCoord::new(-1, 1).key(),
        Node {
            coord: NodeCoord::new(-1, 1),
            owner_id: 3,
            node_type: NodeType::Regular,
            current_target: Some(AttackTarget::Coordinate(NodeCoord::new(0, 0))),
            is_client: false,
            init_state: NodeInitState::Ready,
        },
    );
    let events = logic.tick(&state, 7);
    assert_eq!(captures(&events), vec![(NodeCoord::new(0, 0), 3, 7)]);
}

#[test]
fn change_of_winning_owner_restarts_the_window() {
    let mut logic = GameLogic::new(GameConfig::default());
    let mut state = two_player_state(900_000);
    assert!(logic.tick(&state, 0).is_empty());
    assert!(logic.tick(&state, 8).is_empty());
    state.nodes.insert(
        NodeCoord::new(-1, 1).key(),
        Node {
            coord: NodeCoord::new(-1, 1),
            owner_id: 3,
            node_type: NodeType::Regular,
            current_target: Some(AttackTarget::Coordinate(NodeCoord::new(0, 0))),
            is_client: false,
            init_state: NodeInitState::Ready,
        },
    );
    assert!(logic.tick(&state, 9).is_empty());
    assert_eq!(logic.attack_tracker.overload_start_times.get(&NodeCoord::new(0, 0).key()), Some(&(3, 9)));
    assert!(logic.tick(&state, 18).is_empty());
    assert_eq!(captures(&logic.tick(&state, 19)), vec![(NodeCoord::new(0, 0), 3, 19)]);
}

#[test]
fn client_tiles_are_never_proposed() {
    let mut logic = GameLogic::new(GameConfig { overload_duration_secs: 0, overload_threshold: 0 });
    let mut state = two_player_state(1_000_000);
    state.nodes.get_mut(&NodeCoord::new(0, 0).key()).unwrap().node_type = NodeType::Client;
    for t in 0..20 {
        assert!(logic.tick(&state, t).is_empty());
    }
}

#[test]
fn several_tiles_fall_in_coordinate_order() {
    let mut logic = GameLogic::new(GameConfig { overload_duration_secs: 0, overload_threshold: 1 });
    let mut state = two_player_state(900_000);
    // (0,0) attacks (1,0) back, and (1,0) is overloaded too
    state.nodes.get_mut(&NodeCoord::new(0, 0).key()).unwrap().current_target =
        Some(AttackTarget::Coordinate(NodeCoord::new(1, 0)));
    state.node_metrics.insert(
        NodeCoord::new(1, 0).key(),
        NodeMetrics { bandwidth_in: 1, packet_loss: 5, timestamp: 0 },
    );
    let events = logic.tick(&state, 42);
    assert_eq!(
        captures(&events),
        vec![(NodeCoord::new(0, 0), 2, 42), (NodeCoord::new(1, 0), 1, 42)]
    );
}

#[test]
fn clock_going_back_counts_as_no_time() {
    let mut logic = GameLogic::new(GameConfig::default());
    let state = two_player_state(900_000);
    assert!(logic.tick(&state, 100).is_empty());
    assert!(logic.tick(&state, 50).is_empty());
    assert_eq!(logic.attack_tracker.overload_start_times.get(&NodeCoord::new(0, 0).key()), Some(&(2, 100)));
}
