use camhack::events::{AttackTarget, GameEvent};
use camhack::grid::NodeCoord;
use camhack::state::GameState;
use camhack::storage::{
    Entry, EntryPayload, GameEventRequest, GameStateMachine, GameStateSnapshot, LeaderId, LogId,
    MemLog, MemStorage, SnapshotMeta, StorageError, Vote,
};

fn log_id(term: u64, node: u64, index: u64) -> LogId {
    LogId { leader_id: LeaderId { term, node_id: node }, index }
}

fn blank(term: u64, node: u64, index: u64) -> Entry<u32> {
    Entry { log_id: log_id(term, node, index), payload: EntryPayload::Blank }
}

fn normal(term: u64, node: u64, index: u64, event: GameEvent) -> Entry<u32> {
    Entry {
        log_id: log_id(term, node, index),
        payload: EntryPayload::Normal(GameEventRequest { event }),
    }
}

fn join(id: u64, name: &str, q: i32, r: i32) -> GameEvent {
    GameEvent::PlayerJoin {
        player_id: id,
        name: name.to_string(),
        capital_coord: NodeCoord::new(q, r),
        node_ip: format!("10.0.0.{}", id),
        is_client: false,
        timestamp: 1000 + id,
    }
}

fn indices(log: &MemLog<u32>) -> Vec<u64> {
    log.try_get_log_entries(0, None).iter().map(|e| e.log_id.index).collect()
}

#[test]
fn fresh_store_is_empty() {
    let s: MemStorage<u32> = MemStorage::new();
    assert_eq!(s.read_vote(), None);
    assert_eq!(s.last_applied_state(), None);
    assert!(s.get_current_snapshot().is_none());
    let state = s.log.get_log_state();
    assert_eq!(state.last_log_id, None);
    assert_eq!(state.last_purged_log_id, None);
    assert!(s.state_machine().events.is_empty());
}

#[test]
fn vote_is_saved_and_read_back() {
    let mut s: MemStorage<u32> = MemStorage::new();
    let v = Vote { leader_id: LeaderId { term: 3, node_id: 9 }, committed: true };
    s.save_vote(&v);
    assert_eq!(s.read_vote(), Some(v));
}

#[test]
fn append_and_read_ranges() {
    let mut log: MemLog<u32> = MemLog::new();
    log.append_to_log(vec![blank(1, 1, 3), blank(1, 1, 1), blank(1, 1, 2), blank(2, 2, 5)]);
    assert_eq!(indices(&log), vec![1, 2, 3, 5]);
    let got: Vec<u64> = log.try_get_log_entries(2, Some(5)).iter().map(|e| e.log_id.index).collect();
    assert_eq!(got, vec![2, 3]);
    let got: Vec<u64> = log.try_get_log_entries(4, None).iter().map(|e| e.log_id.index).collect();
    assert_eq!(got, vec![5]);
    assert!(log.try_get_log_entries(6, None).is_empty());
    assert!(log.try_get_log_entries(3, Some(3)).is_empty());
    assert_eq!(log.get_log_state().last_log_id, Some(log_id(2, 2, 5)));
}

#[test]
fn later_entry_replaces_earlier_at_same_index() {
    let mut log: MemLog<u32> = MemLog::new();
    log.append_to_log(vec![blank(1, 1, 1), blank(2, 7, 1)]);
    assert_eq!(indices(&log), vec![1]);
    assert_eq!(log.get_log_state().last_log_id, Some(log_id(2, 7, 1)));
}

#[test]
fn conflict_deletion_keeps_entries_of_the_same_leader() {
    let mut log: MemLog<u32> = MemLog::new();
    log.append_to_log(vec![
        blank(1, 1, 1),
        blank(1, 1, 2),
        blank(2, 2, 3),
        blank(1, 1, 4),
        blank(2, 2, 5),
    ]);
    log.delete_conflict_logs_since(log_id(2, 2, 2));
    assert_eq!(indices(&log), vec![1, 3, 5]);
}

#[test]
fn purge_removes_up_to_and_including_the_index() {
    let mut log: MemLog<u32> = MemLog::new();
    log.append_to_log(vec![blank(1, 1, 1), blank(1, 1, 2), blank(1, 1, 3), blank(1, 1, 4)]);
    log.purge_logs_upto(log_id(1, 1, 2));
    assert_eq!(indices(&log), vec![3, 4]);
    log.purge_logs_upto(log_id(1, 1, 10));
    assert!(indices(&log).is_empty());
    assert_eq!(log.get_log_state().last_log_id, None);
}

#[test]
fn solo_bootstrap_join_is_applied() {
    // a membership entry first, as a bootstrapped group writes it
    let mut sm = GameStateMachine::new();
    let entries: Vec<Entry<u32>> = vec![
        Entry { log_id: log_id(1, 1, 1), payload: EntryPayload::Membership(7) },
        Entry {
            log_id: log_id(1, 1, 2),
            payload: EntryPayload::Normal(GameEventRequest {
                event: GameEvent::PlayerJoin {
                    player_id: 1,
                    name: "A".to_string(),
                    capital_coord: NodeCoord::new(0, 0),
                    node_ip: "10.0.0.1".to_string(),
                    is_client: false,
                    timestamp: 1,
                },
            }),
        },
    ];
    let responses = sm.apply_to_state_machine(&entries);
    assert_eq!(responses.len(), 2);
    assert!(!responses[0].success);
    assert!(responses[1].success);
    assert_eq!(sm.last_applied_log_index, 2);
    assert_eq!(sm.events.len(), 1);

    let players = camhack::api::player_infos(&sm.game_state);
    let nodes = camhack::api::node_infos(&sm.game_state);
    assert_eq!(players.len(), 1);
    assert_eq!(players[0].player_id, 1);
    assert_eq!(players[0].name, "A");
    assert!(players[0].alive);
    assert_eq!(players[0].node_count, 1);
    assert_eq!(nodes.len(), 1);
    assert_eq!(nodes[0].coord, NodeCoord::new(0, 0));
    assert_eq!(nodes[0].owner_id, 1);
    assert_eq!(nodes[0].bandwidth_in, None);
    assert_eq!(nodes[0].packet_loss, None);
}

#[test]
fn blank_entries_do_not_move_the_applied_index() {
    let mut sm = GameStateMachine::new();
    let r = sm.apply_to_state_machine(&vec![normal(1, 1, 4, join(1, "A", 0, 0)), blank(1, 1, 5)]);
    assert_eq!(r.len(), 2);
    assert_eq!(sm.last_applied_log_index, 4);
    assert_eq!(sm.game_state.last_applied_log_index, 4);
}

#[test]
fn snapshot_is_named_after_the_last_index() {
    let mut s: MemStorage<u32> = MemStorage::new();
    let (data, meta) = s.build_snapshot();
    assert!(data.events.is_empty());
    assert_eq!(data.last_applied_log_index, 0);
    assert_eq!(meta.last_log_id, None);
    assert_eq!(meta.snapshot_id, "snapshot-0");

    s.state_machine.apply_to_state_machine(&vec![
        normal(1, 1, 41, join(1, "A", 0, 0)),
        normal(1, 1, 42, join(2, "B", 1, 0)),
    ]);
    let (data, meta) = s.build_snapshot();
    assert_eq!(data.events.len(), 2);
    assert_eq!(data.last_applied_log_index, 42);
    assert_eq!(meta.last_log_id, Some(log_id(0, 0, 42)));
    assert_eq!(meta.snapshot_id, "snapshot-42");
    assert_eq!(s.last_applied_state(), Some(log_id(0, 0, 42)));

    let (kept, kept_meta) = s.get_current_snapshot().unwrap();
    assert_eq!(kept.events.len(), 2);
    assert_eq!(kept.last_applied_log_index, 42);
    assert_eq!(kept_meta.snapshot_id, "snapshot-42");
}

#[test]
fn snapshot_name_of_the_greatest_index() {
    let mut s: MemStorage<u32> = MemStorage::new();
    s.state_machine.last_applied_log_index = u64::MAX;
    let (_, meta) = s.build_snapshot();
    assert_eq!(meta.snapshot_id, "snapshot-18446744073709551615");
}

#[test]
fn unreadable_snapshot_is_refused_and_changes_nothing() {
    let mut s: MemStorage<u32> = MemStorage::new();
    s.state_machine.apply_to_state_machine(&vec![normal(1, 1, 1, join(1, "A", 0, 0))]);
    let meta = SnapshotMeta { last_log_id: Some(log_id(0, 0, 9)), snapshot_id: "snapshot-9".to_string() };
    assert_eq!(s.install_snapshot(&meta, None), Err(StorageError::SnapshotUnreadable));
    assert_eq!(s.state_machine.events.len(), 1);
    assert_eq!(s.state_machine.last_applied_log_index, 1);
    assert!(s.get_current_snapshot().is_none());
}

#[test]
fn snapshot_round_trip_on_an_empty_replica() {
    let mut source: MemStorage<u32> = MemStorage::new();
    source.state_machine.apply_to_state_machine(&vec![
        normal(1, 1, 1, join(1, "A", 0, 0)),
        normal(1, 1, 2, join(2, "B", 1, 0)),
        normal(
            1,
            1,
            3,
            GameEvent::SetNodeTarget {
                node_coord: NodeCoord::new(1, 0),
                target: Some(AttackTarget::Coordinate(NodeCoord::new(0, 0))),
                timestamp: 5,
            },
        ),
        normal(
            1,
            1,
            4,
            GameEvent::NodeCaptured { node_coord: NodeCoord::new(0, 0), new_owner_id: 2, timestamp: 20 },
        ),
    ]);
    let (data, meta) = source.build_snapshot();

    let mut target: MemStorage<u32> = MemStorage::new();
    assert_eq!(target.install_snapshot(&meta, Some(data)), Ok(()));
    assert_eq!(
        format!("{:?}", target.state_machine.game_state),
        format!("{:?}", source.state_machine.game_state)
    );
    assert_eq!(target.state_machine.events.len(), 4);
    assert_eq!(target.state_machine.last_applied_log_index, 4);
    assert!(target.state_machine.game_state.game_over);
    assert_eq!(target.get_current_snapshot().unwrap().1.snapshot_id, "snapshot-4");
}

#[test]
fn snapshot_round_trip_differs_only_in_index_after_blank_entries() {
    let mut source: MemStorage<u32> = MemStorage::new();
    source.state_machine.apply_to_state_machine(&vec![blank(1, 1, 1), normal(1, 1, 2, join(1, "A", 0, 0))]);
    let (data, meta) = source.build_snapshot();
    let mut target: MemStorage<u32> = MemStorage::new();
    target.install_snapshot(&meta, Some(data)).unwrap();
    assert_eq!(source.state_machine.game_state.last_applied_log_index, 2);
    assert_eq!(target.state_machine.game_state.last_applied_log_index, 1);
    assert_eq!(target.state_machine.last_applied_log_index, 2);
    target.state_machine.game_state.last_applied_log_index = 2;
    assert_eq!(
        format!("{:?}", target.state_machine.game_state),
        format!("{:?}", source.state_machine.game_state)
    );
}

#[test]
fn apply_in_order_equals_install_plus_tail() {
    let head = vec![
        normal(1, 1, 1, join(1, "A", 0, 0)),
        normal(1, 1, 2, join(2, "B", 1, 0)),
        normal(
            1,
            1,
            3,
            GameEvent::SetNodeTarget {
                node_coord: NodeCoord::new(1, 0),
                target: Some(AttackTarget::Coordinate(NodeCoord::new(0, 0))),
                timestamp: 5,
            },
        ),
    ];
    let tail = vec![
        normal(
            1,
            1,
            4,
            GameEvent::NodeMetricsReport {
                node_coord: NodeCoord::new(0, 0),
                bandwidth_in: 77,
                packet_loss: 500_000,
                timestamp: 6,
            },
        ),
        blank(2, 1, 5),
        normal(
            2,
            1,
            6,
            GameEvent::NodeCaptured { node_coord: NodeCoord::new(0, 0), new_owner_id: 2, timestamp: 20 },
        ),
    ];

    let mut whole = GameStateMachine::new();
    whole.apply_to_state_machine(&head);
    let (data, _) = whole.build_snapshot();
    whole.apply_to_state_machine(&tail);

    let mut caught_up = GameStateMachine::new();
    caught_up.install_snapshot(&GameStateSnapshot {
        events: data.events.clone(),
        last_applied_log_index: data.last_applied_log_index,
    });
    caught_up.apply_to_state_machine(&tail);

    assert_eq!(format!("{:?}", caught_up.game_state), format!("{:?}", whole.game_state));
    assert_eq!(format!("{:?}", caught_up.events), format!("{:?}", whole.events));
    assert_eq!(caught_up.last_applied_log_index, 6);
    assert_eq!(
        format!("{:?}", caught_up.game_state),
        format!("{:?}", {
            let mut s = GameState::new();
            for e in head.iter().chain(tail.iter()) {
                if let EntryPayload::Normal(r) = &e.payload {
                    s.process_event(r.event.clone(), e.log_id.index);
                }
            }
            s
        })
    );
}
