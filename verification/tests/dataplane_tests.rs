use camhack::events::{AttackTarget, GameEvent};
use camhack::grid::NodeCoord;
use camhack::network::{
    AckPacket, AttackPacket, NetworkManager, PacketFlooder, PacketResponder, ResponderStep,
};
use camhack::state::GameState;
use camhack::udp::{AckSampler, Flooder, PacketLossTracker, UdpAckPacket, UdpAttackPacket};

#[test]
fn attack_packet_bytes_are_big_endian() {
    let p = UdpAttackPacket { seq: 0x0102030405060708, timestamp: 1, payload: vec![0xAA, 0xBB] };
    assert_eq!(
        p.to_bytes(),
        vec![1, 2, 3, 4, 5, 6, 7, 8, 0, 0, 0, 0, 0, 0, 0, 1, 0xAA, 0xBB]
    );
    let back = UdpAttackPacket::from_bytes(&p.to_bytes()).unwrap();
    assert_eq!((back.seq, back.timestamp, back.payload), (0x0102030405060708, 1, vec![0xAA, 0xBB]));
}

#[test]
fn attack_packet_needs_a_whole_header() {
    assert!(UdpAttackPacket::from_bytes(&[0u8; 15]).is_none());
    let p = UdpAttackPacket::from_bytes(&[0xFFu8; 16]).unwrap();
    assert_eq!((p.seq, p.timestamp, p.payload.len()), (u64::MAX, u64::MAX, 0));
}

#[test]
fn ack_bytes_are_big_endian_and_round_trip() {
    let a = UdpAckPacket { ack_seq: 258, received_count: u64::MAX - 1 };
    let b = a.to_bytes();
    assert_eq!(b, vec![0, 0, 0, 0, 0, 0, 1, 2, 255, 255, 255, 255, 255, 255, 255, 254]);
    assert_eq!(UdpAckPacket::from_bytes(&b), Some(a));
    assert_eq!(UdpAckPacket::from_bytes(&b[..15]), None);
    let mut longer = b.clone();
    longer.push(9);
    assert_eq!(UdpAckPacket::from_bytes(&longer), Some(a));
}

#[test]
fn loss_is_lost_over_sent_in_millionths() {
    assert_eq!(PacketLossTracker::new().calculate_loss(), 0);
    assert_eq!(PacketLossTracker { sent: 10, acked: 8 }.calculate_loss(), 200_000);
    assert_eq!(PacketLossTracker { sent: 10, acked: 0 }.calculate_loss(), 1_000_000);
    assert_eq!(PacketLossTracker { sent: 3, acked: 2 }.calculate_loss(), 333_333);
    assert_eq!(PacketLossTracker { sent: 3, acked: 7 }.calculate_loss(), 0);
    assert_eq!(PacketLossTracker { sent: 0, acked: 7 }.calculate_loss(), 0);
    assert_eq!(PacketLossTracker { sent: u64::MAX, acked: 0 }.calculate_loss(), 1_000_000);
    assert_eq!(PacketLossTracker { sent: 1_000_000, acked: 800_001 }.calculate_loss(), 199_999);
}

#[test]
fn flooder_sends_kilobyte_packets_in_sequence() {
    let mut f = Flooder::new();
    let first = f.next_packet(77);
    let second = f.next_packet(78);
    assert_eq!(first.len(), 16 + 1024);
    let first_packet = UdpAttackPacket::from_bytes(&first).unwrap();
    let second_packet = UdpAttackPacket::from_bytes(&second).unwrap();
    assert_eq!((first_packet.seq, first_packet.timestamp), (0, 77));
    assert_eq!((second_packet.seq, second_packet.timestamp), (1, 78));
    assert!(first_packet.payload.iter().all(|b| *b == 0));
    assert_eq!(f.tracker.sent, 2);
    assert_eq!(f.tracker.calculate_loss(), 1_000_000);
    f.on_ack_datagram(&UdpAckPacket { ack_seq: 1, received_count: 1 }.to_bytes());
    assert_eq!(f.tracker.acked, 1);
    assert_eq!(f.tracker.calculate_loss(), 500_000);
    f.on_ack_datagram(&[1, 2, 3]);
    assert_eq!(f.tracker.acked, 1);
}

#[test]
fn sampler_acknowledges_once_per_interval() {
    let mut s = AckSampler::new(1_000);
    let packet = |seq: u64| UdpAttackPacket { seq, timestamp: 0, payload: vec![0; 4] }.to_bytes();
    assert_eq!(s.on_datagram(&packet(5), 1_050), None);
    assert_eq!(s.on_datagram(&packet(9), 1_100), None);
    assert_eq!(
        s.on_datagram(&packet(7), 1_101),
        Some(UdpAckPacket { ack_seq: 9, received_count: 3 })
    );
    assert_eq!(s.on_datagram(&packet(8), 1_150), None);
    assert_eq!(
        s.on_datagram(&packet(2), 1_202),
        Some(UdpAckPacket { ack_seq: 9, received_count: 5 })
    );
    assert_eq!(s.bytes_received, 5 * 20);
    // garbage counts as bytes only
    assert_eq!(s.on_datagram(&[1, 2, 3], 9_999), None);
    assert_eq!(s.packets_received, 5);
    assert_eq!(s.bytes_received, 103);
    assert_eq!(s.take_bandwidth(5), 20);
    assert_eq!(s.bytes_received, 0);
}

#[test]
fn bandwidth_is_bytes_over_seconds() {
    assert_eq!(camhack::udp::bytes_per_second(5_000, 5), 1_000);
    assert_eq!(camhack::udp::bytes_per_second(9, 5), 1);
    assert_eq!(camhack::udp::bytes_per_second(0, 1), 0);
    assert_eq!(camhack::udp::bytes_per_second(u64::MAX, 1), u64::MAX);
}

#[test]
fn coordinate_stamped_packets_round_trip() {
    let p = AttackPacket { seq_number: 3, timestamp: 4, attacker_coord: NodeCoord::new(-1, 2) };
    let b = p.to_bytes();
    assert_eq!(
        b,
        vec![0, 0, 0, 0, 0, 0, 0, 3, 0, 0, 0, 0, 0, 0, 0, 4, 255, 255, 255, 255, 0, 0, 0, 2]
    );
    assert_eq!(AttackPacket::from_bytes(&b), Some(p));
    assert_eq!(AttackPacket::from_bytes(&b[..23]), None);
    let a = AckPacket { seq_number: u64::MAX, target_coord: NodeCoord::new(i32::MIN, i32::MAX) };
    let b = a.to_bytes();
    assert_eq!(&b[8..], &[0x80, 0, 0, 0, 0x7F, 0xFF, 0xFF, 0xFF]);
    assert_eq!(AckPacket::from_bytes(&b), Some(a));
    assert_eq!(AckPacket::from_bytes(&b[..15]), None);
}

#[test]
fn packet_flooder_counts_and_measures() {
    let mut f = PacketFlooder::new("10.0.0.9".to_string(), NodeCoord::new(1, 0), NodeCoord::new(0, 0));
    assert_eq!(f.next_packet(5), None);
    f.start();
    let b = f.next_packet(5).unwrap();
    assert_eq!(
        AttackPacket::from_bytes(&b),
        Some(AttackPacket { seq_number: 1, timestamp: 5, attacker_coord: NodeCoord::new(0, 0) })
    );
    for t in 0..4 {
        f.next_packet(t);
    }
    assert_eq!(f.packets_sent, 5);
    assert_eq!(f.get_bandwidth(), 120);
    assert_eq!(f.get_packet_loss(), 1_000_000);
    let ack = AckPacket { seq_number: 1, target_coord: NodeCoord::new(1, 0) }.to_bytes();
    for _ in 0..4 {
        f.on_datagram(&ack);
    }
    f.on_datagram(&[0u8; 3]);
    assert_eq!(f.packets_acked, 4);
    assert_eq!(f.get_packet_loss(), 200_000);
    f.stop();
    assert_eq!(f.next_packet(9), None);
    f.packets_sent = u64::MAX;
    assert_eq!(f.get_bandwidth(), u64::MAX);
}

#[test]
fn responder_answers_within_its_budget() {
    let me = NodeCoord::new(2, 2);
    let mut r = PacketResponder::new(me, 48, 0);
    let packet = AttackPacket { seq_number: 11, timestamp: 0, attacker_coord: NodeCoord::new(1, 2) }.to_bytes();
    let mut answered = 0;
    for t in 0..10u64 {
        if r.poll(t * 10) == ResponderStep::Receive {
            let reply = r.on_datagram(&packet).unwrap();
            assert_eq!(AckPacket::from_bytes(&reply), Some(AckPacket { seq_number: 11, target_coord: me }));
            answered += 1;
        }
    }
    assert_eq!(answered, 3);
    assert_eq!(r.poll(999), ResponderStep::Backoff);
    assert_eq!(r.on_datagram(&packet), None);
    assert_eq!(r.poll(1_000), ResponderStep::Receive);
    assert_eq!(r.packets_this_second, 0);
    assert_eq!(r.on_datagram(&[0u8; 10]), None);
    assert_eq!(r.packets_this_second, 0);
    let mut none = PacketResponder::new(me, 15, 0);
    assert_eq!(none.poll(0), ResponderStep::Backoff);
}

fn state_with_attackers() -> GameState {
    let mut s = GameState::new();
    let join = |id: u64, q: i32, r: i32| GameEvent::PlayerJoin {
        player_id: id,
        name: format!("p{}", id),
        capital_coord: NodeCoord::new(q, r),
        node_ip: format!("10.0.0.{}", id),
        is_client: false,
        timestamp: 0,
    };
    s.process_event(join(1, 0, 0), 1);
    s.process_event(join(2, 1, 0), 2);
    s.process_event(join(3, -1, 0), 3);
    s.process_event(
        GameEvent::NodeInitializationStarted { node_coord: NodeCoord::new(0, 1), owner_id: 3, timestamp: 0 },
        4,
    );
    for (i, c) in [(1, 0), (-1, 0), (0, 1)].iter().enumerate() {
        s.process_event(
            GameEvent::SetNodeTarget {
                node_coord: NodeCoord::new(c.0, c.1),
                target: Some(AttackTarget::Coordinate(NodeCoord::new(0, 0))),
                timestamp: 0,
            },
            5 + i as u64,
        );
    }
    s
}

#[test]
fn sync_floods_the_attackers_with_known_addresses() {
    let s = state_with_attackers();
    let mut m = NetworkManager::new();
    assert!(m.sync_with_game_state(&s).started.is_empty());
    m.initialize(NodeCoord::new(0, 0), 1_000, 0);
    let plan = m.sync_with_game_state(&s);
    assert_eq!(
        plan.started,
        vec![
            (NodeCoord::new(-1, 0), "10.0.0.3".to_string()),
            (NodeCoord::new(1, 0), "10.0.0.2".to_string())
        ]
    );
    assert!(plan.stopped.is_empty());
    assert_eq!(m.active_attacks.len(), 2);
    let f = m.active_attacks.get(&NodeCoord::new(1, 0).key()).unwrap();
    assert!(f.running);
    assert_eq!(f.target_ip, "10.0.0.2");
    assert_eq!(f.attacker_coord, NodeCoord::new(0, 0));
    assert_eq!(f.target_coord, NodeCoord::new(1, 0));

    // a second sync changes nothing
    m.active_attacks.get_mut(&NodeCoord::new(1, 0).key()).unwrap().packets_sent = 9;
    let plan = m.sync_with_game_state(&s);
    assert!(plan.started.is_empty() && plan.stopped.is_empty());
    assert_eq!(m.active_attacks.get(&NodeCoord::new(1, 0).key()).unwrap().packets_sent, 9);
}

#[test]
fn sync_starts_when_the_address_lands_and_stops_when_the_attack_ends() {
    let mut s = state_with_attackers();
    let mut m = NetworkManager::new();
    m.initialize(NodeCoord::new(0, 0), 1_000, 0);
    m.sync_with_game_state(&s);
    s.process_event(
        GameEvent::NodeInitializationComplete {
            node_coord: NodeCoord::new(0, 1),
            node_ip: "10.0.0.44".to_string(),
            timestamp: 0,
        },
        20,
    );
    s.process_event(
        GameEvent::SetNodeTarget { node_coord: NodeCoord::new(1, 0), target: None, timestamp: 0 },
        21,
    );
    let plan = m.sync_with_game_state(&s);
    assert_eq!(plan.started, vec![(NodeCoord::new(0, 1), "10.0.0.44".to_string())]);
    assert_eq!(plan.stopped, vec![NodeCoord::new(1, 0)]);
    let open: Vec<u64> = m.active_attacks.keys().copied().collect();
    assert_eq!(open, vec![NodeCoord::new(-1, 0).key(), NodeCoord::new(0, 1).key()]);
}

#[test]
fn start_and_stop_attack_by_hand() {
    let mut m = NetworkManager::new();
    m.initialize(NodeCoord::new(0, 0), 160, 5);
    assert_eq!(m.my_capacity, 160);
    assert!(m.responder.unwrap().running);
    m.start_attack(NodeCoord::new(1, 0), "10.0.0.2".to_string());
    assert!(m.active_attacks.get(&NodeCoord::new(1, 0).key()).unwrap().running);
    assert!(m.stop_attack(NodeCoord::new(1, 0)));
    assert!(!m.stop_attack(NodeCoord::new(1, 0)));
    assert!(m.active_attacks.is_empty());
}

#[test]
fn metrics_report_is_about_the_own_tile() {
    let mut m = NetworkManager::new();
    assert!(m.get_metrics(5, 6).is_empty());
    m.initialize(NodeCoord::new(0, 0), 160, 5);
    let report = |m: &NetworkManager| match &m.get_metrics(1234, 77)[..] {
        [GameEvent::NodeMetricsReport { node_coord, bandwidth_in, packet_loss, timestamp }] => {
            (*node_coord, *bandwidth_in, *packet_loss, *timestamp)
        }
        other => panic!("unexpected report {:?}", other),
    };
    assert_eq!(report(&m), (NodeCoord::new(0, 0), 1234, 0, 77));
    m.start_attack(NodeCoord::new(1, 0), "a".to_string());
    m.start_attack(NodeCoord::new(0, 1), "b".to_string());
    {
        let f = m.active_attacks.get_mut(&NodeCoord::new(1, 0).key()).unwrap();
        f.packets_sent = 10;
        f.packets_acked = 9;
    }
    {
        let f = m.active_attacks.get_mut(&NodeCoord::new(0, 1).key()).unwrap();
        f.packets_sent = 10;
        f.packets_acked = 7;
    }
    assert_eq!(report(&m), (NodeCoord::new(0, 0), 1234, 300_000, 77));
}

#[test]
fn acknowledgements_count_against_the_budget() {
    let mut r = PacketResponder::new(NodeCoord::new(0, 0), 32, 0);
    assert!(r.count_ack());
    assert!(r.count_ack());
    assert!(!r.count_ack());
    assert_eq!(r.packets_this_second, 2);
    assert_eq!(r.poll(500), ResponderStep::Backoff);
    assert_eq!(r.poll(1_000), ResponderStep::Receive);
    assert!(r.count_ack());
}
