//! What a tile does on the network: whom it floods, how it answers under
//! a budget, and what it reports.
use crate::events::{AttackTarget, GameEvent};
use crate::grid::{coord_key, key_coord, NodeCoord};
use crate::keys::{
    has_key, in_order, lemma_in_order, lemma_picked_all, lemma_picked_step, lists_in_order, lookup,
    picked, sorted_keys, store, take_out,
};
use crate::logic::attacks;
use crate::state::{GameState, GameView};
use crate::udp::loss_ppm;
use crate::wire::{be_i32, be_u64, get_i32, get_u64, i32_of_be, put_i32, put_u64, u64_of_be};
use std::collections::BTreeMap;
use vstd::prelude::*;

verus! {

/// The port of the coordinate-stamped flood.
pub const GAME_UDP_PORT: u16 = 9000;

/// Bytes that one acknowledgement costs the responder.
pub const ACK_COST: u64 = 16;

/// Bytes that one coordinate-stamped attack packet takes on the wire.
pub const ATTACK_PACKET_LEN: u64 = 24;

/// Milliseconds for which the responder rests once its budget is spent.
pub const BACKOFF_MS: u64 = 10;

/// An attack packet stamped with the attacker's coordinate.
#[derive(Debug, Clone, Copy, PartialEq, Eq, Structural)]
pub struct AttackPacket {
    pub seq_number: u64,
    pub timestamp: u64,
    pub attacker_coord: NodeCoord,
}

/// An acknowledgement stamped with the target's coordinate.
#[derive(Debug, Clone, Copy, PartialEq, Eq, Structural)]
pub struct AckPacket {
    pub seq_number: u64,
    pub target_coord: NodeCoord,
}

/// The twenty-four bytes of an attack packet: sequence number, time, and
/// the two coordinates, each with the most significant byte first.
pub open spec fn attack_packet_bytes(p: AttackPacket) -> Seq<u8> {
    be_u64(p.seq_number) + be_u64(p.timestamp) + be_i32(p.attacker_coord.q) + be_i32(
        p.attacker_coord.r,
    )
}

/// The attack packet that the first twenty-four bytes of `b` stand for.
pub open spec fn attack_packet_of(b: Seq<u8>) -> AttackPacket {
    AttackPacket {
        seq_number: u64_of_be(b.subrange(0, 8)),
        timestamp: u64_of_be(b.subrange(8, 16)),
        attacker_coord: NodeCoord {
            q: i32_of_be(b.subrange(16, 20)),
            r: i32_of_be(b.subrange(20, 24)),
        },
    }
}

/// The sixteen bytes of an acknowledgement.
pub open spec fn ack_packet_bytes(p: AckPacket) -> Seq<u8> {
    be_u64(p.seq_number) + be_i32(p.target_coord.q) + be_i32(p.target_coord.r)
}

/// The acknowledgement that the first sixteen bytes of `b` stand for.
pub open spec fn ack_packet_of(b: Seq<u8>) -> AckPacket {
    AckPacket {
        seq_number: u64_of_be(b.subrange(0, 8)),
        target_coord: NodeCoord {
            q: i32_of_be(b.subrange(8, 12)),
            r: i32_of_be(b.subrange(12, 16)),
        },
    }
}

impl AttackPacket {
    /// The packet on the wire.
    pub fn to_bytes(&self) -> (out: Vec<u8>)
        ensures
            out@ == attack_packet_bytes(*self),
    {
        let mut out: Vec<u8> = Vec::new();
        put_u64(&mut out, self.seq_number);
        put_u64(&mut out, self.timestamp);
        put_i32(&mut out, self.attacker_coord.q);
        put_i32(&mut out, self.attacker_coord.r);
        out
    }

    /// Reads a packet from the first twenty-four bytes; fewer are none.
    pub fn from_bytes(bytes: &[u8]) -> (r: Option<Self>)
        ensures
            r == (if bytes@.len() >= 24 {
                Some(attack_packet_of(bytes@))
            } else {
                None
            }),
    {
        if bytes.len() < 24 {
            return None;
        }
        let seq_number = get_u64(bytes, 0);
        let timestamp = get_u64(bytes, 8);
        let q = get_i32(bytes, 16);
        let r = get_i32(bytes, 20);
        Some(AttackPacket { seq_number, timestamp, attacker_coord: NodeCoord::new(q, r) })
    }
}

impl AckPacket {
    /// The acknowledgement on the wire.
    pub fn to_bytes(&self) -> (out: Vec<u8>)
        ensures
            out@ == ack_packet_bytes(*self),
    {
        let mut out: Vec<u8> = Vec::new();
        put_u64(&mut out, self.seq_number);
        put_i32(&mut out, self.target_coord.q);
        put_i32(&mut out, self.target_coord.r);
        out
    }

    /// Reads an acknowledgement from the first sixteen bytes; fewer are
    /// none.
    pub fn from_bytes(bytes: &[u8]) -> (r: Option<Self>)
        ensures
            r == (if bytes@.len() >= 16 {
                Some(ack_packet_of(bytes@))
            } else {
                None
            }),
    {
        if bytes.len() < 16 {
            return None;
        }
        let seq_number = get_u64(bytes, 0);
        let q = get_i32(bytes, 8);
        let r = get_i32(bytes, 12);
        Some(AckPacket { seq_number, target_coord: NodeCoord::new(q, r) })
    }
}

/// Packets that were written read back as they were.
pub proof fn lemma_packet_roundtrip(p: AttackPacket, a: AckPacket)
    ensures
        attack_packet_bytes(p).len() == 24,
        attack_packet_of(attack_packet_bytes(p)) == p,
        ack_packet_bytes(a).len() == 16,
        ack_packet_of(ack_packet_bytes(a)) == a,
{
    let b = attack_packet_bytes(p);
    crate::wire::lemma_be_u64_roundtrip(p.seq_number, be_u64(0));
    crate::wire::lemma_be_u64_roundtrip(p.timestamp, be_u64(0));
    crate::wire::lemma_be_i32_roundtrip(p.attacker_coord.q, be_i32(0));
    crate::wire::lemma_be_i32_roundtrip(p.attacker_coord.r, be_i32(0));
    assert(b.subrange(0, 8) =~= be_u64(p.seq_number));
    assert(b.subrange(8, 16) =~= be_u64(p.timestamp));
    assert(b.subrange(16, 20) =~= be_i32(p.attacker_coord.q));
    assert(b.subrange(20, 24) =~= be_i32(p.attacker_coord.r));
    let c = ack_packet_bytes(a);
    crate::wire::lemma_be_u64_roundtrip(a.seq_number, be_u64(0));
    crate::wire::lemma_be_i32_roundtrip(a.target_coord.q, be_i32(0));
    crate::wire::lemma_be_i32_roundtrip(a.target_coord.r, be_i32(0));
    assert(c.subrange(0, 8) =~= be_u64(a.seq_number));
    assert(c.subrange(8, 12) =~= be_i32(a.target_coord.q));
    assert(c.subrange(12, 16) =~= be_i32(a.target_coord.r));
}

/// One outgoing flood: where it goes and what came of it.
#[derive(Debug)]
pub struct PacketFlooder {
    pub target_ip: String,
    pub target_coord: NodeCoord,
    pub attacker_coord: NodeCoord,
    pub packets_sent: u64,
    pub packets_acked: u64,
    pub running: bool,
}

impl PacketFlooder {
    /// A flood from `attacker_coord` at the tile `target_coord`, reached
    /// at `target_ip`, that has not begun.
    pub fn new(target_ip: String, target_coord: NodeCoord, attacker_coord: NodeCoord) -> (f: Self)
        ensures
            f == (PacketFlooder {
                target_ip,
                target_coord,
                attacker_coord,
                packets_sent: 0,
                packets_acked: 0,
                running: false,
            }),
    {
        PacketFlooder {
            target_ip,
            target_coord,
            attacker_coord,
            packets_sent: 0,
            packets_acked: 0,
            running: false,
        }
    }

    /// Lets the flood run.
    pub fn start(&mut self)
        ensures
            *final(self) == (PacketFlooder { running: true, ..*old(self) }),
    {
        self.running = true;
    }

    /// Ends the flood.
    pub fn stop(&mut self)
        ensures
            *final(self) == (PacketFlooder { running: false, ..*old(self) }),
    {
        self.running = false;
    }

    /// The next packet to send at `now_us`, where the flood runs. The
    /// packet counts as sent; sequence numbers start at one.
    pub fn next_packet(&mut self, now_us: u64) -> (out: Option<Vec<u8>>)
        ensures
            !old(self).running ==> out is None && *final(self) == *old(self),
            old(self).running ==> {
                let sent = ((old(self).packets_sent + 1) % 0x1_0000_0000_0000_0000) as u64;
                &&& *final(self) == (PacketFlooder { packets_sent: sent, ..*old(self) })
                &&& out matches Some(bytes) && bytes@ == attack_packet_bytes(
                    AttackPacket {
                        seq_number: sent,
                        timestamp: now_us,
                        attacker_coord: old(self).attacker_coord,
                    },
                )
            },
    {
        if !self.running {
            return None;
        }
        self.packets_sent = self.packets_sent.wrapping_add(1);
        let packet = AttackPacket {
            seq_number: self.packets_sent,
            timestamp: now_us,
            attacker_coord: self.attacker_coord,
        };
        Some(packet.to_bytes())
    }

    /// Takes in what came back: each acknowledgement counts one packet
    /// as arrived, anything else counts nothing.
    pub fn on_datagram(&mut self, datagram: &[u8])
        ensures
            *final(self) == (PacketFlooder {
                packets_acked: if datagram@.len() >= 16 {
                    ((old(self).packets_acked + 1) % 0x1_0000_0000_0000_0000) as u64
                } else {
                    old(self).packets_acked
                },
                ..*old(self)
            }),
    {
        if let Some(_ack) = AckPacket::from_bytes(datagram) {
            self.packets_acked = self.packets_acked.wrapping_add(1);
        }
    }

    /// The share of packets lost, in millionths.
    pub fn get_packet_loss(&self) -> (loss: u32)
        ensures
            loss == loss_ppm(self.packets_sent, self.packets_acked),
            loss <= 1_000_000,
    {
        proof {
            crate::udp::lemma_loss_ppm(self.packets_sent, self.packets_acked, 0);
        }
        if self.packets_sent == 0 || self.packets_acked >= self.packets_sent {
            0
        } else {
            let lost: u128 = (self.packets_sent - self.packets_acked) as u128;
            (lost * 1_000_000 / (self.packets_sent as u128)) as u32
        }
    }

    /// Bytes sent so far, at twenty-four a packet, as far as the result
    /// type holds them.
    pub fn get_bandwidth(&self) -> (bytes: u64)
        ensures
            bytes == (if self.packets_sent * ATTACK_PACKET_LEN <= u64::MAX {
                self.packets_sent * ATTACK_PACKET_LEN
            } else {
                u64::MAX as int
            }),
    {
        match self.packets_sent.checked_mul(ATTACK_PACKET_LEN) {
            Some(bytes) => bytes,
            None => u64::MAX,
        }
    }
}

/// What the responder does next.
#[derive(Debug, Clone, Copy, PartialEq, Eq, Structural)]
pub enum ResponderStep {
    /// Take the next datagram and answer it.
    Receive,
    /// The budget of this second is spent: rest for `BACKOFF_MS`, answer
    /// nothing.
    Backoff,
}

/// The answering side of a tile, which acknowledges no more packets in a
/// second than its capacity pays for.
#[derive(Debug, Clone, Copy, PartialEq, Eq, Structural)]
pub struct PacketResponder {
    pub my_coord: NodeCoord,
    /// Bytes per second that the tile may send.
    pub capacity: u64,
    pub running: bool,
    /// Acknowledgements sent in the current second.
    pub packets_this_second: u64,
    /// When the current second began, in milliseconds.
    pub second_start_ms: u64,
}

/// The acknowledgements that a capacity pays for in one second.
pub open spec fn max_packets_per_second(capacity: u64) -> int {
    capacity as int / ACK_COST as int
}

/// The responder at `now_ms`, with the count set back where a second has
/// passed since the current one began.
pub open spec fn responder_at(r: PacketResponder, now_ms: u64) -> PacketResponder {
    if now_ms >= r.second_start_ms && now_ms - r.second_start_ms >= 1000 {
        PacketResponder { packets_this_second: 0, second_start_ms: now_ms, ..r }
    } else {
        r
    }
}

impl PacketResponder {
    /// A responder for the tile at `my_coord` whose first second begins
    /// at `now_ms`.
    pub fn new(my_coord: NodeCoord, capacity: u64, now_ms: u64) -> (r: Self)
        ensures
            r == (PacketResponder {
                my_coord,
                capacity,
                running: false,
                packets_this_second: 0,
                second_start_ms: now_ms,
            }),
    {
        PacketResponder {
            my_coord,
            capacity,
            running: false,
            packets_this_second: 0,
            second_start_ms: now_ms,
        }
    }

    /// Lets the responder answer.
    pub fn start(&mut self)
        ensures
            *final(self) == (PacketResponder { running: true, ..*old(self) }),
    {
        self.running = true;
    }

    /// Ends the answering.
    pub fn stop(&mut self)
        ensures
            *final(self) == (PacketResponder { running: false, ..*old(self) }),
    {
        self.running = false;
    }

    /// Decides at `now_ms` whether to take a datagram or to rest: a new
    /// second sets the count back, and a spent budget means rest.
    pub fn poll(&mut self, now_ms: u64) -> (step: ResponderStep)
        ensures
            *final(self) == responder_at(*old(self), now_ms),
            step == (if final(self).packets_this_second >= max_packets_per_second(
                old(self).capacity,
            ) {
                ResponderStep::Backoff
            } else {
                ResponderStep::Receive
            }),
    {
        if now_ms >= self.second_start_ms && now_ms - self.second_start_ms >= 1000 {
            self.packets_this_second = 0;
            self.second_start_ms = now_ms;
        }
        if self.packets_this_second >= self.capacity / ACK_COST {
            ResponderStep::Backoff
        } else {
            ResponderStep::Receive
        }
    }

    /// Counts one acknowledgement against the budget of the second,
    /// where the budget allows it. Says whether it did.
    pub fn count_ack(&mut self) -> (allowed: bool)
        ensures
            allowed == (old(self).packets_this_second < max_packets_per_second(old(self).capacity)),
            allowed ==> *final(self) == (PacketResponder {
                packets_this_second: (old(self).packets_this_second + 1) as u64,
                ..*old(self)
            }),
            !allowed ==> *final(self) == *old(self),
    {
        if self.packets_this_second >= self.capacity / ACK_COST {
            false
        } else {
            self.packets_this_second = self.packets_this_second + 1;
            true
        }
    }

    /// Answers a datagram: while the budget of the second lasts, an
    /// attack packet is acknowledged with its own sequence number and this
    /// tile's coordinate, and counts against the budget. Anything else,
    /// and everything once the budget is spent, is dropped unanswered, so
    /// that no second sees more acknowledgements than the capacity pays
    /// for.
    pub fn on_datagram(&mut self, datagram: &[u8]) -> (reply: Option<Vec<u8>>)
        ensures
            reply is Some <==> datagram@.len() >= 24 && old(self).packets_this_second
                < max_packets_per_second(old(self).capacity),
            reply is None ==> *final(self) == *old(self),
            reply matches Some(bytes) ==> {
                &&& *final(self) == (PacketResponder {
                    packets_this_second: (old(self).packets_this_second + 1) as u64,
                    ..*old(self)
                })
                &&& bytes@ == ack_packet_bytes(
                    AckPacket {
                        seq_number: attack_packet_of(datagram@).seq_number,
                        target_coord: old(self).my_coord,
                    },
                )
            },
    {
        match AttackPacket::from_bytes(datagram) {
            None => None,
            Some(packet) => {
                if self.count_ack() {
                    let ack = AckPacket {
                        seq_number: packet.seq_number,
                        target_coord: self.my_coord,
                    };
                    Some(ack.to_bytes())
                } else {
                    None
                }
            },
        }
    }
}

/// The flooder that a tile at `me` opens at the tile under `k`, reached
/// at `ip`: running, with nothing sent yet.
pub open spec fn fresh_flooder(ip: String, k: u64, me: NodeCoord) -> PacketFlooder {
    PacketFlooder {
        target_ip: ip,
        target_coord: key_coord(k),
        attacker_coord: me,
        packets_sent: 0,
        packets_acked: 0,
        running: true,
    }
}

/// The keys of the open floods that a sync closes: those aimed at a tile
/// that no longer attacks the tile under `me`.
pub open spec fn to_stop(s: GameView, active: Map<u64, PacketFlooder>, me: u64) -> Set<u64> {
    Set::new(|k: u64| active.contains_key(k) && !attacks(s.nodes, k, me))
}

/// The keys of the floods that a sync opens: one at each tile that
/// attacks the tile under `me`, has a known address, and is not flooded
/// yet.
pub open spec fn to_start(s: GameView, active: Map<u64, PacketFlooder>, me: u64) -> Set<u64> {
    Set::new(
        |k: u64| attacks(s.nodes, k, me) && !active.contains_key(k) && s.node_ips.contains_key(k),
    )
}

/// The open floods after a sync.
pub open spec fn synced(
    s: GameView,
    active: Map<u64, PacketFlooder>,
    me: NodeCoord,
) -> Map<u64, PacketFlooder> {
    let mine = coord_key(me);
    Map::new(
        |k: u64|
            (active.contains_key(k) && attacks(s.nodes, k, mine)) || to_start(
                s,
                active,
                mine,
            ).contains(k),
        |k: u64|
            if active.contains_key(k) {
                active[k]
            } else {
                fresh_flooder(s.node_ips[k], k, me)
            },
    )
}

/// Whether `w` is the greatest loss among the floods, zero where there
/// are none.
pub open spec fn is_worst_loss(active: Map<u64, PacketFlooder>, w: int) -> bool {
    &&& forall|k: u64|
        active.contains_key(k) ==> loss_ppm(
            (#[trigger] active[k]).packets_sent,
            active[k].packets_acked,
        ) <= w
    &&& w == 0 || exists|k: u64|
        active.contains_key(k) && loss_ppm(
            (#[trigger] active[k]).packets_sent,
            active[k].packets_acked,
        ) == w
}

/// What a sync changed, for whoever runs the sockets: the tiles at which
/// a flood was opened, with their addresses, and the tiles at which one
/// was closed, each in the order of the coordinates.
#[derive(Debug)]
pub struct SyncPlan {
    pub started: Vec<(NodeCoord, String)>,
    pub stopped: Vec<NodeCoord>,
}

/// The floods and the responder of one tile.
#[derive(Debug)]
pub struct NetworkManager {
    pub my_coord: Option<NodeCoord>,
    pub my_capacity: u64,
    /// The open floods, by the key of the coordinate they are aimed at.
    pub active_attacks: BTreeMap<u64, PacketFlooder>,
    pub responder: Option<PacketResponder>,
}

impl NetworkManager {
    /// A manager that does not know its tile yet.
    pub fn new() -> (m: Self)
        ensures
            m.my_coord is None,
            m.my_capacity == 0,
            m.active_attacks@ == Map::<u64, PacketFlooder>::empty(),
            m.responder is None,
    {
        NetworkManager {
            my_coord: None,
            my_capacity: 0,
            active_attacks: BTreeMap::new(),
            responder: None,
        }
    }

    /// Tells the manager its tile and starts the responder, whose first
    /// second begins at `now_ms`.
    pub fn initialize(&mut self, my_coord: NodeCoord, my_capacity: u64, now_ms: u64)
        ensures
            final(self).my_coord == Some(my_coord),
            final(self).my_capacity == my_capacity,
            final(self).active_attacks == old(self).active_attacks,
            final(self).responder == Some(
                PacketResponder {
                    my_coord,
                    capacity: my_capacity,
                    running: true,
                    packets_this_second: 0,
                    second_start_ms: now_ms,
                },
            ),
    {
        self.my_coord = Some(my_coord);
        self.my_capacity = my_capacity;
        let mut responder = PacketResponder::new(my_coord, my_capacity, now_ms);
        responder.start();
        self.responder = Some(responder);
    }

    /// Opens a running flood at `target_coord`, in place of any that was
    /// open there.
    pub fn start_attack(&mut self, target_coord: NodeCoord, target_ip: String)
        requires
            old(self).my_coord is Some,
        ensures
            final(self).active_attacks@ == old(self).active_attacks@.insert(
                coord_key(target_coord),
                PacketFlooder {
                    target_ip,
                    target_coord,
                    attacker_coord: old(self).my_coord->0,
                    packets_sent: 0,
                    packets_acked: 0,
                    running: true,
                },
            ),
            final(self).my_coord == old(self).my_coord,
            final(self).my_capacity == old(self).my_capacity,
            final(self).responder == old(self).responder,
    {
        let my_coord = match self.my_coord {
            Some(c) => c,
            None => target_coord,
        };
        let mut flooder = PacketFlooder::new(target_ip, target_coord, my_coord);
        flooder.start();
        store(&mut self.active_attacks, target_coord.key(), flooder);
    }

    /// Closes the flood at `target_coord`. Says whether one was open.
    pub fn stop_attack(&mut self, target_coord: NodeCoord) -> (was_open: bool)
        ensures
            was_open == old(self).active_attacks@.contains_key(coord_key(target_coord)),
            final(self).active_attacks@ == old(self).active_attacks@.remove(coord_key(target_coord)),
            final(self).my_coord == old(self).my_coord,
            final(self).my_capacity == old(self).my_capacity,
            final(self).responder == old(self).responder,
    {
        match take_out(&mut self.active_attacks, target_coord.key()) {
            Some(_flooder) => true,
            None => false,
        }
    }

    /// Whether the tile under `a` attacks the tile under `me`.
    fn is_attacker(game_state: &GameState, a: u64, me: u64) -> (b: bool)
        ensures
            b == attacks(game_state@.nodes, a, me),
    {
        match lookup(&game_state.nodes, a) {
            Some(node) => match node.current_target {
                Some(AttackTarget::Coordinate(c)) => c.key() == me,
                _ => false,
            },
            None => false,
        }
    }

    /// Closes every flood aimed at a tile that no longer attacks this one.
    fn close_stale(&mut self, game_state: &GameState, me: u64) -> (stopped: Vec<NodeCoord>)
        ensures
            final(self).active_attacks@ == old(self).active_attacks@.remove_keys(
                to_stop(game_state@, old(self).active_attacks@, me),
            ),
            stopped@ == in_order(to_stop(game_state@, old(self).active_attacks@, me)).map_values(
                |k: u64| key_coord(k),
            ),
            final(self).my_coord == old(self).my_coord,
            final(self).my_capacity == old(self).my_capacity,
            final(self).responder == old(self).responder,
    {
        let ks = sorted_keys(&self.active_attacks);
        let ghost t = to_stop(game_state@, self.active_attacks@, me);
        let ghost f = |k: u64| key_coord(k);
        let mut doomed: Vec<u64> = Vec::new();
        let mut stopped: Vec<NodeCoord> = Vec::new();
        let mut i: usize = 0;
        while i < ks.len()
            invariant
                i <= ks.len(),
                *self == *old(self),
                lists_in_order(ks@, self.active_attacks@.dom()),
                t == to_stop(game_state@, self.active_attacks@, me),
                f == |k: u64| key_coord(k),
                lists_in_order(doomed@, picked(ks@, t, i as int)),
                stopped@ == doomed@.map_values(f),
            decreases ks.len() - i,
        {
            let k = ks[i];
            proof {
                lemma_picked_step(ks@, t, i as int, doomed@);
                assert(ks@.contains(k));
            }
            if !Self::is_attacker(game_state, k, me) {
                proof {
                    assert(doomed@.push(k).map_values(f) =~= doomed@.map_values(f).push(f(k)));
                }
                doomed.push(k);
                stopped.push(NodeCoord::from_key(k));
            }
            i += 1;
        }
        proof {
            assert(t.subset_of(self.active_attacks@.dom()));
            lemma_picked_all(ks@, t, self.active_attacks@.dom());
            lemma_in_order(doomed@, t);
            assert(doomed@.to_set() =~= t);
        }
        let mut j: usize = 0;
        while j < doomed.len()
            invariant
                j <= doomed.len(),
                self.my_coord == old(self).my_coord,
                self.my_capacity == old(self).my_capacity,
                self.responder == old(self).responder,
                self.active_attacks@ == old(self).active_attacks@.remove_keys(
                    doomed@.take(j as int).to_set(),
                ),
            decreases doomed.len() - j,
        {
            let _ = take_out(&mut self.active_attacks, doomed[j]);
            proof {
                let before = doomed@.take(j as int);
                let after = doomed@.take(j + 1);
                assert(after =~= before.push(doomed@[j as int]));
                assert forall|k: u64| after.to_set().contains(k) <==> before.to_set().insert(
                    doomed@[j as int],
                ).contains(k) by {
                    if after.contains(k) {
                        let m = choose|m: int| 0 <= m < after.len() && after[m] == k;
                        if m < before.len() {
                            assert(before[m] == k);
                            assert(before.contains(k));
                        }
                    }
                    if before.contains(k) {
                        let m = choose|m: int| 0 <= m < before.len() && before[m] == k;
                        assert(after[m] == k);
                    }
                    if k == doomed@[j as int] {
                        assert(after[j as int] == k);
                    }
                }
                assert(after.to_set() =~= before.to_set().insert(doomed@[j as int]));
                assert(self.active_attacks@ =~= old(self).active_attacks@.remove_keys(
                    after.to_set(),
                ));
            }
            j += 1;
        }
        proof {
            assert(doomed@.take(doomed.len() as int) =~= doomed@);
        }
        stopped
    }

    /// Brings the open floods in line with the committed targets: a tile
    /// floods the tiles that attack it. A flood aimed at a tile that no
    /// longer attacks this one is closed; a flood is opened at each
    /// attacker that has a known address and is not flooded yet; the
    /// other floods go on as they are. Before the tile is known nothing
    /// happens.
    pub fn sync_with_game_state(&mut self, game_state: &GameState) -> (plan: SyncPlan)
        ensures
            final(self).my_coord == old(self).my_coord,
            final(self).my_capacity == old(self).my_capacity,
            final(self).responder == old(self).responder,
            old(self).my_coord is None ==> final(self).active_attacks@ == old(self).active_attacks@
                && plan.started@.len() == 0 && plan.stopped@.len() == 0,
            old(self).my_coord matches Some(me) ==> {
                let mine = coord_key(me);
                let opened = in_order(to_start(game_state@, old(self).active_attacks@, mine));
                &&& final(self).active_attacks@ == synced(
                    game_state@,
                    old(self).active_attacks@,
                    me,
                )
                &&& plan.stopped@ == in_order(
                    to_stop(game_state@, old(self).active_attacks@, mine),
                ).map_values(|k: u64| key_coord(k))
                &&& plan.started@.len() == opened.len()
                &&& forall|i: int|
                    0 <= i < opened.len() ==> (#[trigger] plan.started@[i]).0 == key_coord(opened[i])
                        && plan.started@[i].1 == game_state@.node_ips[opened[i]]
            },
    {
        let my_coord = match self.my_coord {
            Some(c) => c,
            None => {
                return SyncPlan { started: Vec::new(), stopped: Vec::new() };
            },
        };
        let me = my_coord.key();
        let stopped = self.close_stale(game_state, me);
        let ghost before = old(self).active_attacks@;
        let ghost mid = self.active_attacks@;
        let ghost t = to_start(game_state@, before, me);
        let ks = sorted_keys(&game_state.nodes);
        let ghost mut acc: Seq<u64> = Seq::empty();
        let mut started: Vec<(NodeCoord, String)> = Vec::new();
        let mut i: usize = 0;
        while i < ks.len()
            invariant
                i <= ks.len(),
                self.my_coord == old(self).my_coord,
                self.my_capacity == old(self).my_capacity,
                self.responder == old(self).responder,
                me == coord_key(my_coord),
                before == old(self).active_attacks@,
                mid == before.remove_keys(to_stop(game_state@, before, me)),
                lists_in_order(ks@, game_state.nodes@.dom()),
                t == to_start(game_state@, before, me),
                lists_in_order(acc, picked(ks@, t, i as int)),
                started@.len() == acc.len(),
                forall|j: int|
                    0 <= j < acc.len() ==> (#[trigger] started@[j]).0 == key_coord(acc[j])
                        && started@[j].1 == game_state@.node_ips[acc[j]],
                forall|k: u64|
                    #![trigger self.active_attacks@.contains_key(k)]
                    self.active_attacks@.contains_key(k) <==> mid.contains_key(k) || acc.contains(
                        k,
                    ),
                forall|k: u64|
                    mid.contains_key(k) ==> #[trigger] self.active_attacks@[k] == mid[k],
                forall|k: u64|
                    acc.contains(k) ==> #[trigger] self.active_attacks@[k] == fresh_flooder(
                        game_state@.node_ips[k],
                        k,
                        my_coord,
                    ),
            decreases ks.len() - i,
        {
            let k = ks[i];
            proof {
                lemma_picked_step(ks@, t, i as int, acc);
                crate::keys::lemma_picked(ks@, t, i as int);
                assert(ks@.contains(k));
                assert(!acc.contains(k));
            }
            if Self::is_attacker(game_state, k, me) && !has_key(&self.active_attacks, k) {
                let address = match lookup(&game_state.node_ips, k) {
                    Some(ip) => Some(ip.clone()),
                    None => None,
                };
                if let Some(ip) = address {
                    let mut flooder = PacketFlooder::new(ip.clone(), NodeCoord::from_key(k), my_coord);
                    flooder.start();
                    let ghost prev = self.active_attacks@;
                    store(&mut self.active_attacks, k, flooder);
                    started.push((NodeCoord::from_key(k), ip));
                    proof {
                        let old_acc = acc;
                        crate::keys::lemma_push_contains(old_acc, k);
                        assert(!mid.contains_key(k));
                        acc = old_acc.push(k);
                        assert forall|o: u64|
                            #![trigger self.active_attacks@.contains_key(o)]
                            self.active_attacks@.contains_key(o) <==> mid.contains_key(o)
                                || acc.contains(o) by {
                            assert(acc.contains(o) <==> old_acc.contains(o) || o == k);
                            assert(prev.contains_key(o) <==> mid.contains_key(o)
                                || old_acc.contains(o));
                        }
                        assert forall|o: u64| acc.contains(o) implies #[trigger] self.active_attacks@[o]
                            == fresh_flooder(game_state@.node_ips[o], o, my_coord) by {
                            assert(acc.contains(o) <==> old_acc.contains(o) || o == k);
                            if o != k {
                                assert(prev[o] == fresh_flooder(
                                    game_state@.node_ips[o],
                                    o,
                                    my_coord,
                                ));
                            }
                        }
                        assert forall|o: u64| mid.contains_key(o) implies #[trigger] self.active_attacks@[o]
                            == mid[o] by {
                            assert(prev[o] == mid[o]);
                        }
                    }
                }
            }
            i += 1;
        }
        proof {
            assert(t.subset_of(game_state.nodes@.dom()));
            lemma_picked_all(ks@, t, game_state.nodes@.dom());
            lemma_in_order(acc, t);
            let target = synced(game_state@, before, my_coord);
            assert forall|k: u64| self.active_attacks@.contains_key(k) <==> target.contains_key(
                k,
            ) by {
                assert(acc.contains(k) <==> t.contains(k));
                assert(mid.contains_key(k) <==> before.contains_key(k) && attacks(
                    game_state@.nodes,
                    k,
                    me,
                ));
            }
            assert forall|k: u64| self.active_attacks@.contains_key(k) implies self.active_attacks@[k]
                == target[k] by {
                assert(acc.contains(k) <==> t.contains(k));
                if mid.contains_key(k) {
                    assert(self.active_attacks@[k] == mid[k]);
                } else {
                    assert(acc.contains(k));
                }
            }
            assert(self.active_attacks@ =~= target);
        }
        SyncPlan { started, stopped }
    }

    /// The report that this tile proposes at `timestamp`: its own
    /// coordinate, the bandwidth it measured coming in, and the greatest
    /// loss among its floods. Nothing before the tile is known.
    pub fn get_metrics(&self, bandwidth_in: u64, timestamp: u64) -> (events: Vec<GameEvent>)
        ensures
            self.my_coord is None ==> events@.len() == 0,
            self.my_coord matches Some(me) ==> events@.len() == 1 && (events@[0]
                matches GameEvent::NodeMetricsReport {
                node_coord,
                bandwidth_in: b,
                packet_loss,
                timestamp: t,
            } && node_coord == me && b == bandwidth_in && t == timestamp && is_worst_loss(
                self.active_attacks@,
                packet_loss as int,
            )),
    {
        let mut events: Vec<GameEvent> = Vec::new();
        let my_coord = match self.my_coord {
            Some(c) => c,
            None => {
                return events;
            },
        };
        let ks = sorted_keys(&self.active_attacks);
        let ghost active = self.active_attacks@;
        let mut worst: u32 = 0;
        let mut i: usize = 0;
        while i < ks.len()
            invariant
                i <= ks.len(),
                active == self.active_attacks@,
                lists_in_order(ks@, active.dom()),
                forall|j: int|
                    0 <= j < i ==> loss_ppm(
                        active[#[trigger] ks@[j]].packets_sent,
                        active[ks@[j]].packets_acked,
                    ) <= worst,
                worst == 0 || exists|j: int|
                    0 <= j < i && loss_ppm(
                        active[#[trigger] ks@[j]].packets_sent,
                        active[ks@[j]].packets_acked,
                    ) == worst,
            decreases ks.len() - i,
        {
            proof {
                assert(ks@.contains(ks@[i as int]));
            }
            if let Some(flooder) = lookup(&self.active_attacks, ks[i]) {
                let loss = flooder.get_packet_loss();
                if loss > worst {
                    worst = loss;
                }
            }
            i += 1;
        }
        proof {
            assert forall|k: u64| active.contains_key(k) implies loss_ppm(
                (#[trigger] active[k]).packets_sent,
                active[k].packets_acked,
            ) <= worst by {
                assert(ks@.contains(k));
                let j = choose|j: int| 0 <= j < ks@.len() && ks@[j] == k;
                assert(loss_ppm(active[ks@[j]].packets_sent, active[ks@[j]].packets_acked) <= worst);
            }
            if worst != 0 {
                let j = choose|j: int|
                    0 <= j < i && loss_ppm(
                        active[#[trigger] ks@[j]].packets_sent,
                        active[ks@[j]].packets_acked,
                    ) == worst;
                assert(ks@.contains(ks@[j]));
                assert(active.contains_key(ks@[j]));
            }
        }
        events.push(
            GameEvent::NodeMetricsReport {
                node_coord: my_coord,
                bandwidth_in,
                packet_loss: worst,
                timestamp,
            },
        );
        events
    }
}

} // verus!
