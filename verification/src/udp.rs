//! The flood on the wire: attack packets, sampled acknowledgements, and
//! the loss that a sender derives from them.
use crate::events::LOSS_SCALE;
use crate::wire::{be_u64, get_u64, lemma_be_u64_roundtrip, put_u64, u64_of_be};
use vstd::prelude::*;
use vstd::slice::{slice_subrange, slice_to_vec};

verus! {

/// The port on which every tile listens for the flood.
pub const ATTACK_PORT: u16 = 8081;

/// Bytes of filling in each attack packet.
pub const PAYLOAD_LEN: usize = 1024;

/// Bytes before the filling: sequence number and time.
pub const HEADER_LEN: usize = 16;

/// Milliseconds between two acknowledgements to one sender.
pub const ACK_INTERVAL_MS: u64 = 100;

/// A packet of the flood.
#[derive(Debug)]
pub struct UdpAttackPacket {
    /// Position in the sender's stream.
    pub seq: u64,
    /// Sending time in microseconds since the epoch.
    pub timestamp: u64,
    /// Filling.
    pub payload: Vec<u8>,
}

/// What the receiver sends back, a few times a second.
#[derive(Debug, Clone, Copy, PartialEq, Eq, Structural)]
pub struct UdpAckPacket {
    /// The highest sequence number seen.
    pub ack_seq: u64,
    /// How many packets arrived in all.
    pub received_count: u64,
}

/// The bytes of an attack packet: sequence number and time, each as
/// eight bytes with the most significant first, then the filling.
pub open spec fn attack_bytes(seq: u64, timestamp: u64, payload: Seq<u8>) -> Seq<u8> {
    be_u64(seq) + be_u64(timestamp) + payload
}

/// The bytes of an acknowledgement: highest sequence number and count,
/// each as eight bytes with the most significant first.
pub open spec fn ack_bytes(ack: UdpAckPacket) -> Seq<u8> {
    be_u64(ack.ack_seq) + be_u64(ack.received_count)
}

/// The acknowledgement that the first sixteen bytes of `b` stand for.
pub open spec fn ack_of(b: Seq<u8>) -> UdpAckPacket {
    UdpAckPacket {
        ack_seq: u64_of_be(b.subrange(0, 8)),
        received_count: u64_of_be(b.subrange(8, 16)),
    }
}

impl UdpAttackPacket {
    /// The packet on the wire.
    pub fn to_bytes(&self) -> (out: Vec<u8>)
        ensures
            out@ == attack_bytes(self.seq, self.timestamp, self.payload@),
    {
        let mut out: Vec<u8> = Vec::new();
        put_u64(&mut out, self.seq);
        put_u64(&mut out, self.timestamp);
        let mut i: usize = 0;
        while i < self.payload.len()
            invariant
                i <= self.payload.len(),
                out@ == be_u64(self.seq) + be_u64(self.timestamp) + self.payload@.take(i as int),
            decreases self.payload.len() - i,
        {
            out.push(self.payload[i]);
            proof {
                assert(self.payload@.take(i + 1) =~= self.payload@.take(i as int).push(
                    self.payload@[i as int],
                ));
                assert(out@ =~= be_u64(self.seq) + be_u64(self.timestamp) + self.payload@.take(
                    i + 1,
                ));
            }
            i += 1;
        }
        proof {
            assert(self.payload@.take(self.payload.len() as int) =~= self.payload@);
        }
        out
    }

    /// Reads a packet. Anything shorter than the header is no packet;
    /// what follows the header is the filling.
    pub fn from_bytes(bytes: &[u8]) -> (r: Option<UdpAttackPacket>)
        ensures
            r is Some <==> bytes@.len() >= HEADER_LEN,
            r matches Some(p) ==> {
                &&& p.seq == u64_of_be(bytes@.subrange(0, 8))
                &&& p.timestamp == u64_of_be(bytes@.subrange(8, 16))
                &&& p.payload@ == bytes@.subrange(16, bytes@.len() as int)
            },
    {
        if bytes.len() < HEADER_LEN {
            return None;
        }
        let seq = get_u64(bytes, 0);
        let timestamp = get_u64(bytes, 8);
        let payload = slice_to_vec(slice_subrange(bytes, HEADER_LEN, bytes.len()));
        Some(UdpAttackPacket { seq, timestamp, payload })
    }
}

impl UdpAckPacket {
    /// The acknowledgement on the wire.
    pub fn to_bytes(&self) -> (out: Vec<u8>)
        ensures
            out@ == ack_bytes(*self),
    {
        let mut out: Vec<u8> = Vec::new();
        put_u64(&mut out, self.ack_seq);
        put_u64(&mut out, self.received_count);
        out
    }

    /// Reads an acknowledgement from the first sixteen bytes. Anything
    /// shorter is none.
    pub fn from_bytes(bytes: &[u8]) -> (r: Option<UdpAckPacket>)
        ensures
            r == (if bytes@.len() >= 16 {
                Some(ack_of(bytes@))
            } else {
                None
            }),
    {
        if bytes.len() < 16 {
            return None;
        }
        Some(UdpAckPacket { ack_seq: get_u64(bytes, 0), received_count: get_u64(bytes, 8) })
    }
}

/// An attack packet that was written reads back as it was.
pub proof fn lemma_attack_packet_roundtrip(seq: u64, timestamp: u64, payload: Seq<u8>)
    ensures
        ({
            let b = attack_bytes(seq, timestamp, payload);
            &&& b.len() == HEADER_LEN + payload.len()
            &&& u64_of_be(b.subrange(0, 8)) == seq
            &&& u64_of_be(b.subrange(8, 16)) == timestamp
            &&& b.subrange(16, b.len() as int) == payload
        }),
{
    let b = attack_bytes(seq, timestamp, payload);
    lemma_be_u64_roundtrip(seq, be_u64(seq));
    lemma_be_u64_roundtrip(timestamp, be_u64(timestamp));
    assert(b.subrange(0, 8) =~= be_u64(seq));
    assert(b.subrange(8, 16) =~= be_u64(timestamp));
    assert(b.subrange(16, b.len() as int) =~= payload);
}

/// Bytes that read as an attack packet are the bytes of that packet.
pub proof fn lemma_attack_bytes_roundtrip(b: Seq<u8>)
    requires
        b.len() >= HEADER_LEN,
    ensures
        attack_bytes(
            u64_of_be(b.subrange(0, 8)),
            u64_of_be(b.subrange(8, 16)),
            b.subrange(16, b.len() as int),
        ) == b,
{
    lemma_be_u64_roundtrip(0, b.subrange(0, 8));
    lemma_be_u64_roundtrip(0, b.subrange(8, 16));
    assert(b.subrange(0, 8) + b.subrange(8, 16) + b.subrange(16, b.len() as int) =~= b);
}

/// An acknowledgement that was written reads back as it was, and sixteen
/// bytes that were read write back as they were.
pub proof fn lemma_ack_roundtrip(ack: UdpAckPacket, b: Seq<u8>)
    requires
        b.len() == 16,
    ensures
        ack_bytes(ack).len() == 16,
        ack_of(ack_bytes(ack)) == ack,
        ack_bytes(ack_of(b)) == b,
{
    lemma_be_u64_roundtrip(ack.ack_seq, b.subrange(0, 8));
    lemma_be_u64_roundtrip(ack.received_count, b.subrange(8, 16));
    let w = ack_bytes(ack);
    assert(w.subrange(0, 8) =~= be_u64(ack.ack_seq));
    assert(w.subrange(8, 16) =~= be_u64(ack.received_count));
    assert(b.subrange(0, 8) + b.subrange(8, 16) =~= b);
}

/// The share of packets lost, in millionths: of `sent` packets, those
/// beyond the `acked` ones, none where nothing was sent.
pub open spec fn loss_ppm(sent: u64, acked: u64) -> int {
    if sent == 0 {
        0
    } else if acked >= sent {
        0
    } else {
        (sent - acked) * 1_000_000 / (sent as int)
    }
}

/// The loss lies between nothing and everything, and it reaches a
/// threshold of `t` millionths exactly when the packets lost, times one
/// million, reach the packets sent, times `t`: rounding never moves a
/// loss across a threshold.
pub proof fn lemma_loss_ppm(sent: u64, acked: u64, t: u32)
    ensures
        0 <= loss_ppm(sent, acked) <= 1_000_000,
        sent > 0 && acked < sent ==> (loss_ppm(sent, acked) >= t <==> (sent - acked) * 1_000_000
            >= t * sent),
{
    if sent > 0 && acked < sent {
        let lost = (sent - acked) as int;
        let s = sent as int;
        let n = lost * 1_000_000;
        assert(0 <= n / s <= 1_000_000 && (n / s >= t <==> n >= t * s)) by (nonlinear_arith)
            requires
                0 < lost <= s,
                n == lost * 1_000_000,
                0 <= t,
        ;
    }
}

/// What a sender knows of its flood: packets sent, and packets that the
/// receiver said it got.
#[derive(Debug, Clone, Copy, PartialEq, Eq, Structural)]
pub struct PacketLossTracker {
    pub sent: u64,
    pub acked: u64,
}

impl PacketLossTracker {
    /// A tracker of a flood that has not begun.
    pub fn new() -> (t: Self)
        ensures
            t.sent == 0,
            t.acked == 0,
    {
        PacketLossTracker { sent: 0, acked: 0 }
    }

    /// The share of packets lost, in millionths.
    pub fn calculate_loss(&self) -> (loss: u32)
        ensures
            loss == loss_ppm(self.sent, self.acked),
            loss <= LOSS_SCALE,
    {
        proof {
            lemma_loss_ppm(self.sent, self.acked, 0);
        }
        if self.sent == 0 || self.acked >= self.sent {
            0
        } else {
            let lost: u128 = (self.sent - self.acked) as u128;
            (lost * 1_000_000 / (self.sent as u128)) as u32
        }
    }
}

/// The bandwidth that `bytes` received over `elapsed_secs` seconds come
/// to, in whole bytes per second.
pub fn bytes_per_second(bytes: u64, elapsed_secs: u64) -> (rate: u64)
    requires
        elapsed_secs > 0,
    ensures
        rate == bytes / elapsed_secs,
{
    bytes / elapsed_secs
}

/// The receiving side for one sender: what it has seen, and when it last
/// acknowledged.
#[derive(Debug, Clone, Copy, PartialEq, Eq, Structural)]
pub struct AckSampler {
    /// The highest sequence number seen, zero before the first packet.
    pub highest_seq: u64,
    /// Packets received.
    pub packets_received: u64,
    /// Bytes received since the counter was last read out.
    pub bytes_received: u64,
    /// When the last acknowledgement went out, in milliseconds.
    pub last_ack_ms: u64,
}

/// Whether an acknowledgement is due at `now_ms`: more than the interval
/// has passed since the last one.
pub open spec fn ack_due(last_ack_ms: u64, now_ms: u64) -> bool {
    now_ms > last_ack_ms && now_ms - last_ack_ms > ACK_INTERVAL_MS
}

/// The sampler after a datagram `b` arrived at `now_ms`.
pub open spec fn sampler_after(s: AckSampler, b: Seq<u8>, now_ms: u64) -> AckSampler {
    let bytes_received = ((s.bytes_received + b.len()) % 0x1_0000_0000_0000_0000) as u64;
    if b.len() < HEADER_LEN {
        AckSampler { bytes_received, ..s }
    } else {
        let seq = u64_of_be(b.subrange(0, 8));
        AckSampler {
            highest_seq: if seq > s.highest_seq {
                seq
            } else {
                s.highest_seq
            },
            packets_received: ((s.packets_received + 1) % 0x1_0000_0000_0000_0000) as u64,
            bytes_received,
            last_ack_ms: if ack_due(s.last_ack_ms, now_ms) {
                now_ms
            } else {
                s.last_ack_ms
            },
        }
    }
}

/// The acknowledgement that goes out for a datagram `b` at `now_ms`, if
/// one does: only a well-formed packet is answered, and only when an
/// acknowledgement is due.
pub open spec fn sampler_reply(s: AckSampler, b: Seq<u8>, now_ms: u64) -> Option<UdpAckPacket> {
    if b.len() >= HEADER_LEN && ack_due(s.last_ack_ms, now_ms) {
        let after = sampler_after(s, b, now_ms);
        Some(UdpAckPacket { ack_seq: after.highest_seq, received_count: after.packets_received })
    } else {
        None
    }
}

impl AckSampler {
    /// A sampler that starts at `now_ms` and has seen nothing.
    pub fn new(now_ms: u64) -> (s: Self)
        ensures
            s == (AckSampler {
                highest_seq: 0,
                packets_received: 0,
                bytes_received: 0,
                last_ack_ms: now_ms,
            }),
    {
        AckSampler { highest_seq: 0, packets_received: 0, bytes_received: 0, last_ack_ms: now_ms }
    }

    /// Takes one datagram in. Counts its bytes; where it is a packet,
    /// counts it and notes its sequence number; and hands back the
    /// acknowledgement to send, where one is due.
    pub fn on_datagram(&mut self, datagram: &[u8], now_ms: u64) -> (reply: Option<UdpAckPacket>)
        ensures
            *final(self) == sampler_after(*old(self), datagram@, now_ms),
            reply == sampler_reply(*old(self), datagram@, now_ms),
    {
        self.bytes_received = self.bytes_received.wrapping_add(datagram.len() as u64);
        match UdpAttackPacket::from_bytes(datagram) {
            None => None,
            Some(packet) => {
                if packet.seq > self.highest_seq {
                    self.highest_seq = packet.seq;
                }
                self.packets_received = self.packets_received.wrapping_add(1);
                if now_ms > self.last_ack_ms && now_ms - self.last_ack_ms > ACK_INTERVAL_MS {
                    self.last_ack_ms = now_ms;
                    Some(
                        UdpAckPacket {
                            ack_seq: self.highest_seq,
                            received_count: self.packets_received,
                        },
                    )
                } else {
                    None
                }
            },
        }
    }

    /// Reads the byte counter out as bytes per second over the
    /// `elapsed_secs` since it was last read, and sets it back to zero.
    pub fn take_bandwidth(&mut self, elapsed_secs: u64) -> (bandwidth_in: u64)
        requires
            elapsed_secs > 0,
        ensures
            bandwidth_in == old(self).bytes_received / elapsed_secs,
            *final(self) == (AckSampler { bytes_received: 0, ..*old(self) }),
    {
        let rate = bytes_per_second(self.bytes_received, elapsed_secs);
        self.bytes_received = 0;
        rate
    }
}

/// The sending side of one flood.
#[derive(Debug, Clone, Copy, PartialEq, Eq, Structural)]
pub struct Flooder {
    /// The sequence number of the next packet.
    pub next_seq: u64,
    /// What was sent and acknowledged.
    pub tracker: PacketLossTracker,
}

impl Flooder {
    /// A flood that has not begun.
    pub fn new() -> (f: Self)
        ensures
            f.next_seq == 0,
            f.tracker == (PacketLossTracker { sent: 0, acked: 0 }),
    {
        Flooder { next_seq: 0, tracker: PacketLossTracker::new() }
    }

    /// The next packet to send at `now_us`, with a filling of zeros. The
    /// packet counts as sent.
    pub fn next_packet(&mut self, now_us: u64) -> (out: Vec<u8>)
        ensures
            out@ == attack_bytes(old(self).next_seq, now_us, Seq::new(PAYLOAD_LEN as nat, |i: int| 0u8)),
            final(self).next_seq == ((old(self).next_seq + 1) % 0x1_0000_0000_0000_0000) as u64,
            final(self).tracker.sent == ((old(self).tracker.sent + 1) % 0x1_0000_0000_0000_0000) as u64,
            final(self).tracker.acked == old(self).tracker.acked,
    {
        let mut payload: Vec<u8> = Vec::new();
        let mut i: usize = 0;
        while i < PAYLOAD_LEN
            invariant
                i <= PAYLOAD_LEN,
                payload@ == Seq::new(i as nat, |j: int| 0u8),
            decreases PAYLOAD_LEN - i,
        {
            payload.push(0);
            proof {
                assert(payload@ =~= Seq::new((i + 1) as nat, |j: int| 0u8));
            }
            i += 1;
        }
        let packet = UdpAttackPacket { seq: self.next_seq, timestamp: now_us, payload };
        let out = packet.to_bytes();
        self.tracker.sent = self.tracker.sent.wrapping_add(1);
        self.next_seq = self.next_seq.wrapping_add(1);
        out
    }

    /// Takes in what came back from the target: an acknowledgement sets
    /// the count of packets known to have arrived, anything else changes
    /// nothing.
    pub fn on_ack_datagram(&mut self, datagram: &[u8])
        ensures
            final(self).next_seq == old(self).next_seq,
            final(self).tracker.sent == old(self).tracker.sent,
            final(self).tracker.acked == (if datagram@.len() >= 16 {
                ack_of(datagram@).received_count
            } else {
                old(self).tracker.acked
            }),
    {
        if let Some(ack) = UdpAckPacket::from_bytes(datagram) {
            self.tracker.acked = ack.received_count;
        }
    }
}

} // verus!
