//! The settings of the replicated group and the small decisions around
//! leadership.
use vstd::prelude::*;

verus! {

/// Marks the kind of group that replicates the game.
#[derive(Debug, Clone, Copy, Default, PartialEq, Eq, Hash)]
pub struct GameRaftTypeConfig;

/// A replica of the group to start from.
#[derive(Debug)]
pub struct PeerInfo {
    pub ip: String,
    pub port: u16,
}

impl PeerInfo {
    /// The peer that the directory named, where it named both an address
    /// and a port.
    pub fn from_parts(peer_ip: Option<String>, peer_port: Option<u16>) -> (peer: Option<PeerInfo>)
        ensures
            peer is Some <==> peer_ip is Some && peer_port is Some,
            peer matches Some(p) ==> p.ip == peer_ip->0 && p.port == peer_port->0,
    {
        match (peer_ip, peer_port) {
            (Some(ip), Some(port)) => Some(PeerInfo { ip, port }),
            _ => None,
        }
    }
}

/// The timing of the group, in milliseconds, and the sizes it works with.
#[derive(Debug, Clone, Copy, PartialEq, Eq, Structural)]
pub struct RaftSettings {
    pub heartbeat_interval: u64,
    pub election_timeout_min: u64,
    pub election_timeout_max: u64,
    pub install_snapshot_timeout: u64,
    /// Entries kept in the log behind a snapshot.
    pub max_in_snapshot_log_to_keep: u64,
    /// Entries sent in one request to append.
    pub max_payload_entries: u64,
}

impl RaftSettings {
    /// Whether an election cannot start between two heartbeats and the
    /// range of election timeouts is not empty.
    pub open spec fn sound(self) -> bool {
        self.heartbeat_interval < self.election_timeout_min < self.election_timeout_max
    }
}

impl Default for RaftSettings {
    /// Heartbeats every half second, elections after one and a half to
    /// three seconds, ten seconds for a snapshot, a thousand entries
    /// behind a snapshot, three hundred entries a request.
    fn default() -> (s: Self)
        ensures
            s == (RaftSettings {
                heartbeat_interval: 500,
                election_timeout_min: 1500,
                election_timeout_max: 3000,
                install_snapshot_timeout: 10000,
                max_in_snapshot_log_to_keep: 1000,
                max_payload_entries: 300,
            }),
            s.sound(),
    {
        RaftSettings {
            heartbeat_interval: 500,
            election_timeout_min: 1500,
            election_timeout_max: 3000,
            install_snapshot_timeout: 10000,
            max_in_snapshot_log_to_keep: 1000,
            max_payload_entries: 300,
        }
    }
}

/// Where a call to a peer went wrong.
#[derive(Debug, Clone, Copy, PartialEq, Eq, Structural)]
pub enum CallStage {
    /// The peer has no address in the registry.
    Lookup,
    /// No connection to the peer's address came about.
    Connect,
    /// The connection stood and the exchange failed.
    Exchange,
}

/// How the group is told of a failed call.
#[derive(Debug, Clone, Copy, PartialEq, Eq, Structural)]
pub enum RpcFailure {
    /// The peer cannot be reached now; the group backs off and tries
    /// again.
    Unreachable,
    /// The exchange failed; the group tries again at once.
    Network,
}

/// How a call that failed at `stage` is reported: a peer that could not
/// be found or connected to is unreachable, a failed exchange is a
/// network error.
pub fn rpc_failure(stage: CallStage) -> (f: RpcFailure)
    ensures
        f == (match stage {
            CallStage::Lookup => RpcFailure::Unreachable,
            CallStage::Connect => RpcFailure::Unreachable,
            CallStage::Exchange => RpcFailure::Network,
        }),
{
    match stage {
        CallStage::Lookup => RpcFailure::Unreachable,
        CallStage::Connect => RpcFailure::Unreachable,
        CallStage::Exchange => RpcFailure::Network,
    }
}

/// Whether the replica `node_id` leads, given the leader it knows of.
pub fn is_leader(current_leader: Option<u64>, node_id: u64) -> (b: bool)
    ensures
        b == (current_leader == Some(node_id)),
{
    match current_leader {
        Some(leader) => leader == node_id,
        None => false,
    }
}

/// What to do while waiting for an election.
#[derive(Debug, Clone, Copy, PartialEq, Eq, Structural)]
pub enum LeaderWait {
    /// The time is up.
    TimedOut,
    /// A leader is known.
    Elected(u64),
    /// Look again after `LEADER_POLL_MS`.
    Retry,
}

/// Milliseconds between two looks for a leader.
pub const LEADER_POLL_MS: u64 = 100;

/// One look for a leader after `elapsed_ms` of waiting: the time limit
/// counts first, then a known leader ends the wait.
pub fn leader_wait_step(elapsed_ms: u64, timeout_ms: u64, current_leader: Option<u64>) -> (step:
    LeaderWait)
    ensures
        step == (if elapsed_ms >= timeout_ms {
            LeaderWait::TimedOut
        } else {
            match current_leader {
                Some(leader) => LeaderWait::Elected(leader),
                None => LeaderWait::Retry,
            }
        }),
{
    if elapsed_ms >= timeout_ms {
        LeaderWait::TimedOut
    } else {
        match current_leader {
            Some(leader) => LeaderWait::Elected(leader),
            None => LeaderWait::Retry,
        }
    }
}

} // verus!
