//! The events that make up the replicated log.
use crate::grid::NodeCoord;
use vstd::prelude::*;

verus! {

/// Packet loss is carried as a fraction in millionths: this is the whole.
pub const LOSS_SCALE: u32 = 1_000_000;

/// What a tile is to its owner.
#[derive(Debug, Clone, Copy, PartialEq, Eq, Structural)]
pub enum NodeType {
    /// A player's capital: losing it ends the player.
    Capital,
    /// An ordinary tile.
    Regular,
    /// The player's own machine, which is no tile of the grid.
    Client,
}

/// What a tile floods.
#[derive(Debug, Clone, Copy, PartialEq, Eq, Structural)]
pub enum AttackTarget {
    /// The tile at a coordinate.
    Coordinate(NodeCoord),
    /// The client of a player, by player id.
    Player(u64),
}

/// One entry of the replicated log.
#[derive(Debug)]
pub enum GameEvent {
    /// A player enters with a capital tile.
    PlayerJoin {
        player_id: u64,
        name: String,
        capital_coord: NodeCoord,
        node_ip: String,
        is_client: bool,
        timestamp: u64,
    },
    /// A tile changes what it attacks; `None` stops the attack.
    SetNodeTarget { node_coord: NodeCoord, target: Option<AttackTarget>, timestamp: u64 },
    /// A tile changes hands after sustained overload.
    NodeCaptured { node_coord: NodeCoord, new_owner_id: u64, timestamp: u64 },
    /// A tile reports what it measured; `packet_loss` is in millionths.
    NodeMetricsReport { node_coord: NodeCoord, bandwidth_in: u64, packet_loss: u32, timestamp: u64 },
    /// A tile starts to come up; owner `0` is neutral.
    NodeInitializationStarted { node_coord: NodeCoord, owner_id: u64, timestamp: u64 },
    /// A tile is up and reachable at `node_ip`.
    NodeInitializationComplete { node_coord: NodeCoord, node_ip: String, timestamp: u64 },
}

impl Clone for GameEvent {
    fn clone(&self) -> (e: Self)
        ensures
            e == *self,
    {
        match self {
            GameEvent::PlayerJoin {
                player_id,
                name,
                capital_coord,
                node_ip,
                is_client,
                timestamp,
            } => GameEvent::PlayerJoin {
                player_id: *player_id,
                name: name.clone(),
                capital_coord: *capital_coord,
                node_ip: node_ip.clone(),
                is_client: *is_client,
                timestamp: *timestamp,
            },
            GameEvent::SetNodeTarget { node_coord, target, timestamp } => GameEvent::SetNodeTarget {
                node_coord: *node_coord,
                target: *target,
                timestamp: *timestamp,
            },
            GameEvent::NodeCaptured { node_coord, new_owner_id, timestamp } => GameEvent::NodeCaptured {
                node_coord: *node_coord,
                new_owner_id: *new_owner_id,
                timestamp: *timestamp,
            },
            GameEvent::NodeMetricsReport {
                node_coord,
                bandwidth_in,
                packet_loss,
                timestamp,
            } => GameEvent::NodeMetricsReport {
                node_coord: *node_coord,
                bandwidth_in: *bandwidth_in,
                packet_loss: *packet_loss,
                timestamp: *timestamp,
            },
            GameEvent::NodeInitializationStarted {
                node_coord,
                owner_id,
                timestamp,
            } => GameEvent::NodeInitializationStarted {
                node_coord: *node_coord,
                owner_id: *owner_id,
                timestamp: *timestamp,
            },
            GameEvent::NodeInitializationComplete {
                node_coord,
                node_ip,
                timestamp,
            } => GameEvent::NodeInitializationComplete {
                node_coord: *node_coord,
                node_ip: node_ip.clone(),
                timestamp: *timestamp,
            },
        }
    }
}

/// Copies a list of events.
pub fn clone_events(events: &Vec<GameEvent>) -> (out: Vec<GameEvent>)
    ensures
        out@ == events@,
{
    let mut out: Vec<GameEvent> = Vec::new();
    let mut i: usize = 0;
    while i < events.len()
        invariant
            i <= events.len(),
            out@ == events@.take(i as int),
        decreases events.len() - i,
    {
        out.push(events[i].clone());
        proof {
            assert(events@.take(i + 1) =~= events@.take(i as int).push(events@[i as int]));
        }
        i += 1;
    }
    proof {
        assert(events@.take(events.len() as int) =~= events@);
    }
    out
}

} // verus!
