//! The narrow surface towards players: what a command may do, the events
//! it turns into, and the views of the game that are handed out.
use crate::events::{clone_events, AttackTarget, GameEvent};
use crate::grid::{adjacent, coord_key, neighbor_offsets, NodeCoord};
use crate::keys::{in_order, lemma_in_order, lists_in_order, lookup, sorted_keys};
use crate::state::{owned_keys, GameState, GameView};
use crate::storage::GameStateMachine;
use vstd::prelude::*;

verus! {

/// What a player context holds once joined.
#[derive(Debug)]
pub struct PlayerContext {
    pub player_id: u64,
    pub player_name: String,
    pub capital_coord: NodeCoord,
    pub game_id: String,
}

/// A request to put an event into the log.
#[derive(Debug)]
pub struct SubmitEventRequest {
    pub event: GameEvent,
}

/// The events applied so far.
#[derive(Debug)]
pub struct EventsResponse {
    pub events: Vec<GameEvent>,
    pub count: usize,
}

impl EventsResponse {
    /// The events that the machine has applied, in order, and how many.
    pub fn of(machine: &GameStateMachine) -> (r: Self)
        ensures
            r.events@ == machine@.events,
            r.count == machine@.events.len(),
    {
        EventsResponse { events: clone_events(&machine.events), count: machine.events.len() }
    }
}

/// The answer to a submitted event.
#[derive(Debug)]
pub struct SubmitEventResponse {
    pub success: bool,
    pub message: String,
    pub log_index: Option<u64>,
}

/// The state of the group as one replica sees it.
#[derive(Debug, Clone, Copy)]
pub struct StatusResponse {
    pub node_id: u64,
    pub is_leader: bool,
    pub current_leader: Option<u64>,
    pub current_term: u64,
    pub event_count: usize,
}

/// A request to join.
#[derive(Debug)]
pub struct JoinGameRequest {
    pub player_name: String,
    pub node_ip: String,
}

/// The answer to a request to join.
#[derive(Debug)]
pub struct JoinGameResponse {
    pub success: bool,
    pub message: String,
    pub player_id: Option<u64>,
    pub capital_coord: Option<NodeCoord>,
}

/// A request to attack `target_coord` from `node_coord`.
#[derive(Debug, Clone, Copy)]
pub struct AttackRequest {
    pub node_coord: NodeCoord,
    pub target_coord: NodeCoord,
}

/// A request to stop the attack of `node_coord`.
#[derive(Debug, Clone, Copy)]
pub struct StopAttackRequest {
    pub node_coord: NodeCoord,
}

/// The answer to a command.
#[derive(Debug)]
pub struct CommandResponse {
    pub success: bool,
    pub message: String,
}

/// A player as the state view shows it.
#[derive(Debug)]
pub struct PlayerInfo {
    pub player_id: u64,
    pub name: String,
    pub capital_coord: NodeCoord,
    pub alive: bool,
    pub node_count: usize,
}

/// A tile as the state view shows it; `packet_loss` is in millionths.
#[derive(Debug, Clone, Copy)]
pub struct NodeInfo {
    pub coord: NodeCoord,
    pub owner_id: u64,
    pub current_target: Option<AttackTarget>,
    pub bandwidth_in: Option<u64>,
    pub packet_loss: Option<u32>,
}

/// The state view.
#[derive(Debug)]
pub struct GameStateResponse {
    pub players: Vec<PlayerInfo>,
    pub nodes: Vec<NodeInfo>,
    pub total_events: usize,
}

/// What is pushed to a listener when the state has moved on.
#[derive(Debug)]
pub struct StateUpdate {
    pub log_index: u64,
    pub event_count: usize,
    pub player_count: usize,
    pub node_count: usize,
    pub alive_players: usize,
    /// The event applied last, if any was.
    pub latest_event: Option<GameEvent>,
}

/// Why a command was turned down.
#[derive(Debug, Clone, Copy, PartialEq, Eq, Structural)]
pub enum CommandError {
    /// This replica does not lead; the leader it knows of, if any.
    NotLeader { current_leader: Option<u64> },
    /// The player has joined already.
    AlreadyJoined,
    /// There is no tile at the attacking coordinate.
    NodeNotFound,
    /// The attacking tile belongs to someone else.
    NotOwner,
    /// The target does not lie next to the attacking tile.
    NotAdjacent,
    /// The group did not commit what was proposed.
    ProposalFailed,
}

/// The status with which a refusal is answered: a replica that does not
/// lead is unavailable, a proposal that was not committed is a failure of
/// the server, everything else is the caller's mistake.
pub open spec fn status_of(e: CommandError) -> u16 {
    match e {
        CommandError::NotLeader { .. } => 503,
        CommandError::ProposalFailed => 500,
        _ => 400,
    }
}

/// A refusal in words.
pub open spec fn refusal_text(e: CommandError) -> Seq<char> {
    match e {
        CommandError::NotLeader { .. } => "not the leader"@,
        CommandError::AlreadyJoined => "already joined to a game"@,
        CommandError::NodeNotFound => "node not found"@,
        CommandError::NotOwner => "node is owned by another player"@,
        CommandError::NotAdjacent => "target is not adjacent"@,
        CommandError::ProposalFailed => "proposal was not committed"@,
    }
}

impl CommandError {
    /// The status with which the refusal is answered.
    pub fn status_code(&self) -> (code: u16)
        ensures
            code == status_of(*self),
            400 <= code < 600,
    {
        match self {
            CommandError::NotLeader { .. } => 503,
            CommandError::ProposalFailed => 500,
            _ => 400,
        }
    }

    /// The refusal in words.
    pub fn message(&self) -> (text: &'static str)
        ensures
            text@ == refusal_text(*self),
    {
        match self {
            CommandError::NotLeader { .. } => "not the leader",
            CommandError::AlreadyJoined => "already joined to a game",
            CommandError::NodeNotFound => "node not found",
            CommandError::NotOwner => "node is owned by another player",
            CommandError::NotAdjacent => "target is not adjacent",
            CommandError::ProposalFailed => "proposal was not committed",
        }
    }
}

impl StatusResponse {
    /// The status of the replica `node_id`, which leads exactly when it
    /// is the leader it knows of.
    pub fn of(node_id: u64, current_leader: Option<u64>, current_term: u64, event_count: usize) -> (s:
        Self)
        ensures
            s.node_id == node_id,
            s.is_leader == (current_leader == Some(node_id)),
            s.current_leader == current_leader,
            s.current_term == current_term,
            s.event_count == event_count,
    {
        StatusResponse {
            node_id,
            is_leader: crate::raft::is_leader(current_leader, node_id),
            current_leader,
            current_term,
            event_count,
        }
    }
}

impl CommandResponse {
    /// The answer to a command that was turned down.
    pub fn refused(e: CommandError) -> (r: Self)
        ensures
            !r.success,
            r.message@ == refusal_text(e),
    {
        CommandResponse { success: false, message: e.message().to_string() }
    }
}

impl JoinGameResponse {
    /// The answer to a join that was turned down.
    pub fn refused(e: CommandError) -> (r: Self)
        ensures
            !r.success,
            r.message@ == refusal_text(e),
            r.player_id is None,
            r.capital_coord is None,
    {
        JoinGameResponse {
            success: false,
            message: e.message().to_string(),
            player_id: None,
            capital_coord: None,
        }
    }
}

impl SubmitEventResponse {
    /// The answer to an event that was turned down.
    pub fn refused(e: CommandError) -> (r: Self)
        ensures
            !r.success,
            r.message@ == refusal_text(e),
            r.log_index is None,
    {
        SubmitEventResponse { success: false, message: e.message().to_string(), log_index: None }
    }
}

impl AttackRequest {
    /// The events that this request of `player_id` proposes, or why it is
    /// refused.
    pub fn plan(&self, game_state: &GameState, player_id: u64, timestamp: u64) -> (r: Result<
        Vec<GameEvent>,
        CommandError,
    >)
        requires
            self.target_coord.interior(),
        ensures
            match attack_refusal(game_state@, player_id, self.node_coord, self.target_coord) {
                Some(e) => r == Err::<Vec<GameEvent>, CommandError>(e),
                None => r matches Ok(events) && events@ == attack_events(
                    game_state@,
                    self.node_coord,
                    self.target_coord,
                    timestamp,
                ),
            },
    {
        plan_attack(game_state, player_id, self.node_coord, self.target_coord, timestamp)
    }
}

impl StopAttackRequest {
    /// The event that this request proposes.
    pub fn event(&self, timestamp: u64) -> (e: GameEvent)
        ensures
            e == (GameEvent::SetNodeTarget { node_coord: self.node_coord, target: None, timestamp }),
    {
        stop_attack_event(self.node_coord, timestamp)
    }
}

impl GameStateResponse {
    /// The state view of the game as the machine has it.
    pub fn of(machine: &GameStateMachine) -> (view: Self)
        ensures
            view.players@.len() == in_order(machine@.game.players.dom()).len(),
            forall|i: int|
                0 <= i < view.players@.len() ==> player_info_matches(
                    machine@.game,
                    in_order(machine@.game.players.dom())[i],
                    #[trigger] view.players@[i],
                ),
            view.nodes@ == in_order(machine@.game.nodes.dom()).map_values(
                |k: u64| node_info_of(machine@.game, k),
            ),
            view.total_events == machine@.events.len(),
    {
        GameStateResponse {
            players: player_infos(&machine.game_state),
            nodes: node_infos(&machine.game_state),
            total_events: machine.events.len(),
        }
    }
}

/// Lets a command pass only on the replica that leads.
pub fn check_leader(current_leader: Option<u64>, my_id: u64) -> (r: Result<(), CommandError>)
    ensures
        r == (if current_leader == Some(my_id) {
            Ok::<(), CommandError>(())
        } else {
            Err::<(), CommandError>(CommandError::NotLeader { current_leader })
        }),
{
    match current_leader {
        Some(leader) => {
            if leader == my_id {
                Ok(())
            } else {
                Err(CommandError::NotLeader { current_leader })
            }
        },
        None => Err(CommandError::NotLeader { current_leader }),
    }
}

/// What the caller of a proposal hears: the index at which the group
/// committed it, or that it did not.
pub fn commit_outcome(committed_at: Option<u64>) -> (r: Result<u64, CommandError>)
    ensures
        r == (match committed_at {
            Some(index) => Ok::<u64, CommandError>(index),
            None => Err::<u64, CommandError>(CommandError::ProposalFailed),
        }),
{
    match committed_at {
        Some(index) => Ok(index),
        None => Err(CommandError::ProposalFailed),
    }
}

/// Lets a player join who has not joined yet.
pub fn check_join(joined: bool) -> (r: Result<(), CommandError>)
    ensures
        r == (if joined {
            Err::<(), CommandError>(CommandError::AlreadyJoined)
        } else {
            Ok::<(), CommandError>(())
        }),
{
    if joined {
        Err(CommandError::AlreadyJoined)
    } else {
        Ok(())
    }
}

/// What stands against an attack by `player_id` from `node` at `target`,
/// if anything: the tile must exist, belong to the player, and lie next
/// to the target, and it is the first of these that fails which is named.
pub open spec fn attack_refusal(
    s: GameView,
    player_id: u64,
    node: NodeCoord,
    target: NodeCoord,
) -> Option<CommandError> {
    if !s.nodes.contains_key(coord_key(node)) {
        Some(CommandError::NodeNotFound)
    } else if s.nodes[coord_key(node)].owner_id != player_id {
        Some(CommandError::NotOwner)
    } else if !adjacent(node, target) {
        Some(CommandError::NotAdjacent)
    } else {
        None
    }
}

/// The neighbor of `c` in direction `i`.
pub open spec fn neighbor(c: NodeCoord, i: int) -> NodeCoord {
    NodeCoord {
        q: (c.q + neighbor_offsets()[i].0) as i32,
        r: (c.r + neighbor_offsets()[i].1) as i32,
    }
}

/// The events that an accepted attack proposes, in order. Where the
/// target has no tile yet, first the start of the initialization of each
/// of the target's six neighbors, owned by nobody; then the new target
/// of the attacking tile.
pub open spec fn attack_events(
    s: GameView,
    node: NodeCoord,
    target: NodeCoord,
    timestamp: u64,
) -> Seq<GameEvent> {
    let set_target = GameEvent::SetNodeTarget {
        node_coord: node,
        target: Some(AttackTarget::Coordinate(target)),
        timestamp,
    };
    if s.nodes.contains_key(coord_key(target)) {
        seq![set_target]
    } else {
        Seq::new(
            6,
            |i: int|
                GameEvent::NodeInitializationStarted {
                    node_coord: neighbor(target, i),
                    owner_id: 0,
                    timestamp,
                },
        ).push(set_target)
    }
}

/// Checks an attack command of `player_id`.
pub fn validate_attack(
    game_state: &GameState,
    player_id: u64,
    node_coord: NodeCoord,
    target_coord: NodeCoord,
) -> (r: Result<(), CommandError>)
    ensures
        r == (match attack_refusal(game_state@, player_id, node_coord, target_coord) {
            Some(e) => Err::<(), CommandError>(e),
            None => Ok::<(), CommandError>(()),
        }),
{
    match game_state.node(node_coord) {
        None => Err(CommandError::NodeNotFound),
        Some(node) => {
            if node.owner_id != player_id {
                Err(CommandError::NotOwner)
            } else if !node_coord.is_adjacent(&target_coord) {
                Err(CommandError::NotAdjacent)
            } else {
                Ok(())
            }
        },
    }
}

/// Turns an attack command of `player_id` into the events to propose, or
/// says why it is refused; a refused command proposes nothing.
pub fn plan_attack(
    game_state: &GameState,
    player_id: u64,
    node_coord: NodeCoord,
    target_coord: NodeCoord,
    timestamp: u64,
) -> (r: Result<Vec<GameEvent>, CommandError>)
    requires
        target_coord.interior(),
    ensures
        match attack_refusal(game_state@, player_id, node_coord, target_coord) {
            Some(e) => r == Err::<Vec<GameEvent>, CommandError>(e),
            None => r matches Ok(events) && events@ == attack_events(
                game_state@,
                node_coord,
                target_coord,
                timestamp,
            ),
        },
{
    match validate_attack(game_state, player_id, node_coord, target_coord) {
        Err(e) => {
            return Err(e);
        },
        Ok(()) => {},
    }
    let mut events: Vec<GameEvent> = Vec::new();
    if game_state.node(target_coord).is_none() {
        let around = target_coord.neighbors();
        let mut i: usize = 0;
        while i < 6
            invariant
                i <= 6,
                target_coord.interior(),
                forall|j: int| 0 <= j < 6 ==> #[trigger] around[j] == neighbor(target_coord, j),
                events@ == Seq::new(
                    i as nat,
                    |j: int|
                        GameEvent::NodeInitializationStarted {
                            node_coord: neighbor(target_coord, j),
                            owner_id: 0,
                            timestamp,
                        },
                ),
            decreases 6 - i,
        {
            events.push(
                GameEvent::NodeInitializationStarted {
                    node_coord: around[i],
                    owner_id: 0,
                    timestamp,
                },
            );
            proof {
                assert(events@ =~= Seq::new(
                    (i + 1) as nat,
                    |j: int|
                        GameEvent::NodeInitializationStarted {
                            node_coord: neighbor(target_coord, j),
                            owner_id: 0,
                            timestamp,
                        },
                ));
            }
            i += 1;
        }
    }
    events.push(
        GameEvent::SetNodeTarget {
            node_coord,
            target: Some(AttackTarget::Coordinate(target_coord)),
            timestamp,
        },
    );
    Ok(events)
}

/// The event that stops the attack of the tile at `node_coord`.
pub fn stop_attack_event(node_coord: NodeCoord, timestamp: u64) -> (e: GameEvent)
    ensures
        e == (GameEvent::SetNodeTarget { node_coord, target: None, timestamp }),
{
    GameEvent::SetNodeTarget { node_coord, target: None, timestamp }
}

/// How the state view shows the player with id `id`.
pub open spec fn player_info_matches(s: GameView, id: u64, info: PlayerInfo) -> bool {
    &&& info.player_id == s.players[id].player_id
    &&& info.name == s.players[id].name
    &&& info.capital_coord == s.players[id].capital_coord
    &&& info.alive == s.players[id].alive
    &&& info.node_count == owned_keys(s, s.players[id].player_id).len()
}

/// How the state view shows the tile under `k`.
pub open spec fn node_info_of(s: GameView, k: u64) -> NodeInfo {
    NodeInfo {
        coord: s.nodes[k].coord,
        owner_id: s.nodes[k].owner_id,
        current_target: s.nodes[k].current_target,
        bandwidth_in: if s.node_metrics.contains_key(coord_key(s.nodes[k].coord)) {
            Some(s.node_metrics[coord_key(s.nodes[k].coord)].bandwidth_in)
        } else {
            None
        },
        packet_loss: if s.node_metrics.contains_key(coord_key(s.nodes[k].coord)) {
            Some(s.node_metrics[coord_key(s.nodes[k].coord)].packet_loss)
        } else {
            None
        },
    }
}

/// The players of the state view, in the order of their ids, each with
/// the number of tiles it owns.
pub fn player_infos(game_state: &GameState) -> (out: Vec<PlayerInfo>)
    ensures
        out@.len() == in_order(game_state@.players.dom()).len(),
        forall|i: int|
            0 <= i < out@.len() ==> player_info_matches(
                game_state@,
                in_order(game_state@.players.dom())[i],
                #[trigger] out@[i],
            ),
{
    let ids = sorted_keys(&game_state.players);
    proof {
        lemma_in_order(ids@, game_state@.players.dom());
    }
    let mut out: Vec<PlayerInfo> = Vec::new();
    let mut i: usize = 0;
    while i < ids.len()
        invariant
            i <= ids.len(),
            lists_in_order(ids@, game_state.players@.dom()),
            out@.len() == i,
            forall|j: int| 0 <= j < i ==> player_info_matches(game_state@, ids@[j], #[trigger] out@[j]),
        decreases ids.len() - i,
    {
        proof {
            assert(ids@.contains(ids@[i as int]));
        }
        if let Some(p) = lookup(&game_state.players, ids[i]) {
            let node_count = game_state.node_count(p.player_id);
            out.push(
                PlayerInfo {
                    player_id: p.player_id,
                    name: p.name.clone(),
                    capital_coord: p.capital_coord,
                    alive: p.alive,
                    node_count,
                },
            );
        }
        i += 1;
    }
    out
}

/// The tiles of the state view, in the order of their coordinates, each
/// with what it last reported.
pub fn node_infos(game_state: &GameState) -> (out: Vec<NodeInfo>)
    ensures
        out@ == in_order(game_state@.nodes.dom()).map_values(|k: u64| node_info_of(game_state@, k)),
{
    let ks = sorted_keys(&game_state.nodes);
    let ghost f = |k: u64| node_info_of(game_state@, k);
    proof {
        lemma_in_order(ks@, game_state@.nodes.dom());
    }
    let mut out: Vec<NodeInfo> = Vec::new();
    let mut i: usize = 0;
    while i < ks.len()
        invariant
            i <= ks.len(),
            lists_in_order(ks@, game_state.nodes@.dom()),
            f == |k: u64| node_info_of(game_state@, k),
            out@ == ks@.take(i as int).map_values(f),
        decreases ks.len() - i,
    {
        proof {
            assert(ks@.contains(ks@[i as int]));
            assert(ks@.take(i + 1) =~= ks@.take(i as int).push(ks@[i as int]));
            assert(ks@.take(i as int).push(ks@[i as int]).map_values(f) =~= ks@.take(
                i as int,
            ).map_values(f).push(f(ks@[i as int])));
        }
        if let Some(node) = lookup(&game_state.nodes, ks[i]) {
            let metrics = game_state.metrics(node.coord);
            out.push(
                NodeInfo {
                    coord: node.coord,
                    owner_id: node.owner_id,
                    current_target: node.current_target,
                    bandwidth_in: match metrics {
                        Some(m) => Some(m.bandwidth_in),
                        None => None,
                    },
                    packet_loss: match metrics {
                        Some(m) => Some(m.packet_loss),
                        None => None,
                    },
                },
            );
        }
        i += 1;
    }
    proof {
        assert(ks@.take(ks.len() as int) =~= ks@);
    }
    out
}

/// What to push to a listener that last saw the log at `last_seen`:
/// nothing while the log stands there, otherwise the counts of the
/// state as it is now.
pub fn state_update(machine: &GameStateMachine, last_seen: u64) -> (update: Option<StateUpdate>)
    ensures
        update is Some <==> machine@.last_applied_log_index != last_seen,
        update matches Some(u) ==> {
            &&& u.log_index == machine@.last_applied_log_index
            &&& u.event_count == machine@.events.len()
            &&& u.player_count == machine@.game.players.dom().len()
            &&& u.node_count == machine@.game.nodes.dom().len()
            &&& u.alive_players == crate::state::alive_count(machine@.game.players)
            &&& u.latest_event == (if machine@.events.len() > 0 {
                Some(machine@.events.last())
            } else {
                None
            })
        },
{
    if machine.last_applied_log_index == last_seen {
        return None;
    }
    proof {
        broadcast use vstd::std_specs::btree::group_btree_axioms;

    }
    let latest_event = if machine.events.len() > 0 {
        Some(machine.events[machine.events.len() - 1].clone())
    } else {
        None
    };
    Some(
        StateUpdate {
            log_index: machine.last_applied_log_index,
            event_count: machine.events.len(),
            player_count: machine.game_state.players.len(),
            node_count: machine.game_state.nodes.len(),
            alive_players: machine.game_state.alive_players(),
            latest_event,
        },
    )
}

} // verus!
