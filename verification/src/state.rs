//! The game state that every replica derives from the log.
use crate::events::{AttackTarget, GameEvent, NodeType};
use crate::grid::{coord_key, NodeCoord};
use crate::keys::{
    has_key, in_order, lemma_in_order, lemma_picked, lemma_picked_all, lemma_picked_step,
    lists_in_order, lookup, picked, sorted_keys, store, take_out,
};
use std::collections::BTreeMap;
use vstd::prelude::*;

verus! {

/// A participant of the game.
#[derive(Debug)]
pub struct Player {
    pub player_id: u64,
    pub name: String,
    pub capital_coord: NodeCoord,
    pub alive: bool,
    pub join_time: u64,
}

impl Clone for Player {
    fn clone(&self) -> (p: Self)
        ensures
            p == *self,
    {
        Player {
            player_id: self.player_id,
            name: self.name.clone(),
            capital_coord: self.capital_coord,
            alive: self.alive,
            join_time: self.join_time,
        }
    }
}

/// Whether a tile can be reached yet.
#[derive(Debug, Clone, Copy, PartialEq, Eq, Structural)]
pub enum NodeInitState {
    /// The tile is coming up and has no address yet.
    Initializing,
    /// The tile runs and has an address.
    Ready,
}

/// A tile of the grid.
#[derive(Debug, Clone, Copy)]
pub struct Node {
    pub coord: NodeCoord,
    pub owner_id: u64,
    pub node_type: NodeType,
    pub current_target: Option<AttackTarget>,
    pub is_client: bool,
    pub init_state: NodeInitState,
}

/// What a tile last reported; `packet_loss` is in millionths.
#[derive(Debug, Clone, Copy)]
pub struct NodeMetrics {
    pub bandwidth_in: u64,
    pub packet_loss: u32,
    pub timestamp: u64,
}

/// One tile attacking another, with the owners of both.
#[derive(Debug, Clone, Copy)]
pub struct Attack {
    pub attacker_node: NodeCoord,
    pub attacker_owner: u64,
    pub target_node: NodeCoord,
    pub target_owner: u64,
}

/// The state derived from the log. Tiles, metrics and tile addresses are
/// stored under the key of their coordinate, players and client addresses
/// under the player id.
#[derive(Debug)]
pub struct GameState {
    pub players: BTreeMap<u64, Player>,
    pub nodes: BTreeMap<u64, Node>,
    pub node_metrics: BTreeMap<u64, NodeMetrics>,
    pub node_ips: BTreeMap<u64, String>,
    pub client_ips: BTreeMap<u64, String>,
    pub last_applied_log_index: u64,
    pub game_over: bool,
}

/// The game state as mathematical maps.
pub ghost struct GameView {
    pub players: Map<u64, Player>,
    pub nodes: Map<u64, Node>,
    pub node_metrics: Map<u64, NodeMetrics>,
    pub node_ips: Map<u64, String>,
    pub client_ips: Map<u64, String>,
    pub last_applied_log_index: u64,
    pub game_over: bool,
}

impl View for GameState {
    type V = GameView;

    open spec fn view(&self) -> GameView {
        GameView {
            players: self.players@,
            nodes: self.nodes@,
            node_metrics: self.node_metrics@,
            node_ips: self.node_ips@,
            client_ips: self.client_ips@,
            last_applied_log_index: self.last_applied_log_index,
            game_over: self.game_over,
        }
    }
}

/// The state before any event.
pub open spec fn empty_view() -> GameView {
    GameView {
        players: Map::empty(),
        nodes: Map::empty(),
        node_metrics: Map::empty(),
        node_ips: Map::empty(),
        client_ips: Map::empty(),
        last_applied_log_index: 0,
        game_over: false,
    }
}

/// The ids of the players that are alive.
pub open spec fn alive_ids(players: Map<u64, Player>) -> Set<u64> {
    Set::new(|id: u64| players.contains_key(id) && players[id].alive)
}

/// How many players are alive.
pub open spec fn alive_count(players: Map<u64, Player>) -> nat {
    alive_ids(players).len()
}

/// The tile that a joining player gets as capital.
pub open spec fn capital_node(player_id: u64, coord: NodeCoord, is_client: bool) -> Node {
    Node {
        coord,
        owner_id: player_id,
        node_type: if is_client {
            NodeType::Client
        } else {
            NodeType::Capital
        },
        current_target: None,
        is_client,
        init_state: NodeInitState::Ready,
    }
}

/// The tile that lazy initialization puts on the grid.
pub open spec fn placeholder_node(coord: NodeCoord, owner_id: u64) -> Node {
    Node {
        coord,
        owner_id,
        node_type: NodeType::Regular,
        current_target: None,
        is_client: false,
        init_state: NodeInitState::Initializing,
    }
}

/// The state after the tile at `coord` falls to `new_owner_id`. A tile
/// that is absent, or already owned by the new owner, leaves the state as
/// it is. Otherwise the tile changes owner and stops attacking; a capital
/// becomes a regular tile, its old owner is no longer alive, and the game
/// is over once at most one player is alive.
pub open spec fn capture(s: GameView, coord: NodeCoord, new_owner_id: u64) -> GameView {
    let k = coord_key(coord);
    if !s.nodes.contains_key(k) || s.nodes[k].owner_id == new_owner_id {
        s
    } else {
        let node = s.nodes[k];
        let old_owner = node.owner_id;
        if node.node_type == NodeType::Capital {
            let players = if s.players.contains_key(old_owner) {
                s.players.insert(old_owner, Player { alive: false, ..s.players[old_owner] })
            } else {
                s.players
            };
            GameView {
                players,
                nodes: s.nodes.insert(
                    k,
                    Node {
                        owner_id: new_owner_id,
                        current_target: None,
                        node_type: NodeType::Regular,
                        ..node
                    },
                ),
                game_over: s.game_over || alive_count(players) <= 1,
                ..s
            }
        } else {
            GameView {
                nodes: s.nodes.insert(
                    k,
                    Node { owner_id: new_owner_id, current_target: None, ..node },
                ),
                ..s
            }
        }
    }
}

/// The state after one event, applied at `log_index`.
pub open spec fn apply_event(s: GameView, event: GameEvent, log_index: u64) -> GameView {
    let s = GameView { last_applied_log_index: log_index, ..s };
    match event {
        GameEvent::PlayerJoin { player_id, name, capital_coord, node_ip, is_client, timestamp } => {
            let k = coord_key(capital_coord);
            GameView {
                players: s.players.insert(
                    player_id,
                    Player { player_id, name, capital_coord, alive: true, join_time: timestamp },
                ),
                nodes: s.nodes.insert(k, capital_node(player_id, capital_coord, is_client)),
                node_ips: s.node_ips.insert(k, node_ip),
                client_ips: if is_client {
                    s.client_ips.insert(player_id, node_ip)
                } else {
                    s.client_ips
                },
                ..s
            }
        },
        GameEvent::SetNodeTarget { node_coord, target, .. } => {
            let k = coord_key(node_coord);
            if s.nodes.contains_key(k) {
                GameView {
                    nodes: s.nodes.insert(k, Node { current_target: target, ..s.nodes[k] }),
                    ..s
                }
            } else {
                s
            }
        },
        GameEvent::NodeCaptured { node_coord, new_owner_id, .. } => capture(
            s,
            node_coord,
            new_owner_id,
        ),
        GameEvent::NodeMetricsReport { node_coord, bandwidth_in, packet_loss, timestamp } => {
            GameView {
                node_metrics: s.node_metrics.insert(
                    coord_key(node_coord),
                    NodeMetrics { bandwidth_in, packet_loss, timestamp },
                ),
                ..s
            }
        },
        GameEvent::NodeInitializationStarted { node_coord, owner_id, .. } => {
            let k = coord_key(node_coord);
            if s.nodes.contains_key(k) {
                s
            } else {
                GameView { nodes: s.nodes.insert(k, placeholder_node(node_coord, owner_id)), ..s }
            }
        },
        GameEvent::NodeInitializationComplete { node_coord, node_ip, .. } => {
            let k = coord_key(node_coord);
            GameView {
                nodes: if s.nodes.contains_key(k) {
                    s.nodes.insert(k, Node { init_state: NodeInitState::Ready, ..s.nodes[k] })
                } else {
                    s.nodes
                },
                node_ips: s.node_ips.insert(k, node_ip),
                ..s
            }
        },
    }
}

/// The keys of the tiles that `player_id` owns.
pub open spec fn owned_keys(s: GameView, player_id: u64) -> Set<u64> {
    Set::new(|k: u64| s.nodes.contains_key(k) && s.nodes[k].owner_id == player_id)
}

/// The keys of the tiles that attack a tile which exists.
pub open spec fn attacking_keys(s: GameView) -> Set<u64> {
    Set::new(
        |k: u64|
            s.nodes.contains_key(k) && (s.nodes[k].current_target matches Some(
                AttackTarget::Coordinate(c),
            ) && s.nodes.contains_key(coord_key(c))),
    )
}

/// The attack that the tile under `k` carries out.
pub open spec fn attack_of(s: GameView, k: u64) -> Attack {
    let node = s.nodes[k];
    let target = node.current_target->0->Coordinate_0;
    Attack {
        attacker_node: node.coord,
        attacker_owner: node.owner_id,
        target_node: target,
        target_owner: s.nodes[coord_key(target)].owner_id,
    }
}

/// The state after the events of `events` from position `from` on, where
/// the event at position `i` is applied at log index `i + 1`.
pub open spec fn replay_from(s: GameView, events: Seq<GameEvent>, from: int) -> GameView
    decreases events.len() - from,
{
    if from < 0 || from >= events.len() {
        s
    } else {
        replay_from(apply_event(s, events[from], (from + 1) as u64), events, from + 1)
    }
}

/// The state that a fresh replica reaches by applying `events` in order.
pub open spec fn replay(events: Seq<GameEvent>) -> GameView {
    replay_from(empty_view(), events, 0)
}

impl GameState {
    /// The state before any event.
    pub fn new() -> (s: Self)
        ensures
            s@ == empty_view(),
    {
        GameState {
            players: BTreeMap::new(),
            nodes: BTreeMap::new(),
            node_metrics: BTreeMap::new(),
            node_ips: BTreeMap::new(),
            client_ips: BTreeMap::new(),
            last_applied_log_index: 0,
            game_over: false,
        }
    }

    /// The state of a fresh replica that applied `events` in order, the
    /// event at position `i` at log index `i + 1`.
    pub fn replay_events(events: &Vec<GameEvent>) -> (s: Self)
        ensures
            s@ == replay(events@),
    {
        let mut state = GameState::new();
        let mut i: usize = 0;
        while i < events.len()
            invariant
                i <= events.len(),
                replay_from(state@, events@, i as int) == replay(events@),
            decreases events.len() - i,
        {
            state.process_event(events[i].clone(), i as u64 + 1);
            i += 1;
        }
        state
    }

    /// The tile at `coord`, if there is one.
    pub fn node(&self, coord: NodeCoord) -> (r: Option<&Node>)
        ensures
            r is Some <==> self@.nodes.contains_key(coord_key(coord)),
            r matches Some(n) ==> *n == self@.nodes[coord_key(coord)],
    {
        lookup(&self.nodes, coord.key())
    }

    /// The player with id `player_id`, if there is one.
    pub fn player(&self, player_id: u64) -> (r: Option<&Player>)
        ensures
            r is Some <==> self@.players.contains_key(player_id),
            r matches Some(p) ==> *p == self@.players[player_id],
    {
        lookup(&self.players, player_id)
    }

    /// The last metrics that the tile at `coord` reported, if any.
    pub fn metrics(&self, coord: NodeCoord) -> (r: Option<&NodeMetrics>)
        ensures
            r is Some <==> self@.node_metrics.contains_key(coord_key(coord)),
            r matches Some(m) ==> *m == self@.node_metrics[coord_key(coord)],
    {
        lookup(&self.node_metrics, coord.key())
    }

    /// All attacks on tiles that exist, in the order of the attackers'
    /// coordinates.
    pub fn get_active_attacks(&self) -> (out: Vec<Attack>)
        ensures
            out@ == in_order(attacking_keys(self@)).map_values(|k: u64| attack_of(self@, k)),
    {
        let ks = sorted_keys(&self.nodes);
        let ghost t = attacking_keys(self@);
        let ghost mut acc: Seq<u64> = Seq::empty();
        let mut out: Vec<Attack> = Vec::new();
        let mut i: usize = 0;
        while i < ks.len()
            invariant
                i <= ks.len(),
                lists_in_order(ks@, self.nodes@.dom()),
                t == attacking_keys(self@),
                lists_in_order(acc, picked(ks@, t, i as int)),
                out@ == acc.map_values(|k: u64| attack_of(self@, k)),
            decreases ks.len() - i,
        {
            let k = ks[i];
            proof {
                lemma_picked_step(ks@, t, i as int, acc);
                assert(ks@.contains(k));
            }
            if let Some(node) = lookup(&self.nodes, k) {
                if let Some(AttackTarget::Coordinate(target_coord)) = node.current_target {
                    if let Some(target_node) = lookup(&self.nodes, target_coord.key()) {
                        out.push(
                            Attack {
                                attacker_node: node.coord,
                                attacker_owner: node.owner_id,
                                target_node: target_coord,
                                target_owner: target_node.owner_id,
                            },
                        );
                        proof {
                            let f = |k: u64| attack_of(self@, k);
                            assert(acc.push(k).map_values(f) =~= acc.map_values(f).push(f(k)));
                            acc = acc.push(k);
                        }
                    }
                }
            }
            i += 1;
        }
        proof {
            assert(t.subset_of(self.nodes@.dom()));
            lemma_picked_all(ks@, t, self.nodes@.dom());
            lemma_in_order(acc, t);
        }
        out
    }

    /// The tiles that `player_id` owns, in the order of their coordinates.
    pub fn get_player_nodes(&self, player_id: u64) -> (out: Vec<&Node>)
        ensures
            out@.len() == in_order(owned_keys(self@, player_id)).len(),
            forall|i: int|
                0 <= i < out@.len() ==> *#[trigger] out@[i] == self@.nodes[in_order(
                    owned_keys(self@, player_id),
                )[i]],
    {
        let ks = sorted_keys(&self.nodes);
        let ghost t = owned_keys(self@, player_id);
        let ghost mut acc: Seq<u64> = Seq::empty();
        let mut out: Vec<&Node> = Vec::new();
        let mut i: usize = 0;
        while i < ks.len()
            invariant
                i <= ks.len(),
                lists_in_order(ks@, self.nodes@.dom()),
                t == owned_keys(self@, player_id),
                lists_in_order(acc, picked(ks@, t, i as int)),
                out@.len() == acc.len(),
                forall|j: int| 0 <= j < out@.len() ==> *#[trigger] out@[j] == self.nodes@[acc[j]],
            decreases ks.len() - i,
        {
            let k = ks[i];
            proof {
                lemma_picked_step(ks@, t, i as int, acc);
                assert(ks@.contains(k));
            }
            if let Some(node) = lookup(&self.nodes, k) {
                if node.owner_id == player_id {
                    out.push(node);
                    proof {
                        acc = acc.push(k);
                    }
                }
            }
            i += 1;
        }
        proof {
            assert(t.subset_of(self.nodes@.dom()));
            lemma_picked_all(ks@, t, self.nodes@.dom());
            lemma_in_order(acc, t);
        }
        out
    }

    /// How many players are alive.
    pub fn alive_players(&self) -> (count: usize)
        ensures
            count == alive_count(self@.players),
    {
        let ids = sorted_keys(&self.players);
        let ghost live = alive_ids(self.players@);
        let mut count: usize = 0;
        let mut i: usize = 0;
        while i < ids.len()
            invariant
                i <= ids.len(),
                lists_in_order(ids@, self.players@.dom()),
                live == alive_ids(self.players@),
                count == picked(ids@, live, i as int).len(),
                count <= i,
            decreases ids.len() - i,
        {
            proof {
                lemma_picked(ids@, live, i as int);
                assert(ids@.contains(ids@[i as int]));
            }
            match lookup(&self.players, ids[i]) {
                Some(p) => {
                    if p.alive {
                        count += 1;
                    }
                },
                None => {},
            }
            i += 1;
        }
        proof {
            lemma_picked_all(ids@, live, self.players@.dom());
        }
        count
    }

    /// How many tiles `player_id` owns.
    pub fn node_count(&self, player_id: u64) -> (count: usize)
        ensures
            count == owned_keys(self@, player_id).len(),
    {
        let ks = sorted_keys(&self.nodes);
        let ghost t = owned_keys(self@, player_id);
        let mut count: usize = 0;
        let mut i: usize = 0;
        while i < ks.len()
            invariant
                i <= ks.len(),
                lists_in_order(ks@, self.nodes@.dom()),
                t == owned_keys(self@, player_id),
                count == picked(ks@, t, i as int).len(),
                count <= i,
            decreases ks.len() - i,
        {
            proof {
                lemma_picked(ks@, t, i as int);
                assert(ks@.contains(ks@[i as int]));
            }
            match lookup(&self.nodes, ks[i]) {
                Some(node) => {
                    if node.owner_id == player_id {
                        count += 1;
                    }
                },
                None => {},
            }
            i += 1;
        }
        proof {
            assert(t.subset_of(self.nodes@.dom()));
            lemma_picked_all(ks@, t, self.nodes@.dom());
        }
        count
    }

    /// Applies one committed event at `log_index`.
    pub fn process_event(&mut self, event: GameEvent, log_index: u64)
        ensures
            final(self)@ == apply_event(old(self)@, event, log_index),
    {
        self.last_applied_log_index = log_index;
        match event {
            GameEvent::PlayerJoin { player_id, name, capital_coord, node_ip, is_client, timestamp } => {
                let k = capital_coord.key();
                let player = Player {
                    player_id,
                    name,
                    capital_coord,
                    alive: true,
                    join_time: timestamp,
                };
                store(&mut self.players, player_id, player);
                let capital = Node {
                    coord: capital_coord,
                    owner_id: player_id,
                    node_type: if is_client {
                        NodeType::Client
                    } else {
                        NodeType::Capital
                    },
                    current_target: None,
                    is_client,
                    init_state: NodeInitState::Ready,
                };
                store(&mut self.nodes, k, capital);
                store(&mut self.node_ips, k, node_ip.clone());
                if is_client {
                    store(&mut self.client_ips, player_id, node_ip);
                }
            },
            GameEvent::SetNodeTarget { node_coord, target, .. } => {
                let k = node_coord.key();
                let found = match lookup(&self.nodes, k) {
                    Some(node) => Some(*node),
                    None => None,
                };
                if let Some(node) = found {
                    store(&mut self.nodes, k, Node { current_target: target, ..node });
                }
            },
            GameEvent::NodeCaptured { node_coord, new_owner_id, .. } => {
                self.capture_node(node_coord, new_owner_id);
            },
            GameEvent::NodeMetricsReport { node_coord, bandwidth_in, packet_loss, timestamp } => {
                store(
                    &mut self.node_metrics,
                    node_coord.key(),
                    NodeMetrics { bandwidth_in, packet_loss, timestamp },
                );
            },
            GameEvent::NodeInitializationStarted { node_coord, owner_id, .. } => {
                let k = node_coord.key();
                if !has_key(&self.nodes, k) {
                    let node = Node {
                        coord: node_coord,
                        owner_id,
                        node_type: NodeType::Regular,
                        current_target: None,
                        is_client: false,
                        init_state: NodeInitState::Initializing,
                    };
                    store(&mut self.nodes, k, node);
                }
            },
            GameEvent::NodeInitializationComplete { node_coord, node_ip, .. } => {
                let k = node_coord.key();
                let found = match lookup(&self.nodes, k) {
                    Some(node) => Some(*node),
                    None => None,
                };
                if let Some(node) = found {
                    store(&mut self.nodes, k, Node { init_state: NodeInitState::Ready, ..node });
                }
                store(&mut self.node_ips, k, node_ip);
            },
        }
    }

    /// Hands the tile at `coord` to `new_owner_id`.
    fn capture_node(&mut self, coord: NodeCoord, new_owner_id: u64)
        ensures
            final(self)@ == capture(old(self)@, coord, new_owner_id),
    {
        let k = coord.key();
        let found = match lookup(&self.nodes, k) {
            Some(node) => Some(*node),
            None => None,
        };
        if let Some(node) = found {
            if node.owner_id != new_owner_id {
                let old_owner = node.owner_id;
                match node.node_type {
                    NodeType::Capital => {
                        if let Some(mut owner) = take_out(&mut self.players, old_owner) {
                            owner.alive = false;
                            store(&mut self.players, old_owner, owner);
                        }
                        proof {
                            assert(self.players@ =~= (if old(self).players@.contains_key(old_owner) {
                                old(self).players@.insert(
                                    old_owner,
                                    Player { alive: false, ..old(self).players@[old_owner] },
                                )
                            } else {
                                old(self).players@
                            }));
                        }
                        store(
                            &mut self.nodes,
                            k,
                            Node {
                                owner_id: new_owner_id,
                                current_target: None,
                                node_type: NodeType::Regular,
                                ..node
                            },
                        );
                        if self.alive_players() <= 1 {
                            self.game_over = true;
                        }
                    },
                    _ => {
                        store(
                            &mut self.nodes,
                            k,
                            Node { owner_id: new_owner_id, current_target: None, ..node },
                        );
                    },
                }
            }
        }
    }
}

impl Default for GameState {
    fn default() -> (s: Self)
        ensures
            s@ == empty_view(),
    {
        GameState::new()
    }
}

/// What holds of every state that a well-formed log produces: each tile
/// is stored under its own coordinate and each player under its own id,
/// and every player alive owns the tile at its capital coordinate, which
/// has not become a regular tile.
pub open spec fn well_formed(s: GameView) -> bool {
    &&& forall|k: u64| s.nodes.contains_key(k) ==> coord_key((#[trigger] s.nodes[k]).coord) == k
    &&& forall|id: u64| s.players.contains_key(id) ==> (#[trigger] s.players[id]).player_id == id
    &&& forall|id: u64|
        s.players.contains_key(id) && (#[trigger] s.players[id]).alive ==> {
            let k = coord_key(s.players[id].capital_coord);
            &&& s.nodes.contains_key(k)
            &&& s.nodes[k].owner_id == id
            &&& s.nodes[k].node_type != NodeType::Regular
        }
}

/// The events that a well-behaved proposer puts into the log of a game in
/// state `s`: a join brings a new player to a free coordinate, and no
/// capture names a tile that stands for a client.
pub open spec fn admissible(s: GameView, event: GameEvent) -> bool {
    match event {
        GameEvent::PlayerJoin { player_id, capital_coord, .. } => !s.players.contains_key(player_id)
            && !s.nodes.contains_key(coord_key(capital_coord)),
        GameEvent::NodeCaptured { node_coord, .. } => s.nodes.contains_key(coord_key(node_coord))
            ==> s.nodes[coord_key(node_coord)].node_type != NodeType::Client,
        _ => true,
    }
}

/// Admissible events keep a state well formed: in particular every player
/// alive keeps owning its capital.
pub proof fn lemma_well_formed_preserved(s: GameView, event: GameEvent, log_index: u64)
    requires
        well_formed(s),
        admissible(s, event),
    ensures
        well_formed(apply_event(s, event, log_index)),
{
    let r = apply_event(s, event, log_index);
    match event {
        GameEvent::PlayerJoin { player_id, capital_coord, .. } => {
            assert forall|id: u64| r.players.contains_key(id) && (#[trigger] r.players[id]).alive implies {
                let k = coord_key(r.players[id].capital_coord);
                &&& r.nodes.contains_key(k)
                &&& r.nodes[k].owner_id == id
                &&& r.nodes[k].node_type != NodeType::Regular
            } by {
                if id != player_id {
                    assert(s.players[id].alive);
                }
            }
        },
        GameEvent::NodeCaptured { node_coord, new_owner_id, .. } => {
            let kc = coord_key(node_coord);
            assert forall|id: u64| r.players.contains_key(id) && (#[trigger] r.players[id]).alive implies {
                let k = coord_key(r.players[id].capital_coord);
                &&& r.nodes.contains_key(k)
                &&& r.nodes[k].owner_id == id
                &&& r.nodes[k].node_type != NodeType::Regular
            } by {
                assert(s.players[id].alive);
            }
            assert forall|k: u64| r.nodes.contains_key(k) implies coord_key(
                (#[trigger] r.nodes[k]).coord,
            ) == k by {
                assert(coord_key(s.nodes[k].coord) == k);
            }
            assert forall|id: u64| r.players.contains_key(id) implies (#[trigger] r.players[id]).player_id
                == id by {
                assert(s.players[id].player_id == id);
            }
        },
        GameEvent::SetNodeTarget { node_coord, .. } => {
            assert forall|k: u64| r.nodes.contains_key(k) implies coord_key(
                (#[trigger] r.nodes[k]).coord,
            ) == k by {
                assert(coord_key(s.nodes[k].coord) == k);
            }
            assert forall|id: u64| r.players.contains_key(id) && (#[trigger] r.players[id]).alive implies {
                let k = coord_key(r.players[id].capital_coord);
                &&& r.nodes.contains_key(k)
                &&& r.nodes[k].owner_id == id
                &&& r.nodes[k].node_type != NodeType::Regular
            } by {
                assert(s.players[id].alive);
            }
        },
        GameEvent::NodeInitializationStarted { node_coord, .. } => {
            assert forall|k: u64| r.nodes.contains_key(k) implies coord_key(
                (#[trigger] r.nodes[k]).coord,
            ) == k by {
                if k != coord_key(node_coord) {
                    assert(coord_key(s.nodes[k].coord) == k);
                }
            }
            assert forall|id: u64| r.players.contains_key(id) && (#[trigger] r.players[id]).alive implies {
                let k = coord_key(r.players[id].capital_coord);
                &&& r.nodes.contains_key(k)
                &&& r.nodes[k].owner_id == id
                &&& r.nodes[k].node_type != NodeType::Regular
            } by {
                assert(s.players[id].alive);
            }
        },
        GameEvent::NodeInitializationComplete { node_coord, .. } => {
            assert forall|k: u64| r.nodes.contains_key(k) implies coord_key(
                (#[trigger] r.nodes[k]).coord,
            ) == k by {
                assert(coord_key(s.nodes[k].coord) == k);
            }
            assert forall|id: u64| r.players.contains_key(id) && (#[trigger] r.players[id]).alive implies {
                let k = coord_key(r.players[id].capital_coord);
                &&& r.nodes.contains_key(k)
                &&& r.nodes[k].owner_id == id
                &&& r.nodes[k].node_type != NodeType::Regular
            } by {
                assert(s.players[id].alive);
            }
        },
        GameEvent::NodeMetricsReport { .. } => {},
    }
}

/// A player that is no longer alive does not come back: under admissible
/// events `alive` goes from true to false at most once.
pub proof fn lemma_dead_stays_dead(s: GameView, event: GameEvent, log_index: u64, id: u64)
    requires
        admissible(s, event),
        s.players.contains_key(id),
        !s.players[id].alive,
    ensures
        apply_event(s, event, log_index).players.contains_key(id),
        !apply_event(s, event, log_index).players[id].alive,
{
}

/// Replaying a log is a function of the events alone: two replicas that
/// start equal and apply the same events end equal.
pub proof fn lemma_replay_deterministic(a: GameView, b: GameView, events: Seq<GameEvent>)
    requires
        a == b,
    ensures
        replay_from(a, events, 0) == replay_from(b, events, 0),
{
}

/// Replaying a log that grew by one event is replaying the log and then
/// applying that event at the next index.
pub proof fn lemma_replay_push(s: GameView, events: Seq<GameEvent>, from: int, e: GameEvent)
    requires
        0 <= from <= events.len(),
    ensures
        replay_from(s, events.push(e), from) == apply_event(
            replay_from(s, events, from),
            e,
            (events.len() + 1) as u64,
        ),
    decreases events.len() - from,
{
    let longer = events.push(e);
    if from == events.len() {
        assert(longer[from] == e);
        assert(replay_from(apply_event(s, e, (from + 1) as u64), longer, from + 1) == apply_event(
            s,
            e,
            (from + 1) as u64,
        ));
    } else {
        assert(longer[from] == events[from]);
        lemma_replay_push(apply_event(s, events[from], (from + 1) as u64), events, from + 1, e);
    }
}

/// Two metric reports for different tiles can be applied in either order.
pub proof fn lemma_metrics_reports_commute(
    s: GameView,
    a: GameEvent,
    b: GameEvent,
    first: u64,
    second: u64,
)
    requires
        a matches GameEvent::NodeMetricsReport { node_coord: ca, .. } && b
            matches GameEvent::NodeMetricsReport { node_coord: cb, .. } && ca != cb,
    ensures
        apply_event(apply_event(s, a, first), b, second) == apply_event(
            apply_event(s, b, first),
            a,
            second,
        ),
{
    crate::grid::lemma_key_order(a->NodeMetricsReport_node_coord, b->NodeMetricsReport_node_coord);
    let l = apply_event(apply_event(s, a, first), b, second);
    let r = apply_event(apply_event(s, b, first), a, second);
    assert(l.node_metrics =~= r.node_metrics);
}

/// No event takes a finished game back: once `game_over` holds it holds
/// after every further event. It starts to hold only with a capture
/// after which at most one player is alive.
pub proof fn lemma_game_over_monotone(s: GameView, event: GameEvent, log_index: u64)
    ensures
        s.game_over ==> apply_event(s, event, log_index).game_over,
        !s.game_over && apply_event(s, event, log_index).game_over ==> event is NodeCaptured
            && alive_count(apply_event(s, event, log_index).players) <= 1,
{
}

/// Once `game_over` holds it holds after any further run of events.
pub proof fn lemma_game_over_stays(s: GameView, events: Seq<GameEvent>, from: int)
    requires
        s.game_over,
    ensures
        replay_from(s, events, from).game_over,
    decreases events.len() - from,
{
    if 0 <= from < events.len() {
        lemma_game_over_monotone(s, events[from], (from + 1) as u64);
        lemma_game_over_stays(apply_event(s, events[from], (from + 1) as u64), events, from + 1);
    }
}

/// Starting the initialization of a tile that exists changes no tile: a
/// second start for the same coordinate keeps the owner and the
/// initialization state that the first one set.
pub proof fn lemma_init_started_idempotent(
    s: GameView,
    coord: NodeCoord,
    first_owner: u64,
    second_owner: u64,
    t1: u64,
    t2: u64,
    i1: u64,
    i2: u64,
)
    ensures
        ({
            let once = apply_event(
                s,
                GameEvent::NodeInitializationStarted {
                    node_coord: coord,
                    owner_id: first_owner,
                    timestamp: t1,
                },
                i1,
            );
            let twice = apply_event(
                once,
                GameEvent::NodeInitializationStarted {
                    node_coord: coord,
                    owner_id: second_owner,
                    timestamp: t2,
                },
                i2,
            );
            &&& once.nodes.contains_key(coord_key(coord))
            &&& twice.nodes == once.nodes
            &&& s.nodes.contains_key(coord_key(coord)) ==> once.nodes == s.nodes
        }),
{
}

/// A capture that names the present owner changes nothing but the index
/// of the last applied entry.
pub proof fn lemma_capture_by_owner_is_noop(
    s: GameView,
    coord: NodeCoord,
    timestamp: u64,
    log_index: u64,
)
    requires
        s.nodes.contains_key(coord_key(coord)),
    ensures
        apply_event(
            s,
            GameEvent::NodeCaptured {
                node_coord: coord,
                new_owner_id: s.nodes[coord_key(coord)].owner_id,
                timestamp,
            },
            log_index,
        ) == (GameView { last_applied_log_index: log_index, ..s }),
{
}

} // verus!
