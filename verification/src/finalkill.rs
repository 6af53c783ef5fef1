//! The last flood at a player whose capital fell.
use crate::grid::{coord_key, NodeCoord};
use crate::keys::{
    has_key, in_order, lemma_in_order, lemma_picked_all, lemma_picked_step, lists_in_order, lookup,
    picked, sorted_keys, store,
};
use crate::state::{GameState, GameView};
use std::collections::BTreeMap;
use vstd::prelude::*;

verus! {

/// Seconds that a final kill lasts.
pub const FINAL_KILL_SECS: u64 = 10;

/// One final kill, running or over.
#[derive(Debug)]
pub struct FinalKillHandle {
    pub player_id: u64,
    pub client_ip: String,
    /// When the flood began, in seconds.
    pub start_time: u64,
    /// Whether the flood still runs.
    pub active: bool,
}

/// A final kill to launch: whom to flood, and where.
#[derive(Debug)]
pub struct FinalKillOrder {
    pub player_id: u64,
    pub client_ip: String,
}

/// The final kills of one replica, by the victim's player id. A kill
/// stays on record after it ends, so that no player is flooded twice.
#[derive(Debug)]
pub struct FinalKillManager {
    pub active_kills: BTreeMap<u64, FinalKillHandle>,
}

impl View for FinalKillManager {
    type V = Map<u64, FinalKillHandle>;

    open spec fn view(&self) -> Map<u64, FinalKillHandle> {
        self.active_kills@
    }
}

/// Whether a kill that began at `start_time` has run its time at `now`.
pub open spec fn expired(start_time: u64, now: u64) -> bool {
    now >= start_time && now - start_time >= FINAL_KILL_SECS
}

/// The victims whose flood ends at `now`.
pub open spec fn ending(kills: Map<u64, FinalKillHandle>, now: u64) -> Set<u64> {
    Set::new(
        |id: u64| kills.contains_key(id) && kills[id].active && expired(kills[id].start_time, now),
    )
}

/// The kills after those that end at `now` were marked as over.
pub open spec fn after_expiry(kills: Map<u64, FinalKillHandle>, now: u64) -> Map<
    u64,
    FinalKillHandle,
> {
    Map::new(
        |id: u64| kills.contains_key(id),
        |id: u64|
            if ending(kills, now).contains(id) {
                FinalKillHandle { active: false, ..kills[id] }
            } else {
                kills[id]
            },
    )
}

/// The players that the replica hosting the tile at `me` has to flood
/// now: those who are no longer alive, were not flooded before, have a
/// known client address, and whose capital belongs to the owner of the
/// tile at `me`.
pub open spec fn due(s: GameView, kills: Map<u64, FinalKillHandle>, me: NodeCoord) -> Set<u64> {
    Set::new(
        |id: u64|
            {
                let capital = coord_key(s.players[id].capital_coord);
                &&& s.players.contains_key(id)
                &&& !s.players[id].alive
                &&& !kills.contains_key(id)
                &&& s.client_ips.contains_key(id)
                &&& s.nodes.contains_key(capital)
                &&& s.nodes.contains_key(coord_key(me))
                &&& s.nodes[coord_key(me)].owner_id == s.nodes[capital].owner_id
            },
    )
}

impl FinalKillManager {
    /// A manager with no kill on record.
    pub fn new() -> (m: Self)
        ensures
            m@ == Map::<u64, FinalKillHandle>::empty(),
    {
        FinalKillManager { active_kills: BTreeMap::new() }
    }

    /// Puts a final kill at `player_id` on record as begun at `now`, and
    /// says whether to launch it: a player with a kill on record is not
    /// flooded again, and nothing changes.
    pub fn start_final_kill(&mut self, player_id: u64, client_ip: String, now: u64) -> (launch: bool)
        ensures
            launch == !old(self)@.contains_key(player_id),
            launch ==> final(self)@ == old(self)@.insert(
                player_id,
                FinalKillHandle { player_id, client_ip, start_time: now, active: true },
            ),
            !launch ==> final(self)@ == old(self)@,
    {
        if has_key(&self.active_kills, player_id) {
            return false;
        }
        store(
            &mut self.active_kills,
            player_id,
            FinalKillHandle { player_id, client_ip, start_time: now, active: true },
        );
        true
    }

    /// Ends the kill at `player_id` early. Says whether one was running.
    pub fn stop_final_kill(&mut self, player_id: u64) -> (was_running: bool)
        ensures
            was_running == (old(self)@.contains_key(player_id) && old(self)@[player_id].active),
            was_running ==> final(self)@ == old(self)@.insert(
                player_id,
                FinalKillHandle { active: false, ..old(self)@[player_id] },
            ),
            !was_running ==> final(self)@ == old(self)@,
    {
        let found = match lookup(&self.active_kills, player_id) {
            Some(handle) => if handle.active {
                Some((handle.client_ip.clone(), handle.start_time, handle.player_id))
            } else {
                None
            },
            None => None,
        };
        match found {
            Some((client_ip, start_time, id)) => {
                store(
                    &mut self.active_kills,
                    player_id,
                    FinalKillHandle { player_id: id, client_ip, start_time, active: false },
                );
                true
            },
            None => false,
        }
    }

    /// Whether a kill at `player_id` is running.
    pub fn is_attacking(&self, player_id: u64) -> (b: bool)
        ensures
            b == (self@.contains_key(player_id) && self@[player_id].active),
    {
        match lookup(&self.active_kills, player_id) {
            Some(handle) => handle.active,
            None => false,
        }
    }

    /// Ends every kill that has run its ten seconds at `now` and names
    /// the victims, in the order of their ids.
    pub fn expire(&mut self, now: u64) -> (ended: Vec<u64>)
        ensures
            final(self)@ == after_expiry(old(self)@, now),
            ended@ == in_order(ending(old(self)@, now)),
    {
        let ks = sorted_keys(&self.active_kills);
        let ghost before = self@;
        let ghost t = ending(before, now);
        let mut ended: Vec<u64> = Vec::new();
        let mut i: usize = 0;
        while i < ks.len()
            invariant
                i <= ks.len(),
                before == old(self)@,
                lists_in_order(ks@, before.dom()),
                t == ending(before, now),
                lists_in_order(ended@, picked(ks@, t, i as int)),
                forall|id: u64|
                    #![trigger self@.contains_key(id)]
                    self@.contains_key(id) <==> before.contains_key(id),
                forall|id: u64|
                    before.contains_key(id) ==> #[trigger] self@[id] == (if ended@.contains(id) {
                        FinalKillHandle { active: false, ..before[id] }
                    } else {
                        before[id]
                    }),
            decreases ks.len() - i,
        {
            let id = ks[i];
            proof {
                lemma_picked_step(ks@, t, i as int, ended@);
                crate::keys::lemma_picked(ks@, t, i as int);
                crate::keys::lemma_push_contains(ended@, id);
                assert(ks@.contains(id));
                assert(!ended@.contains(id));
            }
            let ghost prev = self@;
            let ghost prev_ended = ended@;
            let over = match lookup(&self.active_kills, id) {
                Some(handle) => handle.active && now >= handle.start_time && now - handle.start_time
                    >= FINAL_KILL_SECS,
                None => false,
            };
            if over {
                let was_running = self.stop_final_kill(id);
                ended.push(id);
                proof {
                    assert forall|o: u64| before.contains_key(o) implies #[trigger] self@[o] == (
                    if ended@.contains(o) {
                        FinalKillHandle { active: false, ..before[o] }
                    } else {
                        before[o]
                    }) by {
                        assert(ended@.contains(o) <==> prev_ended.contains(o) || o == id);
                        if o != id {
                            assert(self@[o] == prev[o]);
                        }
                    }
                }
            }
            i += 1;
        }
        proof {
            assert(t.subset_of(before.dom()));
            lemma_picked_all(ks@, t, before.dom());
            lemma_in_order(ended@, t);
            assert(self@ =~= after_expiry(before, now));
        }
        ended
    }

    /// The final kills that the replica hosting the tile at `my_coord`
    /// has to launch in the state `game_state`, in the order of the
    /// victims' ids, each with the victim's client address.
    pub fn due_final_kills(&self, game_state: &GameState, my_coord: NodeCoord) -> (orders: Vec<
        FinalKillOrder,
    >)
        ensures
            orders@.len() == in_order(due(game_state@, self@, my_coord)).len(),
            forall|i: int|
                0 <= i < orders@.len() ==> {
                    let id = in_order(due(game_state@, self@, my_coord))[i];
                    &&& (#[trigger] orders@[i]).player_id == id
                    &&& orders@[i].client_ip == game_state@.client_ips[id]
                },
    {
        let ks = sorted_keys(&game_state.players);
        let ghost s = game_state@;
        let ghost t = due(s, self@, my_coord);
        let ghost mut acc: Seq<u64> = Seq::empty();
        let mut orders: Vec<FinalKillOrder> = Vec::new();
        let mine = match lookup(&game_state.nodes, my_coord.key()) {
            Some(node) => Some(node.owner_id),
            None => None,
        };
        let mut i: usize = 0;
        while i < ks.len()
            invariant
                i <= ks.len(),
                s == game_state@,
                lists_in_order(ks@, game_state.players@.dom()),
                t == due(s, self@, my_coord),
                mine is Some <==> s.nodes.contains_key(coord_key(my_coord)),
                mine matches Some(owner) ==> owner == s.nodes[coord_key(my_coord)].owner_id,
                lists_in_order(acc, picked(ks@, t, i as int)),
                orders@.len() == acc.len(),
                forall|j: int|
                    0 <= j < acc.len() ==> (#[trigger] orders@[j]).player_id == acc[j]
                        && orders@[j].client_ip == s.client_ips[acc[j]],
            decreases ks.len() - i,
        {
            let id = ks[i];
            proof {
                lemma_picked_step(ks@, t, i as int, acc);
                assert(ks@.contains(id));
            }
            if let Some(owner) = mine {
                if let Some(player) = lookup(&game_state.players, id) {
                    if !player.alive && !has_key(&self.active_kills, id) {
                        if let Some(capital) = lookup(&game_state.nodes, player.capital_coord.key()) {
                            if capital.owner_id == owner {
                                if let Some(ip) = lookup(&game_state.client_ips, id) {
                                    orders.push(
                                        FinalKillOrder { player_id: id, client_ip: ip.clone() },
                                    );
                                    proof {
                                        acc = acc.push(id);
                                    }
                                }
                            }
                        }
                    }
                }
            }
            i += 1;
        }
        proof {
            assert(t.subset_of(game_state.players@.dom()));
            lemma_picked_all(ks@, t, game_state.players@.dom());
            lemma_in_order(acc, t);
        }
        orders
    }
}

/// A player is flooded at most once: after a kill was put on record, a
/// second start for the same player launches nothing and changes nothing,
/// whether or not the first has ended.
pub proof fn lemma_final_kill_once(kills: Map<u64, FinalKillHandle>, player_id: u64, now: u64)
    requires
        kills.contains_key(player_id),
    ensures
        after_expiry(kills, now).contains_key(player_id),
        forall|s: GameView, me: NodeCoord| !due(s, kills, me).contains(player_id),
{
}

} // verus!
