//! The evaluator that turns sustained overload into capture events.
use crate::events::{AttackTarget, GameEvent, NodeType};
use crate::grid::{coord_key, key_coord, NodeCoord};
use crate::keys::{
    in_order, lemma_in_order, lemma_picked_all, lemma_picked_step, lists_in_order, lookup, picked,
    sorted_keys, store, take_out,
};
use crate::state::{GameState, GameView, Node};
use std::collections::BTreeMap;
use vstd::prelude::*;

verus! {

/// When a tile counts as overloaded and how long that must last.
#[derive(Debug, Clone, Copy)]
pub struct GameConfig {
    /// Seconds of unbroken overload after which a tile is captured.
    pub overload_duration_secs: u64,
    /// Packet loss, in millionths, from which a tile is overloaded.
    pub overload_threshold: u32,
}

impl Default for GameConfig {
    /// Ten seconds at a packet loss of one fifth.
    fn default() -> (c: Self)
        ensures
            c.overload_duration_secs == 10,
            c.overload_threshold == 200_000,
    {
        GameConfig { overload_duration_secs: 10, overload_threshold: 200_000 }
    }
}

/// For each overloaded tile, by the key of its coordinate: the owner that
/// stands to capture it and the time at which the overload was first seen.
#[derive(Debug)]
pub struct AttackTracker {
    pub overload_start_times: BTreeMap<u64, (u64, u64)>,
}

impl AttackTracker {
    /// A tracker that follows no tile.
    pub fn new() -> (t: Self)
        ensures
            t.overload_start_times@ == Map::<u64, (u64, u64)>::empty(),
    {
        AttackTracker { overload_start_times: BTreeMap::new() }
    }
}

/// The evaluator. Only the leader acts on what it returns.
#[derive(Debug)]
pub struct GameLogic {
    pub config: GameConfig,
    pub attack_tracker: AttackTracker,
}

impl View for GameLogic {
    type V = Map<u64, (u64, u64)>;

    open spec fn view(&self) -> Map<u64, (u64, u64)> {
        self.attack_tracker.overload_start_times@
    }
}

/// Whether the tile under `a` attacks the tile under `k`.
pub open spec fn attacks(nodes: Map<u64, Node>, a: u64, k: u64) -> bool {
    nodes.contains_key(a) && (nodes[a].current_target matches Some(AttackTarget::Coordinate(c))
        && coord_key(c) == k)
}

/// Whether any tile attacks the tile under `k`.
pub open spec fn attacked(nodes: Map<u64, Node>, k: u64) -> bool {
    exists|a: u64| attacks(nodes, a, k)
}

/// Whether `a` is the attacker of `k` with the lowest coordinate.
pub open spec fn lowest_attacker(nodes: Map<u64, Node>, a: u64, k: u64) -> bool {
    attacks(nodes, a, k) && forall|b: u64| attacks(nodes, b, k) ==> a <= b
}

/// The attacker of `k` with the lowest coordinate in `(q, r)` order.
pub open spec fn winner(nodes: Map<u64, Node>, k: u64) -> u64 {
    choose|a: u64| lowest_attacker(nodes, a, k)
}

/// Seconds from `since` to `now`, zero where the clock went back.
pub open spec fn elapsed(now: u64, since: u64) -> int {
    if now >= since {
        now - since
    } else {
        0
    }
}

/// What one tick decides about one tile.
pub ghost struct Verdict {
    /// What the tracker holds for the tile after the tick.
    pub followed: Option<(u64, u64)>,
    /// The owner that captures the tile in this tick, if any.
    pub captured_by: Option<u64>,
}

/// The decision on the tile under `k` at time `now`, where the tracker
/// held `followed` for it. A tile that nobody attacks, or that stands for a
/// client, is not followed. A tile without metrics stays as it is. A tile
/// below the threshold is no longer followed. Otherwise the overload
/// counts from the time the tracker holds for the winning attacker's
/// owner, or from `now` where it holds none for that owner; once it has
/// lasted the configured time the owner captures the tile and the tile is
/// no longer followed.
pub open spec fn evaluate(
    s: GameView,
    config: GameConfig,
    followed: Option<(u64, u64)>,
    k: u64,
    now: u64,
) -> Verdict {
    if !attacked(s.nodes, k) || s.nodes[k].node_type == NodeType::Client {
        Verdict { followed: None, captured_by: None }
    } else if !s.node_metrics.contains_key(k) {
        Verdict { followed, captured_by: None }
    } else if s.node_metrics[k].packet_loss < config.overload_threshold {
        Verdict { followed: None, captured_by: None }
    } else {
        let owner = s.nodes[winner(s.nodes, k)].owner_id;
        let since = match followed {
            Some((o, t0)) => if o == owner {
                t0
            } else {
                now
            },
            None => now,
        };
        if elapsed(now, since) >= config.overload_duration_secs {
            Verdict { followed: None, captured_by: Some(owner) }
        } else {
            Verdict { followed: Some((owner, since)), captured_by: None }
        }
    }
}

/// What the tracker `m` holds under `k`.
pub open spec fn entry(m: Map<u64, (u64, u64)>, k: u64) -> Option<(u64, u64)> {
    if m.contains_key(k) {
        Some(m[k])
    } else {
        None
    }
}

/// The keys of the tiles that a tick at `now` captures.
pub open spec fn captured_keys(
    s: GameView,
    config: GameConfig,
    tracker: Map<u64, (u64, u64)>,
    now: u64,
) -> Set<u64> {
    Set::new(
        |k: u64|
            s.nodes.contains_key(k) && evaluate(s, config, entry(tracker, k), k, now).captured_by
                is Some,
    )
}

/// The capture event that a tick at `now` emits for the tile under `k`.
pub open spec fn capture_event(
    s: GameView,
    config: GameConfig,
    tracker: Map<u64, (u64, u64)>,
    now: u64,
    k: u64,
) -> GameEvent {
    GameEvent::NodeCaptured {
        node_coord: key_coord(k),
        new_owner_id: evaluate(s, config, entry(tracker, k), k, now).captured_by->0,
        timestamp: now,
    }
}

/// The attacker of the tile under `k` with the lowest coordinate, among
/// the tiles listed in `ks`.
fn find_winner(nodes: &BTreeMap<u64, Node>, ks: &Vec<u64>, k: u64) -> (r: Option<u64>)
    requires
        lists_in_order(ks@, nodes@.dom()),
    ensures
        r is None <==> !attacked(nodes@, k),
        r matches Some(a) ==> lowest_attacker(nodes@, a, k) && winner(nodes@, k) == a,
{
    let mut i: usize = 0;
    while i < ks.len()
        invariant
            i <= ks.len(),
            lists_in_order(ks@, nodes@.dom()),
            forall|j: int| 0 <= j < i ==> !attacks(nodes@, #[trigger] ks@[j], k),
        decreases ks.len() - i,
    {
        let a = ks[i];
        proof {
            assert(ks@.contains(a));
        }
        if let Some(node) = lookup(nodes, a) {
            if let Some(AttackTarget::Coordinate(c)) = node.current_target {
                if c.key() == k {
                    proof {
                        assert forall|b: u64| attacks(nodes@, b, k) implies a <= b by {
                            assert(ks@.contains(b));
                            let j = choose|j: int| 0 <= j < ks@.len() && ks@[j] == b;
                            if j < i {
                                assert(!attacks(nodes@, ks@[j], k));
                            }
                        }
                        assert(lowest_attacker(nodes@, a, k));
                        let w = winner(nodes@, k);
                        assert(lowest_attacker(nodes@, w, k));
                    }
                    return Some(a);
                }
            }
        }
        i += 1;
    }
    proof {
        assert forall|b: u64| !attacks(nodes@, b, k) by {
            if attacks(nodes@, b, k) {
                assert(ks@.contains(b));
                let j = choose|j: int| 0 <= j < ks@.len() && ks@[j] == b;
                assert(!attacks(nodes@, ks@[j], k));
            }
        }
    }
    None
}

impl GameLogic {
    /// An evaluator that follows no tile yet.
    pub fn new(config: GameConfig) -> (g: Self)
        ensures
            g.config == config,
            g@ == Map::<u64, (u64, u64)>::empty(),
    {
        GameLogic { config, attack_tracker: AttackTracker::new() }
    }

    /// Decides on the tile under `k` and brings the tracker up to date.
    /// Returns the owner that captures the tile now, if any.
    fn evaluate_tile(&mut self, game_state: &GameState, ks: &Vec<u64>, k: u64, now: u64) -> (r:
        Option<u64>)
        requires
            lists_in_order(ks@, game_state.nodes@.dom()),
            game_state.nodes@.contains_key(k),
        ensures
            final(self).config == old(self).config,
            r == evaluate(game_state@, old(self).config, entry(old(self)@, k), k, now).captured_by,
            entry(final(self)@, k) == evaluate(
                game_state@,
                old(self).config,
                entry(old(self)@, k),
                k,
                now,
            ).followed,
            forall|other: u64| other != k ==> entry(final(self)@, other) == entry(old(self)@, other),
    {
        let is_client = match lookup(&game_state.nodes, k) {
            Some(node) => match node.node_type {
                NodeType::Client => true,
                _ => false,
            },
            None => false,
        };
        let attacker = find_winner(&game_state.nodes, ks, k);
        let attacker_key = match attacker {
            Some(a) => a,
            None => {
                let _ = take_out(&mut self.attack_tracker.overload_start_times, k);
                return None;
            },
        };
        if is_client {
            let _ = take_out(&mut self.attack_tracker.overload_start_times, k);
            return None;
        }
        let loss = match lookup(&game_state.node_metrics, k) {
            Some(metrics) => metrics.packet_loss,
            None => {
                return None;
            },
        };
        if loss < self.config.overload_threshold {
            let _ = take_out(&mut self.attack_tracker.overload_start_times, k);
            return None;
        }
        let owner = match lookup(&game_state.nodes, attacker_key) {
            Some(node) => node.owner_id,
            None => {
                return None;
            },
        };
        let since = match lookup(&self.attack_tracker.overload_start_times, k) {
            Some(pair) => if pair.0 == owner {
                pair.1
            } else {
                now
            },
            None => now,
        };
        let lasted = if now >= since {
            now - since
        } else {
            0
        };
        if lasted >= self.config.overload_duration_secs {
            let _ = take_out(&mut self.attack_tracker.overload_start_times, k);
            Some(owner)
        } else {
            store(&mut self.attack_tracker.overload_start_times, k, (owner, since));
            None
        }
    }

    /// One pass of the evaluator at time `current_time`, in seconds. For
    /// every tile of the grid the tracker afterwards holds what `evaluate`
    /// says; what it holds for other coordinates is untouched. The result
    /// has one capture event for each tile that falls in this tick, in the
    /// order of the tiles' coordinates.
    pub fn tick(&mut self, game_state: &GameState, current_time: u64) -> (events: Vec<GameEvent>)
        ensures
            final(self).config == old(self).config,
            forall|k: u64|
                game_state@.nodes.contains_key(k) ==> #[trigger] entry(final(self)@, k) == evaluate(
                    game_state@,
                    old(self).config,
                    entry(old(self)@, k),
                    k,
                    current_time,
                ).followed,
            forall|k: u64|
                !game_state@.nodes.contains_key(k) ==> #[trigger] entry(final(self)@, k) == entry(
                    old(self)@,
                    k,
                ),
            events@ == in_order(
                captured_keys(game_state@, old(self).config, old(self)@, current_time),
            ).map_values(
                |k: u64|
                    capture_event(game_state@, old(self).config, old(self)@, current_time, k),
            ),
    {
        let ks = sorted_keys(&game_state.nodes);
        let ghost s = game_state@;
        let ghost cfg = self.config;
        let ghost before = self@;
        let ghost t = captured_keys(s, cfg, before, current_time);
        let ghost f = |k: u64| capture_event(s, cfg, before, current_time, k);
        let ghost mut acc: Seq<u64> = Seq::empty();
        let mut events: Vec<GameEvent> = Vec::new();
        let mut i: usize = 0;
        while i < ks.len()
            invariant
                i <= ks.len(),
                lists_in_order(ks@, game_state.nodes@.dom()),
                s == game_state@,
                self.config == cfg,
                t == captured_keys(s, cfg, before, current_time),
                f == |k: u64| capture_event(s, cfg, before, current_time, k),
                lists_in_order(acc, picked(ks@, t, i as int)),
                events@ == acc.map_values(f),
                forall|j: int|
                    0 <= j < i ==> entry(self@, #[trigger] ks@[j]) == evaluate(
                        s,
                        cfg,
                        entry(before, ks@[j]),
                        ks@[j],
                        current_time,
                    ).followed,
                forall|k: u64|
                    !(exists|j: int| 0 <= j < i && ks@[j] == k) ==> #[trigger] entry(self@, k)
                        == entry(before, k),
            decreases ks.len() - i,
        {
            let k = ks[i];
            let ghost mid = self@;
            proof {
                lemma_picked_step(ks@, t, i as int, acc);
                assert(ks@.contains(k));
                assert(!(exists|j: int| 0 <= j < i && ks@[j] == k)) by {
                    if exists|j: int| 0 <= j < i && ks@[j] == k {
                        let j = choose|j: int| 0 <= j < i && ks@[j] == k;
                        assert(ks@[j] < ks@[i as int]);
                    }
                }
                assert(entry(mid, k) == entry(before, k));
            }
            if let Some(owner) = self.evaluate_tile(game_state, &ks, k, current_time) {
                events.push(
                    GameEvent::NodeCaptured {
                        node_coord: NodeCoord::from_key(k),
                        new_owner_id: owner,
                        timestamp: current_time,
                    },
                );
                proof {
                    assert(acc.push(k).map_values(f) =~= acc.map_values(f).push(f(k)));
                    acc = acc.push(k);
                }
            }
            proof {
                assert forall|j: int| 0 <= j < i + 1 implies entry(self@, #[trigger] ks@[j])
                    == evaluate(s, cfg, entry(before, ks@[j]), ks@[j], current_time).followed by {
                    if j < i {
                        assert(ks@[j] < ks@[i as int]);
                        assert(entry(self@, ks@[j]) == entry(mid, ks@[j]));
                    }
                }
                assert forall|o: u64| !(exists|j: int| 0 <= j < i + 1 && ks@[j] == o) implies #[trigger] entry(
                    self@,
                    o,
                ) == entry(before, o) by {
                    assert(o != k);
                    assert(!(exists|j: int| 0 <= j < i && ks@[j] == o)) by {
                        if exists|j: int| 0 <= j < i && ks@[j] == o {
                            let j = choose|j: int| 0 <= j < i && ks@[j] == o;
                            assert(0 <= j < i + 1 && ks@[j] == o);
                        }
                    }
                    assert(entry(mid, o) == entry(before, o));
                }
            }
            i += 1;
        }
        proof {
            assert(t.subset_of(game_state.nodes@.dom()));
            lemma_picked_all(ks@, t, game_state.nodes@.dom());
            lemma_in_order(acc, t);
            assert forall|k: u64| s.nodes.contains_key(k) implies #[trigger] entry(self@, k)
                == evaluate(s, cfg, entry(before, k), k, current_time).followed by {
                assert(ks@.contains(k));
                let j = choose|j: int| 0 <= j < ks@.len() && ks@[j] == k;
                assert(entry(self@, ks@[j]) == evaluate(
                    s,
                    cfg,
                    entry(before, ks@[j]),
                    ks@[j],
                    current_time,
                ).followed);
            }
            assert forall|k: u64| !s.nodes.contains_key(k) implies #[trigger] entry(self@, k)
                == entry(before, k) by {
                if exists|j: int| 0 <= j < ks@.len() && ks@[j] == k {
                    let j = choose|j: int| 0 <= j < ks@.len() && ks@[j] == k;
                    assert(ks@.contains(k));
                }
            }
        }
        events
    }
}

/// A tile under unbroken overload with a steady winning attacker falls
/// exactly when the configured time has passed since the overload was
/// first seen at `t0`, and not before: the first sighting starts the
/// window, and a later tick at `now` captures the tile for the attacker's
/// owner if and only if `now - t0` has reached the configured duration.
pub proof fn lemma_capture_latency(s: GameView, config: GameConfig, k: u64, t0: u64, now: u64)
    requires
        attacked(s.nodes, k),
        s.nodes[k].node_type != NodeType::Client,
        s.node_metrics.contains_key(k),
        s.node_metrics[k].packet_loss >= config.overload_threshold,
        t0 <= now,
    ensures
        ({
            let owner = s.nodes[winner(s.nodes, k)].owner_id;
            let first = evaluate(s, config, None, k, t0);
            let later = evaluate(s, config, Some((owner, t0)), k, now);
            &&& config.overload_duration_secs > 0 ==> first == (Verdict {
                followed: Some((owner, t0)),
                captured_by: None,
            })
            &&& now - t0 >= config.overload_duration_secs ==> later == (Verdict {
                followed: None,
                captured_by: Some(owner),
            })
            &&& now - t0 < config.overload_duration_secs ==> later == (Verdict {
                followed: Some((owner, t0)),
                captured_by: None,
            })
        }),
{
}

/// A tick that finds the loss below the threshold forgets the window,
/// whatever it held: the next overload counts from its own first sighting.
pub proof fn lemma_loss_drop_resets(
    s: GameView,
    config: GameConfig,
    followed: Option<(u64, u64)>,
    k: u64,
    now: u64,
)
    requires
        s.node_metrics.contains_key(k),
        s.node_metrics[k].packet_loss < config.overload_threshold,
    ensures
        evaluate(s, config, followed, k, now) == (Verdict { followed: None, captured_by: None }),
{
}

/// A change of the winning attacker's owner starts the window anew.
pub proof fn lemma_owner_change_restarts(
    s: GameView,
    config: GameConfig,
    previous_owner: u64,
    t0: u64,
    k: u64,
    now: u64,
)
    requires
        attacked(s.nodes, k),
        s.nodes[k].node_type != NodeType::Client,
        s.node_metrics.contains_key(k),
        s.node_metrics[k].packet_loss >= config.overload_threshold,
        previous_owner != s.nodes[winner(s.nodes, k)].owner_id,
        config.overload_duration_secs > 0,
    ensures
        evaluate(s, config, Some((previous_owner, t0)), k, now) == (Verdict {
            followed: Some((s.nodes[winner(s.nodes, k)].owner_id, now)),
            captured_by: None,
        }),
{
}

} // verus!
