//! The replicated store of one replica: vote, log, state machine and
//! snapshot, all held in memory.
use crate::events::{clone_events, GameEvent};
use crate::keys::{
    in_order, lemma_in_order, lemma_picked_all, lemma_picked_step, lists_in_order, lookup, picked,
    sorted_keys, store, take_out,
};
use crate::state::{apply_event, empty_view, replay, GameState, GameView};
use std::collections::BTreeMap;
use vstd::prelude::*;

verus! {

/// Identifies a replica.
pub type NodeId = u64;

/// The leader of a term.
#[derive(Debug, Clone, Copy, PartialEq, Eq, Structural)]
pub struct LeaderId {
    pub term: u64,
    pub node_id: NodeId,
}

/// Identifies a log entry: the leader that proposed it and its position.
#[derive(Debug, Clone, Copy, PartialEq, Eq, Structural)]
pub struct LogId {
    pub leader_id: LeaderId,
    pub index: u64,
}

/// The vote a replica has cast.
#[derive(Debug, Clone, Copy, PartialEq, Eq, Structural)]
pub struct Vote {
    pub leader_id: LeaderId,
    pub committed: bool,
}

/// What the log carries for the application: one game event.
#[derive(Debug)]
pub struct GameEventRequest {
    pub event: GameEvent,
}

impl Clone for GameEventRequest {
    fn clone(&self) -> (r: Self)
        ensures
            r == *self,
    {
        GameEventRequest { event: self.event.clone() }
    }
}

/// What applying a log entry answers.
#[derive(Debug, Clone, Copy, PartialEq, Eq, Structural)]
pub struct GameEventResponse {
    pub success: bool,
}

/// The content of a log entry. `M` is the description of a membership
/// change, which the store carries and never reads.
#[derive(Debug)]
pub enum EntryPayload<M> {
    /// Nothing: a leader's first entry of its term.
    Blank,
    /// A game event.
    Normal(GameEventRequest),
    /// A change of the group's members.
    Membership(M),
}

/// A log entry.
#[derive(Debug)]
pub struct Entry<M> {
    pub log_id: LogId,
    pub payload: EntryPayload<M>,
}

/// The two ends of the log.
#[derive(Debug, Clone, Copy)]
pub struct LogState {
    pub last_purged_log_id: Option<LogId>,
    pub last_log_id: Option<LogId>,
}

/// The indices of the entries that conflict deletion from `since` on
/// removes: those at or after the index of `since` whose leader is not
/// the leader of `since`.
pub open spec fn conflicting<M>(log: Map<u64, Entry<M>>, since: LogId) -> Set<u64> {
    Set::new(
        |i: u64|
            log.contains_key(i) && i >= since.index && log[i].log_id.leader_id != since.leader_id,
    )
}

/// The indices of `log` up to and including `index`.
pub open spec fn up_to<M>(log: Map<u64, Entry<M>>, index: u64) -> Set<u64> {
    Set::new(|i: u64| log.contains_key(i) && i <= index)
}

/// The log after each of `entries` was stored under its index, in order.
pub open spec fn appended<M>(log: Map<u64, Entry<M>>, entries: Seq<Entry<M>>) -> Map<u64, Entry<M>>
    decreases entries.len(),
{
    if entries.len() == 0 {
        log
    } else {
        appended(log, entries.drop_last()).insert(entries.last().log_id.index, entries.last())
    }
}

/// The indices of `log` from `start` on and, where `end` is given, before it.
pub open spec fn indices_in_range<M>(log: Map<u64, Entry<M>>, start: u64, end: Option<u64>) -> Set<
    u64,
> {
    Set::new(
        |i: u64|
            log.contains_key(i) && start <= i && (end matches Some(e) ==> i < e),
    )
}

/// The greatest index of `log`.
pub open spec fn is_last_index<M>(log: Map<u64, Entry<M>>, i: u64) -> bool {
    log.contains_key(i) && forall|j: u64| log.contains_key(j) ==> j <= i
}

/// The log of one replica, by index.
#[derive(Debug)]
pub struct MemLog<M> {
    pub entries: BTreeMap<u64, Entry<M>>,
}

impl<M> View for MemLog<M> {
    type V = Map<u64, Entry<M>>;

    open spec fn view(&self) -> Map<u64, Entry<M>> {
        self.entries@
    }
}

impl<M> MemLog<M> {
    /// An empty log.
    pub fn new() -> (l: Self)
        ensures
            l@ == Map::<u64, Entry<M>>::empty(),
    {
        MemLog { entries: BTreeMap::new() }
    }

    /// The id of the entry with the greatest index; nothing is recorded
    /// as purged.
    pub fn get_log_state(&self) -> (s: LogState)
        ensures
            s.last_purged_log_id is None,
            s.last_log_id is None <==> self@.dom() == Set::<u64>::empty(),
            s.last_log_id matches Some(id) ==> exists|i: u64|
                is_last_index(self@, i) && self@[i].log_id == id,
    {
        let ks = sorted_keys(&self.entries);
        if ks.len() == 0 {
            proof {
                assert forall|k: u64| !self@.dom().contains(k) by {
                    assert(!ks@.contains(k));
                }
                assert(self@.dom() =~= Set::<u64>::empty());
            }
            return LogState { last_purged_log_id: None, last_log_id: None };
        }
        let last = ks[ks.len() - 1];
        proof {
            assert(ks@.contains(last));
            assert forall|j: u64| self@.contains_key(j) implies j <= last by {
                assert(ks@.contains(j));
                let m = choose|m: int| 0 <= m < ks@.len() && ks@[m] == j;
                if m < ks@.len() - 1 {
                    assert(ks@[m] < ks@[ks@.len() - 1]);
                }
            }
            assert(is_last_index(self@, last));
        }
        match lookup(&self.entries, last) {
            Some(entry) => LogState { last_purged_log_id: None, last_log_id: Some(entry.log_id) },
            None => LogState { last_purged_log_id: None, last_log_id: None },
        }
    }

    /// The entries with an index from `start` on and, where `end` is
    /// given, before `end`, in the order of their indices.
    pub fn try_get_log_entries(&self, start: u64, end: Option<u64>) -> (out: Vec<&Entry<M>>)
        ensures
            out@.len() == in_order(indices_in_range(self@, start, end)).len(),
            forall|i: int|
                0 <= i < out@.len() ==> *#[trigger] out@[i] == self@[in_order(
                    indices_in_range(self@, start, end),
                )[i]],
    {
        let ks = sorted_keys(&self.entries);
        let ghost t = indices_in_range(self@, start, end);
        let ghost mut acc: Seq<u64> = Seq::empty();
        let mut out: Vec<&Entry<M>> = Vec::new();
        let mut i: usize = 0;
        while i < ks.len()
            invariant
                i <= ks.len(),
                lists_in_order(ks@, self.entries@.dom()),
                t == indices_in_range(self@, start, end),
                lists_in_order(acc, picked(ks@, t, i as int)),
                out@.len() == acc.len(),
                forall|j: int| 0 <= j < out@.len() ==> *#[trigger] out@[j] == self.entries@[acc[j]],
            decreases ks.len() - i,
        {
            let k = ks[i];
            proof {
                lemma_picked_step(ks@, t, i as int, acc);
                assert(ks@.contains(k));
            }
            let below_end = match end {
                Some(e) => k < e,
                None => true,
            };
            if start <= k && below_end {
                if let Some(entry) = lookup(&self.entries, k) {
                    out.push(entry);
                    proof {
                        acc = acc.push(k);
                    }
                }
            }
            i += 1;
        }
        proof {
            assert(t.subset_of(self.entries@.dom()));
            lemma_picked_all(ks@, t, self.entries@.dom());
            lemma_in_order(acc, t);
        }
        out
    }

    /// Stores each entry under its index, a later one over an earlier one.
    pub fn append_to_log(&mut self, entries: Vec<Entry<M>>)
        ensures
            final(self)@ == appended(old(self)@, entries@),
    {
        let ghost all = entries@;
        for entry in it: entries
            invariant
                it.seq() == all,
                self@ == appended(old(self)@, all.take(it.index())),
        {
            let ghost i = it.index();
            proof {
                assert(all.take(i + 1).drop_last() =~= all.take(i));
                assert(all.take(i + 1).last() == entry);
            }
            store(&mut self.entries, entry.log_id.index, entry);
        }
        proof {
            assert(all.take(all.len() as int) =~= all);
        }
    }

    /// Removes the entries under the indices in `doomed`.
    fn drop_all(&mut self, doomed: &Vec<u64>)
        ensures
            final(self)@ == old(self)@.remove_keys(doomed@.to_set()),
    {
        let mut i: usize = 0;
        while i < doomed.len()
            invariant
                i <= doomed.len(),
                self@ == old(self)@.remove_keys(doomed@.take(i as int).to_set()),
            decreases doomed.len() - i,
        {
            let _ = take_out(&mut self.entries, doomed[i]);
            proof {
                let before = doomed@.take(i as int);
                let after = doomed@.take(i + 1);
                assert(after =~= before.push(doomed@[i as int]));
                assert(after.to_set() =~= before.to_set().insert(doomed@[i as int])) by {
                    assert forall|k: u64| after.to_set().contains(k) <==> before.to_set().insert(
                        doomed@[i as int],
                    ).contains(k) by {
                        if after.contains(k) {
                            let j = choose|j: int| 0 <= j < after.len() && after[j] == k;
                            if j < before.len() {
                                assert(before[j] == k);
                                assert(before.contains(k));
                            }
                        }
                        if before.contains(k) {
                            let j = choose|j: int| 0 <= j < before.len() && before[j] == k;
                            assert(after[j] == k);
                        }
                        if k == doomed@[i as int] {
                            assert(after[i as int] == k);
                        }
                    }
                }
                assert(self@ =~= old(self)@.remove_keys(after.to_set()));
            }
            i += 1;
        }
        proof {
            assert(doomed@.take(doomed.len() as int) =~= doomed@);
        }
    }

    /// Removes every entry at or after `log_id` that another leader
    /// proposed; entries of the same leader stay.
    pub fn delete_conflict_logs_since(&mut self, log_id: LogId)
        ensures
            final(self)@ == old(self)@.remove_keys(conflicting(old(self)@, log_id)),
    {
        let ks = sorted_keys(&self.entries);
        let ghost t = conflicting(self@, log_id);
        let mut doomed: Vec<u64> = Vec::new();
        let mut i: usize = 0;
        while i < ks.len()
            invariant
                i <= ks.len(),
                lists_in_order(ks@, self.entries@.dom()),
                self@ == old(self)@,
                t == conflicting(self@, log_id),
                lists_in_order(doomed@, picked(ks@, t, i as int)),
            decreases ks.len() - i,
        {
            let k = ks[i];
            proof {
                lemma_picked_step(ks@, t, i as int, doomed@);
                assert(ks@.contains(k));
            }
            if let Some(entry) = lookup(&self.entries, k) {
                let same_leader = entry.log_id.leader_id.term == log_id.leader_id.term
                    && entry.log_id.leader_id.node_id == log_id.leader_id.node_id;
                if k >= log_id.index && !same_leader {
                    doomed.push(k);
                }
            }
            i += 1;
        }
        proof {
            assert(t.subset_of(self.entries@.dom()));
            lemma_picked_all(ks@, t, self.entries@.dom());
            assert(doomed@.to_set() =~= t);
        }
        self.drop_all(&doomed);
    }

    /// Removes every entry up to and including the index of `log_id`.
    pub fn purge_logs_upto(&mut self, log_id: LogId)
        ensures
            final(self)@ == old(self)@.remove_keys(up_to(old(self)@, log_id.index)),
    {
        let ks = sorted_keys(&self.entries);
        let ghost t = up_to(self@, log_id.index);
        let mut doomed: Vec<u64> = Vec::new();
        let mut i: usize = 0;
        while i < ks.len()
            invariant
                i <= ks.len(),
                lists_in_order(ks@, self.entries@.dom()),
                self@ == old(self)@,
                t == up_to(self@, log_id.index),
                lists_in_order(doomed@, picked(ks@, t, i as int)),
            decreases ks.len() - i,
        {
            let k = ks[i];
            proof {
                lemma_picked_step(ks@, t, i as int, doomed@);
                assert(ks@.contains(k));
            }
            if k <= log_id.index {
                doomed.push(k);
            }
            i += 1;
        }
        proof {
            assert(t.subset_of(self.entries@.dom()));
            lemma_picked_all(ks@, t, self.entries@.dom());
            assert(doomed@.to_set() =~= t);
        }
        self.drop_all(&doomed);
    }
}

/// What a snapshot holds: the events so far and the index of the last
/// entry applied.
#[derive(Debug)]
pub struct GameStateSnapshot {
    pub events: Vec<GameEvent>,
    pub last_applied_log_index: u64,
}

impl Clone for GameStateSnapshot {
    fn clone(&self) -> (c: Self)
        ensures
            c.events@ == self.events@,
            c.last_applied_log_index == self.last_applied_log_index,
    {
        GameStateSnapshot {
            events: clone_events(&self.events),
            last_applied_log_index: self.last_applied_log_index,
        }
    }
}

/// What identifies a snapshot.
#[derive(Debug)]
pub struct SnapshotMeta {
    pub last_log_id: Option<LogId>,
    pub snapshot_id: String,
}

impl Clone for SnapshotMeta {
    fn clone(&self) -> (c: Self)
        ensures
            c == *self,
    {
        SnapshotMeta { last_log_id: self.last_log_id, snapshot_id: self.snapshot_id.clone() }
    }
}

/// Why the store refused.
#[derive(Debug, Clone, Copy, PartialEq, Eq, Structural)]
pub enum StorageError {
    /// The bytes of a snapshot could not be read back.
    SnapshotUnreadable,
}

/// The state machine: the game state, the events that led to it, and the
/// index of the last entry applied.
#[derive(Debug)]
pub struct GameStateMachine {
    pub game_state: GameState,
    pub events: Vec<GameEvent>,
    pub last_applied_log_index: u64,
}

/// The state machine as mathematical values.
pub ghost struct MachineView {
    pub game: GameView,
    pub events: Seq<GameEvent>,
    pub last_applied_log_index: u64,
}

impl View for GameStateMachine {
    type V = MachineView;

    open spec fn view(&self) -> MachineView {
        MachineView {
            game: self.game_state@,
            events: self.events@,
            last_applied_log_index: self.last_applied_log_index,
        }
    }
}

/// The state machine of a fresh replica.
pub open spec fn empty_machine() -> MachineView {
    MachineView { game: empty_view(), events: Seq::empty(), last_applied_log_index: 0 }
}

/// The machine after one log entry. An entry with a game event applies
/// the event at the entry's index and records it; any other entry leaves
/// the machine as it is.
pub open spec fn apply_entry<M>(m: MachineView, entry: Entry<M>) -> MachineView {
    match entry.payload {
        EntryPayload::Normal(request) => MachineView {
            game: apply_event(m.game, request.event, entry.log_id.index),
            events: m.events.push(request.event),
            last_applied_log_index: entry.log_id.index,
        },
        _ => m,
    }
}

/// The machine after the first `n` of `entries`, applied in order.
pub open spec fn apply_entries<M>(m: MachineView, entries: Seq<Entry<M>>, n: int) -> MachineView
    decreases n,
{
    if n <= 0 {
        m
    } else {
        apply_entry(apply_entries(m, entries, n - 1), entries[n - 1])
    }
}

/// The id under which a snapshot records the last entry it covers.
pub open spec fn snapshot_log_id(last_applied_log_index: u64) -> Option<LogId> {
    if last_applied_log_index > 0 {
        Some(LogId { leader_id: LeaderId { term: 0, node_id: 0 }, index: last_applied_log_index })
    } else {
        None
    }
}

/// The decimal digit for `d`.
pub open spec fn digit(d: nat) -> char {
    (('0' as u8) + d) as char
}

/// `n` in decimal digits, without sign or padding.
pub open spec fn decimal(n: nat) -> Seq<char>
    decreases n,
{
    if n < 10 {
        seq![digit(n)]
    } else {
        decimal(n / 10).push(digit(n % 10))
    }
}

/// The name of the snapshot that covers the log up to `index`.
pub open spec fn snapshot_name(index: u64) -> Seq<char> {
    "snapshot-"@ + decimal(index as nat)
}

/// Renders the name of a snapshot with the standard library's `format!`:
/// the text `snapshot-` followed by `index` as `u64` prints, in decimal
/// digits without sign or padding.
#[verifier::external_body]
pub(crate) fn snapshot_id(index: u64) -> (id: String)
    ensures
        id@ == snapshot_name(index),
{
    format!("snapshot-{}", index)
}

/// The machine that installing a snapshot with these contents leaves: the
/// events are those of the snapshot, and the game state is what a fresh
/// replica reaches by applying them in order.
pub open spec fn installed(events: Seq<GameEvent>, last_applied_log_index: u64) -> MachineView {
    MachineView { game: replay(events), events, last_applied_log_index }
}

impl GameStateMachine {
    /// The state machine of a fresh replica.
    pub fn new() -> (m: Self)
        ensures
            m@ == empty_machine(),
    {
        GameStateMachine { game_state: GameState::new(), events: Vec::new(), last_applied_log_index: 0 }
    }

    /// Applies committed entries in order. The answer to an entry says
    /// whether it carried a game event.
    pub fn apply_to_state_machine<M>(&mut self, entries: &Vec<Entry<M>>) -> (responses: Vec<
        GameEventResponse,
    >)
        ensures
            final(self)@ == apply_entries(old(self)@, entries@, entries@.len() as int),
            responses@.len() == entries@.len(),
            forall|i: int|
                0 <= i < entries@.len() ==> (#[trigger] responses@[i]).success == (
                entries@[i].payload is Normal),
    {
        let mut responses: Vec<GameEventResponse> = Vec::new();
        let mut i: usize = 0;
        while i < entries.len()
            invariant
                i <= entries.len(),
                self@ == apply_entries(old(self)@, entries@, i as int),
                responses@.len() == i,
                forall|j: int|
                    0 <= j < i ==> (#[trigger] responses@[j]).success == (entries@[j].payload
                        is Normal),
            decreases entries.len() - i,
        {
            let entry = &entries[i];
            match &entry.payload {
                EntryPayload::Normal(request) => {
                    self.events.push(request.event.clone());
                    self.game_state.process_event(request.event.clone(), entry.log_id.index);
                    self.last_applied_log_index = entry.log_id.index;
                    responses.push(GameEventResponse { success: true });
                },
                _ => {
                    responses.push(GameEventResponse { success: false });
                },
            }
            i += 1;
        }
        responses
    }

    /// The contents and the description of a snapshot of this machine.
    pub fn build_snapshot(&self) -> (r: (GameStateSnapshot, SnapshotMeta))
        ensures
            r.0.events@ == self@.events,
            r.0.last_applied_log_index == self@.last_applied_log_index,
            r.1.last_log_id == snapshot_log_id(self@.last_applied_log_index),
            r.1.snapshot_id@ == snapshot_name(self@.last_applied_log_index),
    {
        let data = GameStateSnapshot {
            events: clone_events(&self.events),
            last_applied_log_index: self.last_applied_log_index,
        };
        let last_log_id = if self.last_applied_log_index > 0 {
            Some(
                LogId {
                    leader_id: LeaderId { term: 0, node_id: 0 },
                    index: self.last_applied_log_index,
                },
            )
        } else {
            None
        };
        let meta = SnapshotMeta { last_log_id, snapshot_id: snapshot_id(self.last_applied_log_index) };
        (data, meta)
    }

    /// Replaces the machine by what the snapshot holds: its events, and
    /// the game state rebuilt by applying them in order from index one.
    pub fn install_snapshot(&mut self, snapshot: &GameStateSnapshot)
        ensures
            final(self)@ == installed(snapshot.events@, snapshot.last_applied_log_index),
    {
        self.events = clone_events(&snapshot.events);
        self.last_applied_log_index = snapshot.last_applied_log_index;
        self.game_state = GameState::replay_events(&snapshot.events);
    }
}

/// Everything one replica stores.
#[derive(Debug)]
pub struct MemStorage<M> {
    /// The vote last saved.
    pub vote: Option<Vote>,
    /// The log.
    pub log: MemLog<M>,
    /// The state machine.
    pub state_machine: GameStateMachine,
    /// The contents of the last snapshot built or installed.
    pub snapshot: Option<GameStateSnapshot>,
    /// The description of that snapshot.
    pub snapshot_meta: Option<SnapshotMeta>,
}

impl<M> MemStorage<M> {
    /// The store of a fresh replica.
    pub fn new() -> (s: Self)
        ensures
            s.vote is None,
            s.log@ == Map::<u64, Entry<M>>::empty(),
            s.state_machine@ == empty_machine(),
            s.snapshot is None,
            s.snapshot_meta is None,
    {
        MemStorage {
            vote: None,
            log: MemLog::new(),
            state_machine: GameStateMachine::new(),
            snapshot: None,
            snapshot_meta: None,
        }
    }

    /// The state machine, to read the game from.
    pub fn state_machine(&self) -> (m: &GameStateMachine)
        ensures
            *m == self.state_machine,
    {
        &self.state_machine
    }

    /// Records the vote; nothing else changes.
    pub fn save_vote(&mut self, vote: &Vote)
        ensures
            final(self).vote == Some(*vote),
            final(self).log == old(self).log,
            final(self).state_machine == old(self).state_machine,
            final(self).snapshot == old(self).snapshot,
            final(self).snapshot_meta == old(self).snapshot_meta,
    {
        self.vote = Some(*vote);
    }

    /// The vote last saved, if any.
    pub fn read_vote(&self) -> (v: Option<Vote>)
        ensures
            v == self.vote,
    {
        self.vote
    }

    /// The id of the last applied entry, as a snapshot would record it.
    pub fn last_applied_state(&self) -> (id: Option<LogId>)
        ensures
            id == snapshot_log_id(self.state_machine@.last_applied_log_index),
    {
        if self.state_machine.last_applied_log_index > 0 {
            Some(
                LogId {
                    leader_id: LeaderId { term: 0, node_id: 0 },
                    index: self.state_machine.last_applied_log_index,
                },
            )
        } else {
            None
        }
    }

    /// Builds a snapshot of the state machine, keeps it as the current
    /// one and hands out a copy of its contents and description.
    pub fn build_snapshot(&mut self) -> (r: (GameStateSnapshot, SnapshotMeta))
        ensures
            r.0.events@ == old(self).state_machine@.events,
            r.0.last_applied_log_index == old(self).state_machine@.last_applied_log_index,
            r.1.last_log_id == snapshot_log_id(old(self).state_machine@.last_applied_log_index),
            r.1.snapshot_id@ == snapshot_name(old(self).state_machine@.last_applied_log_index),
            final(self).snapshot matches Some(kept) && kept.events@ == r.0.events@
                && kept.last_applied_log_index == r.0.last_applied_log_index,
            final(self).snapshot_meta == Some(r.1),
            final(self).vote == old(self).vote,
            final(self).log == old(self).log,
            final(self).state_machine == old(self).state_machine,
    {
        let (data, meta) = self.state_machine.build_snapshot();
        let kept = data.clone();
        let kept_meta = meta.clone();
        self.snapshot = Some(kept);
        self.snapshot_meta = Some(kept_meta);
        (data, meta)
    }

    /// Installs a snapshot received from the leader. `decoded` is what
    /// reading the received bytes gave: where they could not be read the
    /// store stays as it is and the error says so. Otherwise the state
    /// machine becomes what the snapshot holds, and the snapshot and its
    /// description become the current ones.
    pub fn install_snapshot(&mut self, meta: &SnapshotMeta, decoded: Option<GameStateSnapshot>) -> (r:
        Result<(), StorageError>)
        ensures
            final(self).vote == old(self).vote,
            final(self).log == old(self).log,
            decoded is None ==> r == Err::<(), StorageError>(StorageError::SnapshotUnreadable)
                && *final(self) == *old(self),
            decoded matches Some(data) ==> {
                &&& r is Ok
                &&& final(self).state_machine@ == installed(
                    data.events@,
                    data.last_applied_log_index,
                )
                &&& final(self).snapshot == Some(data)
                &&& final(self).snapshot_meta == Some(*meta)
            },
    {
        match decoded {
            None => Err(StorageError::SnapshotUnreadable),
            Some(data) => {
                self.state_machine.install_snapshot(&data);
                self.snapshot = Some(data);
                self.snapshot_meta = Some(meta.clone());
                Ok(())
            },
        }
    }

    /// A copy of the current snapshot and its description, where there
    /// are both.
    pub fn get_current_snapshot(&self) -> (r: Option<(GameStateSnapshot, SnapshotMeta)>)
        ensures
            r is Some <==> self.snapshot is Some && self.snapshot_meta is Some,
            r matches Some(pair) ==> {
                &&& pair.0.events@ == self.snapshot->0.events@
                &&& pair.0.last_applied_log_index == self.snapshot->0.last_applied_log_index
                &&& pair.1 == self.snapshot_meta->0
            },
    {
        match (&self.snapshot, &self.snapshot_meta) {
            (Some(data), Some(meta)) => Some((data.clone(), meta.clone())),
            _ => None,
        }
    }
}

/// Equal but for the index of the last applied entry.
pub open spec fn same_game(a: GameView, b: GameView) -> bool {
    a == (GameView { last_applied_log_index: a.last_applied_log_index, ..b })
}

/// What holds of the state machine of every replica: its game state is
/// what its events give when applied in order, but for the index of the
/// last applied entry, which follows the log and not the count of events.
pub open spec fn consistent(m: MachineView) -> bool {
    same_game(m.game, replay(m.events))
}

/// The index at which an event is applied shows in the resulting state
/// as the index of the last applied entry and nowhere else.
pub proof fn lemma_apply_same_game(a: GameView, b: GameView, event: GameEvent, i: u64, j: u64)
    requires
        same_game(a, b),
    ensures
        same_game(apply_event(a, event, i), apply_event(b, event, j)),
        i == j ==> apply_event(a, event, i) == apply_event(b, event, j),
{
}

/// Applying a log entry keeps the state machine consistent.
pub proof fn lemma_apply_entry_consistent<M>(m: MachineView, entry: Entry<M>)
    requires
        consistent(m),
    ensures
        consistent(apply_entry(m, entry)),
{
    match entry.payload {
        EntryPayload::Normal(request) => {
            crate::state::lemma_replay_push(empty_view(), m.events, 0, request.event);
            lemma_apply_same_game(
                m.game,
                replay(m.events),
                request.event,
                entry.log_id.index,
                (m.events.len() + 1) as u64,
            );
        },
        _ => {},
    }
}

/// Applying log entries keeps the state machine consistent.
pub proof fn lemma_apply_entries_consistent<M>(m: MachineView, entries: Seq<Entry<M>>, n: int)
    requires
        consistent(m),
        0 <= n <= entries.len(),
    ensures
        consistent(apply_entries(m, entries, n)),
    decreases n,
{
    if n > 0 {
        lemma_apply_entries_consistent(m, entries, n - 1);
        lemma_apply_entry_consistent(apply_entries(m, entries, n - 1), entries[n - 1]);
    }
}

/// A snapshot taken from a consistent machine and installed on any
/// replica gives that replica the events and the game state of the
/// source, but for the index of the last applied entry that the game
/// state carries: installing counts the events from one, the source
/// counted log entries. Where the source applied its events at the
/// indices one, two, ... the game states are equal outright.
pub proof fn lemma_snapshot_roundtrip(source: MachineView)
    requires
        consistent(source),
    ensures
        ({
            let target = installed(source.events, source.last_applied_log_index);
            &&& target.events == source.events
            &&& target.last_applied_log_index == source.last_applied_log_index
            &&& same_game(target.game, source.game)
            &&& consistent(target)
            &&& source.game.last_applied_log_index == replay(source.events).last_applied_log_index
                ==> target == source
        }),
{
}

/// A replica that installs a snapshot and then applies the rest of the
/// log ends in the game state of a replica that applied the whole log,
/// provided the rest holds at least one game event: the last of them
/// sets the index that the game state carries. Without one the two agree
/// but for that index.
pub proof fn lemma_install_then_tail<M>(source: MachineView, tail: Seq<Entry<M>>, n: int)
    requires
        consistent(source),
        0 <= n <= tail.len(),
    ensures
        ({
            let whole = apply_entries(source, tail, n);
            let caught_up = apply_entries(
                installed(source.events, source.last_applied_log_index),
                tail,
                n,
            );
            &&& caught_up.events == whole.events
            &&& caught_up.last_applied_log_index == whole.last_applied_log_index
            &&& same_game(caught_up.game, whole.game)
            &&& (exists|i: int| 0 <= i < n && (#[trigger] tail[i]).payload is Normal) ==> caught_up
                == whole
        }),
    decreases n,
{
    if n > 0 {
        lemma_install_then_tail(source, tail, n - 1);
        let whole = apply_entries(source, tail, n - 1);
        let caught_up = apply_entries(
            installed(source.events, source.last_applied_log_index),
            tail,
            n - 1,
        );
        match tail[n - 1].payload {
            EntryPayload::Normal(request) => {
                lemma_apply_same_game(
                    caught_up.game,
                    whole.game,
                    request.event,
                    tail[n - 1].log_id.index,
                    tail[n - 1].log_id.index,
                );
            },
            _ => {
                if exists|i: int| 0 <= i < n && (#[trigger] tail[i]).payload is Normal {
                    let i = choose|i: int| 0 <= i < n && (#[trigger] tail[i]).payload is Normal;
                    assert(0 <= i < n - 1 && tail[i].payload is Normal);
                }
            },
        }
    }
}

} // verus!
