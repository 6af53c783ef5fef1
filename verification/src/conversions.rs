//! The messages between replicas, as the group speaks them and as they
//! travel.
use crate::storage::{snapshot_id, snapshot_name, LeaderId, LogId, SnapshotMeta, Vote};
use vstd::prelude::*;

verus! {

/// The content of a log entry on its way: nothing, or the bytes of a
/// game event request.
#[derive(Debug)]
pub enum FramedPayload {
    /// A blank entry or a change of membership.
    Blank,
    /// The bytes of a request.
    Normal(Vec<u8>),
}

/// A log entry on its way.
#[derive(Debug)]
pub struct FramedEntry {
    pub log_id: LogId,
    pub payload: FramedPayload,
}

/// A log entry as it travels.
#[derive(Debug)]
pub struct ProtoLogEntry {
    pub index: u64,
    pub term: u64,
    pub data: Vec<u8>,
}

/// A leader's request to append entries.
#[derive(Debug)]
pub struct AppendEntriesRequest {
    pub vote: Vote,
    pub prev_log_id: Option<LogId>,
    pub entries: Vec<FramedEntry>,
    pub leader_commit: Option<LogId>,
}

/// The same as it travels; an index of zero stands for no entry.
#[derive(Debug)]
pub struct ProtoAppendEntriesRequest {
    pub term: u64,
    pub leader_id: u64,
    pub prev_log_index: u64,
    pub prev_log_term: u64,
    pub entries: Vec<ProtoLogEntry>,
    pub leader_commit: u64,
}

/// A follower's answer to a request to append.
#[derive(Debug, Clone, Copy, PartialEq, Eq, Structural)]
pub enum AppendEntriesResponse {
    Success,
    PartialSuccess(Option<LogId>),
    Conflict,
    HigherVote(Vote),
}

/// The same as it travels.
#[derive(Debug, Clone, Copy, PartialEq, Eq, Structural)]
pub struct ProtoAppendEntriesResponse {
    pub term: u64,
    pub success: bool,
}

/// A candidate's request for a vote.
#[derive(Debug, Clone, Copy, PartialEq, Eq, Structural)]
pub struct VoteRequest {
    pub vote: Vote,
    pub last_log_id: Option<LogId>,
}

/// The same as it travels.
#[derive(Debug, Clone, Copy, PartialEq, Eq, Structural)]
pub struct ProtoVoteRequest {
    pub term: u64,
    pub candidate_id: u64,
    pub last_log_index: u64,
    pub last_log_term: u64,
}

/// The answer to a request for a vote.
#[derive(Debug, Clone, Copy, PartialEq, Eq, Structural)]
pub struct VoteResponse {
    pub vote: Vote,
    pub vote_granted: bool,
    pub last_log_id: Option<LogId>,
}

/// The same as it travels.
#[derive(Debug, Clone, Copy, PartialEq, Eq, Structural)]
pub struct ProtoVoteResponse {
    pub term: u64,
    pub vote_granted: bool,
}

/// A leader's request to install a snapshot.
#[derive(Debug)]
pub struct InstallSnapshotRequest {
    pub vote: Vote,
    pub meta: SnapshotMeta,
    pub offset: u64,
    pub data: Vec<u8>,
    pub done: bool,
}

/// The same as it travels.
#[derive(Debug)]
pub struct ProtoInstallSnapshotRequest {
    pub term: u64,
    pub leader_id: u64,
    pub last_included_index: u64,
    pub last_included_term: u64,
    pub data: Vec<u8>,
    pub done: bool,
}

/// The answer to a request to install a snapshot.
#[derive(Debug, Clone, Copy, PartialEq, Eq, Structural)]
pub struct InstallSnapshotResponse {
    pub vote: Vote,
}

/// The same as it travels.
#[derive(Debug, Clone, Copy, PartialEq, Eq, Structural)]
pub struct ProtoInstallSnapshotResponse {
    pub term: u64,
}

/// A vote for `node_id` in `term` that is not committed.
pub open spec fn new_vote(term: u64, node_id: u64) -> Vote {
    Vote { leader_id: LeaderId { term, node_id }, committed: false }
}

/// The index of a log id that may be absent, zero where it is.
pub open spec fn index_or_zero(id: Option<LogId>) -> u64 {
    match id {
        Some(id) => id.index,
        None => 0,
    }
}

/// The term of a log id that may be absent, zero where it is.
pub open spec fn term_or_zero(id: Option<LogId>) -> u64 {
    match id {
        Some(id) => id.leader_id.term,
        None => 0,
    }
}

/// The log id that `index`, `term` and `node_id` stand for: none where
/// the index is zero.
pub open spec fn log_id_of(index: u64, term: u64, node_id: u64) -> Option<LogId> {
    if index > 0 {
        Some(LogId { leader_id: LeaderId { term, node_id }, index })
    } else {
        None
    }
}

fn make_vote(term: u64, node_id: u64) -> (v: Vote)
    ensures
        v == new_vote(term, node_id),
{
    Vote { leader_id: LeaderId { term, node_id }, committed: false }
}

fn make_log_id(index: u64, term: u64, node_id: u64) -> (id: Option<LogId>)
    ensures
        id == log_id_of(index, term, node_id),
{
    if index > 0 {
        Some(LogId { leader_id: LeaderId { term, node_id }, index })
    } else {
        None
    }
}

fn index_of(id: &Option<LogId>) -> (i: u64)
    ensures
        i == index_or_zero(*id),
{
    match id {
        Some(id) => id.index,
        None => 0,
    }
}

fn term_of(id: &Option<LogId>) -> (t: u64)
    ensures
        t == term_or_zero(*id),
{
    match id {
        Some(id) => id.leader_id.term,
        None => 0,
    }
}

/// The bytes that an entry carries on its way.
pub open spec fn framed_data(payload: FramedPayload) -> Seq<u8> {
    match payload {
        FramedPayload::Normal(bytes) => bytes@,
        FramedPayload::Blank => Seq::empty(),
    }
}

impl ProtoLogEntry {
    /// The entry as it travels: index, term, and the bytes of the
    /// request, none for an entry without one.
    pub fn from_raft(entry: FramedEntry) -> (p: Self)
        ensures
            p.index == entry.log_id.index,
            p.term == entry.log_id.leader_id.term,
            p.data@ == framed_data(entry.payload),
    {
        let data = match entry.payload {
            FramedPayload::Normal(bytes) => bytes,
            FramedPayload::Blank => Vec::new(),
        };
        ProtoLogEntry { index: entry.log_id.index, term: entry.log_id.leader_id.term, data }
    }
}

impl FramedEntry {
    /// The entry that arrived: no bytes mean a blank entry, any bytes a
    /// request. The leader's id does not travel and reads as zero.
    pub fn from_proto(p: ProtoLogEntry) -> (entry: Self)
        ensures
            entry.log_id == (LogId { leader_id: LeaderId { term: p.term, node_id: 0 }, index: p.index }),
            p.data@.len() == 0 ==> entry.payload is Blank,
            p.data@.len() > 0 ==> entry.payload is Normal,
            framed_data(entry.payload) == p.data@,
    {
        let log_id = LogId { leader_id: LeaderId { term: p.term, node_id: 0 }, index: p.index };
        if p.data.len() == 0 {
            FramedEntry { log_id, payload: FramedPayload::Blank }
        } else {
            FramedEntry { log_id, payload: FramedPayload::Normal(p.data) }
        }
    }
}

impl ProtoAppendEntriesRequest {
    /// The request as it travels.
    pub fn from_raft(req: AppendEntriesRequest) -> (p: Self)
        ensures
            p.term == req.vote.leader_id.term,
            p.leader_id == req.vote.leader_id.node_id,
            p.prev_log_index == index_or_zero(req.prev_log_id),
            p.prev_log_term == term_or_zero(req.prev_log_id),
            p.leader_commit == index_or_zero(req.leader_commit),
            p.entries@.len() == req.entries@.len(),
            forall|i: int|
                0 <= i < req.entries@.len() ==> {
                    &&& (#[trigger] p.entries@[i]).index == req.entries@[i].log_id.index
                    &&& p.entries@[i].term == req.entries@[i].log_id.leader_id.term
                    &&& p.entries@[i].data@ == framed_data(req.entries@[i].payload)
                },
    {
        let term = req.vote.leader_id.term;
        let leader_id = req.vote.leader_id.node_id;
        let prev_log_index = index_of(&req.prev_log_id);
        let prev_log_term = term_of(&req.prev_log_id);
        let leader_commit = index_of(&req.leader_commit);
        let ghost all = req.entries@;
        let mut entries: Vec<ProtoLogEntry> = Vec::new();
        for entry in it: req.entries
            invariant
                it.seq() == all,
                entries@.len() == it.index(),
                forall|i: int|
                    0 <= i < it.index() ==> {
                        &&& (#[trigger] entries@[i]).index == all[i].log_id.index
                        &&& entries@[i].term == all[i].log_id.leader_id.term
                        &&& entries@[i].data@ == framed_data(all[i].payload)
                    },
        {
            entries.push(ProtoLogEntry::from_raft(entry));
        }
        ProtoAppendEntriesRequest {
            term,
            leader_id,
            prev_log_index,
            prev_log_term,
            entries,
            leader_commit,
        }
    }
}

impl AppendEntriesRequest {
    /// The request that arrived.
    pub fn from_proto(p: ProtoAppendEntriesRequest) -> (req: Self)
        ensures
            req.vote == new_vote(p.term, p.leader_id),
            req.prev_log_id == log_id_of(p.prev_log_index, p.prev_log_term, p.leader_id),
            req.leader_commit == log_id_of(p.leader_commit, p.term, p.leader_id),
            req.entries@.len() == p.entries@.len(),
            forall|i: int|
                0 <= i < p.entries@.len() ==> {
                    &&& (#[trigger] req.entries@[i]).log_id == (LogId {
                        leader_id: LeaderId { term: p.entries@[i].term, node_id: 0 },
                        index: p.entries@[i].index,
                    })
                    &&& framed_data(req.entries@[i].payload) == p.entries@[i].data@
                    &&& req.entries@[i].payload is Blank <==> p.entries@[i].data@.len() == 0
                },
    {
        let vote = make_vote(p.term, p.leader_id);
        let prev_log_id = make_log_id(p.prev_log_index, p.prev_log_term, p.leader_id);
        let leader_commit = make_log_id(p.leader_commit, p.term, p.leader_id);
        let ghost all = p.entries@;
        let mut entries: Vec<FramedEntry> = Vec::new();
        for entry in it: p.entries
            invariant
                it.seq() == all,
                entries@.len() == it.index(),
                forall|i: int|
                    0 <= i < it.index() ==> {
                        &&& (#[trigger] entries@[i]).log_id == (LogId {
                            leader_id: LeaderId { term: all[i].term, node_id: 0 },
                            index: all[i].index,
                        })
                        &&& framed_data(entries@[i].payload) == all[i].data@
                        &&& entries@[i].payload is Blank <==> all[i].data@.len() == 0
                    },
        {
            entries.push(FramedEntry::from_proto(entry));
        }
        AppendEntriesRequest { vote, prev_log_id, entries, leader_commit }
    }
}

/// How an answer to a request to append travels: success or not, and
/// the term only of a higher vote.
pub open spec fn append_response_to_proto(resp: AppendEntriesResponse) -> ProtoAppendEntriesResponse {
    match resp {
        AppendEntriesResponse::Success => ProtoAppendEntriesResponse { term: 0, success: true },
        AppendEntriesResponse::PartialSuccess(_) => ProtoAppendEntriesResponse {
            term: 0,
            success: true,
        },
        AppendEntriesResponse::Conflict => ProtoAppendEntriesResponse { term: 0, success: false },
        AppendEntriesResponse::HigherVote(vote) => ProtoAppendEntriesResponse {
            term: vote.leader_id.term,
            success: false,
        },
    }
}

/// How an answer to a request to append that arrived reads: a failure
/// with a term is a higher vote, one without a conflict.
pub open spec fn append_response_of_proto(p: ProtoAppendEntriesResponse) -> AppendEntriesResponse {
    if p.success {
        AppendEntriesResponse::Success
    } else if p.term > 0 {
        AppendEntriesResponse::HigherVote(new_vote(p.term, 0))
    } else {
        AppendEntriesResponse::Conflict
    }
}

impl ProtoAppendEntriesResponse {
    /// The answer as it travels.
    pub fn from_raft(resp: AppendEntriesResponse) -> (p: Self)
        ensures
            p == append_response_to_proto(resp),
    {
        match resp {
            AppendEntriesResponse::Success => ProtoAppendEntriesResponse { term: 0, success: true },
            AppendEntriesResponse::PartialSuccess(_) => ProtoAppendEntriesResponse {
                term: 0,
                success: true,
            },
            AppendEntriesResponse::Conflict => ProtoAppendEntriesResponse { term: 0, success: false },
            AppendEntriesResponse::HigherVote(vote) => ProtoAppendEntriesResponse {
                term: vote.leader_id.term,
                success: false,
            },
        }
    }
}

impl AppendEntriesResponse {
    /// The answer that arrived.
    pub fn from_proto(p: ProtoAppendEntriesResponse) -> (resp: Self)
        ensures
            resp == append_response_of_proto(p),
    {
        if p.success {
            AppendEntriesResponse::Success
        } else if p.term > 0 {
            AppendEntriesResponse::HigherVote(make_vote(p.term, 0))
        } else {
            AppendEntriesResponse::Conflict
        }
    }
}

/// How a request for a vote travels.
pub open spec fn vote_request_to_proto(req: VoteRequest) -> ProtoVoteRequest {
    ProtoVoteRequest {
        term: req.vote.leader_id.term,
        candidate_id: req.vote.leader_id.node_id,
        last_log_index: index_or_zero(req.last_log_id),
        last_log_term: term_or_zero(req.last_log_id),
    }
}

/// How a request for a vote that arrived reads.
pub open spec fn vote_request_of_proto(p: ProtoVoteRequest) -> VoteRequest {
    VoteRequest {
        vote: new_vote(p.term, p.candidate_id),
        last_log_id: log_id_of(p.last_log_index, p.last_log_term, p.candidate_id),
    }
}

impl ProtoVoteRequest {
    /// The request as it travels.
    pub fn from_raft(req: VoteRequest) -> (p: Self)
        ensures
            p == vote_request_to_proto(req),
    {
        ProtoVoteRequest {
            term: req.vote.leader_id.term,
            candidate_id: req.vote.leader_id.node_id,
            last_log_index: index_of(&req.last_log_id),
            last_log_term: term_of(&req.last_log_id),
        }
    }
}

impl VoteRequest {
    /// The request that arrived.
    pub fn from_proto(p: ProtoVoteRequest) -> (req: Self)
        ensures
            req == vote_request_of_proto(p),
    {
        VoteRequest {
            vote: make_vote(p.term, p.candidate_id),
            last_log_id: make_log_id(p.last_log_index, p.last_log_term, p.candidate_id),
        }
    }
}

impl ProtoVoteResponse {
    /// The answer as it travels: the term and whether the vote was given.
    pub fn from_raft(resp: VoteResponse) -> (p: Self)
        ensures
            p == (ProtoVoteResponse {
                term: resp.vote.leader_id.term,
                vote_granted: resp.vote_granted,
            }),
    {
        ProtoVoteResponse { term: resp.vote.leader_id.term, vote_granted: resp.vote_granted }
    }
}

impl VoteResponse {
    /// The answer that arrived; neither the voter's id nor its last log
    /// id travels.
    pub fn from_proto(p: ProtoVoteResponse) -> (resp: Self)
        ensures
            resp == (VoteResponse {
                vote: new_vote(p.term, 0),
                vote_granted: p.vote_granted,
                last_log_id: None,
            }),
    {
        VoteResponse { vote: make_vote(p.term, 0), vote_granted: p.vote_granted, last_log_id: None }
    }
}

impl ProtoInstallSnapshotRequest {
    /// The request as it travels.
    pub fn from_raft(req: InstallSnapshotRequest) -> (p: Self)
        ensures
            p.term == req.vote.leader_id.term,
            p.leader_id == req.vote.leader_id.node_id,
            p.last_included_index == index_or_zero(req.meta.last_log_id),
            p.last_included_term == term_or_zero(req.meta.last_log_id),
            p.data == req.data,
            p.done == req.done,
    {
        ProtoInstallSnapshotRequest {
            term: req.vote.leader_id.term,
            leader_id: req.vote.leader_id.node_id,
            last_included_index: index_of(&req.meta.last_log_id),
            last_included_term: term_of(&req.meta.last_log_id),
            data: req.data,
            done: req.done,
        }
    }
}

impl InstallSnapshotRequest {
    /// The request that arrived; it always starts at offset zero, and
    /// the snapshot is named after the last index it covers.
    pub fn from_proto(p: ProtoInstallSnapshotRequest) -> (req: Self)
        ensures
            req.vote == new_vote(p.term, p.leader_id),
            req.meta.last_log_id == log_id_of(
                p.last_included_index,
                p.last_included_term,
                p.leader_id,
            ),
            req.meta.snapshot_id@ == snapshot_name(p.last_included_index),
            req.offset == 0,
            req.data == p.data,
            req.done == p.done,
    {
        let meta = SnapshotMeta {
            last_log_id: make_log_id(p.last_included_index, p.last_included_term, p.leader_id),
            snapshot_id: snapshot_id(p.last_included_index),
        };
        InstallSnapshotRequest {
            vote: make_vote(p.term, p.leader_id),
            meta,
            offset: 0,
            data: p.data,
            done: p.done,
        }
    }
}

impl ProtoInstallSnapshotResponse {
    /// The answer as it travels.
    pub fn from_raft(resp: InstallSnapshotResponse) -> (p: Self)
        ensures
            p.term == resp.vote.leader_id.term,
    {
        ProtoInstallSnapshotResponse { term: resp.vote.leader_id.term }
    }
}

impl InstallSnapshotResponse {
    /// The answer that arrived.
    pub fn from_proto(p: ProtoInstallSnapshotResponse) -> (resp: Self)
        ensures
            resp.vote == new_vote(p.term, 0),
    {
        InstallSnapshotResponse { vote: make_vote(p.term, 0) }
    }
}

/// A request for a vote keeps its term, its candidate and the index of
/// its last log entry on the way; it arrives as it left where its vote
/// was not committed and its last log id, if any, has an index above
/// zero and names the candidate.
pub proof fn lemma_vote_request_roundtrip(req: VoteRequest)
    ensures
        ({
            let back = vote_request_of_proto(vote_request_to_proto(req));
            &&& back.vote.leader_id == req.vote.leader_id
            &&& index_or_zero(back.last_log_id) == index_or_zero(req.last_log_id)
            &&& (!req.vote.committed && (req.last_log_id matches Some(id) ==> id.index > 0
                && id.leader_id.node_id == req.vote.leader_id.node_id)) ==> back == req
        }),
{
}

/// An answer to a request to append arrives as a success exactly when it
/// left as one.
pub proof fn lemma_append_response_roundtrip(resp: AppendEntriesResponse)
    ensures
        ({
            let back = append_response_of_proto(append_response_to_proto(resp));
            &&& back is Success <==> resp is Success || resp is PartialSuccess
            &&& resp is Conflict ==> back is Conflict
            &&& resp is HigherVote && resp->HigherVote_0.leader_id.term > 0 ==> back
                == AppendEntriesResponse::HigherVote(new_vote(resp->HigherVote_0.leader_id.term, 0))
        }),
{
}

} // verus!
