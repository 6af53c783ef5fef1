use camhack::conversions::{
    AppendEntriesRequest, AppendEntriesResponse, FramedEntry, FramedPayload, InstallSnapshotRequest,
    InstallSnapshotResponse, ProtoAppendEntriesRequest, ProtoAppendEntriesResponse,
    ProtoInstallSnapshotRequest, ProtoInstallSnapshotResponse, ProtoLogEntry, ProtoVoteRequest,
    ProtoVoteResponse, VoteRequest, VoteResponse,
};
use camhack::storage::{LeaderId, LogId, SnapshotMeta, Vote};

fn vote(term: u64, node_id: u64) -> Vote {
    Vote { leader_id: LeaderId { term, node_id }, committed: false }
}

fn log_id(term: u64, node_id: u64, index: u64) -> LogId {
    LogId { leader_id: LeaderId { term, node_id }, index }
}

#[test]
fn test_vote_request_roundtrip() {
    let sent = VoteRequest { vote: vote(5, 123), last_log_id: Some(log_id(4, 100, 42)) };

    let proto = ProtoVoteRequest::from_raft(sent);
    let converted = VoteRequest::from_proto(proto);

    assert_eq!(sent.vote.leader_id.term, converted.vote.leader_id.term);
    assert_eq!(sent.vote.leader_id.node_id, converted.vote.leader_id.node_id);
    assert_eq!(
        sent.last_log_id.as_ref().map(|id| id.index),
        converted.last_log_id.as_ref().map(|id| id.index)
    );
}

#[test]
fn test_log_entry_roundtrip() {
    // the request as the binary encoding frames it: a join of player 12345, "Alice"
    let request: (u32, u64, String, (i32, i32), String, bool, u64) =
        (0, 12345, "Alice".to_string(), (0, 0), "10.0.0.1".to_string(), false, 1234567890);
    let bytes = bincode::serialize(&request).unwrap();

    let sent = FramedEntry { log_id: log_id(3, 100, 10), payload: FramedPayload::Normal(bytes.clone()) };
    let sent_index = sent.log_id.index;
    let sent_term = sent.log_id.leader_id.term;

    let proto = ProtoLogEntry::from_raft(sent);
    let converted = FramedEntry::from_proto(proto);

    assert_eq!(sent_index, converted.log_id.index);
    assert_eq!(sent_term, converted.log_id.leader_id.term);

    if let FramedPayload::Normal(data) = converted.payload {
        let back: (u32, u64, String, (i32, i32), String, bool, u64) =
            bincode::deserialize(&data).unwrap();
        assert_eq!(back.0, 0);
        assert_eq!(back.1, 12345);
        assert_eq!(back.2, "Alice");
    } else {
        panic!("Wrong payload type");
    }
}

#[test]
fn test_append_entries_response_success() {
    let resp = AppendEntriesResponse::Success;
    let proto = ProtoAppendEntriesResponse::from_raft(resp);
    assert_eq!(proto.success, true);
}

#[test]
fn test_append_entries_response_conflict() {
    let resp = AppendEntriesResponse::Conflict;
    let proto = ProtoAppendEntriesResponse::from_raft(resp);
    assert_eq!(proto.success, false);
}

#[test]
fn append_response_mapping() {
    assert_eq!(
        ProtoAppendEntriesResponse::from_raft(AppendEntriesResponse::PartialSuccess(Some(log_id(1, 1, 1)))),
        ProtoAppendEntriesResponse { term: 0, success: true }
    );
    assert_eq!(
        ProtoAppendEntriesResponse::from_raft(AppendEntriesResponse::HigherVote(vote(9, 4))),
        ProtoAppendEntriesResponse { term: 9, success: false }
    );
    assert_eq!(
        AppendEntriesResponse::from_proto(ProtoAppendEntriesResponse { term: 9, success: false }),
        AppendEntriesResponse::HigherVote(vote(9, 0))
    );
    assert_eq!(
        AppendEntriesResponse::from_proto(ProtoAppendEntriesResponse { term: 0, success: false }),
        AppendEntriesResponse::Conflict
    );
    assert_eq!(
        AppendEntriesResponse::from_proto(ProtoAppendEntriesResponse { term: 9, success: true }),
        AppendEntriesResponse::Success
    );
}

#[test]
fn vote_messages_map_field_by_field() {
    let p = ProtoVoteRequest::from_raft(VoteRequest { vote: vote(5, 123), last_log_id: None });
    assert_eq!(p, ProtoVoteRequest { term: 5, candidate_id: 123, last_log_index: 0, last_log_term: 0 });
    assert_eq!(VoteRequest::from_proto(p), VoteRequest { vote: vote(5, 123), last_log_id: None });
    let p = ProtoVoteRequest { term: 5, candidate_id: 7, last_log_index: 42, last_log_term: 4 };
    assert_eq!(
        VoteRequest::from_proto(p),
        VoteRequest { vote: vote(5, 7), last_log_id: Some(log_id(4, 7, 42)) }
    );
    let r = VoteResponse { vote: vote(6, 2), vote_granted: true, last_log_id: Some(log_id(1, 1, 1)) };
    assert_eq!(ProtoVoteResponse::from_raft(r), ProtoVoteResponse { term: 6, vote_granted: true });
    assert_eq!(
        VoteResponse::from_proto(ProtoVoteResponse { term: 6, vote_granted: false }),
        VoteResponse { vote: vote(6, 0), vote_granted: false, last_log_id: None }
    );
}

#[test]
fn blank_entries_travel_without_bytes() {
    let p = ProtoLogEntry::from_raft(FramedEntry { log_id: log_id(2, 9, 7), payload: FramedPayload::Blank });
    assert_eq!((p.index, p.term, p.data.len()), (7, 2, 0));
    let e = FramedEntry::from_proto(p);
    assert_eq!(e.log_id, log_id(2, 0, 7));
    assert!(matches!(e.payload, FramedPayload::Blank));
}

#[test]
fn append_request_round_trip() {
    let req = AppendEntriesRequest {
        vote: vote(3, 8),
        prev_log_id: Some(log_id(2, 8, 10)),
        entries: vec![
            FramedEntry { log_id: log_id(3, 8, 11), payload: FramedPayload::Normal(vec![1, 2, 3]) },
            FramedEntry { log_id: log_id(3, 8, 12), payload: FramedPayload::Blank },
        ],
        leader_commit: Some(log_id(3, 8, 9)),
    };
    let p = ProtoAppendEntriesRequest::from_raft(req);
    assert_eq!((p.term, p.leader_id, p.prev_log_index, p.prev_log_term, p.leader_commit), (3, 8, 10, 2, 9));
    assert_eq!(p.entries.len(), 2);
    assert_eq!((p.entries[0].index, p.entries[0].term, p.entries[0].data.clone()), (11, 3, vec![1, 2, 3]));
    assert_eq!((p.entries[1].index, p.entries[1].data.len()), (12, 0));
    let back = AppendEntriesRequest::from_proto(p);
    assert_eq!(back.vote, vote(3, 8));
    assert_eq!(back.prev_log_id, Some(log_id(2, 8, 10)));
    assert_eq!(back.leader_commit, Some(log_id(3, 8, 9)));
    assert_eq!(back.entries[0].log_id, log_id(3, 0, 11));
    assert!(matches!(&back.entries[0].payload, FramedPayload::Normal(b) if b == &vec![1u8, 2, 3]));
    assert!(matches!(back.entries[1].payload, FramedPayload::Blank));

    let empty = AppendEntriesRequest::from_proto(ProtoAppendEntriesRequest {
        term: 1,
        leader_id: 2,
        prev_log_index: 0,
        prev_log_term: 5,
        entries: vec![],
        leader_commit: 0,
    });
    assert_eq!((empty.prev_log_id, empty.leader_commit, empty.entries.len()), (None, None, 0));
}

#[test]
fn install_snapshot_messages() {
    let req = InstallSnapshotRequest {
        vote: vote(4, 1),
        meta: SnapshotMeta { last_log_id: Some(log_id(3, 1, 30)), snapshot_id: "x".to_string() },
        offset: 0,
        data: vec![9, 9],
        done: true,
    };
    let p = ProtoInstallSnapshotRequest::from_raft(req);
    assert_eq!(
        (p.term, p.leader_id, p.last_included_index, p.last_included_term, p.data.clone(), p.done),
        (4, 1, 30, 3, vec![9, 9], true)
    );
    let back = InstallSnapshotRequest::from_proto(p);
    assert_eq!(back.vote, vote(4, 1));
    assert_eq!(back.meta.last_log_id, Some(log_id(3, 1, 30)));
    assert_eq!(back.meta.snapshot_id, "snapshot-30");
    assert_eq!((back.offset, back.data, back.done), (0, vec![9, 9], true));

    assert_eq!(
        ProtoInstallSnapshotResponse::from_raft(InstallSnapshotResponse { vote: vote(8, 3) }),
        ProtoInstallSnapshotResponse { term: 8 }
    );
    assert_eq!(
        InstallSnapshotResponse::from_proto(ProtoInstallSnapshotResponse { term: 8 }),
        InstallSnapshotResponse { vote: vote(8, 0) }
    );
}
