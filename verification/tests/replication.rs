use raft_core::command::Command;
use raft_core::server::Server;
use raft_core::states::candidate::CandidateMode;
use raft_core::states::leader::LeaderMode;
use raft_core::states::states::CommonState;
use raft_core::states::states::ServerMode;

fn cmd2(index: usize, term: usize, content: &str) -> Command {
    Command { index, term, content: content.to_string() }
}

fn log_of(s: &Server) -> &Vec<Command> {
    match &s.mode {
        ServerMode::Follower(f) => &f.common_state.log,
        ServerMode::Candidate(c) => &c.common_state.log,
        ServerMode::Leader(l) => &l.common_state.log,
    }
}

fn commit_of(s: &Server) -> i64 {
    match &s.mode {
        ServerMode::Follower(f) => f.common_state.commit_index,
        ServerMode::Candidate(c) => c.common_state.commit_index,
        ServerMode::Leader(l) => l.common_state.commit_index,
    }
}

/// A three-node leader at term 1 holding `log`, with each peer's
/// `next_index` one past the log and nothing known replicated.
fn leader_with_log(log: Vec<Command>) -> Server {
    let next = log.len() + 1;
    Server {
        id: 1,
        mode: ServerMode::Leader(LeaderMode {
            common_state: CommonState {
                current_term: 1,
                voted_for: Some(1),
                log,
                commit_index: -1,
                last_applied: -1,
            },
            next_index: vec![next, next],
            match_index: vec![0, 0],
        }),
        peers: vec![2, 3],
        election_timeout_ms: 200,
        last_heartbeat: None,
    }
}

#[test]
fn follower_appends_new_entry_and_commits() {
    // Scenario: the leader holds [(1,1,"x")] and sends the follower, who
    // also holds [(1,1,"x")], the next entry together with its commit
    // position; the follower appends and commits.
    let mut s = Server::new(1, vec![2, 3]);
    let r = s.append_entries(0, 1, 9, 0, 0, vec![cmd2(1, 1, "x")], -1);
    assert!(r.success);

    let r = s.append_entries(1, 1, 9, 1, 1, vec![cmd2(2, 1, "y")], 1);
    assert!(r.success);
    assert_eq!(r.term, 1);
    assert_eq!(log_of(&s).len(), 2);
    assert_eq!(log_of(&s)[1], cmd2(2, 1, "y"));
    assert_eq!(commit_of(&s), 1);
}

#[test]
fn conflicting_suffix_is_truncated_and_replaced() {
    // Scenario: the follower holds [(1,1,"x"),(2,1,"stale")]; the term-2
    // leader sends (2,2,"new") after (1,1): the stale entry goes, the
    // leader's entry stands.
    let mut s = Server::new(1, vec![2, 3]);
    let r = s.append_entries(0, 1, 9, 0, 0, vec![cmd2(1, 1, "x"), cmd2(2, 1, "stale")], -1);
    assert!(r.success);

    let r = s.append_entries(1, 2, 9, 1, 1, vec![cmd2(2, 2, "new")], -1);
    assert!(r.success);
    assert_eq!(r.term, 2);
    assert_eq!(s.mode.get_term(), 2);
    assert_eq!(log_of(&s).len(), 2);
    assert_eq!(log_of(&s)[0], cmd2(1, 1, "x"));
    assert_eq!(log_of(&s)[1], cmd2(2, 2, "new"));
}

#[test]
fn reapplied_batch_changes_nothing() {
    let mut s = Server::new(1, vec![2, 3]);
    let batch = vec![cmd2(1, 1, "x"), cmd2(2, 1, "y")];
    let r = s.append_entries(0, 1, 9, 0, 0, batch.clone(), -1);
    assert!(r.success);
    let before = log_of(&s).clone();
    // the identical batch again, and an overlapping prefix of it
    let r = s.append_entries(1, 1, 9, 0, 0, batch, -1);
    assert!(r.success);
    assert_eq!(log_of(&s), &before);
    let r = s.append_entries(2, 1, 9, 1, 1, vec![cmd2(2, 1, "y")], -1);
    assert!(r.success);
    assert_eq!(log_of(&s), &before);
}

#[test]
fn missing_prev_entry_is_refused() {
    let mut s = Server::new(1, vec![2, 3]);
    let r = s.append_entries(0, 1, 9, 0, 0, vec![cmd2(1, 1, "x")], -1);
    assert!(r.success);
    // the leader speaks of an entry 5 this follower does not hold
    let r = s.append_entries(1, 1, 9, 5, 1, vec![cmd2(6, 1, "z")], -1);
    assert!(!r.success);
    assert_eq!(r.term, 1);
    assert_eq!(log_of(&s).len(), 1);
    // a wrong term at a held index is refused too
    let r = s.append_entries(2, 1, 9, 1, 9, vec![cmd2(2, 1, "z")], -1);
    assert!(!r.success);
    assert_eq!(log_of(&s).len(), 1);
}

#[test]
fn stale_leader_is_refused() {
    let mut s = Server::new(1, vec![2, 3]);
    let r = s.append_entries(0, 4, 9, 0, 0, vec![], -1);
    assert!(r.success);
    assert_eq!(s.mode.get_term(), 4);
    // a leader still at term 3 is behind: refused, no heartbeat recorded
    let before_heartbeat = s.last_heartbeat;
    let r = s.append_entries(50, 3, 8, 0, 0, vec![], -1);
    assert!(!r.success);
    assert_eq!(r.term, 4);
    assert_eq!(s.last_heartbeat, before_heartbeat);
}

#[test]
fn commit_never_decreases() {
    let mut s = Server::new(1, vec![2, 3]);
    let r = s.append_entries(0, 1, 9, 0, 0, vec![cmd2(1, 1, "x"), cmd2(2, 1, "y")], 1);
    assert!(r.success);
    assert_eq!(commit_of(&s), 1);
    // a heartbeat carrying an older commit position moves nothing back
    let r = s.append_entries(1, 1, 9, 2, 1, vec![], 0);
    assert!(r.success);
    assert_eq!(commit_of(&s), 1);
    // nor does one carrying none at all
    let r = s.append_entries(2, 1, 9, 2, 1, vec![], -1);
    assert!(r.success);
    assert_eq!(commit_of(&s), 1);
}

#[test]
fn commit_is_capped_by_what_the_call_vouched_for() {
    let mut s = Server::new(1, vec![2, 3]);
    // the leader's commit position runs ahead of this one-entry batch
    let r = s.append_entries(0, 1, 9, 0, 0, vec![cmd2(1, 1, "x")], 7);
    assert!(r.success);
    assert_eq!(commit_of(&s), 0);
}

#[test]
fn conflict_below_commit_is_refused() {
    // A batch that would overwrite a committed entry is refused rather
    // than applied: committed entries are never destroyed.
    let mut s = Server::new(1, vec![2, 3]);
    let r = s.append_entries(0, 1, 9, 0, 0, vec![cmd2(1, 1, "x")], 0);
    assert!(r.success);
    assert_eq!(commit_of(&s), 0);
    let r = s.append_entries(1, 2, 9, 0, 0, vec![cmd2(1, 2, "z")], -1);
    assert!(!r.success);
    // the term is still adopted (the refusing node follows the caller)
    assert_eq!(r.term, 2);
    assert_eq!(log_of(&s)[0], cmd2(1, 1, "x"));
    assert_eq!(commit_of(&s), 0);
}

#[test]
fn leader_sends_one_request_per_peer() {
    let s = leader_with_log(vec![cmd2(1, 1, "x"), cmd2(2, 1, "y")]);
    let reqs = s.replication_requests();
    assert_eq!(reqs.len(), 2);
    for r in &reqs {
        assert_eq!(r.term, 1);
        assert_eq!(r.leader_id, 1);
        assert_eq!(r.prev_log_index, 2);
        assert_eq!(r.prev_log_term, 1);
        assert!(r.entries.is_empty());
        assert_eq!(r.leader_commit, -1);
    }
}

#[test]
fn leader_resends_from_backed_off_index() {
    let mut s = leader_with_log(vec![cmd2(1, 1, "x"), cmd2(2, 1, "y")]);
    // peer 2 reported a consistency mismatch: back off and resend more
    s.handle_append_response(2, 1, false, 2, 0);
    let reqs = s.replication_requests();
    assert_eq!(reqs[0].prev_log_index, 1);
    assert_eq!(reqs[0].prev_log_term, 1);
    assert_eq!(reqs[0].entries, vec![cmd2(2, 1, "y")]);
    // the other peer is untouched
    assert_eq!(reqs[1].prev_log_index, 2);
    // backing off never goes below the log's start
    s.handle_append_response(2, 1, false, 0, 0);
    s.handle_append_response(2, 1, false, 0, 0);
    let reqs = s.replication_requests();
    assert_eq!(reqs[0].prev_log_index, 0);
    assert_eq!(reqs[0].prev_log_term, 0);
    assert_eq!(reqs[0].entries.len(), 2);
}

#[test]
fn majority_replication_of_own_term_entry_commits() {
    let mut s = leader_with_log(vec![cmd2(1, 1, "x"), cmd2(2, 1, "y")]);
    assert_eq!(commit_of(&s), -1);
    // peer 2 confirms both entries: with the leader that is two of three
    s.handle_append_response(2, 1, true, 0, 2);
    assert_eq!(commit_of(&s), 1);
    match &s.mode {
        ServerMode::Leader(l) => {
            assert_eq!(l.match_index, vec![2, 0]);
            assert_eq!(l.next_index, vec![3, 3]);
            // the leader's own log is untouched (append-only)
            assert_eq!(l.common_state.log.len(), 2);
        },
        _ => panic!("the leader must stand"),
    }
}

#[test]
fn older_term_entries_never_commit_by_count_alone() {
    // The leader of term 2 inherited entries of term 1: however many
    // peers hold them, they do not commit until an own-term entry does.
    let mut s = Server {
        id: 1,
        mode: ServerMode::Leader(LeaderMode {
            common_state: CommonState {
                current_term: 2,
                voted_for: Some(1),
                log: vec![cmd2(1, 1, "x"), cmd2(2, 1, "y")],
                commit_index: -1,
                last_applied: -1,
            },
            next_index: vec![3, 3],
            match_index: vec![0, 0],
        }),
        peers: vec![2, 3],
        election_timeout_ms: 200,
        last_heartbeat: None,
    };
    s.handle_append_response(2, 2, true, 0, 2);
    s.handle_append_response(3, 2, true, 0, 2);
    assert_eq!(commit_of(&s), -1);
}

#[test]
fn append_response_with_higher_term_deposes_leader() {
    let mut s = leader_with_log(vec![cmd2(1, 1, "x")]);
    s.handle_append_response(2, 3, false, 0, 0);
    assert!(matches!(s.mode, ServerMode::Follower(_)));
    assert_eq!(s.mode.get_term(), 3);
    assert_eq!(s.mode.get_voted_for(), None);
    // the log survives the step-down
    assert_eq!(log_of(&s).len(), 1);
}

#[test]
fn stale_or_foreign_append_responses_are_discarded() {
    let mut s = leader_with_log(vec![cmd2(1, 1, "x")]);
    // an old-term response
    s.handle_append_response(2, 0, true, 0, 1);
    // a response from nobody in the cluster
    s.handle_append_response(42, 1, true, 0, 1);
    // a response no request could have produced
    s.handle_append_response(2, 1, true, 7, 7);
    assert_eq!(commit_of(&s), -1);
    match &s.mode {
        ServerMode::Leader(l) => assert_eq!(l.match_index, vec![0, 0]),
        _ => panic!("the leader must stand"),
    }
}

#[test]
fn leader_deposed_by_newer_append_entries_keeps_no_stale_role() {
    // a current-or-newer leader's call turns any role into Follower
    let mut s = leader_with_log(vec![cmd2(1, 1, "x")]);
    let r = s.append_entries(0, 2, 9, 1, 1, vec![cmd2(2, 2, "z")], -1);
    assert!(r.success);
    assert!(matches!(s.mode, ServerMode::Follower(_)));
    assert_eq!(s.mode.get_term(), 2);
    assert_eq!(log_of(&s).len(), 2);
}

#[test]
fn committed_entries_are_applied_in_order_exactly_once() {
    let mut s = Server::new(1, vec![2, 3]);
    let r = s.append_entries(0, 1, 9, 0, 0, vec![cmd2(1, 1, "x"), cmd2(2, 1, "y")], 1);
    assert!(r.success);
    assert_eq!(s.take_next_to_apply(), Some(cmd2(1, 1, "x")));
    assert_eq!(s.take_next_to_apply(), Some(cmd2(2, 1, "y")));
    assert_eq!(s.take_next_to_apply(), None);
    assert_eq!(s.take_next_to_apply(), None);
}

#[test]
fn duplicate_copies_every_field() {
    let c = cmd2(3, 7, "payload");
    let d = c.duplicate();
    assert_eq!(c, d);
    let mode = CandidateMode {
        common_state: CommonState {
            current_term: 7,
            voted_for: None,
            log: vec![c],
            commit_index: -1,
            last_applied: -1,
        },
        votes_received: vec![1],
    };
    assert_eq!(mode.common_state.log[0].content, "payload");
}

#[test]
fn replication_repairs_divergence_until_logs_match() {
    // The term-2 leader holds [(1,1,a),(2,1,b),(3,2,c)]; the follower
    // still holds a term-1 tail [(1,1,a),(2,1,b),(3,1,x)]. The retry
    // cycle backs off once, then truncates the conflict and converges.
    let leader_log = vec![cmd2(1, 1, "a"), cmd2(2, 1, "b"), cmd2(3, 2, "c")];
    let mut leader = Server {
        id: 1,
        mode: ServerMode::Leader(LeaderMode {
            common_state: CommonState {
                current_term: 2,
                voted_for: Some(1),
                log: leader_log.clone(),
                commit_index: -1,
                last_applied: -1,
            },
            next_index: vec![4, 4],
            match_index: vec![0, 0],
        }),
        peers: vec![2, 3],
        election_timeout_ms: 200,
        last_heartbeat: None,
    };
    let mut follower = Server::new(2, vec![1, 3]);
    let r = follower.append_entries(
        0,
        1,
        1,
        0,
        0,
        vec![cmd2(1, 1, "a"), cmd2(2, 1, "b"), cmd2(3, 1, "x")],
        -1,
    );
    assert!(r.success);

    let mut cycles = 0;
    loop {
        cycles += 1;
        assert!(cycles <= 5, "replication must converge");
        let req = leader.replication_requests().into_iter().next().unwrap();
        let prev_sent = req.prev_log_index;
        let sent_count = req.entries.len();
        let res = follower.append_entries(
            cycles,
            req.term,
            req.leader_id,
            req.prev_log_index,
            req.prev_log_term,
            req.entries,
            req.leader_commit,
        );
        leader.handle_append_response(2, res.term, res.success, prev_sent, sent_count);
        if res.success {
            break;
        }
    }

    assert_eq!(log_of(&follower), &leader_log);
    // the leader's own log never moved, and the repaired entry of its
    // own term carries everything before it to the commit point
    assert_eq!(log_of(&leader), &leader_log);
    assert_eq!(commit_of(&leader), 2);
    // one more cycle is a pure heartbeat that teaches the follower the
    // leader's commit position
    let req = leader.replication_requests().into_iter().next().unwrap();
    assert!(req.entries.is_empty());
    let res = follower.append_entries(9, req.term, req.leader_id, req.prev_log_index, req.prev_log_term, req.entries, req.leader_commit);
    assert!(res.success);
    assert_eq!(commit_of(&follower), 2);
}
