//! The Follower role, and the election-timer decision shared by the
//! roles that can time out.

use vstd::prelude::*;
use crate::command::Command;
use crate::states::candidate::begin_election_post;
use crate::states::states::divergence;
use crate::states::states::merged_log;
use crate::states::states::prev_ok;
use crate::states::states::CommonState;
use crate::states::states::NodeId;
use crate::states::states::ServerMode;

verus! {

/// A node that recognises (or is waiting to hear from) a leader.
#[derive(Debug, Clone)]
pub struct FollowerMode {
    pub common_state: CommonState,
}

impl FollowerMode {
    /// A fresh follower, as every node starts: term 0, empty log, no vote.
    pub fn new() -> (r: FollowerMode)
        ensures
            r.common_state.wf(),
            r.common_state.current_term == 0,
            r.common_state.voted_for is None,
            r.common_state.log@.len() == 0,
            r.common_state.commit_index == -1,
            r.common_state.last_applied == -1,
    {
        FollowerMode { common_state: CommonState::initial() }
    }
}

/// The log matching property, as a relation between two logs: wherever
/// they hold an entry of the same term at the same position — for dense,
/// 1-based logs, an entry with the same (index, term) pair — the logs
/// are identical through that entry, so in particular every entry at a
/// lower index is identical between them.
pub open spec fn logs_match(l1: Seq<Command>, l2: Seq<Command>) -> bool {
    forall|i: int|
        0 <= i < l1.len() && i < l2.len() && (#[trigger] l1[i]).term == (#[trigger] l2[i]).term
            ==> l1.take(i + 1) == l2.take(i + 1)
}

/// Where `divergence` stops, counted from offset `k`: it stays within
/// the batch and the log, and when it moved at all, the last entry it
/// stepped over agrees in term with the log.
pub proof fn lemma_divergence_props(log: Seq<Command>, entries: Seq<Command>, prev: nat, k: nat)
    requires
        k <= entries.len(),
        prev + k <= log.len(),
    ensures
        k <= divergence(log, entries, prev, k) <= entries.len(),
        prev + divergence(log, entries, prev, k) <= log.len(),
        k < divergence(log, entries, prev, k) ==> log[(prev + divergence(log, entries, prev, k)
            - 1) as int].term == entries[divergence(log, entries, prev, k) as int - 1].term,
    decreases entries.len() - k,
{
    if k >= entries.len() {
    } else if prev + k >= log.len() || log[(prev + k) as int].term != entries[k as int].term {
    } else {
        lemma_divergence_props(log, entries, prev, (k + 1) as nat);
    }
}

/// The log matching property survives replication: when a node
/// reconciles a leader's batch — the leader's own entries after
/// `prev`, rooted at the leader's entry there — into a log that matches
/// the leader's, the reconciled log still matches the leader's. With
/// every log initially empty, replication therefore keeps the property
/// throughout a run.
pub proof fn lemma_log_matching_preserved(
    leader_log: Seq<Command>,
    local: Seq<Command>,
    prev: nat,
    prev_term: nat,
)
    requires
        logs_match(leader_log, local),
        prev <= leader_log.len(),
        prev > 0 ==> leader_log[prev - 1].term == prev_term,
        prev_ok(local, prev, prev_term),
    ensures
        logs_match(leader_log, merged_log(local, leader_log.skip(prev as int), prev)),
{
    let entries = leader_log.skip(prev as int);
    let d = divergence(local, entries, prev, 0);
    lemma_divergence_props(local, entries, prev, 0);
    if d == entries.len() {
        // nothing to change: the reconciled log is the local one
        assert(merged_log(local, entries, prev) == local);
    } else {
        // the reconciled log is exactly the leader's
        let merged = merged_log(local, entries, prev);
        assert(local.take((prev + d) as int) == leader_log.take((prev + d) as int)) by {
            if prev + d > 0 {
                let i = (prev + d - 1) as int;
                if d > 0 {
                    assert(local[i].term == entries[d as int - 1].term);
                    assert(entries[d as int - 1] == leader_log[i]);
                } else {
                    assert(local[i].term == prev_term);
                    assert(leader_log[i].term == prev_term);
                }
                assert(leader_log.take(i + 1) == local.take(i + 1));
            } else {
                assert(local.take(0) =~= leader_log.take(0));
            }
        }
        assert(entries.skip(d as int) =~= leader_log.skip((prev + d) as int));
        assert(merged =~= leader_log.take((prev + d) as int) + leader_log.skip((prev + d) as int));
        assert(merged =~= leader_log);
    }
}

/// Whether the election timer has expired: no current-term leader was
/// ever heard from, or the last validated contact is longer ago than the
/// rolled timeout.
pub open spec fn election_due(last_heartbeat: Option<u64>, election_timeout: u64, now: u64) -> bool {
    match last_heartbeat {
        None => true,
        Some(h) => now > h + election_timeout,
    }
}

/// The election-timer check, executably.
pub fn election_due_check(last_heartbeat: Option<u64>, election_timeout: u64, now: u64) -> (b: bool)
    ensures
        b == election_due(last_heartbeat, election_timeout, now),
{
    match last_heartbeat {
        None => true,
        Some(h) => h < now && now - h > election_timeout,
    }
}

impl ServerMode {
    /// The periodic timer check for a Follower or Candidate: if the
    /// election timer has expired without a validated heartbeat, start
    /// (or restart) an election; otherwise nothing changes. A Leader
    /// never times itself out.
    pub fn check_heartbeat(
        self,
        last_heartbeat: Option<u64>,
        election_timeout: u64,
        now: u64,
        self_id: NodeId,
    ) -> (next: ServerMode)
        requires
            self.wf(),
            self.term() < usize::MAX,
        ensures
            self is Leader ==> next == self,
            !(self is Leader) && election_due(last_heartbeat, election_timeout, now)
                ==> begin_election_post(self, next, self_id),
            !(self is Leader) && !election_due(last_heartbeat, election_timeout, now) ==> next
                == self,
            next.wf(),
            next.term() >= self.term(),
            next.log() == self.log(),
            next.commit() == self.commit(),
            next is Leader ==> self is Leader,
    {
        match self {
            ServerMode::Leader(l) => ServerMode::Leader(l),
            other => {
                if election_due_check(last_heartbeat, election_timeout, now) {
                    other.begin_election(self_id)
                } else {
                    other
                }
            },
        }
    }
}

} // verus!
