//! The Leader role: the replication loop's requests, what its peers'
//! responses teach the leader, and commit advancement.

use vstd::prelude::*;
use crate::command::Command;
use crate::states::candidate::is_majority;
use crate::states::follower::FollowerMode;
use crate::states::states::AppendEntriesReq;
use crate::states::states::NodeId;
use crate::states::states::CommonState;
use crate::states::states::ServerMode;
use crate::states::states::entries_dense_after;

verus! {

/// The node that won the election for `common_state.current_term`.
///
/// `next_index` and `match_index` run parallel to the node's peer list:
/// position `i` of each describes peer `i`.
#[derive(Debug, Clone)]
pub struct LeaderMode {
    pub common_state: CommonState,
    /// For each peer, the 1-based index of the next log entry to send it.
    pub next_index: Vec<usize>,
    /// For each peer, the highest 1-based index known replicated to it,
    /// 0 if none.
    pub match_index: Vec<usize>,
}

impl LeaderMode {
    /// Replication bookkeeping stays within the log's bounds: the next
    /// entry to send is at most one past the end, and nothing beyond the
    /// log is known replicated.
    pub open spec fn wf(&self) -> bool {
        &&& self.common_state.wf()
        &&& self.next_index@.len() == self.match_index@.len()
        &&& self.next_index@.len() < usize::MAX
        &&& forall|i: int|
            0 <= i < self.next_index@.len() ==> 1 <= #[trigger] self.next_index@[i]
                <= self.common_state.log@.len() + 1
        &&& forall|i: int|
            0 <= i < self.match_index@.len() ==> #[trigger] self.match_index@[i]
                <= self.common_state.log@.len()
    }
}

/// How many peers are known to hold the entry at (1-based) index `n`,
/// according to `match_index`.
pub open spec fn count_at_least(ms: Seq<usize>, n: int) -> nat
    decreases ms.len(),
{
    if ms.len() == 0 {
        0
    } else {
        (if ms.last() >= n {
            1nat
        } else {
            0nat
        }) + count_at_least(ms.drop_last(), n)
    }
}

/// Whether a leader in `current_term` may commit (1-based) index `n`:
/// the entry exists, it was created in the leader's own term, and a
/// strict majority of the cluster holds it (the leader itself always
/// counts). An older-term entry never commits by count alone; it commits
/// only once an own-term entry after it does.
pub open spec fn can_commit(
    log: Seq<Command>,
    current_term: nat,
    match_index: Seq<usize>,
    n: int,
) -> bool {
    &&& 1 <= n <= log.len()
    &&& log[n - 1].term == current_term
    &&& is_majority((count_at_least(match_index, n) + 1) as int, (match_index.len() + 1) as int)
}

/// One request of the leader's replication fan-out: everything peer `i`
/// needs from `next_index[i]` on, rooted just before it, carrying the
/// leader's commit position.
pub open spec fn replication_req_ok(
    l: LeaderMode,
    leader_id: NodeId,
    r: AppendEntriesReq,
    i: int,
) -> bool {
    let nx = l.next_index@[i] as int;
    &&& r.term == l.common_state.current_term
    &&& r.leader_id == leader_id
    &&& r.prev_log_index == nx - 1
    &&& r.prev_log_term == (if nx == 1 {
        0
    } else {
        l.common_state.log@[nx - 2].term as int
    })
    &&& r.entries@ == l.common_state.log@.skip(nx - 1)
    &&& r.leader_commit == l.common_state.commit_index
}

/// Everything applying one AppendEntries response does. A response
/// revealing a strictly higher term makes the node a Follower of that
/// term; a response is otherwise discarded unless the node is still the
/// Leader for exactly the responder's term and the response describes a
/// batch the leader could have sent. A success marks everything through
/// the batch as replicated to that peer and advances the commit position
/// as far as `can_commit` then allows; a failure backs the peer's
/// `next_index` off by one (never below 1) for the next cycle to retry.
pub open spec fn append_response_post(
    pre: ServerMode,
    next: ServerMode,
    peer_idx: int,
    term: nat,
    success: bool,
    prev_sent: usize,
    sent_count: usize,
) -> bool {
    &&& (term > pre.term() ==> {
        &&& next is Follower
        &&& next.term() == term
        &&& next.voted() is None
        &&& next.log() == pre.log()
        &&& next.commit() == pre.commit()
        &&& next.applied() == pre.applied()
    })
    &&& (term < pre.term() ==> next == pre)
    &&& (term == pre.term() ==> {
        if !(pre matches ServerMode::Leader(_)) || !(0 <= peer_idx
            < pre->Leader_0.next_index@.len()) {
            next == pre
        } else {
            let l = pre->Leader_0;
            let m = prev_sent + sent_count;
            if success {
                if m <= pre.log().len() {
                    &&& next matches ServerMode::Leader(l2)
                    &&& l2.next_index@ == l.next_index@.update(peer_idx, (m + 1) as usize)
                    &&& l2.match_index@ == l.match_index@.update(peer_idx, m as usize)
                    &&& l2.common_state.current_term == l.common_state.current_term
                    &&& l2.common_state.voted_for == l.common_state.voted_for
                    &&& l2.common_state.log@ == l.common_state.log@
                    &&& l2.common_state.last_applied == l.common_state.last_applied
                    &&& l2.common_state.commit_index >= l.common_state.commit_index
                    &&& (l2.common_state.commit_index > l.common_state.commit_index ==> can_commit(
                        l.common_state.log@,
                        pre.term(),
                        l2.match_index@,
                        l2.common_state.commit_index + 1,
                    ))
                    &&& (forall|n: int|
                        l2.common_state.commit_index + 1 < n <= l.common_state.log@.len()
                            ==> !can_commit(l.common_state.log@, pre.term(), l2.match_index@, n))
                } else {
                    // no request the leader sent can answer this
                    next == pre
                }
            } else {
                &&& next matches ServerMode::Leader(l2)
                &&& l2.common_state == l.common_state
                &&& l2.match_index@ == l.match_index@
                &&& l2.next_index@ == l.next_index@.update(
                    peer_idx,
                    (if l.next_index@[peer_idx] <= 1 {
                        1
                    } else {
                        (l.next_index@[peer_idx] - 1) as usize
                    }) as usize,
                )
            }
        }
    })
}

/// How many entries of `ms` are at least `n`.
fn count_at_least_check(ms: &Vec<usize>, n: usize) -> (c: usize)
    ensures
        c == count_at_least(ms@, n as int),
        c <= ms@.len(),
{
    let mut c: usize = 0;
    let mut i: usize = 0;
    while i < ms.len()
        invariant
            i <= ms@.len(),
            c <= i,
            c == count_at_least(ms@.take(i as int), n as int),
        decreases ms@.len() - i,
    {
        proof {
            assert(ms@.take(i + 1).drop_last() =~= ms@.take(i as int));
            assert(ms@.take(i + 1).last() == ms@[i as int]);
        }
        if ms[i] >= n {
            c = c + 1;
        }
        i = i + 1;
    }
    proof {
        assert(ms@.take(ms@.len() as int) =~= ms@);
    }
    c
}

/// A copy of the log from (0-based) position `from` to its end.
fn copy_suffix(log: &Vec<Command>, from: usize) -> (v: Vec<Command>)
    requires
        from <= log@.len(),
    ensures
        v@ == log@.skip(from as int),
{
    let mut v: Vec<Command> = Vec::new();
    let mut i: usize = from;
    while i < log.len()
        invariant
            from <= i <= log@.len(),
            v@ == log@.subrange(from as int, i as int),
        decreases log@.len() - i,
    {
        v.push(log[i].duplicate());
        proof {
            assert(v@ =~= log@.subrange(from as int, i + 1));
        }
        i = i + 1;
    }
    proof {
        assert(log@.subrange(from as int, log@.len() as int) =~= log@.skip(from as int));
    }
    v
}

impl LeaderMode {
    /// The batch of AppendEntries requests for one replication cycle,
    /// one request per peer, in peer order. Every request is one the
    /// AppendEntries handler accepts: its batch continues the log
    /// densely after its `prev_log_index` and stays within the log.
    pub fn replication_requests(&self, leader_id: NodeId) -> (reqs: Vec<AppendEntriesReq>)
        requires
            self.wf(),
        ensures
            reqs@.len() == self.next_index@.len(),
            forall|i: int|
                0 <= i < reqs@.len() ==> replication_req_ok(*self, leader_id, #[trigger] reqs@[i], i),
            forall|i: int|
                0 <= i < reqs@.len() ==> entries_dense_after(
                    (#[trigger] reqs@[i]).entries@,
                    reqs@[i].prev_log_index as nat,
                ),
            forall|i: int|
                0 <= i < reqs@.len() ==> (#[trigger] reqs@[i]).prev_log_index
                    + reqs@[i].entries@.len() == self.common_state.log@.len(),
    {
        let mut reqs: Vec<AppendEntriesReq> = Vec::new();
        let mut i: usize = 0;
        while i < self.next_index.len()
            invariant
                self.wf(),
                i <= self.next_index@.len(),
                reqs@.len() == i,
                forall|t: int|
                    0 <= t < i ==> replication_req_ok(*self, leader_id, #[trigger] reqs@[t], t),
                forall|t: int|
                    0 <= t < i ==> entries_dense_after(
                        (#[trigger] reqs@[t]).entries@,
                        reqs@[t].prev_log_index as nat,
                    ),
                forall|t: int|
                    0 <= t < i ==> (#[trigger] reqs@[t]).prev_log_index + reqs@[t].entries@.len()
                        == self.common_state.log@.len(),
            decreases self.next_index@.len() - i,
        {
            let nx = self.next_index[i];
            let prev_log_index = nx - 1;
            let prev_log_term = if prev_log_index == 0 {
                0
            } else {
                self.common_state.log[prev_log_index - 1].term
            };
            let entries = copy_suffix(&self.common_state.log, prev_log_index);
            let req = AppendEntriesReq {
                term: self.common_state.current_term,
                leader_id,
                prev_log_index,
                prev_log_term,
                entries,
                leader_commit: self.common_state.commit_index,
            };
            reqs.push(req);
            proof {
                assert(replication_req_ok(*self, leader_id, reqs@[i as int], i as int));
                assert(entries_dense_after(
                    reqs@[i as int].entries@,
                    reqs@[i as int].prev_log_index as nat,
                ));
            }
            i = i + 1;
        }
        reqs
    }

    /// The highest commit position `can_commit` currently allows, never
    /// below the present one.
    fn advanced_commit_position(&self) -> (p: i64)
        requires
            self.wf(),
        ensures
            p >= self.common_state.commit_index,
            p < self.common_state.log@.len(),
            p > self.common_state.commit_index ==> can_commit(
                self.common_state.log@,
                self.common_state.current_term as nat,
                self.match_index@,
                p + 1,
            ),
            forall|n: int|
                p + 1 < n <= self.common_state.log@.len() ==> !can_commit(
                    self.common_state.log@,
                    self.common_state.current_term as nat,
                    self.match_index@,
                    n,
                ),
    {
        let len = self.common_state.log.len();
        let mut n: usize = len;
        let mut result: i64 = self.common_state.commit_index;
        let mut found = false;
        while !found && (n as i64) > self.common_state.commit_index + 1
            invariant
                self.wf(),
                n <= self.common_state.log@.len(),
                !found ==> result == self.common_state.commit_index,
                !found ==> forall|m: int|
                    n < m <= self.common_state.log@.len() ==> !can_commit(
                        self.common_state.log@,
                        self.common_state.current_term as nat,
                        self.match_index@,
                        m,
                    ),
                found ==> {
                    &&& result == n - 1
                    &&& result > self.common_state.commit_index
                    &&& can_commit(
                        self.common_state.log@,
                        self.common_state.current_term as nat,
                        self.match_index@,
                        n as int,
                    )
                    &&& forall|m: int|
                        n < m <= self.common_state.log@.len() ==> !can_commit(
                            self.common_state.log@,
                            self.common_state.current_term as nat,
                            self.match_index@,
                            m,
                        )
                },
            decreases (if found {
                0int
            } else {
                n as int
            }),
        {
            if self.common_state.log[n - 1].term == self.common_state.current_term {
                let cnt = count_at_least_check(&self.match_index, n);
                if cnt + 1 > (self.match_index.len() + 1) / 2 {
                    proof {
                        assert(is_majority(
                            (count_at_least(self.match_index@, n as int) + 1) as int,
                            (self.match_index@.len() + 1) as int,
                        ));
                    }
                    result = (n as i64) - 1;
                    found = true;
                } else {
                    proof {
                        assert(!is_majority(
                            (count_at_least(self.match_index@, n as int) + 1) as int,
                            (self.match_index@.len() + 1) as int,
                        ));
                    }
                }
            }
            if !found {
                n = n - 1;
            }
        }
        result
    }
}

impl ServerMode {
    /// Apply one peer's AppendEntries response, re-validated against the
    /// node's current term and role at the moment it arrives. `peer_idx`
    /// is the peer's position in the node's peer list; `prev_sent` and
    /// `sent_count` echo the request this answers.
    pub fn handle_append_response(
        self,
        peer_idx: usize,
        term: usize,
        success: bool,
        prev_sent: usize,
        sent_count: usize,
    ) -> (next: ServerMode)
        requires
            self.wf(),
        ensures
            append_response_post(
                self,
                next,
                peer_idx as int,
                term as nat,
                success,
                prev_sent,
                sent_count,
            ),
            next.wf(),
            next.term() >= self.term(),
            next.commit() >= self.commit(),
            next.log() == self.log(),
            next is Leader ==> (self is Leader && next->Leader_0.next_index@.len()
                == self->Leader_0.next_index@.len()),
    {
        let my_term = self.get_term();
        if term > my_term {
            let mut common = self.into_common();
            common.current_term = term;
            common.voted_for = None;
            return ServerMode::Follower(FollowerMode { common_state: common });
        }
        if term < my_term {
            return self;
        }
        match self {
            ServerMode::Leader(mut l) => {
                if peer_idx >= l.next_index.len() {
                    return ServerMode::Leader(l);
                }
                if success {
                    if sent_count > usize::MAX - prev_sent {
                        return ServerMode::Leader(l);
                    }
                    let m = prev_sent + sent_count;
                    if m > l.common_state.log.len() {
                        return ServerMode::Leader(l);
                    }
                    l.match_index.set(peer_idx, m);
                    l.next_index.set(peer_idx, m + 1);
                    let p = l.advanced_commit_position();
                    l.common_state.commit_index = p;
                    ServerMode::Leader(l)
                } else {
                    let cur = l.next_index[peer_idx];
                    let backed = if cur <= 1 {
                        1
                    } else {
                        cur - 1
                    };
                    l.next_index.set(peer_idx, backed);
                    ServerMode::Leader(l)
                }
            },
            other => other,
        }
    }
}

} // verus!
