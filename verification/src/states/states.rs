//! State shared by every role, the RPC message types, and the role state
//! machine itself with its two RPC handlers.

use vstd::prelude::*;
use crate::command::Command;
use crate::states::candidate::CandidateMode;
use crate::states::follower::FollowerMode;
use crate::states::leader::LeaderMode;

verus! {

/// A node identifier. Nodes treat each other's identifiers as opaque
/// values: they are only ever compared for equality.
pub type NodeId = u128;

/// Commit bookkeeping is kept as signed 64-bit positions with `-1`
/// meaning "nothing yet", so a log must stay short enough for every
/// position to fit in an `i64`.
pub const MAX_LOG_LEN: u64 = 0x7fff_ffff_ffff_ffff;

/// The entry at position `i` of a dense, gap-free, 1-based log carries
/// index `i + 1`.
pub open spec fn log_dense(log: Seq<Command>) -> bool {
    forall|i: int| 0 <= i < log.len() ==> #[trigger] log[i].index == i + 1
}

/// The 1-based index of the last entry of a log; 0 when it is empty.
pub open spec fn last_index_of(log: Seq<Command>) -> nat {
    log.len()
}

/// The term of the last entry of a log; 0 when it is empty.
pub open spec fn last_term_of(log: Seq<Command>) -> nat {
    if log.len() == 0 {
        0
    } else {
        log[log.len() - 1].term as nat
    }
}

/// Whether a candidate whose log ends in `(last_log_term, last_log_index)`
/// is at least as up to date as a receiver whose log is `log`: a strictly
/// higher last term wins regardless of length, an equal last term compares
/// by last index.
pub open spec fn up_to_date(log: Seq<Command>, last_log_term: nat, last_log_index: nat) -> bool {
    ||| last_log_term > last_term_of(log)
    ||| (last_log_term == last_term_of(log) && last_log_index >= last_index_of(log))
}

/// The AppendEntries consistency check: the local log contains the
/// leader's entry just before the batch. Index 0 names the empty prefix,
/// which every log contains.
pub open spec fn prev_ok(log: Seq<Command>, prev_log_index: nat, prev_log_term: nat) -> bool {
    ||| prev_log_index == 0
    ||| (prev_log_index <= log.len() && log[prev_log_index - 1].term == prev_log_term)
}

/// The first offset into `entries` at or after `k` where the local log
/// stops agreeing with the incoming batch placed after `prev`: the batch's
/// length if every entry is already present with its term, otherwise the
/// first offset whose position is past the local log's end or whose term
/// differs from the local entry there.
pub open spec fn divergence(log: Seq<Command>, entries: Seq<Command>, prev: nat, k: nat) -> nat
    decreases entries.len() - k,
{
    if k >= entries.len() {
        k
    } else if prev + k >= log.len() || log[(prev + k) as int].term != entries[k as int].term {
        k
    } else {
        divergence(log, entries, prev, (k + 1) as nat)
    }
}

/// What the local log becomes when the batch `entries`, placed after
/// index `prev`, is reconciled into it: entries already present with the
/// same term are left alone (and a longer local tail survives a batch
/// that never disagrees with it); from the first disagreement on, the
/// leader's entries replace everything local.
pub open spec fn merged_log(log: Seq<Command>, entries: Seq<Command>, prev: nat) -> Seq<Command> {
    let d = divergence(log, entries, prev, 0);
    if d == entries.len() {
        log
    } else {
        log.take((prev + d) as int) + entries.skip(d as int)
    }
}

/// Whether reconciling the batch would overwrite an entry this node has
/// already committed: the first disagreement is a term conflict with an
/// existing local entry at or below `commit`.
pub open spec fn conflicts_with_commit(
    log: Seq<Command>,
    entries: Seq<Command>,
    prev: nat,
    commit: int,
) -> bool {
    let d = divergence(log, entries, prev, 0);
    &&& d < entries.len()
    &&& prev + d < log.len()
    &&& prev + d <= commit
}

/// The commit position after learning the leader's: it moves up to the
/// leader's commit, but never past the last position the call vouched
/// for, and never backwards.
pub open spec fn updated_commit(commit: int, leader_commit: int, last_covered: int) -> int {
    let capped = if leader_commit <= last_covered {
        leader_commit
    } else {
        last_covered
    };
    if capped > commit {
        capped
    } else {
        commit
    }
}

/// State that must survive restarts, plus the volatile commit bookkeeping.
#[derive(Debug, Clone)]
pub struct CommonState {
    /// The node's current term; monotonically non-decreasing.
    pub current_term: usize,
    /// Whom this node voted for in `current_term`, if anyone; cleared
    /// whenever `current_term` increases.
    pub voted_for: Option<NodeId>,
    /// The replicated log; dense, gap-free, 1-based.
    pub log: Vec<Command>,
    /// Position (0-based) of the highest log entry known committed;
    /// `-1` when nothing is committed. Never decreases.
    pub commit_index: i64,
    /// Position (0-based) of the highest log entry handed to the external
    /// apply hook; `-1` initially, never beyond `commit_index`.
    pub last_applied: i64,
}

impl CommonState {
    /// Well-formedness every role maintains.
    pub open spec fn wf(&self) -> bool {
        &&& log_dense(self.log@)
        &&& self.log@.len() <= MAX_LOG_LEN
        &&& self.log@.len() < usize::MAX
        &&& -1 <= self.last_applied <= self.commit_index
        &&& self.commit_index < self.log@.len()
    }

    /// Hand out the next committed-but-unapplied entry, if any,
    /// advancing `last_applied` past it.
    pub fn advance_applied(&mut self) -> (r: Option<Command>)
        requires
            old(self).wf(),
        ensures
            final(self).wf(),
            old(self).last_applied < old(self).commit_index ==> (r matches Some(c) && c == old(self).log@[old(self).last_applied + 1] && final(self).last_applied == old(self).last_applied + 1),
            old(self).last_applied >= old(self).commit_index ==> (r is None && final(self).last_applied == old(self).last_applied),
            final(self).current_term == old(self).current_term,
            final(self).voted_for == old(self).voted_for,
            final(self).log@ == old(self).log@,
            final(self).commit_index == old(self).commit_index,
    {
        if self.last_applied < self.commit_index {
            let pos = (self.last_applied + 1) as usize;
            self.last_applied = self.last_applied + 1;
            Some(self.log[pos].duplicate())
        } else {
            None
        }
    }

    /// A fresh node: term 0, empty log, no vote cast, nothing committed.
    pub fn initial() -> (r: CommonState)
        ensures
            r.wf(),
            r.current_term == 0,
            r.voted_for is None,
            r.log@.len() == 0,
            r.commit_index == -1,
            r.last_applied == -1,
    {
        CommonState {
            current_term: 0,
            voted_for: None,
            log: Vec::new(),
            commit_index: -1,
            last_applied: -1,
        }
    }
}

/// The arguments of a RequestVote call.
#[derive(Debug, Clone, Copy, PartialEq, Eq, Structural)]
pub struct RequestVoteReq {
    pub term: usize,
    pub candidate_id: NodeId,
    pub last_log_index: usize,
    pub last_log_term: usize,
}

/// What a RequestVote call answers.
#[derive(Debug, Clone, Copy, PartialEq, Eq, Structural)]
pub struct RequestVoteRes {
    pub term: usize,
    pub granted: bool,
}

/// The arguments of an AppendEntries call; an empty batch is a pure
/// heartbeat.
#[derive(Debug, Clone)]
pub struct AppendEntriesReq {
    pub term: usize,
    pub leader_id: NodeId,
    pub prev_log_index: usize,
    pub prev_log_term: usize,
    pub entries: Vec<Command>,
    pub leader_commit: i64,
}

/// What an AppendEntries call answers.
#[derive(Debug, Clone, Copy, PartialEq, Eq, Structural)]
pub struct AppendEntriesRes {
    pub term: usize,
    pub success: bool,
}

/// The role state machine: every node is exactly one of these, and every
/// transition replaces the whole value.
#[derive(Debug)]
pub enum ServerMode {
    Follower(FollowerMode),
    Candidate(CandidateMode),
    Leader(LeaderMode),
}

impl ServerMode {
    /// The state shared by every role.
    pub open spec fn common(&self) -> CommonState {
        match self {
            ServerMode::Follower(f) => f.common_state,
            ServerMode::Candidate(c) => c.common_state,
            ServerMode::Leader(l) => l.common_state,
        }
    }

    /// Well-formedness: the shared state's, plus each role's own.
    pub open spec fn wf(&self) -> bool {
        match self {
            ServerMode::Follower(f) => f.common_state.wf(),
            ServerMode::Candidate(c) => c.wf(),
            ServerMode::Leader(l) => l.wf(),
        }
    }

    /// The node's current term.
    pub open spec fn term(&self) -> nat {
        self.common().current_term as nat
    }

    /// Whom the node voted for in its current term, if anyone.
    pub open spec fn voted(&self) -> Option<NodeId> {
        self.common().voted_for
    }

    /// The node's log.
    pub open spec fn log(&self) -> Seq<Command> {
        self.common().log@
    }

    /// The node's commit position.
    pub open spec fn commit(&self) -> int {
        self.common().commit_index as int
    }

    /// The node's last applied position.
    pub open spec fn applied(&self) -> int {
        self.common().last_applied as int
    }

    /// The current term, readable by callers.
    pub fn get_term(&self) -> (r: usize)
        ensures
            r == self.term(),
    {
        match self {
            ServerMode::Follower(f) => f.common_state.current_term,
            ServerMode::Candidate(c) => c.common_state.current_term,
            ServerMode::Leader(l) => l.common_state.current_term,
        }
    }

    /// Whom this node voted for in its current term, readable by callers.
    pub fn get_voted_for(&self) -> (r: Option<NodeId>)
        ensures
            r == self.voted(),
    {
        match self {
            ServerMode::Follower(f) => f.common_state.voted_for,
            ServerMode::Candidate(c) => c.common_state.voted_for,
            ServerMode::Leader(l) => l.common_state.voted_for,
        }
    }

    /// The 1-based index and the term of the log's last entry, both 0
    /// when it is empty.
    pub fn last_log_info(&self) -> (r: (usize, usize))
        ensures
            r.0 == last_index_of(self.log()),
            r.1 == last_term_of(self.log()),
    {
        let n = match self {
            ServerMode::Follower(f) => f.common_state.log.len(),
            ServerMode::Candidate(c) => c.common_state.log.len(),
            ServerMode::Leader(l) => l.common_state.log.len(),
        };
        if n == 0 {
            (0, 0)
        } else {
            let t = match self {
                ServerMode::Follower(f) => f.common_state.log[n - 1].term,
                ServerMode::Candidate(c) => c.common_state.log[n - 1].term,
                ServerMode::Leader(l) => l.common_state.log[n - 1].term,
            };
            (n, t)
        }
    }

    /// The shared state, surrendered by value.
    pub fn into_common(self) -> (out: CommonState)
        ensures
            out == self.common(),
    {
        match self {
            ServerMode::Follower(f) => f.common_state,
            ServerMode::Candidate(c) => c.common_state,
            ServerMode::Leader(l) => l.common_state,
        }
    }

    /// Raise the node's term. A term never decreases, and moving to a new
    /// term forgets the vote cast in the old one.
    pub fn set_term(&mut self, term: usize)
        requires
            term >= old(self).common().current_term,
        ensures
            final(self).term() == term,
            final(self).voted() == (if term > old(self).term() {
                None::<NodeId>
            } else {
                old(self).voted()
            }),
            final(self).log() == old(self).log(),
            final(self).commit() == old(self).commit(),
            final(self).applied() == old(self).applied(),
            same_role_data(*old(self), *final(self)),
    {
        let clear = term > self.get_term();
        match self {
            ServerMode::Follower(f) => {
                f.common_state.current_term = term;
                if clear {
                    f.common_state.voted_for = None;
                }
            },
            ServerMode::Candidate(c) => {
                c.common_state.current_term = term;
                if clear {
                    c.common_state.voted_for = None;
                }
            },
            ServerMode::Leader(l) => {
                l.common_state.current_term = term;
                if clear {
                    l.common_state.voted_for = None;
                }
            },
        }
    }

    /// Record a vote cast in the current term.
    pub fn set_voted_for(&mut self, server_voted_for: NodeId)
        ensures
            final(self).voted() == Some(server_voted_for),
            final(self).term() == old(self).term(),
            final(self).log() == old(self).log(),
            final(self).commit() == old(self).commit(),
            final(self).applied() == old(self).applied(),
            same_role_data(*old(self), *final(self)),
    {
        match self {
            ServerMode::Follower(f) => f.common_state.voted_for = Some(server_voted_for),
            ServerMode::Candidate(c) => c.common_state.voted_for = Some(server_voted_for),
            ServerMode::Leader(l) => l.common_state.voted_for = Some(server_voted_for),
        }
    }
}

/// Whether `a` and `b` are the same role carrying the same role-specific
/// bookkeeping (their shared state may differ).
pub open spec fn same_role_data(a: ServerMode, b: ServerMode) -> bool {
    match a {
        ServerMode::Follower(_) => b is Follower,
        ServerMode::Candidate(c1) => {
            &&& b matches ServerMode::Candidate(c2)
            &&& c1.votes_received@ == c2.votes_received@
        },
        ServerMode::Leader(l1) => {
            &&& b matches ServerMode::Leader(l2)
            &&& l1.next_index@ == l2.next_index@
            &&& l1.match_index@ == l2.match_index@
        },
    }
}

/// Everything a RequestVote call does, relating the receiver's state
/// before (`pre`) and after (`next`) to the reply: a stale candidate is
/// refused without any change; otherwise a strictly higher term is
/// adopted (clearing the old vote and falling back to Follower), and the
/// vote is granted exactly when no conflicting vote stands in the
/// (possibly just adopted) term and the candidate's log is at least as up
/// to date as the receiver's.
pub open spec fn request_vote_post(
    pre: ServerMode,
    next: ServerMode,
    res: RequestVoteRes,
    candidate_term: nat,
    candidate_id: NodeId,
    last_log_index: nat,
    last_log_term: nat,
) -> bool {
    &&& res.term == next.term()
    &&& (candidate_term < pre.term() ==> !res.granted && next == pre)
    &&& (candidate_term >= pre.term() ==> {
        let carried = if candidate_term > pre.term() {
            None::<NodeId>
        } else {
            pre.voted()
        };
        &&& next.term() == candidate_term
        &&& next.log() == pre.log()
        &&& next.commit() == pre.commit()
        &&& next.applied() == pre.applied()
        &&& (res.granted <==> ((carried is None || carried == Some(candidate_id))
            && up_to_date(pre.log(), last_log_term, last_log_index)))
        &&& next.voted() == (if res.granted {
            Some(candidate_id)
        } else {
            carried
        })
        &&& (candidate_term > pre.term() ==> next is Follower)
        &&& (candidate_term == pre.term() ==> same_role_data(pre, next))
    })
}

/// Everything an AppendEntries call does, relating the receiver's state
/// before (`pre`) and after (`next`) to the reply: a stale leader is
/// refused without any change; otherwise the receiver adopts the
/// leader's term (clearing its vote if the term is new) and falls back
/// to Follower, refuses a batch whose previous entry it does not hold or
/// whose reconciliation would overwrite a committed entry, and otherwise
/// reconciles the batch into its log and moves its commit position up to
/// the leader's, capped at the last position the call vouched for.
pub open spec fn append_entries_post(
    pre: ServerMode,
    next: ServerMode,
    res: AppendEntriesRes,
    leader_term: nat,
    prev_log_index: nat,
    prev_log_term: nat,
    entries: Seq<Command>,
    leader_commit: int,
) -> bool {
    &&& res.term == next.term()
    &&& (leader_term < pre.term() ==> !res.success && next == pre)
    &&& (leader_term >= pre.term() ==> {
        &&& next is Follower
        &&& next.term() == leader_term
        &&& next.voted() == (if leader_term > pre.term() {
            None::<NodeId>
        } else {
            pre.voted()
        })
        &&& next.applied() == pre.applied()
        &&& (if !prev_ok(pre.log(), prev_log_index, prev_log_term) {
            &&& !res.success
            &&& next.log() == pre.log()
            &&& next.commit() == pre.commit()
        } else if conflicts_with_commit(pre.log(), entries, prev_log_index, pre.commit()) {
            &&& !res.success
            &&& next.log() == pre.log()
            &&& next.commit() == pre.commit()
        } else {
            &&& res.success
            &&& next.log() == merged_log(pre.log(), entries, prev_log_index)
            &&& next.commit() == updated_commit(
                pre.commit(),
                leader_commit,
                prev_log_index + entries.len() - 1,
            )
        })
    })
}

/// Vote uniqueness: for any term, a node grants at most one vote, even
/// across duplicated or reordered RequestVote calls. Two granted calls
/// for the same term, in whatever order they arrive, name the same
/// candidate: the first grant pins `voted_for`, and a later call for
/// that term is granted only when it names the very same candidate
/// (`lemma_vote_stable` extends this across the other transitions).
pub proof fn lemma_vote_uniqueness(
    s0: ServerMode,
    s1: ServerMode,
    s2: ServerMode,
    r1: RequestVoteRes,
    r2: RequestVoteRes,
    term: nat,
    c1: NodeId,
    c2: NodeId,
    last_log_index1: nat,
    last_log_term1: nat,
    last_log_index2: nat,
    last_log_term2: nat,
)
    requires
        request_vote_post(s0, s1, r1, term, c1, last_log_index1, last_log_term1),
        request_vote_post(s1, s2, r2, term, c2, last_log_index2, last_log_term2),
        r1.granted,
        r2.granted,
    ensures
        c1 == c2,
{
}

/// A batch of entries continues the log densely after `prev`: the k-th
/// entry of the batch carries index `prev + 1 + k`.
pub open spec fn entries_dense_after(entries: Seq<Command>, prev: nat) -> bool {
    forall|k: int| 0 <= k < entries.len() ==> #[trigger] entries[k].index == prev + 1 + k
}

/// Whether a candidate's log, summarised by the term and index of its
/// last entry, is at least as up to date as `log`.
fn log_up_to_date_check(log: &Vec<Command>, last_log_term: usize, last_log_index: usize) -> (b:
    bool)
    ensures
        b == up_to_date(log@, last_log_term as nat, last_log_index as nat),
{
    let n = log.len();
    if n == 0 {
        true
    } else {
        let own_last_term = log[n - 1].term;
        last_log_term > own_last_term || (last_log_term == own_last_term && last_log_index >= n)
    }
}

/// The AppendEntries consistency check, executably.
fn prev_check(log: &Vec<Command>, prev_log_index: usize, prev_log_term: usize) -> (b: bool)
    ensures
        b == prev_ok(log@, prev_log_index as nat, prev_log_term as nat),
{
    prev_log_index == 0 || (prev_log_index <= log.len() && log[prev_log_index - 1].term
        == prev_log_term)
}

impl ServerMode {
    /// Answer a RequestVote call and produce the next role state.
    pub fn request_vote_rpc(
        self,
        candidate_term: usize,
        candidate_id: NodeId,
        last_log_index: usize,
        last_log_term: usize,
    ) -> (r: (RequestVoteRes, ServerMode))
        requires
            self.wf(),
        ensures
            request_vote_post(
                self,
                r.1,
                r.0,
                candidate_term as nat,
                candidate_id,
                last_log_index as nat,
                last_log_term as nat,
            ),
            r.1.wf(),
            r.1.term() >= self.term(),
            r.1.log() == self.log(),
            r.1.commit() == self.commit(),
    {
        let my_term = self.get_term();
        if candidate_term < my_term {
            return (RequestVoteRes { term: my_term, granted: false }, self);
        }
        // A strictly higher term is adopted first, forgetting the old
        // vote and stepping down to Follower.
        let mut next = if candidate_term > my_term {
            let mut common = self.into_common();
            common.current_term = candidate_term;
            common.voted_for = None;
            ServerMode::Follower(FollowerMode { common_state: common })
        } else {
            self
        };
        let granted = {
            let eligible = match next.get_voted_for() {
                None => true,
                Some(v) => v == candidate_id,
            };
            let log_ok = match &next {
                ServerMode::Follower(f) => log_up_to_date_check(
                    &f.common_state.log,
                    last_log_term,
                    last_log_index,
                ),
                ServerMode::Candidate(c) => log_up_to_date_check(
                    &c.common_state.log,
                    last_log_term,
                    last_log_index,
                ),
                ServerMode::Leader(l) => log_up_to_date_check(
                    &l.common_state.log,
                    last_log_term,
                    last_log_index,
                ),
            };
            eligible && log_ok
        };
        if granted {
            next.set_voted_for(candidate_id);
        }
        (RequestVoteRes { term: next.get_term(), granted }, next)
    }

    /// Answer an AppendEntries call and produce the next role state.
    ///
    /// The batch must continue the log densely after `prev_log_index`,
    /// and must be short enough for every position it creates to fit the
    /// machine's counters; callers check both before calling.
    #[allow(unused_variables)]
    pub fn append_entries_rpc(
        self,
        leader_term: usize,
        leader_id: NodeId,
        prev_log_index: usize,
        prev_log_term: usize,
        entries: Vec<Command>,
        leader_commit: i64,
    ) -> (r: (AppendEntriesRes, ServerMode))
        requires
            self.wf(),
            entries_dense_after(entries@, prev_log_index as nat),
            prev_log_index + entries@.len() <= MAX_LOG_LEN,
            prev_log_index + entries@.len() < usize::MAX,
        ensures
            append_entries_post(
                self,
                r.1,
                r.0,
                leader_term as nat,
                prev_log_index as nat,
                prev_log_term as nat,
                entries@,
                leader_commit as int,
            ),
            r.1.wf(),
            r.1.term() >= self.term(),
            r.1.commit() >= self.commit(),
            r.1 is Leader ==> r.1.log() == self.log(),
    {
        let my_term = self.get_term();
        if leader_term < my_term {
            return (AppendEntriesRes { term: my_term, success: false }, self);
        }
        // The leader's term is current or newer: adopt it (forgetting the
        // old vote if it is strictly newer) and stand as Follower.
        let mut common = self.into_common();
        if leader_term > common.current_term {
            common.current_term = leader_term;
            common.voted_for = None;
        }
        if !prev_check(&common.log, prev_log_index, prev_log_term) {
            let term_now = common.current_term;
            return (
                AppendEntriesRes { term: term_now, success: false },
                ServerMode::Follower(FollowerMode { common_state: common }),
            );
        }
        let ghost base = common;
        let ghost pre_log = common.log@;
        // Find the first offset where the batch stops agreeing with what
        // is already in the log.
        let mut k: usize = 0;
        while k < entries.len() && prev_log_index + k < common.log.len() && common.log[prev_log_index
            + k].term == entries[k].term
            invariant
                k <= entries@.len(),
                prev_log_index + entries@.len() <= usize::MAX,
                common.log@ == pre_log,
                prev_log_index + k <= pre_log.len(),
                divergence(pre_log, entries@, prev_log_index as nat, k as nat) == divergence(
                    pre_log,
                    entries@,
                    prev_log_index as nat,
                    0,
                ),
            decreases entries@.len() - k,
        {
            k = k + 1;
        }
        let ghost d = divergence(pre_log, entries@, prev_log_index as nat, 0);
        proof {
            assert(d == k);
        }
        if k < entries.len() {
            let conflict_pos = prev_log_index + k;
            if conflict_pos < common.log.len() && (conflict_pos as i64) <= common.commit_index {
                // The first disagreement is a term conflict at an entry
                // this node has already committed. A leader this node can
                // follow never rewrites committed entries, so the call is
                // refused rather than letting it destroy them.
                let term_now = common.current_term;
                return (
                    AppendEntriesRes { term: term_now, success: false },
                    ServerMode::Follower(FollowerMode { common_state: common }),
                );
            }
            // Drop everything from the first disagreement on, then take
            // the leader's entries from there.
            common.log.truncate(conflict_pos);
            proof {
                assert(pre_log.len() >= prev_log_index + k);
                assert(common.log@ == pre_log.take((prev_log_index + k) as int));
            }
            let mut j: usize = k;
            while j < entries.len()
                invariant
                    k <= j <= entries@.len(),
                    prev_log_index + entries@.len() <= usize::MAX,
                    common.current_term == base.current_term,
                    common.voted_for == base.voted_for,
                    common.commit_index == base.commit_index,
                    common.last_applied == base.last_applied,
                    common.log@ == pre_log.take((prev_log_index + k) as int) + entries@.subrange(
                        k as int,
                        j as int,
                    ),
                decreases entries@.len() - j,
            {
                common.log.push(entries[j].duplicate());
                proof {
                    assert(common.log@ =~= pre_log.take((prev_log_index + k) as int)
                        + entries@.subrange(k as int, j + 1));
                }
                j = j + 1;
            }
            proof {
                assert(entries@.subrange(k as int, entries@.len() as int) =~= entries@.skip(
                    k as int,
                ));
                assert(common.log@ == merged_log(pre_log, entries@, prev_log_index as nat));
            }
        } else {
            proof {
                assert(common.log@ == merged_log(pre_log, entries@, prev_log_index as nat));
            }
        }
        // Learn the leader's commit position, capped at the last position
        // this call vouched for.
        let covered = prev_log_index + entries.len();
        let last_covered: i64 = (covered as i64) - 1;
        let capped = if leader_commit <= last_covered {
            leader_commit
        } else {
            last_covered
        };
        if capped > common.commit_index {
            common.commit_index = capped;
        }
        proof {
            assert(log_dense(common.log@));
        }
        let term_now = common.current_term;
        (
            AppendEntriesRes { term: term_now, success: true },
            ServerMode::Follower(FollowerMode { common_state: common }),
        )
    }
}

} // verus!
