//! One node of the cluster: owns the role state machine plus the
//! election-timer bookkeeping and the peer list, and re-validates every
//! peer response against the state it finds on arrival.
//!
//! The node itself does no I/O and reads no clock: callers deliver RPCs
//! and responses as plain values together with the current time in
//! milliseconds, and send out the request values these methods return.

use vstd::prelude::*;
use crate::command::Command;
use crate::states::candidate::begin_election_post;
use crate::states::candidate::vote_response_post;
use crate::states::follower::election_due;
use crate::states::follower::election_due_check;
use crate::states::follower::FollowerMode;
use crate::states::leader::append_response_post;
use crate::states::leader::replication_req_ok;
use crate::states::states::append_entries_post;
use crate::states::states::entries_dense_after;
use crate::states::states::last_index_of;
use crate::states::states::last_term_of;
use crate::states::states::request_vote_post;
use crate::states::states::AppendEntriesReq;
use crate::states::states::AppendEntriesRes;
use crate::states::states::NodeId;
use crate::states::states::RequestVoteReq;
use crate::states::states::RequestVoteRes;
use crate::states::states::ServerMode;
use crate::states::states::MAX_LOG_LEN;

verus! {

/// The shortest election timeout a node may roll, in milliseconds.
pub const ELECTION_TIMEOUT_MIN_MS: u64 = 150;

/// The longest election timeout a node may roll, in milliseconds.
pub const ELECTION_TIMEOUT_MAX_MS: u64 = 300;

/// Relies on `rand::thread_rng` and `rand::Rng::gen_range`: a sample
/// from a non-empty closed range lies within its bounds. The draw is
/// random, so nothing more is promised.
#[verifier::external_body]
fn roll_election_timeout() -> (r: u64)
    ensures
        ELECTION_TIMEOUT_MIN_MS <= r <= ELECTION_TIMEOUT_MAX_MS,
{
    rand::Rng::gen_range(
        &mut rand::thread_rng(),
        ELECTION_TIMEOUT_MIN_MS..=ELECTION_TIMEOUT_MAX_MS,
    )
}

/// A freshly rolled election timeout, randomized so that nodes whose
/// timers expire together do not keep splitting the vote.
pub fn fresh_election_timeout() -> (r: u64)
    ensures
        ELECTION_TIMEOUT_MIN_MS <= r <= ELECTION_TIMEOUT_MAX_MS,
{
    roll_election_timeout()
}

/// One consensus participant. All of a node's state sits behind one
/// exclusive-access boundary: callers serialize every RPC delivery,
/// response application and timer check.
pub struct Server {
    /// This node's identifier, unique in the cluster.
    pub id: NodeId,
    /// The role state machine, replaced wholesale on every transition.
    pub mode: ServerMode,
    /// The other members of the cluster, as opaque identifiers; the
    /// transport resolves them to addresses.
    pub peers: Vec<NodeId>,
    /// The rolled election timeout, re-rolled on every entry into
    /// Follower or Candidate.
    pub election_timeout_ms: u64,
    /// When a current-term leader was last heard from (also re-armed by
    /// granting a vote), in the caller's clock's milliseconds.
    pub last_heartbeat: Option<u64>,
}

impl Server {
    /// Well-formedness: the role's own, a duplicate-free peer list that
    /// does not contain this node, a timeout within the rolled range,
    /// leader bookkeeping sized to the peer list, and votes counted only
    /// from cluster members.
    pub open spec fn wf(&self) -> bool {
        &&& self.mode.wf()
        &&& self.peers@.no_duplicates()
        &&& !self.peers@.contains(self.id)
        &&& self.peers@.len() < usize::MAX
        &&& ELECTION_TIMEOUT_MIN_MS <= self.election_timeout_ms <= ELECTION_TIMEOUT_MAX_MS
        &&& (self.mode matches ServerMode::Leader(l) ==> l.next_index@.len() == self.peers@.len())
        &&& (self.mode matches ServerMode::Candidate(c) ==> c.votes().subset_of(
            self.peers@.to_set().insert(self.id),
        ))
    }

    /// Everything of the node but the role state machine is unchanged.
    pub open spec fn same_but_mode(&self, other: &Server) -> bool {
        &&& self.id == other.id
        &&& self.peers == other.peers
        &&& self.election_timeout_ms == other.election_timeout_ms
        &&& self.last_heartbeat == other.last_heartbeat
    }

    /// A new node: a Follower at term 0 with an empty log, knowing its
    /// peers, with a freshly rolled election timeout and no leader heard
    /// from yet.
    pub fn new(id: NodeId, peers: Vec<NodeId>) -> (s: Server)
        requires
            peers@.no_duplicates(),
            !peers@.contains(id),
            peers@.len() < usize::MAX,
        ensures
            s.wf(),
            s.id == id,
            s.peers == peers,
            s.mode is Follower,
            s.mode.term() == 0,
            s.mode.voted() is None,
            s.mode.log().len() == 0,
            s.mode.commit() == -1,
            s.mode.applied() == -1,
            s.last_heartbeat is None,
    {
        Server {
            id,
            mode: ServerMode::Follower(FollowerMode::new()),
            peers,
            election_timeout_ms: fresh_election_timeout(),
            last_heartbeat: None,
        }
    }

    /// Deliver a RequestVote call. Granting the vote re-arms the
    /// election timer; entering Follower from another role re-rolls the
    /// timeout.
    pub fn request_vote(
        &mut self,
        now_ms: u64,
        candidate_term: usize,
        candidate_id: NodeId,
        last_log_index: usize,
        last_log_term: usize,
    ) -> (res: RequestVoteRes)
        requires
            old(self).wf(),
        ensures
            final(self).wf(),
            request_vote_post(
                old(self).mode,
                final(self).mode,
                res,
                candidate_term as nat,
                candidate_id,
                last_log_index as nat,
                last_log_term as nat,
            ),
            final(self).id == old(self).id,
            final(self).peers == old(self).peers,
            res.granted ==> final(self).last_heartbeat == Some(now_ms),
            !res.granted ==> final(self).last_heartbeat == old(self).last_heartbeat,
            (old(self).mode is Follower || !(final(self).mode is Follower)) ==> final(self).election_timeout_ms == old(self).election_timeout_ms,
    {
        let mut mode = ServerMode::Follower(FollowerMode::new());
        core::mem::swap(&mut self.mode, &mut mode);
        let was_follower = match &mode {
            ServerMode::Follower(_) => true,
            _ => false,
        };
        let (res, next) = mode.request_vote_rpc(
            candidate_term,
            candidate_id,
            last_log_index,
            last_log_term,
        );
        self.mode = next;
        if res.granted {
            self.last_heartbeat = Some(now_ms);
        }
        let now_follower = match &self.mode {
            ServerMode::Follower(_) => true,
            _ => false,
        };
        if !was_follower && now_follower {
            self.election_timeout_ms = fresh_election_timeout();
        }
        res
    }

    /// Deliver an AppendEntries call. A call from a current-or-newer
    /// term leader records the contact time (even when its batch is
    /// refused); entering Follower from another role re-rolls the
    /// timeout.
    pub fn append_entries(
        &mut self,
        now_ms: u64,
        leader_term: usize,
        leader_id: NodeId,
        prev_log_index: usize,
        prev_log_term: usize,
        entries: Vec<Command>,
        leader_commit: i64,
    ) -> (res: AppendEntriesRes)
        requires
            old(self).wf(),
            entries_dense_after(entries@, prev_log_index as nat),
            prev_log_index + entries@.len() <= MAX_LOG_LEN,
            prev_log_index + entries@.len() < usize::MAX,
        ensures
            final(self).wf(),
            append_entries_post(
                old(self).mode,
                final(self).mode,
                res,
                leader_term as nat,
                prev_log_index as nat,
                prev_log_term as nat,
                entries@,
                leader_commit as int,
            ),
            final(self).id == old(self).id,
            final(self).peers == old(self).peers,
            leader_term >= old(self).mode.term() ==> final(self).last_heartbeat == Some(now_ms),
            leader_term < old(self).mode.term() ==> final(self).last_heartbeat == old(self).last_heartbeat,
            (old(self).mode is Follower || !(final(self).mode is Follower)) ==> final(self).election_timeout_ms == old(self).election_timeout_ms,
    {
        let mut mode = ServerMode::Follower(FollowerMode::new());
        core::mem::swap(&mut self.mode, &mut mode);
        let was_follower = match &mode {
            ServerMode::Follower(_) => true,
            _ => false,
        };
        let heard = leader_term >= mode.get_term();
        let (res, next) = mode.append_entries_rpc(
            leader_term,
            leader_id,
            prev_log_index,
            prev_log_term,
            entries,
            leader_commit,
        );
        self.mode = next;
        if heard {
            self.last_heartbeat = Some(now_ms);
        }
        let now_follower = match &self.mode {
            ServerMode::Follower(_) => true,
            _ => false,
        };
        if !was_follower && now_follower {
            self.election_timeout_ms = fresh_election_timeout();
        }
        res
    }

    /// Start an election (unless this node leads already): move to the
    /// next term as a Candidate with a fresh timeout, and hand back the
    /// vote request to fan out to every peer.
    pub fn begin_election(&mut self) -> (req: Option<RequestVoteReq>)
        requires
            old(self).wf(),
            old(self).mode.term() < usize::MAX,
        ensures
            final(self).wf(),
            begin_election_post(old(self).mode, final(self).mode, old(self).id),
            final(self).id == old(self).id,
            final(self).peers == old(self).peers,
            final(self).last_heartbeat == old(self).last_heartbeat,
            old(self).mode is Leader ==> req is None && final(self).election_timeout_ms == old(self).election_timeout_ms,
            !(old(self).mode is Leader) ==> (req matches Some(r) && r.term == final(self).mode.term() && r.candidate_id == old(self).id && r.last_log_index == last_index_of(
                old(self).mode.log(),
            ) && r.last_log_term == last_term_of(old(self).mode.log())),
    {
        let mut mode = ServerMode::Follower(FollowerMode::new());
        core::mem::swap(&mut self.mode, &mut mode);
        let is_leader = match &mode {
            ServerMode::Leader(_) => true,
            _ => false,
        };
        let (last_log_index, last_log_term) = mode.last_log_info();
        let next = mode.begin_election(self.id);
        let term = next.get_term();
        self.mode = next;
        if is_leader {
            None
        } else {
            self.election_timeout_ms = fresh_election_timeout();
            Some(
                RequestVoteReq {
                    term,
                    candidate_id: self.id,
                    last_log_index,
                    last_log_term,
                },
            )
        }
    }

    /// The periodic timer check: a Follower or Candidate whose election
    /// timer has expired starts an election; a Leader never times itself
    /// out (its cadence instead drives `replication_requests`).
    pub fn check_heatbeat(&mut self, now_ms: u64) -> (req: Option<RequestVoteReq>)
        requires
            old(self).wf(),
            old(self).mode.term() < usize::MAX,
        ensures
            final(self).wf(),
            final(self).id == old(self).id,
            final(self).peers == old(self).peers,
            final(self).last_heartbeat == old(self).last_heartbeat,
            (old(self).mode is Leader || !election_due(
                old(self).last_heartbeat,
                old(self).election_timeout_ms,
                now_ms,
            )) ==> (req is None && final(self).mode == old(self).mode && final(self).election_timeout_ms == old(self).election_timeout_ms),
            (!(old(self).mode is Leader) && election_due(
                old(self).last_heartbeat,
                old(self).election_timeout_ms,
                now_ms,
            )) ==> ({
                &&& begin_election_post(old(self).mode, final(self).mode, old(self).id)
                &&& req matches Some(r)
                &&& r.term == final(self).mode.term()
                &&& r.candidate_id == old(self).id
                &&& r.last_log_index == last_index_of(old(self).mode.log())
                &&& r.last_log_term == last_term_of(old(self).mode.log())
            }),
    {
        let due = election_due_check(self.last_heartbeat, self.election_timeout_ms, now_ms);
        let is_leader = match &self.mode {
            ServerMode::Leader(_) => true,
            _ => false,
        };
        if !is_leader && due {
            self.begin_election()
        } else {
            None
        }
    }

    /// Apply one peer's RequestVote response. Completing a majority
    /// makes this node the Leader; a response revealing a newer term
    /// makes it a Follower with a fresh timeout.
    pub fn handle_vote_response(&mut self, voter: NodeId, term: usize, granted: bool)
        requires
            old(self).wf(),
        ensures
            final(self).wf(),
            vote_response_post(
                old(self).mode,
                final(self).mode,
                old(self).peers@,
                voter,
                term as nat,
                granted,
            ),
            final(self).id == old(self).id,
            final(self).peers == old(self).peers,
            final(self).last_heartbeat == old(self).last_heartbeat,
            (old(self).mode is Follower || !(final(self).mode is Follower)) ==> final(self).election_timeout_ms == old(self).election_timeout_ms,
    {
        let mut mode = ServerMode::Follower(FollowerMode::new());
        core::mem::swap(&mut self.mode, &mut mode);
        let was_follower = match &mode {
            ServerMode::Follower(_) => true,
            _ => false,
        };
        let next = mode.handle_vote_response(&self.peers, voter, term, granted);
        self.mode = next;
        let now_follower = match &self.mode {
            ServerMode::Follower(_) => true,
            _ => false,
        };
        if !was_follower && now_follower {
            self.election_timeout_ms = fresh_election_timeout();
        }
    }

    /// One replication cycle's fan-out: a request per peer when this
    /// node leads, nothing otherwise. Runs on the leader's heartbeat
    /// cadence, which is kept shorter than any election timeout.
    pub fn replication_requests(&self) -> (reqs: Vec<AppendEntriesReq>)
        requires
            self.wf(),
        ensures
            self.mode matches ServerMode::Leader(l) ==> (reqs@.len() == self.peers@.len()
                && (forall|i: int|
                0 <= i < reqs@.len() ==> replication_req_ok(l, self.id, #[trigger] reqs@[i], i))
                && (forall|i: int|
                0 <= i < reqs@.len() ==> entries_dense_after(
                    (#[trigger] reqs@[i]).entries@,
                    reqs@[i].prev_log_index as nat,
                )) && (forall|i: int|
                0 <= i < reqs@.len() ==> (#[trigger] reqs@[i]).prev_log_index
                    + reqs@[i].entries@.len() == self.mode.log().len())),
            !(self.mode is Leader) ==> reqs@.len() == 0,
    {
        match &self.mode {
            ServerMode::Leader(l) => l.replication_requests(self.id),
            _ => Vec::new(),
        }
    }

    /// Apply one peer's AppendEntries response; `prev_sent` and
    /// `sent_count` echo the request it answers. A response from an
    /// unknown peer is discarded; one revealing a newer term makes this
    /// node a Follower with a fresh timeout.
    pub fn handle_append_response(
        &mut self,
        peer: NodeId,
        term: usize,
        success: bool,
        prev_sent: usize,
        sent_count: usize,
    )
        requires
            old(self).wf(),
        ensures
            final(self).wf(),
            final(self).id == old(self).id,
            final(self).peers == old(self).peers,
            final(self).last_heartbeat == old(self).last_heartbeat,
            forall|i: int|
                0 <= i < old(self).peers@.len() && old(self).peers@[i] == peer
                    ==> append_response_post(
                    old(self).mode,
                    final(self).mode,
                    i,
                    term as nat,
                    success,
                    prev_sent,
                    sent_count,
                ),
            !old(self).peers@.contains(peer) ==> final(self).mode == old(self).mode,
            (old(self).mode is Follower || !(final(self).mode is Follower)) ==> final(self).election_timeout_ms == old(self).election_timeout_ms,
    {
        let found = index_of_peer(&self.peers, peer);
        match found {
            None => (),
            Some(peer_idx) => {
                let mut mode = ServerMode::Follower(FollowerMode::new());
                core::mem::swap(&mut self.mode, &mut mode);
                let was_follower = match &mode {
                    ServerMode::Follower(_) => true,
                    _ => false,
                };
                let next = mode.handle_append_response(
                    peer_idx,
                    term,
                    success,
                    prev_sent,
                    sent_count,
                );
                self.mode = next;
                let now_follower = match &self.mode {
                    ServerMode::Follower(_) => true,
                    _ => false,
                };
                if !was_follower && now_follower {
                    self.election_timeout_ms = fresh_election_timeout();
                }
            },
        }
    }

    /// Hand out the next committed-but-unapplied entry, advancing
    /// `last_applied`; the external apply hook thus sees each index
    /// exactly once, in increasing order.
    pub fn take_next_to_apply(&mut self) -> (r: Option<Command>)
        requires
            old(self).wf(),
        ensures
            final(self).wf(),
            old(self).mode.applied() < old(self).mode.commit() ==> (r matches Some(c) && c == old(self).mode.log()[old(self).mode.applied() + 1] && final(self).mode.applied() == old(self).mode.applied() + 1),
            old(self).mode.applied() >= old(self).mode.commit() ==> (r is None && final(self).mode.applied() == old(self).mode.applied()),
            final(self).mode.term() == old(self).mode.term(),
            final(self).mode.voted() == old(self).mode.voted(),
            final(self).mode.log() == old(self).mode.log(),
            final(self).mode.commit() == old(self).mode.commit(),
            crate::states::states::same_role_data(old(self).mode, final(self).mode),
            final(self).same_but_mode(&*old(self)),
    {
        match &mut self.mode {
            ServerMode::Follower(f) => f.common_state.advance_applied(),
            ServerMode::Candidate(c) => c.common_state.advance_applied(),
            ServerMode::Leader(l) => l.common_state.advance_applied(),
        }
    }
}

/// One transition of the role state machine, by any of its entry
/// points: an RPC delivery, a response application, an election start
/// (also on behalf of the timer check), the apply hook's advance, or
/// leaving the state alone.
pub open spec fn protocol_step(pre: ServerMode, next: ServerMode) -> bool {
    ||| (exists|a: (RequestVoteRes, nat, NodeId, nat, nat)|
        request_vote_post(pre, next, a.0, a.1, a.2, a.3, a.4))
    ||| (exists|a: (AppendEntriesRes, nat, nat, nat, Seq<Command>, int)|
        append_entries_post(pre, next, a.0, a.1, a.2, a.3, a.4, a.5))
    ||| (exists|id: NodeId| begin_election_post(pre, next, id))
    ||| (exists|a: (Seq<NodeId>, NodeId, nat, bool)|
        vote_response_post(pre, next, a.0, a.1, a.2, a.3))
    ||| (exists|a: (int, nat, bool, usize, usize)|
        append_response_post(pre, next, a.0, a.1, a.2, a.3, a.4))
    ||| (next.term() == pre.term() && next.voted() == pre.voted() && next.log() == pre.log()
        && next.commit() == pre.commit())
}

/// Commit monotonicity: over a node's entire run — any sequence of
/// protocol steps — its commit position never decreases; nor does its
/// term.
pub proof fn lemma_commit_monotonic(pre: ServerMode, next: ServerMode)
    requires
        protocol_step(pre, next),
    ensures
        next.commit() >= pre.commit(),
        next.term() >= pre.term(),
{
    if exists|a: (RequestVoteRes, nat, NodeId, nat, nat)|
        request_vote_post(pre, next, a.0, a.1, a.2, a.3, a.4) {
        let a = choose|a: (RequestVoteRes, nat, NodeId, nat, nat)|
            request_vote_post(pre, next, a.0, a.1, a.2, a.3, a.4);
    } else if exists|a: (AppendEntriesRes, nat, nat, nat, Seq<Command>, int)|
        append_entries_post(pre, next, a.0, a.1, a.2, a.3, a.4, a.5) {
        let a = choose|a: (AppendEntriesRes, nat, nat, nat, Seq<Command>, int)|
            append_entries_post(pre, next, a.0, a.1, a.2, a.3, a.4, a.5);
    } else if exists|id: NodeId| begin_election_post(pre, next, id) {
        let id = choose|id: NodeId| begin_election_post(pre, next, id);
    } else if exists|a: (Seq<NodeId>, NodeId, nat, bool)|
        vote_response_post(pre, next, a.0, a.1, a.2, a.3) {
        let a = choose|a: (Seq<NodeId>, NodeId, nat, bool)|
            vote_response_post(pre, next, a.0, a.1, a.2, a.3);
    } else if exists|a: (int, nat, bool, usize, usize)|
        append_response_post(pre, next, a.0, a.1, a.2, a.3, a.4) {
        let a = choose|a: (int, nat, bool, usize, usize)|
            append_response_post(pre, next, a.0, a.1, a.2, a.3, a.4);
    }
}

/// Leader append-only: no protocol step leaves a node in the Leader
/// role with a changed log — let alone a truncated one. A leader's log
/// changes only after it has stepped down.
pub proof fn lemma_leader_append_only(pre: ServerMode, next: ServerMode)
    requires
        protocol_step(pre, next),
        next is Leader,
    ensures
        next.log() == pre.log(),
{
    if exists|a: (RequestVoteRes, nat, NodeId, nat, nat)|
        request_vote_post(pre, next, a.0, a.1, a.2, a.3, a.4) {
        let a = choose|a: (RequestVoteRes, nat, NodeId, nat, nat)|
            request_vote_post(pre, next, a.0, a.1, a.2, a.3, a.4);
    } else if exists|a: (AppendEntriesRes, nat, nat, nat, Seq<Command>, int)|
        append_entries_post(pre, next, a.0, a.1, a.2, a.3, a.4, a.5) {
        let a = choose|a: (AppendEntriesRes, nat, nat, nat, Seq<Command>, int)|
            append_entries_post(pre, next, a.0, a.1, a.2, a.3, a.4, a.5);
    } else if exists|id: NodeId| begin_election_post(pre, next, id) {
        let id = choose|id: NodeId| begin_election_post(pre, next, id);
    } else if exists|a: (Seq<NodeId>, NodeId, nat, bool)|
        vote_response_post(pre, next, a.0, a.1, a.2, a.3) {
        let a = choose|a: (Seq<NodeId>, NodeId, nat, bool)|
            vote_response_post(pre, next, a.0, a.1, a.2, a.3);
    } else if exists|a: (int, nat, bool, usize, usize)|
        append_response_post(pre, next, a.0, a.1, a.2, a.3, a.4) {
        let a = choose|a: (int, nat, bool, usize, usize)|
            append_response_post(pre, next, a.0, a.1, a.2, a.3, a.4);
    }
}

/// A vote, once cast, stands for its whole term: a protocol step either
/// moves the node to a higher term or leaves the vote in place.
pub proof fn lemma_vote_stable(pre: ServerMode, next: ServerMode)
    requires
        protocol_step(pre, next),
        pre.voted() is Some,
        next.term() == pre.term(),
    ensures
        next.voted() == pre.voted(),
{
    if exists|a: (RequestVoteRes, nat, NodeId, nat, nat)|
        request_vote_post(pre, next, a.0, a.1, a.2, a.3, a.4) {
        let a = choose|a: (RequestVoteRes, nat, NodeId, nat, nat)|
            request_vote_post(pre, next, a.0, a.1, a.2, a.3, a.4);
    } else if exists|a: (AppendEntriesRes, nat, nat, nat, Seq<Command>, int)|
        append_entries_post(pre, next, a.0, a.1, a.2, a.3, a.4, a.5) {
        let a = choose|a: (AppendEntriesRes, nat, nat, nat, Seq<Command>, int)|
            append_entries_post(pre, next, a.0, a.1, a.2, a.3, a.4, a.5);
    } else if exists|id: NodeId| begin_election_post(pre, next, id) {
        let id = choose|id: NodeId| begin_election_post(pre, next, id);
    } else if exists|a: (Seq<NodeId>, NodeId, nat, bool)|
        vote_response_post(pre, next, a.0, a.1, a.2, a.3) {
        let a = choose|a: (Seq<NodeId>, NodeId, nat, bool)|
            vote_response_post(pre, next, a.0, a.1, a.2, a.3);
    } else if exists|a: (int, nat, bool, usize, usize)|
        append_response_post(pre, next, a.0, a.1, a.2, a.3, a.4) {
        let a = choose|a: (int, nat, bool, usize, usize)|
            append_response_post(pre, next, a.0, a.1, a.2, a.3, a.4);
    }
}

/// Where `peer` stands in the peer list, if it is known.
fn index_of_peer(peers: &Vec<NodeId>, peer: NodeId) -> (r: Option<usize>)
    ensures
        r matches Some(i) ==> 0 <= i < peers@.len() && peers@[i as int] == peer,
        r is None ==> !peers@.contains(peer),
{
    let mut i: usize = 0;
    while i < peers.len()
        invariant
            i <= peers@.len(),
            forall|j: int| 0 <= j < i ==> peers@[j] != peer,
        decreases peers@.len() - i,
    {
        if peers[i] == peer {
            return Some(i);
        }
        i = i + 1;
    }
    None
}

} // verus!
