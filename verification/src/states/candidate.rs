//! The Candidate role: starting elections, tallying votes, and taking
//! office on a majority.

use vstd::prelude::*;
use crate::states::follower::FollowerMode;
use crate::states::leader::LeaderMode;
use crate::states::states::CommonState;
use crate::states::states::NodeId;
use crate::states::states::ServerMode;

verus! {

/// A node running an election for `common_state.current_term`.
#[derive(Debug, Clone)]
pub struct CandidateMode {
    pub common_state: CommonState,
    /// The nodes that granted this candidate a vote for the term it is
    /// running, itself included; no identifier appears twice.
    pub votes_received: Vec<NodeId>,
}

impl CandidateMode {
    /// The votes collected so far, as a set.
    pub open spec fn votes(&self) -> Set<NodeId> {
        self.votes_received@.to_set()
    }

    /// No voter is counted twice.
    pub open spec fn wf(&self) -> bool {
        &&& self.common_state.wf()
        &&& self.votes_received@.no_duplicates()
    }
}

/// A strict majority of a cluster of `cluster_size` nodes.
pub open spec fn is_majority(count: int, cluster_size: int) -> bool {
    2 * count > cluster_size
}

/// Everything starting an election does: a Leader never starts one; any
/// other role moves to the next term as a Candidate, votes for itself,
/// and counts its own vote.
pub open spec fn begin_election_post(pre: ServerMode, next: ServerMode, self_id: NodeId) -> bool {
    &&& (pre is Leader ==> next == pre)
    &&& (!(pre is Leader) ==> {
        &&& next matches ServerMode::Candidate(c)
        &&& next.term() == pre.term() + 1
        &&& next.voted() == Some(self_id)
        &&& c.votes_received@ == seq![self_id]
        &&& next.log() == pre.log()
        &&& next.commit() == pre.commit()
        &&& next.applied() == pre.applied()
    })
}

/// Everything applying one RequestVote response does. A response
/// revealing a strictly higher term makes the node a Follower of that
/// term; a response is otherwise discarded unless the node is still a
/// Candidate for exactly the responder's term, the vote was granted, and
/// the voter is a known peer; a counted vote that completes a strict
/// majority of the cluster (peers plus this node) makes the node Leader,
/// expecting every peer to need the entry after its own last one and
/// knowing nothing replicated yet.
pub open spec fn vote_response_post(
    pre: ServerMode,
    next: ServerMode,
    peers: Seq<NodeId>,
    voter: NodeId,
    term: nat,
    granted: bool,
) -> bool {
    &&& (term > pre.term() ==> {
        &&& next is Follower
        &&& next.term() == term
        &&& next.voted() is None
        &&& next.log() == pre.log()
        &&& next.commit() == pre.commit()
        &&& next.applied() == pre.applied()
    })
    &&& (term < pre.term() ==> next == pre)
    &&& (term == pre.term() ==> {
        if !(pre matches ServerMode::Candidate(_)) || !granted || !peers.contains(voter) {
            next == pre
        } else {
            let c = pre->Candidate_0;
            let tally = if c.votes_received@.contains(voter) {
                c.votes_received@
            } else {
                c.votes_received@.push(voter)
            };
            if is_majority(tally.len() as int, (peers.len() + 1) as int) {
                &&& next matches ServerMode::Leader(l)
                &&& l.common_state == c.common_state
                &&& l.next_index@.len() == peers.len()
                &&& (forall|i: int|
                    0 <= i < peers.len() ==> #[trigger] l.next_index@[i] == pre.log().len() + 1)
                &&& l.match_index@.len() == peers.len()
                &&& (forall|i: int| 0 <= i < peers.len() ==> #[trigger] l.match_index@[i] == 0)
            } else {
                &&& next matches ServerMode::Candidate(c2)
                &&& c2.common_state == c.common_state
                &&& c2.votes_received@ == tally
            }
        }
    })
}

impl ServerMode {
    /// Start (or restart) an election: move to the next term as a
    /// Candidate, vote for self, and count that vote. A Leader never
    /// times itself out, so it never starts one.
    pub fn begin_election(self, self_id: NodeId) -> (next: ServerMode)
        requires
            self.wf(),
            self.term() < usize::MAX,
        ensures
            begin_election_post(self, next, self_id),
            next.wf(),
            next.term() >= self.term(),
            next.log() == self.log(),
            next.commit() == self.commit(),
            next is Leader ==> self is Leader,
    {
        match self {
            ServerMode::Leader(l) => ServerMode::Leader(l),
            other => {
                let mut common = other.into_common();
                common.current_term = common.current_term + 1;
                common.voted_for = Some(self_id);
                let mut votes: Vec<NodeId> = Vec::new();
                votes.push(self_id);
                proof {
                    assert(votes@.no_duplicates());
                }
                ServerMode::Candidate(CandidateMode { common_state: common, votes_received: votes })
            },
        }
    }

    /// Apply one peer's RequestVote response, re-validated against the
    /// node's current term and role at the moment it arrives.
    pub fn handle_vote_response(
        self,
        peers: &Vec<NodeId>,
        voter: NodeId,
        term: usize,
        granted: bool,
    ) -> (next: ServerMode)
        requires
            self.wf(),
            peers@.len() < usize::MAX,
            peers@.no_duplicates(),
        ensures
            vote_response_post(self, next, peers@, voter, term as nat, granted),
            next.wf(),
            next.term() >= self.term(),
            next.log() == self.log(),
            next.commit() == self.commit(),
            next is Leader && !(self is Leader) ==> (next->Leader_0.next_index@.len()
                == peers@.len() && next->Leader_0.match_index@.len() == peers@.len()),
            next is Candidate && self is Candidate ==> next->Candidate_0.votes().subset_of(
                self->Candidate_0.votes().insert(voter),
            ),
    {
        let my_term = self.get_term();
        if term > my_term {
            let mut common = self.into_common();
            common.current_term = term;
            common.voted_for = None;
            return ServerMode::Follower(FollowerMode { common_state: common });
        }
        if term < my_term || !granted {
            return self;
        }
        match self {
            ServerMode::Candidate(mut c) => {
                if !contains_id(peers, voter) {
                    return ServerMode::Candidate(c);
                }
                if !contains_id(&c.votes_received, voter) {
                    c.votes_received.push(voter);
                }
                let cluster_size = peers.len() + 1;
                if c.votes_received.len() > cluster_size / 2 {
                    proof {
                        assert(is_majority(
                            c.votes_received@.len() as int,
                            (peers@.len() + 1) as int,
                        ));
                    }
                    let own_log_len = c.common_state.log.len();
                    let peer_count = peers.len();
                    let next_index = filled(peer_count, own_log_len + 1);
                    let match_index = filled(peer_count, 0);
                    ServerMode::Leader(
                        LeaderMode { common_state: c.common_state, next_index, match_index },
                    )
                } else {
                    proof {
                        assert(!is_majority(
                            c.votes_received@.len() as int,
                            (peers@.len() + 1) as int,
                        ));
                    }
                    ServerMode::Candidate(c)
                }
            },
            other => other,
        }
    }
}

/// The tally a vote response leaves a candidate with: the voters
/// already counted, joined by the responder if it was not among them.
pub open spec fn vote_tally(pre: ServerMode, voter: NodeId) -> Seq<NodeId> {
    let c = pre->Candidate_0;
    if c.votes_received@.contains(voter) {
        c.votes_received@
    } else {
        c.votes_received@.push(voter)
    }
}

/// A node takes office only on a strict majority: whenever a vote
/// response turns a Candidate into the Leader, the tally that elected
/// it counts a duplicate-free set of cluster members of majority size —
/// exactly what `lemma_election_safety` assumes of each winner's
/// quorum.
pub proof fn lemma_take_office_requires_majority(
    pre: ServerMode,
    next: ServerMode,
    peers: Seq<NodeId>,
    voter: NodeId,
    term: nat,
    granted: bool,
)
    requires
        vote_response_post(pre, next, peers, voter, term, granted),
        pre matches ServerMode::Candidate(c) && c.votes_received@.no_duplicates(),
        next is Leader,
    ensures
        is_majority(vote_tally(pre, voter).len() as int, (peers.len() + 1) as int),
        vote_tally(pre, voter).no_duplicates(),
{
}

/// Two strict majorities of one finite cluster always share a member.
pub proof fn lemma_quorums_intersect(cluster: Set<NodeId>, q1: Set<NodeId>, q2: Set<NodeId>)
    requires
        cluster.finite(),
        q1.subset_of(cluster),
        q2.subset_of(cluster),
        is_majority(q1.len() as int, cluster.len() as int),
        is_majority(q2.len() as int, cluster.len() as int),
    ensures
        exists|v: NodeId| q1.contains(v) && q2.contains(v),
{
    vstd::set_lib::lemma_len_subset(q1, cluster);
    vstd::set_lib::lemma_len_subset(q2, cluster);
    if q1.disjoint(q2) {
        vstd::set_lib::lemma_set_disjoint_lens(q1, q2);
        vstd::set_lib::lemma_len_subset(q1 + q2, cluster);
        assert(false);
    }
}

/// Election safety: within one fixed term, at most one node can win an
/// election, whatever the message interleaving. A node takes office only
/// on a strict majority of votes (`vote_response_post`), each node
/// grants at most one vote per term (`request_vote_post` and
/// `lemma_vote_uniqueness`), so the votes cast in a term form a map from
/// voter to candidate; two winners' majorities would share a voter whose
/// single vote named them both.
pub proof fn lemma_election_safety(
    cluster: Set<NodeId>,
    votes: Map<NodeId, NodeId>,
    q1: Set<NodeId>,
    q2: Set<NodeId>,
    c1: NodeId,
    c2: NodeId,
)
    requires
        cluster.finite(),
        q1.subset_of(cluster),
        q2.subset_of(cluster),
        forall|v: NodeId| #[trigger] q1.contains(v) ==> votes.dom().contains(v) && votes[v] == c1,
        forall|v: NodeId| #[trigger] q2.contains(v) ==> votes.dom().contains(v) && votes[v] == c2,
        is_majority(q1.len() as int, cluster.len() as int),
        is_majority(q2.len() as int, cluster.len() as int),
    ensures
        c1 == c2,
{
    lemma_quorums_intersect(cluster, q1, q2);
    let v = choose|v: NodeId| q1.contains(v) && q2.contains(v);
    assert(votes[v] == c1);
    assert(votes[v] == c2);
}

/// Whether `ids` holds `x`.
fn contains_id(ids: &Vec<NodeId>, x: NodeId) -> (b: bool)
    ensures
        b == ids@.contains(x),
{
    let mut i: usize = 0;
    while i < ids.len()
        invariant
            i <= ids@.len(),
            forall|j: int| 0 <= j < i ==> ids@[j] != x,
        decreases ids@.len() - i,
    {
        if ids[i] == x {
            return true;
        }
        i = i + 1;
    }
    false
}

/// A vector of `n` copies of `value`.
fn filled(n: usize, value: usize) -> (v: Vec<usize>)
    ensures
        v@.len() == n,
        forall|i: int| 0 <= i < n ==> #[trigger] v@[i] == value,
{
    let mut v: Vec<usize> = Vec::new();
    let mut i: usize = 0;
    while i < n
        invariant
            i <= n,
            v@.len() == i,
            forall|j: int| 0 <= j < i ==> #[trigger] v@[j] == value,
        decreases n - i,
    {
        v.push(value);
        i = i + 1;
    }
    v
}

} // verus!
