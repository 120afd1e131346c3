//! A single node's side of a Raft-style leader-election and log-replication
//! protocol.
//!
//! The consensus state machine itself is verified: role transitions between
//! Follower, Candidate and Leader, term and vote bookkeeping, the
//! RequestVote and AppendEntries handlers with log matching and conflict
//! resolution, election timing decisions, and leader-side commit-index
//! advancement. Transport, durable storage and the clock are external
//! collaborators; the node hands them plain values and takes plain values
//! back.

pub mod command;
pub mod server;
pub mod states;
