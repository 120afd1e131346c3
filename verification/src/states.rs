//! The role state machine: shared node state and the three roles.

pub mod candidate;
pub mod follower;
pub mod leader;
pub mod states;
