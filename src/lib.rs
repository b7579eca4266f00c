//! A multi-signature governance engine: a board of members proposes, signs and
//! performs actions once a quorum of current board members approves, with batches
//! that succeed or fail as a whole. Beside it, the configuration of a contract
//! deployer and the fee and limit rules of an initial token launch.

use vstd::prelude::*;

pub mod types;
pub mod action;
pub mod model;
pub mod identity;
pub mod state;
pub mod views;
pub mod propose;
pub mod sign;
pub mod perform;
pub mod discard;
pub mod laws;
pub mod config;
pub mod initial_launch;

verus! {

} // verus!
