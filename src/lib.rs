use vstd::prelude::*;

pub mod counting;
pub mod cord;
pub mod direction;
pub mod game;
pub mod laws;
pub mod layout;
pub mod model;
pub mod proofs;
pub mod queue;

verus! {

} // verus!
