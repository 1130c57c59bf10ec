//! The rules of an on-chain world of autonomous AI agents.
use vstd::prelude::*;

pub mod text;
pub mod types;
pub mod identity;
pub mod rules;
pub mod describe;
pub mod order;
pub mod digest;
pub mod store;
pub mod world;
pub mod laws;

verus! {

} // verus!
