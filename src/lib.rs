//! Laconic oblivious transfer over BLS12-381: a receiver commits once to a bit string,
//! and a sender can then run one 1-of-2 transfer per position against that commitment.
use vstd::prelude::*;

pub mod curve;
pub mod encap;
pub mod kzg;
pub mod ot;
pub mod scalar;
pub mod wire;

pub use encap::MSG_SIZE;
pub use kzg::{CommitmentKey, SetupError};
pub use ot::{LaconicOT, LaconicOTRecv, LaconicOTSender, Msg, OtError};
pub use scalar::Scalar;

verus! {

} // verus!
