//! Core of a HotStuff-style sequencing consensus protocol with a separate
//! data-availability committee.
//!
//! The crate models the replica kernel as verified state machines over plain
//! values: tagged vote data and commitments, certificates assembled from
//! stake-weighted signatures, the per-view vote accumulator, the three
//! exchange roles, the consensus view map, and the leader tasks that drive a
//! view from mempool to quorum certificate.  Network transport, storage and
//! timers are collaborators that a host program supplies; the kernel only
//! decides, and every decision carries a contract.

use vstd::prelude::*;

pub mod accumulator;
pub mod certificate;
pub mod codec;
pub mod commitment;
pub mod consensus;
pub mod da;
pub mod data;
pub mod election;
pub mod exchange;
pub mod message;
pub mod network;
pub mod signature;
pub mod wire;
pub mod wire_codec;

verus! {

/// A value of one of two kinds: the usual way the kernel says "not done
/// yet" (`Left`, carrying the updated state) or "done" (`Right`, carrying
/// the finished artifact).
pub enum Either<A, B> {
    /// The first kind.
    Left(A),
    /// The second kind.
    Right(B),
}

} // verus!
