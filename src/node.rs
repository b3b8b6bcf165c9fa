//! Identifiers of remote peers.
use vstd::prelude::*;

verus! {

/// Identifies a remote peer, independently of the reactor handle that a
/// connection to it holds.
#[derive(Debug, Clone, Copy, PartialEq, Eq, Structural, Hash, PartialOrd, Ord)]
pub struct PeerId(pub u64);

} // verus!
