use vstd::prelude::*;

verus! {

/// The identity of one connection: the resolved client address packed
/// into an integer, plus a per-server disambiguator, so that two
/// connections from the same address stay distinct. Immutable once
/// assigned, never reused while the counter has not wrapped.
#[derive(Debug, Clone, Copy, PartialEq, Eq, Hash, Structural)]
pub struct PeerId {
    /// The resolved client address (an IPv4 address in the low 32 bits,
    /// or a full IPv6 address).
    pub addr: u128,
    /// The server's disambiguating counter value at connection time.
    pub seq_no: u64,
}

} // verus!
