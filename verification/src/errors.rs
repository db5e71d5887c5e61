use vstd::prelude::*;

verus! {

/// Failure to read hexadecimal text or an ABI-shaped value out of it.
#[derive(Debug, Clone, Copy, PartialEq, Eq, Structural)]
pub enum DecodeError {
    /// A character outside the hexadecimal alphabet was met.
    InvalidHex,
    /// The text does not have the length the shape asks for.
    BadLength,
}

/// Failure of the transport that carries a JSON-RPC exchange to a node.
#[derive(Debug, Clone)]
pub struct TransportError {
    pub message: String,
}

/// Which of the two on-chain lookup steps of a reverse resolution failed.
#[derive(Debug, Clone, Copy, PartialEq, Eq, Structural)]
pub enum ResolutionError {
    /// The registry call for the resolver contract failed or decoded badly.
    ResolverLookupFailed,
    /// The resolver call for the name failed or decoded badly.
    NameLookupFailed,
}

} // verus!
