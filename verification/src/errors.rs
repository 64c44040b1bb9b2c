//! Error taxonomy of the protocol core.

use vstd::prelude::*;

verus! {

/// Everything that can go wrong while constructing a prover or running the
/// protocol.  Constructor errors prevent construction; per-step errors abort
/// that party's run; `ChannelError` stands for a failed or closed transport,
/// which only the surrounding driver can observe.
#[derive(Debug, Clone, Copy, PartialEq, Eq, Structural)]
pub enum InternalError {
    /// The recomputed inner product does not match the stated target.
    BadWitnessOrInstance,
    /// The witness byte length differs from the problem dimension.
    BadWitnessLength,
    /// The weights length differs from the problem dimension.
    BadInstanceLength,
    /// The abort parameter is 64 or more bits.
    BadAbortParam,
    /// A challenge has the wrong length or holds an out-of-range index.
    BadChallengeLength,
    /// A message of the wrong step variant was received.
    ProtocolError,
    /// The underlying transport or channel closed or failed.
    ChannelError,
}

} // verus!
