//! Error kinds surfaced by the pipeline.

use vstd::prelude::*;

verus! {

/// The failure kinds of the transfer submission pipeline.
///
/// Validation failures (seed, address, balance) are detected before any
/// CPU-bound or network-bound work begins; network kinds are produced by the
/// transport layer around the library.
#[derive(Clone, Copy, PartialEq, Eq, Structural, Debug)]
pub enum Error {
    /// The seed encoding is malformed.
    InvalidSeed,
    /// An address, tag, fragment or tail hash has the wrong shape.
    InvalidAddress,
    /// No seed was configured before `send`.
    MissingSeed,
    /// The requested transfers exceed the available input balance.
    InsufficientBalance,
    /// The proof-of-work difficulty is out of range, a tip hash is malformed,
    /// or no nonce could be found.
    Attachment,
    /// Key derivation was asked for an unsupported index or security level.
    Derivation,
    /// The node transport failed; raised by the layer around the library.
    Network,
    /// A request or response had a malformed shape: an empty transfer list,
    /// or a wire value the layer around the library could not decode.
    Serialization,
}

impl Error {
    /// A short stable name for the error kind.
    pub fn name(&self) -> (r: &'static str)
        ensures
            self is InvalidSeed ==> r@ == "invalid seed"@,
            self is InvalidAddress ==> r@ == "invalid address"@,
            self is MissingSeed ==> r@ == "missing seed"@,
            self is InsufficientBalance ==> r@ == "insufficient balance"@,
            self is Attachment ==> r@ == "attachment"@,
            self is Derivation ==> r@ == "derivation"@,
            self is Network ==> r@ == "network"@,
            self is Serialization ==> r@ == "serialization"@,
    {
        match self {
            Error::InvalidSeed => "invalid seed",
            Error::InvalidAddress => "invalid address",
            Error::MissingSeed => "missing seed",
            Error::InsufficientBalance => "insufficient balance",
            Error::Attachment => "attachment",
            Error::Derivation => "derivation",
            Error::Network => "network",
            Error::Serialization => "serialization",
        }
    }
}

} // verus!
