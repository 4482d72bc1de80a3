//! A naming layer over a UTXO ledger: a short pronounceable identifier
//! ("gibbername") names the ledger coordinate of a genesis transaction, and
//! the chain of spends of the coin minted there ("custody chain") carries the
//! name's binding history in the auxiliary data of its outputs.
//!
//! The ledger itself is an external collaborator: callers fetch transactions
//! and hand them in as plain [`model::Tx`] values, and every decision made on
//! that data — identifier coding, genesis validation, custody-chain
//! resolution, wallet-instruction construction — is verified here.
use vstd::prelude::*;

pub mod model;
pub mod codec;
pub mod hexstr;
pub mod resolve;
pub mod commands;

verus! {

/// Every way a naming operation can fail.
#[derive(Debug, Clone, Copy, PartialEq, Eq, Structural)]
pub enum GibberError {
    /// The identifier does not decode to a coordinate the ledger can hold.
    InvalidIdentifier,
    /// No transaction exists at the decoded coordinate.
    NotFound,
    /// The genesis transaction does not carry the exact marker payload.
    BadMarker,
    /// The genesis transaction does not mint exactly one new coin of value 1.
    BadOutputs,
    /// The chain's final link did not re-mint the denomination: the name was
    /// deliberately deleted.
    Deleted,
    /// A non-final link lacks a continuing output: the chain data is
    /// internally inconsistent.
    BrokenChain,
    /// The live transaction feed ended before a confirmation was observed.
    FeedExhausted,
}

} // verus!
