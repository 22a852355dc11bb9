//! A threshold-signed, content-addressed append/merge log.
//!
//! The chain is a DAG of cryptographically linked blocks. Admission of a
//! candidate block is gated by weighted multi-signature authorization:
//! a `SignSettings` value pairs a weighted key set with per-action
//! threshold fractions, and the validator checks that the summed weight
//! of the valid signatures meets the threshold for the block's action.

pub mod as_types;
pub mod protocol;
pub mod codec;
pub mod store;
pub mod threshold;
pub mod validator;

use vstd::prelude::*;

verus! {

/// Why a candidate block (or a store operation) was rejected.
///
/// Rejections are local to the candidate: they never mutate the store.
#[derive(Clone, Copy, PartialEq, Eq, Structural, Debug)]
pub enum ChainError {
    /// The recomputed content digest differs from the claimed id.
    InvalidHash,
    /// A referenced predecessor digest is not present in the store.
    UnknownParent,
    /// The same digest maps to different canonical bytes: hash collision
    /// or corruption; fatal for that chain.
    DuplicateBlock,
    /// A zero-valued threshold fraction, an empty or duplicate key set,
    /// or a snapshot configuration that does not match the chain.
    InvalidConfig,
    /// A signature failed cryptographic verification; contributes zero
    /// weight but is not by itself fatal.
    InvalidSignature,
    /// The summed authorized weight is below the resolved threshold.
    ThresholdNotMet,
    /// A merge across divergently upgraded branches without an explicit
    /// configuration.
    MissingConfig,
    /// The block's shape breaks the data model: a merge with fewer than
    /// two parents, a snapshot whose anchor is not a snapshot or the
    /// genesis, or a second distinct genesis.
    MalformedBlock,
}

} // verus!
