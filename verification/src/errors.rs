//! The error taxonomy of the tool.
//!
//! Malformed operator input (`UnknownChain`, `InvalidAddress`,
//! `InvalidHexPayload`, `InvalidMatchingList`) is reported before any
//! network work is attempted. `QuoteFailed` and `SendFailed` are definite
//! dispatch failures; `ConfirmationTimeout` is the distinct, ambiguous
//! "unable to confirm" outcome (the transaction may still land).
//! `IndexerError` aborts a historical scan. `NewWalletGenerated` is not a
//! failure but a required-action signal: a fresh wallet must be funded
//! before it can pay for gas.

use vstd::prelude::*;

verus! {

#[derive(Debug, Clone, PartialEq, Eq)]
pub enum CliError {
    /// The chain name is not in the supported set.
    UnknownChain { name: String },
    /// The destination address is not hex of the account-address width.
    InvalidAddress { address: String },
    /// The message payload is not even-length hex.
    InvalidHexPayload,
    /// The matching-list text is not in the accepted grammar.
    InvalidMatchingList,
    /// The fee quote call failed.
    QuoteFailed,
    /// The dispatch transaction could not be submitted.
    SendFailed,
    /// The confirmation wait yielded no receipt; the transaction may
    /// still be mined later.
    ConfirmationTimeout,
    /// A chain's indexer failed while scanning.
    IndexerError { chain: String },
    /// A fresh wallet was generated and persisted; it holds the given
    /// 20-byte account address and must be funded before use.
    NewWalletGenerated { address: Vec<u8> },
}

} // verus!
