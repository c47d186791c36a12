//! The dispatch orchestrator's decisions.
//!
//! Sending a message is a fixed protocol: quote the fee for the
//! prospective message, submit the dispatch transaction with exactly
//! the quoted value attached, then wait for a confirmation depth. The
//! network work happens outside the library; this module fixes what is
//! submitted and how every network answer is classified. A missing
//! receipt is the ambiguous "unable to confirm" outcome, kept distinct
//! from a definite send failure: the transaction may still be mined.

use vstd::prelude::*;

use crate::codec::{
    domain_of, encode_recipient, decode_payload, payload_of, recipient_of, resolve_domain,
    valid_account_address, valid_hex_payload,
};
use crate::errors::CliError;

verus! {

/// Block-depth confirmations a dispatch transaction must reach.
pub const CONFIRMATION_DEPTH: u64 = 3;

/// Everything the transport contract is invoked with: both the fee
/// quote and the dispatch call take `(destination_domain, recipient,
/// body)`; the transaction is signed for the origin domain.
#[derive(Debug, Clone, PartialEq, Eq)]
pub struct DispatchRequest {
    pub origin_domain: u32,
    pub destination_domain: u32,
    pub recipient: Vec<u8>,
    pub body: Vec<u8>,
}

/// How a dispatch attempt ended.
#[derive(Debug, Clone, PartialEq, Eq)]
pub enum DispatchOutcome {
    /// The transaction reached the confirmation depth.
    Confirmed { tx_hash: Vec<u8> },
    /// The confirmation wait yielded no receipt; the transaction may
    /// still land later.
    Unconfirmed,
    /// The fee quote call failed; nothing was submitted.
    QuoteFailed,
    /// The dispatch transaction could not be submitted.
    SendFailed,
}

/// Where the protocol stands.
#[derive(Debug, Clone, PartialEq, Eq)]
pub enum DispatchState {
    /// Waiting for the fee quote.
    Quoting,
    /// Quote in hand; the dispatch call must attach exactly `value`.
    Sending { value: u128 },
    /// Submitted; waiting for the confirmation depth.
    Confirming { value: u128 },
    Done { outcome: DispatchOutcome },
}

/// What the network answered.
#[derive(Debug, Clone, PartialEq, Eq)]
pub enum DispatchEvent {
    QuoteReturned { value: u128 },
    QuoteErrored,
    SendAccepted,
    SendErrored,
    ReceiptReceived { tx_hash: Vec<u8> },
    ReceiptMissing,
}

/// What the caller must do next.
#[derive(Debug, Clone, PartialEq, Eq)]
pub enum DispatchAction {
    /// Submit the dispatch call with exactly `value` attached.
    SubmitWithValue { value: u128 },
    /// Wait until the transaction is `depth` blocks deep.
    AwaitConfirmations { depth: u64 },
    /// The protocol is over; report the outcome.
    Finish,
}

/// The transition relation of the dispatch protocol. `None` marks an
/// event that cannot answer the given state.
pub open spec fn dispatch_step_spec(s: DispatchState, e: DispatchEvent) -> Option<
    (DispatchState, DispatchAction),
> {
    match (s, e) {
        (DispatchState::Quoting, DispatchEvent::QuoteReturned { value }) => Some(
            (
                DispatchState::Sending { value },
                DispatchAction::SubmitWithValue { value },
            ),
        ),
        (DispatchState::Quoting, DispatchEvent::QuoteErrored) => Some(
            (
                DispatchState::Done { outcome: DispatchOutcome::QuoteFailed },
                DispatchAction::Finish,
            ),
        ),
        (DispatchState::Sending { value }, DispatchEvent::SendAccepted) => Some(
            (
                DispatchState::Confirming { value },
                DispatchAction::AwaitConfirmations { depth: CONFIRMATION_DEPTH },
            ),
        ),
        (DispatchState::Sending { value }, DispatchEvent::SendErrored) => Some(
            (
                DispatchState::Done { outcome: DispatchOutcome::SendFailed },
                DispatchAction::Finish,
            ),
        ),
        (DispatchState::Confirming { value }, DispatchEvent::ReceiptReceived { tx_hash }) => Some(
            (
                DispatchState::Done { outcome: DispatchOutcome::Confirmed { tx_hash } },
                DispatchAction::Finish,
            ),
        ),
        (DispatchState::Confirming { value }, DispatchEvent::ReceiptMissing) => Some(
            (
                DispatchState::Done { outcome: DispatchOutcome::Unconfirmed },
                DispatchAction::Finish,
            ),
        ),
        _ => None,
    }
}

/// Advances the dispatch protocol by one network answer.
pub fn dispatch_step(s: DispatchState, e: DispatchEvent) -> (r: Option<
    (DispatchState, DispatchAction),
>)
    ensures
        r == dispatch_step_spec(s, e),
{
    match (s, e) {
        (DispatchState::Quoting, DispatchEvent::QuoteReturned { value }) => Some(
            (
                DispatchState::Sending { value },
                DispatchAction::SubmitWithValue { value },
            ),
        ),
        (DispatchState::Quoting, DispatchEvent::QuoteErrored) => Some(
            (
                DispatchState::Done { outcome: DispatchOutcome::QuoteFailed },
                DispatchAction::Finish,
            ),
        ),
        (DispatchState::Sending { value }, DispatchEvent::SendAccepted) => Some(
            (
                DispatchState::Confirming { value },
                DispatchAction::AwaitConfirmations { depth: CONFIRMATION_DEPTH },
            ),
        ),
        (DispatchState::Sending { value: _ }, DispatchEvent::SendErrored) => Some(
            (
                DispatchState::Done { outcome: DispatchOutcome::SendFailed },
                DispatchAction::Finish,
            ),
        ),
        (DispatchState::Confirming { value: _ }, DispatchEvent::ReceiptReceived { tx_hash }) => {
            Some(
                (
                    DispatchState::Done { outcome: DispatchOutcome::Confirmed { tx_hash } },
                    DispatchAction::Finish,
                ),
            )
        },
        (DispatchState::Confirming { value: _ }, DispatchEvent::ReceiptMissing) => Some(
            (
                DispatchState::Done { outcome: DispatchOutcome::Unconfirmed },
                DispatchAction::Finish,
            ),
        ),
        _ => None,
    }
}

/// Turns a finished protocol's outcome into what the operator sees:
/// the transaction hash on confirmation, the distinct
/// `ConfirmationTimeout` when confirmation is merely ambiguous, and the
/// definite failures otherwise.
pub fn report_outcome(o: DispatchOutcome) -> (r: Result<Vec<u8>, CliError>)
    ensures
        match o {
            DispatchOutcome::Confirmed { tx_hash } => r == Ok::<Vec<u8>, CliError>(tx_hash),
            DispatchOutcome::Unconfirmed => r == Err::<Vec<u8>, CliError>(
                CliError::ConfirmationTimeout,
            ),
            DispatchOutcome::QuoteFailed => r == Err::<Vec<u8>, CliError>(CliError::QuoteFailed),
            DispatchOutcome::SendFailed => r == Err::<Vec<u8>, CliError>(CliError::SendFailed),
        },
{
    match o {
        DispatchOutcome::Confirmed { tx_hash } => Ok(tx_hash),
        DispatchOutcome::Unconfirmed => Err(CliError::ConfirmationTimeout),
        DispatchOutcome::QuoteFailed => Err(CliError::QuoteFailed),
        DispatchOutcome::SendFailed => Err(CliError::SendFailed),
    }
}

/// Resolves and encodes the operator's identifiers into the binary
/// request the contract calls take. Errors come in a fixed order:
/// unknown origin chain, unknown destination chain, bad destination
/// address, bad payload hex.
pub fn prepare_dispatch(
    origin_chain: &str,
    destination_chain: &str,
    destination_address: &str,
    message_hex: &str,
) -> (r: Result<DispatchRequest, CliError>)
    ensures
        match r {
            Ok(q) => {
                &&& domain_of(origin_chain@) == Some(q.origin_domain)
                &&& domain_of(destination_chain@) == Some(q.destination_domain)
                &&& valid_account_address(destination_address@)
                &&& q.recipient@ == recipient_of(destination_address@)
                &&& q.recipient@.len() == 32
                &&& valid_hex_payload(message_hex@)
                &&& q.body@ == payload_of(message_hex@)
            },
            Err(e) => {
                if domain_of(origin_chain@) is None {
                    e matches CliError::UnknownChain { name } && name@ == origin_chain@
                } else if domain_of(destination_chain@) is None {
                    e matches CliError::UnknownChain { name } && name@ == destination_chain@
                } else if !valid_account_address(destination_address@) {
                    e matches CliError::InvalidAddress { address } && address@
                        == destination_address@
                } else {
                    !valid_hex_payload(message_hex@) && e == CliError::InvalidHexPayload
                }
            },
        },
{
    let origin_domain = match resolve_domain(origin_chain) {
        Ok(d) => d,
        Err(e) => {
            return Err(e);
        },
    };
    let destination_domain = match resolve_domain(destination_chain) {
        Ok(d) => d,
        Err(e) => {
            return Err(e);
        },
    };
    let recipient = match encode_recipient(destination_address) {
        Ok(v) => v,
        Err(e) => {
            return Err(e);
        },
    };
    let body = match decode_payload(message_hex) {
        Ok(v) => v,
        Err(e) => {
            return Err(e);
        },
    };
    Ok(DispatchRequest { origin_domain, destination_domain, recipient, body })
}

/// The submitted value is bound to the quote: a quote of `v` leads to a
/// submission carrying exactly `v`, never an independent estimate.
pub proof fn lemma_dispatch_value_binding(v: u128)
    ensures
        dispatch_step_spec(
            DispatchState::Quoting,
            DispatchEvent::QuoteReturned { value: v },
        ) == Some(
            (
                DispatchState::Sending { value: v },
                DispatchAction::SubmitWithValue { value: v },
            ),
        ),
{
}

/// A missing receipt ends the protocol in the ambiguous `Unconfirmed`
/// outcome, observably different from the definite `SendFailed` path:
/// the two reports differ.
pub proof fn lemma_confirmation_ambiguity(v: u128)
    ensures
        dispatch_step_spec(
            DispatchState::Confirming { value: v },
            DispatchEvent::ReceiptMissing,
        ) == Some(
            (
                DispatchState::Done { outcome: DispatchOutcome::Unconfirmed },
                DispatchAction::Finish,
            ),
        ),
        dispatch_step_spec(
            DispatchState::Sending { value: v },
            DispatchEvent::SendErrored,
        ) == Some(
            (
                DispatchState::Done { outcome: DispatchOutcome::SendFailed },
                DispatchAction::Finish,
            ),
        ),
        DispatchOutcome::Unconfirmed != DispatchOutcome::SendFailed,
        CliError::ConfirmationTimeout != CliError::SendFailed,
{
}

} // verus!
