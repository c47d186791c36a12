//! The wallet provisioner's decisions.
//!
//! A signing credential either already exists in the configuration
//! directory (encrypted, under a fixed file name) or must be generated
//! and persisted. The file work happens outside the library; this
//! module fixes the two-state machine: an absent wallet is generated —
//! and the run stops with a distinguished "new wallet" signal, because
//! a fresh wallet holds no funds — while a present wallet is loaded
//! and never regenerated.

use vstd::prelude::*;

use crate::errors::CliError;

verus! {

/// Whether the keystore file exists.
#[derive(PartialEq, Eq, Structural, Clone, Copy, Debug)]
pub enum WalletState {
    Absent,
    Present,
}

/// What the caller must do to the configuration directory.
#[derive(PartialEq, Eq, Structural, Clone, Copy, Debug)]
pub enum WalletAction {
    /// Generate a key, encrypt it and write the keystore file.
    GenerateAndPersist,
    /// Decrypt and load the existing keystore file.
    LoadExisting,
}

#[derive(PartialEq, Eq, Structural, Clone, Copy, Debug)]
pub struct ProvisionStep {
    pub action: WalletAction,
    pub next: WalletState,
}

/// The provisioner's transition: generation is the only way from
/// `Absent` to `Present`, and `Present` is absorbing.
pub open spec fn provision_spec(s: WalletState) -> ProvisionStep {
    match s {
        WalletState::Absent => ProvisionStep {
            action: WalletAction::GenerateAndPersist,
            next: WalletState::Present,
        },
        WalletState::Present => ProvisionStep {
            action: WalletAction::LoadExisting,
            next: WalletState::Present,
        },
    }
}

pub fn provision_step(s: WalletState) -> (r: ProvisionStep)
    ensures
        r == provision_spec(s),
{
    match s {
        WalletState::Absent => ProvisionStep {
            action: WalletAction::GenerateAndPersist,
            next: WalletState::Present,
        },
        WalletState::Present => ProvisionStep {
            action: WalletAction::LoadExisting,
            next: WalletState::Present,
        },
    }
}

/// What a provisioning run hands back to the operator.
#[derive(Debug, Clone, PartialEq, Eq)]
pub enum ProvisionOutcome {
    /// An existing wallet was loaded; it can sign in this run.
    Ready { address: Vec<u8> },
    /// A wallet was just generated and persisted; it must be funded
    /// before any operation can be paid for, so this run stops here.
    NewWalletGenerated { address: Vec<u8> },
}

/// Classifies a finished provisioning action over the wallet's 20-byte
/// account address.
pub fn provision_outcome(action: WalletAction, address: Vec<u8>) -> (r: ProvisionOutcome)
    ensures
        match action {
            WalletAction::LoadExisting => r == ProvisionOutcome::Ready { address },
            WalletAction::GenerateAndPersist => r == ProvisionOutcome::NewWalletGenerated {
                address,
            },
        },
{
    match action {
        WalletAction::LoadExisting => ProvisionOutcome::Ready { address },
        WalletAction::GenerateAndPersist => ProvisionOutcome::NewWalletGenerated { address },
    }
}

/// A fresh wallet is a required-action signal, not a usable credential:
/// only a loaded wallet continues the run.
pub fn outcome_signal(o: ProvisionOutcome) -> (r: Result<Vec<u8>, CliError>)
    ensures
        match o {
            ProvisionOutcome::Ready { address } => r == Ok::<Vec<u8>, CliError>(address),
            ProvisionOutcome::NewWalletGenerated { address } => r == Err::<Vec<u8>, CliError>(
                CliError::NewWalletGenerated { address },
            ),
        },
{
    match o {
        ProvisionOutcome::Ready { address } => Ok(address),
        ProvisionOutcome::NewWalletGenerated { address } => Err(
            CliError::NewWalletGenerated { address },
        ),
    }
}

/// Bootstrap law: one provisioning run always leaves a wallet present;
/// a second run therefore loads it and never regenerates; and only the
/// absent state ever generates.
pub proof fn lemma_provision_bootstrap(s: WalletState)
    ensures
        provision_spec(s).next == WalletState::Present,
        provision_spec(provision_spec(s).next).action == WalletAction::LoadExisting,
        provision_spec(WalletState::Absent).action == WalletAction::GenerateAndPersist,
{
}

} // verus!
