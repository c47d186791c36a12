use hyperlane_cli::dispatch::prepare_dispatch;
use hyperlane_cli::errors::CliError;
use hyperlane_cli::send_args::SendArgs;
use hyperlane_cli::wallet::{
    outcome_signal, provision_outcome, provision_step, ProvisionOutcome, WalletAction,
    WalletState,
};

#[test]
fn first_run_generates_and_signals_instead_of_signing() {
    let step = provision_step(WalletState::Absent);
    assert_eq!(step.action, WalletAction::GenerateAndPersist);
    assert_eq!(step.next, WalletState::Present);
    let address = vec![0x11u8; 20];
    let outcome = provision_outcome(step.action, address.clone());
    assert_eq!(outcome, ProvisionOutcome::NewWalletGenerated { address: address.clone() });
    assert_eq!(outcome_signal(outcome), Err(CliError::NewWalletGenerated { address }));
}

#[test]
fn second_run_loads_the_same_wallet_without_regenerating() {
    let first = provision_step(WalletState::Absent);
    let second = provision_step(first.next);
    assert_eq!(second.action, WalletAction::LoadExisting);
    assert_eq!(second.next, WalletState::Present);
    let address = vec![0x11u8; 20];
    let outcome = provision_outcome(second.action, address.clone());
    assert_eq!(outcome, ProvisionOutcome::Ready { address: address.clone() });
    assert_eq!(outcome_signal(outcome), Ok(address));
}

#[test]
fn present_state_is_absorbing() {
    let step = provision_step(WalletState::Present);
    assert_eq!(step.action, WalletAction::LoadExisting);
    assert_eq!(step.next, WalletState::Present);
}

#[test]
fn default_send_args_hold_the_demo_route() {
    let args = SendArgs::default();
    assert_eq!(args.origin_chain, "bsctestnet");
    assert_eq!(args.origin_mailbox, "0xF9F6F5646F478d5ab4e20B0F910C92F1CCC9Cc6D");
    assert_eq!(args.rpc_url, "https://bsc-testnet.publicnode.com");
    assert_eq!(args.destination_chain, "fuji");
    assert_eq!(args.destination_address, "0x44a7e1d76fD8AfA244AdE7278336E3D5C658D398");
    assert_eq!(args.message, "48656c6c6f20576f726c64");
}

#[test]
fn default_send_args_prepare_cleanly() {
    let args = SendArgs::default();
    let req = prepare_dispatch(
        &args.origin_chain,
        &args.destination_chain,
        &args.destination_address,
        &args.message,
    )
    .unwrap();
    assert_eq!(req.origin_domain, 97);
    assert_eq!(req.destination_domain, 43113);
    assert_eq!(req.body, b"Hello World".to_vec());
}
