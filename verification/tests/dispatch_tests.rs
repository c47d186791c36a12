use hyperlane_cli::dispatch::{
    dispatch_step, prepare_dispatch, report_outcome, DispatchAction, DispatchEvent,
    DispatchOutcome, DispatchState, CONFIRMATION_DEPTH,
};
use hyperlane_cli::errors::CliError;

const ADDR: &str = "0x44a7e1d76fD8AfA244AdE7278336E3D5C658D398";

#[test]
fn submitted_value_equals_the_quote() {
    let quoted: u128 = 777_000_000_000;
    let (state, action) =
        dispatch_step(DispatchState::Quoting, DispatchEvent::QuoteReturned { value: quoted })
            .unwrap();
    assert_eq!(action, DispatchAction::SubmitWithValue { value: quoted });
    assert_eq!(state, DispatchState::Sending { value: quoted });
}

#[test]
fn happy_path_reaches_confirmed() {
    let (state, action) =
        dispatch_step(DispatchState::Quoting, DispatchEvent::QuoteReturned { value: 5 }).unwrap();
    assert_eq!(action, DispatchAction::SubmitWithValue { value: 5 });
    let (state, action) = dispatch_step(state, DispatchEvent::SendAccepted).unwrap();
    assert_eq!(action, DispatchAction::AwaitConfirmations { depth: CONFIRMATION_DEPTH });
    assert_eq!(CONFIRMATION_DEPTH, 3);
    let hash = vec![0xabu8; 32];
    let (state, action) =
        dispatch_step(state, DispatchEvent::ReceiptReceived { tx_hash: hash.clone() }).unwrap();
    assert_eq!(action, DispatchAction::Finish);
    match state {
        DispatchState::Done { outcome } => {
            assert_eq!(outcome.clone(), DispatchOutcome::Confirmed { tx_hash: hash.clone() });
            assert_eq!(report_outcome(outcome), Ok(hash));
        },
        other => panic!("expected Done, got {:?}", other),
    }
}

#[test]
fn quote_failure_is_definite() {
    let (state, _) = dispatch_step(DispatchState::Quoting, DispatchEvent::QuoteErrored).unwrap();
    assert_eq!(state, DispatchState::Done { outcome: DispatchOutcome::QuoteFailed });
    assert_eq!(report_outcome(DispatchOutcome::QuoteFailed), Err(CliError::QuoteFailed));
}

#[test]
fn missing_receipt_is_ambiguous_not_a_send_failure() {
    let (no_receipt, _) =
        dispatch_step(DispatchState::Confirming { value: 9 }, DispatchEvent::ReceiptMissing)
            .unwrap();
    assert_eq!(no_receipt, DispatchState::Done { outcome: DispatchOutcome::Unconfirmed });
    let (send_error, _) =
        dispatch_step(DispatchState::Sending { value: 9 }, DispatchEvent::SendErrored).unwrap();
    assert_eq!(send_error, DispatchState::Done { outcome: DispatchOutcome::SendFailed });
    // The two paths stay observably different all the way out.
    assert_ne!(no_receipt, send_error);
    let ambiguous = report_outcome(DispatchOutcome::Unconfirmed);
    let definite = report_outcome(DispatchOutcome::SendFailed);
    assert_eq!(ambiguous, Err(CliError::ConfirmationTimeout));
    assert_eq!(definite, Err(CliError::SendFailed));
    assert_ne!(ambiguous, definite);
}

#[test]
fn out_of_protocol_events_are_refused() {
    assert!(dispatch_step(DispatchState::Quoting, DispatchEvent::SendAccepted).is_none());
    assert!(dispatch_step(
        DispatchState::Sending { value: 1 },
        DispatchEvent::QuoteReturned { value: 2 }
    )
    .is_none());
    assert!(dispatch_step(
        DispatchState::Done { outcome: DispatchOutcome::Unconfirmed },
        DispatchEvent::ReceiptMissing
    )
    .is_none());
}

#[test]
fn prepare_dispatch_builds_the_request() {
    let req = prepare_dispatch("bsctestnet", "fuji", ADDR, "48656c6c6f20576f726c64").unwrap();
    assert_eq!(req.origin_domain, 97);
    assert_eq!(req.destination_domain, 43113);
    assert_eq!(req.recipient.len(), 32);
    assert_eq!(&req.recipient[..12], &[0u8; 12]);
    assert_eq!(req.recipient[12], 0x44);
    assert_eq!(req.body, b"Hello World".to_vec());
}

#[test]
fn prepare_dispatch_reports_errors_in_order() {
    match prepare_dispatch("nowhere", "fuji", ADDR, "00") {
        Err(CliError::UnknownChain { name }) => assert_eq!(name, "nowhere"),
        other => panic!("expected UnknownChain, got {:?}", other),
    }
    match prepare_dispatch("bsctestnet", "nowhere", "bad address", "zz") {
        Err(CliError::UnknownChain { name }) => assert_eq!(name, "nowhere"),
        other => panic!("expected UnknownChain, got {:?}", other),
    }
    match prepare_dispatch("bsctestnet", "fuji", "bad address", "zz") {
        Err(CliError::InvalidAddress { address }) => assert_eq!(address, "bad address"),
        other => panic!("expected InvalidAddress, got {:?}", other),
    }
    assert_eq!(
        prepare_dispatch("bsctestnet", "fuji", ADDR, "zz"),
        Err(CliError::InvalidHexPayload)
    );
}
