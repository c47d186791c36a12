use hyperlane_cli::codec::{decode_payload, domain_name, encode_recipient, resolve_domain, str_eq};
use hyperlane_cli::errors::CliError;

const ADDR: &str = "44a7e1d76fD8AfA244AdE7278336E3D5C658D398";

#[test]
fn recipient_padding_with_and_without_prefix() {
    let bare = encode_recipient(ADDR).unwrap();
    let prefixed = encode_recipient(&format!("0x{}", ADDR)).unwrap();
    assert_eq!(bare, prefixed);
    assert_eq!(bare.len(), 32);
    for i in 0..12 {
        assert_eq!(bare[i], 0, "high-order byte {} must be zero", i);
    }
    assert_eq!(bare[12], 0x44);
    assert_eq!(bare[13], 0xa7);
    assert_eq!(bare[31], 0x98);
}

#[test]
fn recipient_exact_bytes() {
    let out = encode_recipient("0x000102030405060708090a0b0c0d0e0f10111213").unwrap();
    let mut expected = vec![0u8; 12];
    expected.extend((0u8..20).collect::<Vec<u8>>());
    assert_eq!(out, expected);
}

#[test]
fn recipient_rejects_wrong_width() {
    match encode_recipient("0x1234") {
        Err(CliError::InvalidAddress { address }) => assert_eq!(address, "0x1234"),
        other => panic!("expected InvalidAddress, got {:?}", other),
    }
    assert!(encode_recipient(&"a".repeat(41)).is_err());
    assert!(encode_recipient("").is_err());
}

#[test]
fn recipient_rejects_non_hex() {
    let bad = "g".repeat(40);
    match encode_recipient(&bad) {
        Err(CliError::InvalidAddress { address }) => assert_eq!(address, bad),
        other => panic!("expected InvalidAddress, got {:?}", other),
    }
}

#[test]
fn payload_decodes_hello_world() {
    assert_eq!(decode_payload("48656c6c6f20576f726c64").unwrap(), b"Hello World".to_vec());
    assert_eq!(decode_payload("0x48656c6c6f20576f726c64").unwrap(), b"Hello World".to_vec());
}

#[test]
fn payload_handles_case_and_empty() {
    assert_eq!(decode_payload("FF00").unwrap(), vec![255, 0]);
    assert_eq!(decode_payload("fF0a").unwrap(), vec![255, 10]);
    assert_eq!(decode_payload("").unwrap(), Vec::<u8>::new());
    assert_eq!(decode_payload("0x").unwrap(), Vec::<u8>::new());
}

#[test]
fn payload_rejects_odd_and_non_hex() {
    assert_eq!(decode_payload("abc"), Err(CliError::InvalidHexPayload));
    assert_eq!(decode_payload("zz"), Err(CliError::InvalidHexPayload));
    assert_eq!(decode_payload("0x1"), Err(CliError::InvalidHexPayload));
}

#[test]
fn domains_resolve() {
    assert_eq!(resolve_domain("bsctestnet").unwrap(), 97);
    assert_eq!(resolve_domain("fuji").unwrap(), 43113);
    assert_eq!(resolve_domain("ethereum").unwrap(), 1);
    assert_eq!(resolve_domain("sepolia").unwrap(), 11155111);
}

#[test]
fn unknown_chain_is_a_hard_error() {
    match resolve_domain("moonbase") {
        Err(CliError::UnknownChain { name }) => assert_eq!(name, "moonbase"),
        other => panic!("expected UnknownChain, got {:?}", other),
    }
    // Case-sensitive: no silent default.
    assert!(resolve_domain("Fuji").is_err());
}

#[test]
fn domain_names_invert_resolution() {
    assert_eq!(domain_name(97), Some("bsctestnet"));
    assert_eq!(domain_name(43113), Some("fuji"));
    assert_eq!(domain_name(424242), None);
    for name in ["ethereum", "sepolia", "bsc", "bsctestnet", "avalanche", "fuji", "polygon",
        "arbitrum", "optimism"]
    {
        let d = resolve_domain(name).unwrap();
        assert_eq!(domain_name(d), Some(name));
    }
}

#[test]
fn str_eq_is_exact() {
    assert!(str_eq("fuji", "fuji"));
    assert!(!str_eq("fuji", "Fuji"));
    assert!(!str_eq("fuji", "fuj"));
    assert!(!str_eq("", "a"));
    assert!(str_eq("", ""));
}
