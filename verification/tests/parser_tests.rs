use hyperlane_cli::errors::CliError;
use hyperlane_cli::parser::parse_matching_list;

#[test]
fn parses_empty_list() {
    let list = parse_matching_list("[]").unwrap();
    assert_eq!(list.elements.len(), 0);
    let spaced = parse_matching_list("  [ \t\n ]  ").unwrap();
    assert_eq!(spaced.elements.len(), 0);
}

#[test]
fn parses_single_origin_element() {
    let list = parse_matching_list("[{\"origin\": \"fuji\"}]").unwrap();
    assert_eq!(list.elements.len(), 1);
    let e = &list.elements[0];
    assert_eq!(e.origin.as_deref(), Some("fuji"));
    assert!(e.sender.is_none());
    assert!(e.destination.is_none());
    assert!(e.recipient.is_none());
}

#[test]
fn parses_unconstrained_element() {
    let list = parse_matching_list("[ { } ]").unwrap();
    assert_eq!(list.elements.len(), 1);
    assert!(list.elements[0].origin.is_none());
}

#[test]
fn parses_several_elements_in_order() {
    let text = "[ {\"origin\": \"A\"} , {\"destination\": \"B\"}, {} ]";
    let list = parse_matching_list(text).unwrap();
    assert_eq!(list.elements.len(), 3);
    assert_eq!(list.elements[0].origin.as_deref(), Some("A"));
    assert_eq!(list.elements[1].destination.as_deref(), Some("B"));
    assert!(list.elements[2].origin.is_none());
}

#[test]
fn parses_address_fields_right_aligned() {
    let text = "[{\"sender\": \"0x44a7e1d76fD8AfA244AdE7278336E3D5C658D398\",
                  \"recipient\": \"44a7e1d76fD8AfA244AdE7278336E3D5C658D398\"}]";
    let list = parse_matching_list(text).unwrap();
    let e = &list.elements[0];
    let sender = e.sender.as_ref().unwrap();
    let recipient = e.recipient.as_ref().unwrap();
    assert_eq!(sender.len(), 32);
    // With and without the marker, the stored bytes agree.
    assert_eq!(sender, recipient);
    assert_eq!(&sender[..12], &[0u8; 12]);
    assert_eq!(sender[12], 0x44);
}

#[test]
fn parses_all_four_fields() {
    let text = "[{\"origin\":\"bsctestnet\",\"destination\":\"fuji\",
                  \"sender\":\"0x0000000000000000000000000000000000000001\",
                  \"recipient\":\"0x0000000000000000000000000000000000000002\"}]";
    let list = parse_matching_list(text).unwrap();
    let e = &list.elements[0];
    assert_eq!(e.origin.as_deref(), Some("bsctestnet"));
    assert_eq!(e.destination.as_deref(), Some("fuji"));
    assert_eq!(e.sender.as_ref().unwrap()[31], 1);
    assert_eq!(e.recipient.as_ref().unwrap()[31], 2);
}

fn assert_invalid(text: &str) {
    assert_eq!(
        parse_matching_list(text),
        Err(CliError::InvalidMatchingList),
        "input {:?} should be rejected",
        text
    );
}

#[test]
fn rejects_malformed_input() {
    assert_invalid("");
    assert_invalid("   ");
    assert_invalid("{}");
    assert_invalid("[");
    assert_invalid("[{}");
    assert_invalid("[{}] trailing");
    assert_invalid("[{},]");
    assert_invalid("[,]");
}

#[test]
fn rejects_unknown_and_repeated_keys() {
    assert_invalid("[{\"chain\": \"fuji\"}]");
    assert_invalid("[{\"origin\": \"a\", \"origin\": \"b\"}]");
}

#[test]
fn rejects_non_string_values_and_escapes() {
    assert_invalid("[{\"origin\": 1}]");
    assert_invalid("[{\"origin\": [\"a\"]}]");
    assert_invalid("[{\"origin\": \"a\\\"b\"}]");
    assert_invalid("[{\"origin\": \"unterminated}]");
}

#[test]
fn rejects_bad_addresses_in_address_fields() {
    assert_invalid("[{\"sender\": \"0x1234\"}]");
    assert_invalid("[{\"recipient\": \"not hex at all\"}]");
    // A chain-name field is free-form, so the same value is fine there.
    assert!(parse_matching_list("[{\"origin\": \"0x1234\"}]").is_ok());
}
