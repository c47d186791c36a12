//! The send subcommand's arguments, with the fixed demo defaults used
//! by the test-send path.

use vstd::prelude::*;

verus! {

/// Operator input for one dispatch: where to sign and submit, and what
/// to send where.
#[derive(Debug, Clone, PartialEq, Eq)]
pub struct SendArgs {
    pub origin_chain: String,
    pub origin_mailbox: String,
    pub rpc_url: String,
    pub destination_chain: String,
    pub destination_address: String,
    pub message: String,
}

impl Default for SendArgs {
    /// The demo defaults: a known testnet route and a fixed payload.
    fn default() -> (r: SendArgs)
        ensures
            r.origin_chain@ == "bsctestnet"@,
            r.origin_mailbox@ == "0xF9F6F5646F478d5ab4e20B0F910C92F1CCC9Cc6D"@,
            r.rpc_url@ == "https://bsc-testnet.publicnode.com"@,
            r.destination_chain@ == "fuji"@,
            r.destination_address@ == "0x44a7e1d76fD8AfA244AdE7278336E3D5C658D398"@,
            r.message@ == "48656c6c6f20576f726c64"@,
    {
        SendArgs {
            origin_chain: String::from_str("bsctestnet"),
            origin_mailbox: String::from_str("0xF9F6F5646F478d5ab4e20B0F910C92F1CCC9Cc6D"),
            rpc_url: String::from_str("https://bsc-testnet.publicnode.com"),
            destination_chain: String::from_str("fuji"),
            destination_address: String::from_str("0x44a7e1d76fD8AfA244AdE7278336E3D5C658D398"),
            message: String::from_str("48656c6c6f20576f726c64"),
        }
    }
}

} // verus!
