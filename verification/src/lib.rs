//! A verified core for a cross-chain messaging command-line tool.
//!
//! The library covers the logic of the tool: hex/address/domain codecs,
//! the matching-list filter engine and its input grammar, block-range
//! planning and chronological accumulation for historical scans, and
//! the decision state machines for message dispatch and wallet
//! provisioning. Network and file I/O live outside the library and
//! hand it plain values.

pub mod codec;
pub mod dispatch;
pub mod errors;
pub mod matching;
pub mod parser;
pub mod scanner;
pub mod send_args;
pub mod wallet;
