//! Contracts that answer messages.
//!
//! A message has a name, arguments and an output. A contract has a constructor and handlers
//! of messages, and keeps its state in a store of 32-byte blocks.

pub mod contract;
pub mod contract_laws;
pub mod digits;
pub mod env;
pub mod eth_laws;
pub mod eth_state;
pub mod example;
pub mod getter;
pub mod handlers;
pub mod keccak;
pub mod keys;
pub mod marker;
pub mod message;
pub mod name_laws;
pub mod plain;
pub mod response;
mod seal;
pub mod shim;
pub mod signature;
mod sol_arrays;
pub mod source;
pub mod tuple_sig_laws;
mod tuple_sigs;
pub mod wire;
pub mod wire_laws;
pub mod wire_lists;
pub mod wire_option;
pub mod wire_plain;
pub mod wire_text;
pub mod wire_tuple_laws;
pub mod wire_tuples;
