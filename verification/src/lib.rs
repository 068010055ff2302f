//! Verified core of a transaction load generator for EVM networks.
pub mod numtext;
pub mod hexcode;
pub mod address;
pub mod abi;
pub mod rpc;
pub mod fees;
pub mod spam;
pub mod deploy;
pub mod cli;
pub mod keys;
