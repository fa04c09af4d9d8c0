//! Core of a Mimblewimble wallet host: node configuration, output tracking,
//! the transaction ledger, the interactive slate negotiation and the
//! cross-chain atomic-swap coordinator, each with a verified contract.
pub mod text;
pub mod config;
pub mod outputs;
pub mod ledger;
pub mod slate;
pub mod wallet;
pub mod negotiate;
pub mod settle;
pub mod swap;
pub mod settings;
