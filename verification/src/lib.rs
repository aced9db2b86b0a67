//! A verified core of a blockchain digital-asset ledger: the binary message
//! framing and signing protocol, and the deterministic state-transition
//! logic for wallets and assets.

pub mod assets;
pub mod builders;
pub mod bytesutil;
pub mod capi;
pub mod crypto;
pub mod encoding;
pub mod error;
pub mod fees;
pub mod fork;
pub mod messages;
pub mod registry;
pub mod transactions;
pub mod wallet;
pub mod wire;
