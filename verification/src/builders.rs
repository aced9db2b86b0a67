//! Builders: a fluent fee-schedule builder and the typed transaction
//! builders that assemble each transaction kind. Signature slots start
//! zeroed; the embedding signs the encoded bytes and attaches the
//! signatures afterwards.

pub mod fee;
pub mod transaction;
