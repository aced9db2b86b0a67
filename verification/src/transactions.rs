//! The transaction family: add and delete assets, plain and
//! fee-payer transfers, trades and exchanges with or without an
//! intermediary, and standing bid and ask offers.

pub mod add_assets;
pub mod ask_offer;
pub mod bid_offer;
pub mod components;
pub mod delete_assets;
pub mod exchange;
pub mod exchange_intermediary;
pub mod trade;
pub mod trade_intermediary;
pub mod transfer;
pub mod transfer_fees_payers;
