//! Parts shared by the transaction family: the service identity, the
//! message-type identifiers, the intermediary descriptor, and the
//! ledger's fee configuration.

use vstd::prelude::*;

use crate::crypto::PublicKey;

verus! {

/// The id of the currency service.
pub const SERVICE_ID: u16 = 2;

/// Transaction id of a plain transfer.
pub const TRANSFER_ID: u16 = 200;

/// Transaction id of a transfer with a separate fees payer.
pub const TRANSFER_FEES_PAYER_ID: u16 = 201;

/// Transaction id of adding assets.
pub const ADD_ASSETS_ID: u16 = 300;

/// Transaction id of deleting assets.
pub const DELETE_ASSETS_ID: u16 = 400;

/// Transaction id of a trade.
pub const TRADE_ID: u16 = 501;

/// Transaction id of a trade with an intermediary.
pub const TRADE_INTERMEDIARY_ID: u16 = 502;

/// Transaction id of an exchange.
pub const EXCHANGE_ID: u16 = 601;

/// Transaction id of an exchange with an intermediary.
pub const EXCHANGE_INTERMEDIARY_ID: u16 = 602;

/// Transaction id of a standing ask offer.
pub const ASK_OFFER_ID: u16 = 701;

/// Transaction id of a standing bid offer.
pub const BID_OFFER_ID: u16 = 702;

/// An optional third party to a trade or exchange, entitled to a fixed
/// commission, whose signature is also required.
#[derive(Debug, Clone, PartialEq)]
pub struct Intermediary {
    pub wallet: PublicKey,
    pub commission: u64,
}

impl Intermediary {
    /// Whether the descriptor is well formed.
    pub open spec fn wf(&self) -> bool {
        self.wallet.wf()
    }

    /// Builds a descriptor from the intermediary's key and commission.
    pub fn new(wallet: &PublicKey, commission: u64) -> (r: Intermediary)
        ensures
            r.wallet@ == wallet@,
            r.commission == commission,
    {
        Intermediary { wallet: wallet.duplicate(), commission }
    }

    /// The intermediary's wallet key.
    pub fn wallet(&self) -> (r: &PublicKey)
        ensures
            r@ == self.wallet@,
    {
        &self.wallet
    }

    /// The intermediary's commission.
    pub fn commission(&self) -> (r: u64)
        ensures
            r == self.commission,
    {
        self.commission
    }

    /// An owned copy of the descriptor.
    pub fn duplicate(&self) -> (r: Self)
        ensures
            r.wallet@ == self.wallet@,
            r.commission == self.commission,
    {
        Intermediary { wallet: self.wallet.duplicate(), commission: self.commission }
    }
}

/// The ledger's configuration: the treasury wallet that earns the
/// protocol-level flat fees, and the flat fee of each transaction kind.
#[derive(Debug, Clone, PartialEq)]
pub struct Configuration {
    pub genesis_key: PublicKey,
    pub add_assets_fee: u64,
    pub delete_assets_fee: u64,
    pub trade_fee: u64,
    pub exchange_fee: u64,
    pub transfer_fee: u64,
}

impl Configuration {
    /// Whether the configuration is well formed.
    pub open spec fn wf(&self) -> bool {
        self.genesis_key.wf()
    }

    /// Builds a configuration.
    pub fn new(
        genesis_key: PublicKey,
        add_assets_fee: u64,
        delete_assets_fee: u64,
        trade_fee: u64,
        exchange_fee: u64,
        transfer_fee: u64,
    ) -> (r: Configuration)
        ensures
            r.genesis_key@ == genesis_key@,
            r.add_assets_fee == add_assets_fee,
            r.delete_assets_fee == delete_assets_fee,
            r.trade_fee == trade_fee,
            r.exchange_fee == exchange_fee,
            r.transfer_fee == transfer_fee,
    {
        Configuration {
            genesis_key,
            add_assets_fee,
            delete_assets_fee,
            trade_fee,
            exchange_fee,
            transfer_fee,
        }
    }
}

} // verus!
