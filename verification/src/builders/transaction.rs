//! Typed transaction builders: each collects a kind's parts, then
//! assembles the transaction with its signature slots zeroed; the
//! embedding signs the encoded bytes and attaches the signatures
//! afterwards. A builder's final step demands that every required part
//! has been set, so a finished build never lacks a field.

use vstd::prelude::*;
use vstd::string::{StrSliceExecFns, StringExecFns, StringSliceAdditionalSpecFns};
use vstd::utf8::encode_utf8;

use crate::assets::{spec_asset_id, AssetBundle, AssetId, Fees, MetaAsset, TradeAsset};
use crate::crypto::{spec_zero_sig, PublicKey, SecretKey, Signature, SIGNATURE_LENGTH};
use crate::encoding::{fixed_total, kinds_of, seg_total};
use crate::fees::{strategy_byte, FeeStrategy};
use crate::messages::HEADER_LENGTH;
use crate::transactions::add_assets::{add_values, lemma_mviews_push, mviews, AddAssets};
use crate::transactions::ask_offer::{askoffer_values, AskOffer};
use crate::transactions::bid_offer::{bidoffer_values, BidOffer};
use crate::transactions::components::{Intermediary, SERVICE_ID};
use crate::transactions::delete_assets::{delete_values, DeleteAssets};
use crate::transactions::exchange::{exchange_values, Exchange, ExchangeOffer};
use crate::transactions::exchange_intermediary::{exchange_intermediary_values,
    ExchangeIntermediary, ExchangeOfferIntermediary};
use crate::transactions::trade::{trade_values, Trade, TradeOffer};
use crate::transactions::trade_intermediary::{trade_int_values, TradeIntermediary,
    TradeOfferIntermediary};
use crate::transactions::transfer::{transfer_values, Transfer};
use crate::transactions::transfer_fees_payers::{transfer_fees_payer_values, TransferOffer,
    TransferWithFeesPayer};
use crate::wallet::{bviews, lemma_bviews_push};
use crate::wire::{lemma_tviews_push, tviews};

verus! {

/// Relies on rand's `random_range`: a fresh draw from the half-open
/// range, used as a replay seed; only its bounds are promised.
#[verifier::external_body]
fn rand_seed() -> (r: u64)
    ensures
        1 <= r < u64::MAX,
{
    rand::random_range(1..u64::MAX)
}

/// Relies on rand's `random`: 32 bytes of fresh key material; only the
/// length is promised.
#[verifier::external_body]
fn rand_bytes32() -> (r: Vec<u8>)
    ensures
        r@.len() == 32,
{
    rand::random::<[u8; 32]>().to_vec()
}

/// Relies on rand's `random`: 64 bytes of fresh key material; only the
/// length is promised.
#[verifier::external_body]
fn rand_bytes64() -> (r: Vec<u8>)
    ensures
        r@.len() == 64,
{
    rand::random::<[u8; 64]>().to_vec()
}

/// The signer and framing every builder starts from.
#[derive(Debug)]
pub struct Builder {
    pub public_key: Option<PublicKey>,
    pub secret_key: Option<SecretKey>,
    pub network_id: u8,
    pub protocol_version: u8,
    pub service_id: u16,
}

/// The signer and framing a sub-builder carries.
#[derive(Debug)]
pub struct TransactionMetadata {
    pub public_key: PublicKey,
    pub secret_key: SecretKey,
    pub network_id: u8,
    pub protocol_version: u8,
    pub service_id: u16,
}

/// Whether a metadata block holds well-formed keys.
pub open spec fn meta_wf(m: &TransactionMetadata) -> bool {
    m.public_key.wf() && m.secret_key.wf()
}

/// The memo characters a builder will use: the set memo, or nothing.
pub open spec fn memo_chars(d: Option<String>) -> Seq<char> {
    match d {
        Some(s) => s@,
        None => Seq::<char>::empty(),
    }
}

/// Whether a message layout's sizes stay within the wire's offsets.
pub open spec fn msg_fits(vs: Seq<crate::encoding::FieldV>) -> bool {
    HEADER_LENGTH + fixed_total(kinds_of(vs)) + seg_total(vs) + SIGNATURE_LENGTH <= u32::MAX
}

/// Whether a plain record's sizes stay within the wire's offsets.
pub open spec fn plain_fits(vs: Seq<crate::encoding::FieldV>) -> bool {
    fixed_total(kinds_of(vs)) + seg_total(vs) <= u32::MAX
}

/// The offer values an exchange-with-intermediary builder will encode.
pub open spec fn exin_offer_vs(b: &ExchangeIntermediaryBuilder) -> Seq<crate::encoding::FieldV> {
    crate::transactions::exchange_intermediary::exchange_offer_intermediary_values(
        b.intermediary_public_key.unwrap()@,
        b.commission,
        b.sender_public_key.unwrap()@,
        bviews(b.sender_assets@),
        b.sender_value,
        b.meta.public_key@,
        bviews(b.recipient_assets@),
        crate::fees::strategy_byte(b.fee_strategy),
    )
}

/// The offer values a trade builder will encode.
pub open spec fn trade_offer_vs(b: &TradeBuilder) -> Seq<crate::encoding::FieldV> {
    crate::transactions::trade::trade_offer_values(
        b.meta.public_key@,
        b.seller_public.unwrap()@,
        tviews(b.assets@),
        crate::fees::strategy_byte(b.fee_strategy),
    )
}

/// The offer values a trade-with-intermediary builder will encode.
pub open spec fn trade_int_offer_vs(b: &TradeIntermediaryBuilder) -> Seq<crate::encoding::FieldV> {
    crate::transactions::trade_intermediary::trade_offer_values(
        b.intermediary_public_key.unwrap()@,
        b.commission,
        b.meta.public_key@,
        b.seller_public.unwrap()@,
        tviews(b.assets@),
        crate::fees::strategy_byte(b.fee_strategy),
    )
}

/// The offer values a fees-payer transfer builder will encode.
pub open spec fn twfp_offer_vs(b: &TransferWithFeesPayerBuilder) -> Seq<crate::encoding::FieldV> {
    crate::transactions::transfer_fees_payers::transfer_offer_values(
        b.meta.public_key@,
        b.recipient.unwrap()@,
        b.fees_payer_pk.unwrap()@,
        b.amount,
        bviews(b.assets@),
    )
}

impl Builder {
    /// Starts with no keypair set.
    pub fn new() -> (r: Builder)
        ensures
            r.public_key is None,
            r.secret_key is None,
            r.network_id == 0,
            r.protocol_version == 0,
            r.service_id == SERVICE_ID,
    {
        Builder {
            public_key: None,
            secret_key: None,
            network_id: 0,
            protocol_version: 0,
            service_id: SERVICE_ID,
        }
    }

    /// Sets the signing keypair.
    pub fn keypair(self, public_key: PublicKey, secret_key: SecretKey) -> (r: Builder)
        ensures
            r == (Builder { public_key: Some(public_key), secret_key: Some(secret_key), ..self }),
    {
        Builder { public_key: Some(public_key), secret_key: Some(secret_key), ..self }
    }

    /// Draws and sets fresh key material.
    pub fn random_keypair(self) -> (r: Builder)
        ensures
            (r.public_key matches Some(pk) && pk.wf()),
            (r.secret_key matches Some(sk) && sk.wf()),
            r.network_id == self.network_id,
            r.protocol_version == self.protocol_version,
            r.service_id == self.service_id,
    {
        let public_key = PublicKey(crate::crypto::PublicKeySodium { bytes: rand_bytes32() });
        let secret_key = SecretKey { bytes: rand_bytes64() };
        Builder { public_key: Some(public_key), secret_key: Some(secret_key), ..self }
    }

    /// Sets the network id.
    pub fn network_id(self, network_id: u8) -> (r: Builder)
        ensures
            r == (Builder { network_id, ..self }),
    {
        Builder { network_id, ..self }
    }

    /// Sets the protocol version.
    pub fn protocol_version(self, protocol_version: u8) -> (r: Builder)
        ensures
            r == (Builder { protocol_version, ..self }),
    {
        Builder { protocol_version, ..self }
    }

    /// Sets the service id.
    pub fn service_id(self, service_id: u16) -> (r: Builder)
        ensures
            r == (Builder { service_id, ..self }),
    {
        Builder { service_id, ..self }
    }

    /// Moves on to building an `add_assets` transaction.
    pub fn tx_add_assets(self) -> (r: AddAssetBuilder)
        requires
            self.public_key is Some,
            self.secret_key is Some,
        ensures
            r.meta.public_key == self.public_key.unwrap(),
            r.meta.secret_key == self.secret_key.unwrap(),
            r.meta.network_id == self.network_id,
            r.meta.protocol_version == self.protocol_version,
            r.meta.service_id == self.service_id,
            r.assets@ == Seq::<MetaAsset>::empty(),
            1 <= r.seed < u64::MAX,
    {
        AddAssetBuilder::start(self.into_meta())
    }

    /// Moves on to building a `delete_assets` transaction.
    pub fn tx_del_assets(self) -> (r: DelAssetBuilder)
        requires
            self.public_key is Some,
            self.secret_key is Some,
        ensures
            r.meta.public_key == self.public_key.unwrap(),
            r.meta.secret_key == self.secret_key.unwrap(),
            r.meta.network_id == self.network_id,
            r.meta.protocol_version == self.protocol_version,
            r.meta.service_id == self.service_id,
            r.assets@ == Seq::<AssetBundle>::empty(),
            1 <= r.seed < u64::MAX,
    {
        DelAssetBuilder::start(self.into_meta())
    }

    /// Moves on to building an `exchange` transaction.
    pub fn tx_exchange(self) -> (r: ExchangeBuilder)
        requires
            self.public_key is Some,
            self.secret_key is Some,
        ensures
            r.meta.public_key == self.public_key.unwrap(),
            r.meta.secret_key == self.secret_key.unwrap(),
            r.meta.network_id == self.network_id,
            r.meta.protocol_version == self.protocol_version,
            r.meta.service_id == self.service_id,
            r.sender is None,
            r.sender_secret is None,
            r.sender_assets@ == Seq::<AssetBundle>::empty(),
            r.sender_value == 0,
            r.recipient_assets@ == Seq::<AssetBundle>::empty(),
            r.fee_strategy == FeeStrategy::Recipient,
            1 <= r.seed < u64::MAX,
            r.data_info is None,
    {
        ExchangeBuilder::start(self.into_meta())
    }

    /// Moves on to building an `exchange_intermediary` transaction.
    pub fn tx_exchange_with_intermediary(self) -> (r: ExchangeIntermediaryBuilder)
        requires
            self.public_key is Some,
            self.secret_key is Some,
        ensures
            r.meta.public_key == self.public_key.unwrap(),
            r.meta.secret_key == self.secret_key.unwrap(),
            r.meta.network_id == self.network_id,
            r.meta.protocol_version == self.protocol_version,
            r.meta.service_id == self.service_id,
            r.intermediary_public_key is None,
            r.intermediary_secret_key is None,
            r.commission == 0,
            r.sender_public_key is None,
            r.sender_secret_key is None,
            r.sender_assets@ == Seq::<AssetBundle>::empty(),
            r.sender_value == 0,
            r.recipient_assets@ == Seq::<AssetBundle>::empty(),
            r.fee_strategy == FeeStrategy::Recipient,
            1 <= r.seed < u64::MAX,
            r.data_info is None,
    {
        ExchangeIntermediaryBuilder::start(self.into_meta())
    }

    /// Moves on to building a `trade` transaction.
    pub fn tx_trade_assets(self) -> (r: TradeBuilder)
        requires
            self.public_key is Some,
            self.secret_key is Some,
        ensures
            r.meta.public_key == self.public_key.unwrap(),
            r.meta.secret_key == self.secret_key.unwrap(),
            r.meta.network_id == self.network_id,
            r.meta.protocol_version == self.protocol_version,
            r.meta.service_id == self.service_id,
            r.seller_public is None,
            r.seller_secret is None,
            r.assets@ == Seq::<TradeAsset>::empty(),
            r.fee_strategy == FeeStrategy::Recipient,
            1 <= r.seed < u64::MAX,
            r.data_info is None,
    {
        TradeBuilder::start(self.into_meta())
    }

    /// Moves on to building a `trade_intermediary` transaction.
    pub fn tx_trade_assets_with_intermediary(self) -> (r: TradeIntermediaryBuilder)
        requires
            self.public_key is Some,
            self.secret_key is Some,
        ensures
            r.meta.public_key == self.public_key.unwrap(),
            r.meta.secret_key == self.secret_key.unwrap(),
            r.meta.network_id == self.network_id,
            r.meta.protocol_version == self.protocol_version,
            r.meta.service_id == self.service_id,
            r.seller_public is None,
            r.seller_secret is None,
            r.intermediary_public_key is None,
            r.intermediary_secret_key is None,
            r.commission == 0,
            r.assets@ == Seq::<TradeAsset>::empty(),
            r.fee_strategy == FeeStrategy::Recipient,
            1 <= r.seed < u64::MAX,
            r.data_info is None,
    {
        TradeIntermediaryBuilder::start(self.into_meta())
    }

    /// Moves on to building a `transfer` transaction.
    pub fn tx_transfer(self) -> (r: TransferBuilder)
        requires
            self.public_key is Some,
            self.secret_key is Some,
        ensures
            r.meta.public_key == self.public_key.unwrap(),
            r.meta.secret_key == self.secret_key.unwrap(),
            r.meta.network_id == self.network_id,
            r.meta.protocol_version == self.protocol_version,
            r.meta.service_id == self.service_id,
            r.recipient is None,
            r.amount == 0,
            r.assets@ == Seq::<AssetBundle>::empty(),
            1 <= r.seed < u64::MAX,
            r.data_info is None,
    {
        TransferBuilder::start(self.into_meta())
    }

    /// Moves on to building a `transfer_with_fees_payer` transaction.
    pub fn tx_transfer_with_fees_payer(self) -> (r: TransferWithFeesPayerBuilder)
        requires
            self.public_key is Some,
            self.secret_key is Some,
        ensures
            r.meta.public_key == self.public_key.unwrap(),
            r.meta.secret_key == self.secret_key.unwrap(),
            r.meta.network_id == self.network_id,
            r.meta.protocol_version == self.protocol_version,
            r.meta.service_id == self.service_id,
            r.recipient is None,
            r.fees_payer_pk is None,
            r.fees_payer_sk is None,
            r.amount == 0,
            r.assets@ == Seq::<AssetBundle>::empty(),
            1 <= r.seed < u64::MAX,
            r.data_info is None,
    {
        TransferWithFeesPayerBuilder::start(self.into_meta())
    }

    /// Moves on to building a standing offer.
    pub fn tx_offer(self) -> (r: OfferBuilder)
        requires
            self.public_key is Some,
            self.secret_key is Some,
        ensures
            r.meta.public_key == self.public_key.unwrap(),
            r.meta.secret_key == self.secret_key.unwrap(),
            r.meta.network_id == self.network_id,
            r.meta.protocol_version == self.protocol_version,
            r.meta.service_id == self.service_id,
            r.asset is None,
            1 <= r.seed < u64::MAX,
            r.data_info is None,
    {
        OfferBuilder::start(self.into_meta())
    }

    /// The metadata of a builder whose keypair is set.
    fn into_meta(self) -> (r: TransactionMetadata)
        requires
            self.public_key is Some,
            self.secret_key is Some,
        ensures
            r.public_key == self.public_key.unwrap(),
            r.secret_key == self.secret_key.unwrap(),
            r.network_id == self.network_id,
            r.protocol_version == self.protocol_version,
            r.service_id == self.service_id,
    {
        TransactionMetadata {
            public_key: self.public_key.unwrap(),
            secret_key: self.secret_key.unwrap(),
            network_id: self.network_id,
            protocol_version: self.protocol_version,
            service_id: self.service_id,
        }
    }
}

/// Builds an `add_assets` transaction.
#[derive(Debug)]
pub struct AddAssetBuilder {
    pub meta: TransactionMetadata,
    pub assets: Vec<MetaAsset>,
    pub seed: u64,
}

impl AddAssetBuilder {
    fn start(meta: TransactionMetadata) -> (r: AddAssetBuilder)
        ensures
            r.meta == meta,
            r.assets@ == Seq::<MetaAsset>::empty(),
            1 <= r.seed < u64::MAX,
    {
        AddAssetBuilder { meta, assets: Vec::new(), seed: rand_seed() }
    }

    /// Adds an asset issued to the builder's own key.
    pub fn add_asset(self, name: &str, count: u64, fees: Fees) -> (r: AddAssetBuilder)
        ensures
            mviews(r.assets@) == mviews(self.assets@).push(
                (self.meta.public_key@, name@, count as int, fees@),
            ),
            r.meta == self.meta,
            r.seed == self.seed,
    {
        let receiver = self.meta.public_key.duplicate();
        let asset = MetaAsset::new(&receiver, name, count, fees);
        self.add_asset_value(asset)
    }

    /// Adds an issue already described.
    pub fn add_asset_value(self, asset: MetaAsset) -> (r: AddAssetBuilder)
        ensures
            mviews(r.assets@) == mviews(self.assets@).push(asset@),
            r.meta == self.meta,
            r.seed == self.seed,
    {
        let mut b = self;
        b.assets.push(asset);
        proof {
            lemma_mviews_push(self.assets@, asset);
        }
        b
    }

    /// Adds an issue already described, in place.
    pub fn add_asset_value_ref(&mut self, asset: MetaAsset)
        ensures
            mviews(final(self).assets@) == mviews(old(self).assets@).push(asset@),
            final(self).meta == old(self).meta,
            final(self).seed == old(self).seed,
    {
        proof {
            lemma_mviews_push(old(self).assets@, asset);
        }
        self.assets.push(asset);
    }

    /// Adds an asset issued to another receiver.
    pub fn add_asset_receiver(
        self,
        receiver: PublicKey,
        name: &str,
        count: u64,
        fees: Fees,
    ) -> (r: AddAssetBuilder)
        ensures
            mviews(r.assets@) == mviews(self.assets@).push(
                (receiver@, name@, count as int, fees@),
            ),
            r.meta == self.meta,
            r.seed == self.seed,
    {
        let asset = MetaAsset::new(&receiver, name, count, fees);
        self.add_asset_value(asset)
    }

    /// Adds an asset issued to another receiver, in place.
    pub fn add_asset_receiver_ref(&mut self, receiver: PublicKey, name: &str, count: u64, fees: Fees)
        ensures
            mviews(final(self).assets@) == mviews(old(self).assets@).push(
                (receiver@, name@, count as int, fees@),
            ),
            final(self).meta == old(self).meta,
            final(self).seed == old(self).seed,
    {
        let asset = MetaAsset::new(&receiver, name, count, fees);
        self.add_asset_value_ref(asset);
    }

    /// Sets the replay seed.
    pub fn seed(self, seed: u64) -> (r: AddAssetBuilder)
        ensures
            r == (AddAssetBuilder { seed, ..self }),
    {
        AddAssetBuilder { seed, ..self }
    }

    /// Assembles the transaction, its signature slot zeroed for the
    /// embedding to fill.
    pub fn build(self) -> (r: AddAssets)
        requires
            meta_wf(&self.meta),
            forall|i: int| 0 <= i < self.assets@.len() ==> (#[trigger] self.assets@[i]).wf(),
            forall|i: int|
                0 <= i < self.assets@.len() ==> encode_utf8(
                    (#[trigger] self.assets@[i])@.1,
                ).len() <= u32::MAX,
            HEADER_LENGTH + fixed_total(
                kinds_of(add_values(self.meta.public_key@, mviews(self.assets@), self.seed)),
            ) + seg_total(add_values(self.meta.public_key@, mviews(self.assets@), self.seed))
                + SIGNATURE_LENGTH <= u32::MAX,
        ensures
            r.pub_key@ == self.meta.public_key@,
            mviews(r.assets@) == mviews(self.assets@),
            r.seed == self.seed,
            r.signature@ == spec_zero_sig(),
            r.wf(),
    {
        AddAssets::new(&self.meta.public_key, self.assets, self.seed)
    }
}

/// Builds a `delete_assets` transaction.
#[derive(Debug)]
pub struct DelAssetBuilder {
    pub meta: TransactionMetadata,
    pub assets: Vec<AssetBundle>,
    pub seed: u64,
}

impl DelAssetBuilder {
    fn start(meta: TransactionMetadata) -> (r: DelAssetBuilder)
        ensures
            r.meta == meta,
            r.assets@ == Seq::<AssetBundle>::empty(),
            1 <= r.seed < u64::MAX,
    {
        DelAssetBuilder { meta, assets: Vec::new(), seed: rand_seed() }
    }

    /// Adds a bundle of the builder's own asset.
    pub fn add_asset(self, name: &str, count: u64) -> (r: DelAssetBuilder)
        ensures
            bviews(r.assets@) == bviews(self.assets@).push(
                (spec_asset_id(name.spec_bytes(), self.meta.public_key@), count as int),
            ),
            r.meta == self.meta,
            r.seed == self.seed,
    {
        let owner = self.meta.public_key.duplicate();
        let asset = AssetBundle::from_data(name, count, &owner);
        self.add_asset_value(asset)
    }

    /// Adds a bundle already identified.
    pub fn add_asset_value(self, asset: AssetBundle) -> (r: DelAssetBuilder)
        ensures
            bviews(r.assets@) == bviews(self.assets@).push(asset@),
            r.meta == self.meta,
            r.seed == self.seed,
    {
        let mut b = self;
        b.assets.push(asset);
        proof {
            lemma_bviews_push(self.assets@, asset);
        }
        b
    }

    /// Adds a bundle already identified, in place.
    pub fn add_asset_value_ref(&mut self, asset: AssetBundle)
        ensures
            bviews(final(self).assets@) == bviews(old(self).assets@).push(asset@),
            final(self).meta == old(self).meta,
            final(self).seed == old(self).seed,
    {
        proof {
            lemma_bviews_push(old(self).assets@, asset);
        }
        self.assets.push(asset);
    }

    /// Sets the replay seed.
    pub fn seed(self, seed: u64) -> (r: DelAssetBuilder)
        ensures
            r == (DelAssetBuilder { seed, ..self }),
    {
        DelAssetBuilder { seed, ..self }
    }

    /// Assembles the transaction, its signature slot zeroed for the
    /// embedding to fill.
    pub fn build(self) -> (r: DeleteAssets)
        requires
            meta_wf(&self.meta),
            forall|i: int| 0 <= i < self.assets@.len() ==> (#[trigger] self.assets@[i]).wf(),
            HEADER_LENGTH + fixed_total(
                kinds_of(delete_values(self.meta.public_key@, bviews(self.assets@), self.seed)),
            ) + seg_total(delete_values(self.meta.public_key@, bviews(self.assets@), self.seed))
                + SIGNATURE_LENGTH <= u32::MAX,
        ensures
            r.pub_key@ == self.meta.public_key@,
            bviews(r.assets@) == bviews(self.assets@),
            r.seed == self.seed,
            r.signature@ == spec_zero_sig(),
            r.wf(),
    {
        DeleteAssets::new(&self.meta.public_key, self.assets, self.seed)
    }
}

/// Builds an `exchange` transaction; the message's signer is the
/// recipient, the offer's signer is the sender.
#[derive(Debug)]
pub struct ExchangeBuilder {
    pub meta: TransactionMetadata,
    pub sender: Option<PublicKey>,
    pub sender_secret: Option<SecretKey>,
    pub sender_assets: Vec<AssetBundle>,
    pub sender_value: u64,
    pub recipient_assets: Vec<AssetBundle>,
    pub fee_strategy: FeeStrategy,
    pub seed: u64,
    pub data_info: Option<String>,
}

impl ExchangeBuilder {
    fn start(meta: TransactionMetadata) -> (r: ExchangeBuilder)
        ensures
            r.meta == meta,
            r.sender is None,
            r.sender_secret is None,
            r.sender_assets@ == Seq::<AssetBundle>::empty(),
            r.sender_value == 0,
            r.recipient_assets@ == Seq::<AssetBundle>::empty(),
            r.fee_strategy == FeeStrategy::Recipient,
            1 <= r.seed < u64::MAX,
            r.data_info is None,
    {
        ExchangeBuilder {
            meta,
            sender: None,
            sender_secret: None,
            sender_assets: Vec::new(),
            sender_value: 0,
            recipient_assets: Vec::new(),
            fee_strategy: FeeStrategy::Recipient,
            seed: rand_seed(),
            data_info: None,
        }
    }

    /// Sets the sender's key.
    pub fn sender(self, pub_key: PublicKey) -> (r: ExchangeBuilder)
        ensures
            r == (ExchangeBuilder { sender: Some(pub_key), ..self }),
    {
        ExchangeBuilder { sender: Some(pub_key), ..self }
    }

    /// Sets the sender's secret key.
    pub fn sender_secret(self, secret_key: SecretKey) -> (r: ExchangeBuilder)
        ensures
            r == (ExchangeBuilder { sender_secret: Some(secret_key), ..self }),
    {
        ExchangeBuilder { sender_secret: Some(secret_key), ..self }
    }

    /// Adds a bundle of the sender's asset; the sender must be set.
    pub fn sender_add_asset(self, name: &str, count: u64) -> (r: ExchangeBuilder)
        requires
            self.sender is Some,
        ensures
            bviews(r.sender_assets@) == bviews(self.sender_assets@).push(
                (spec_asset_id(name.spec_bytes(), self.sender.unwrap()@), count as int),
            ),
            r.meta == self.meta,
            r.sender == self.sender,
            r.sender_secret == self.sender_secret,
            r.sender_value == self.sender_value,
            r.recipient_assets == self.recipient_assets,
            r.fee_strategy == self.fee_strategy,
            r.seed == self.seed,
            r.data_info == self.data_info,
    {
        let owner = match &self.sender {
            Some(k) => k.duplicate(),
            None => PublicKey::zero(),
        };
        let asset = AssetBundle::from_data(name, count, &owner);
        self.sender_add_asset_value(asset)
    }

    /// Adds a bundle the sender gives.
    pub fn sender_add_asset_value(self, asset: AssetBundle) -> (r: ExchangeBuilder)
        ensures
            bviews(r.sender_assets@) == bviews(self.sender_assets@).push(asset@),
            r.meta == self.meta,
            r.sender == self.sender,
            r.sender_secret == self.sender_secret,
            r.sender_value == self.sender_value,
            r.recipient_assets == self.recipient_assets,
            r.fee_strategy == self.fee_strategy,
            r.seed == self.seed,
            r.data_info == self.data_info,
    {
        let mut b = self;
        b.sender_assets.push(asset);
        proof {
            lemma_bviews_push(self.sender_assets@, asset);
        }
        b
    }

    /// Adds a bundle the sender gives, in place.
    pub fn sender_add_asset_value_ref(&mut self, asset: AssetBundle)
        ensures
            bviews(final(self).sender_assets@) == bviews(old(self).sender_assets@).push(asset@),
            final(self).meta == old(self).meta,
            final(self).sender == old(self).sender,
            final(self).sender_secret == old(self).sender_secret,
            final(self).sender_value == old(self).sender_value,
            final(self).recipient_assets == old(self).recipient_assets,
            final(self).fee_strategy == old(self).fee_strategy,
            final(self).seed == old(self).seed,
            final(self).data_info == old(self).data_info,
    {
        proof {
            lemma_bviews_push(old(self).sender_assets@, asset);
        }
        self.sender_assets.push(asset);
    }

    /// Sets the coins the sender gives.
    pub fn sender_value(self, sender_value: u64) -> (r: ExchangeBuilder)
        ensures
            r == (ExchangeBuilder { sender_value, ..self }),
    {
        ExchangeBuilder { sender_value, ..self }
    }

    /// Adds a bundle of the recipient's asset.
    pub fn recipient_add_asset(self, name: &str, count: u64) -> (r: ExchangeBuilder)
        ensures
            bviews(r.recipient_assets@) == bviews(self.recipient_assets@).push(
                (spec_asset_id(name.spec_bytes(), self.meta.public_key@), count as int),
            ),
            r.meta == self.meta,
            r.sender == self.sender,
            r.sender_secret == self.sender_secret,
            r.sender_assets == self.sender_assets,
            r.sender_value == self.sender_value,
            r.fee_strategy == self.fee_strategy,
            r.seed == self.seed,
            r.data_info == self.data_info,
    {
        let owner = self.meta.public_key.duplicate();
        let asset = AssetBundle::from_data(name, count, &owner);
        self.recipient_add_asset_value(asset)
    }

    /// Adds a bundle the recipient gives.
    pub fn recipient_add_asset_value(self, asset: AssetBundle) -> (r: ExchangeBuilder)
        ensures
            bviews(r.recipient_assets@) == bviews(self.recipient_assets@).push(asset@),
            r.meta == self.meta,
            r.sender == self.sender,
            r.sender_secret == self.sender_secret,
            r.sender_assets == self.sender_assets,
            r.sender_value == self.sender_value,
            r.fee_strategy == self.fee_strategy,
            r.seed == self.seed,
            r.data_info == self.data_info,
    {
        let mut b = self;
        b.recipient_assets.push(asset);
        proof {
            lemma_bviews_push(self.recipient_assets@, asset);
        }
        b
    }

    /// Adds a bundle the recipient gives, in place.
    pub fn recipient_add_asset_value_ref(&mut self, asset: AssetBundle)
        ensures
            bviews(final(self).recipient_assets@) == bviews(old(self).recipient_assets@).push(
                asset@,
            ),
            final(self).meta == old(self).meta,
            final(self).sender == old(self).sender,
            final(self).sender_secret == old(self).sender_secret,
            final(self).sender_assets == old(self).sender_assets,
            final(self).sender_value == old(self).sender_value,
            final(self).fee_strategy == old(self).fee_strategy,
            final(self).seed == old(self).seed,
            final(self).data_info == old(self).data_info,
    {
        proof {
            lemma_bviews_push(old(self).recipient_assets@, asset);
        }
        self.recipient_assets.push(asset);
    }

    /// Sets the fee strategy.
    pub fn fee_strategy(self, fee_strategy: FeeStrategy) -> (r: ExchangeBuilder)
        ensures
            r == (ExchangeBuilder { fee_strategy, ..self }),
    {
        ExchangeBuilder { fee_strategy, ..self }
    }

    /// Sets the replay seed.
    pub fn seed(self, seed: u64) -> (r: ExchangeBuilder)
        ensures
            r == (ExchangeBuilder { seed, ..self }),
    {
        ExchangeBuilder { seed, ..self }
    }

    /// Sets the memo.
    pub fn data_info(self, data_info: &str) -> (r: ExchangeBuilder)
        ensures
            (r.data_info matches Some(s) && s@ == data_info@),
            r.meta == self.meta,
            r.sender == self.sender,
            r.sender_secret == self.sender_secret,
            r.sender_assets == self.sender_assets,
            r.sender_value == self.sender_value,
            r.recipient_assets == self.recipient_assets,
            r.fee_strategy == self.fee_strategy,
            r.seed == self.seed,
    {
        ExchangeBuilder { data_info: Some(String::from_str(data_info)), ..self }
    }

    /// Assembles the exchange; the offer and message signature slots
    /// start zeroed for the embedding to fill.
    pub fn build(self) -> (r: Exchange)
        requires
            meta_wf(&self.meta),
            self.sender is Some,
            self.sender_secret is Some,
            self.sender.unwrap().wf(),
            forall|i: int|
                0 <= i < self.sender_assets@.len() ==> (#[trigger] self.sender_assets@[i]).wf(),
            forall|i: int|
                0 <= i < self.recipient_assets@.len() ==> (
                #[trigger] self.recipient_assets@[i]).wf(),
            plain_fits(
                crate::transactions::exchange::exchange_offer_values(
                    self.sender.unwrap()@,
                    bviews(self.sender_assets@),
                    self.sender_value,
                    self.meta.public_key@,
                    bviews(self.recipient_assets@),
                    crate::fees::strategy_byte(self.fee_strategy),
                ),
            ),
            HEADER_LENGTH + 88 + crate::messages::spec_plain(
                crate::transactions::exchange::exchange_offer_values(
                    self.sender.unwrap()@,
                    bviews(self.sender_assets@),
                    self.sender_value,
                    self.meta.public_key@,
                    bviews(self.recipient_assets@),
                    crate::fees::strategy_byte(self.fee_strategy),
                ),
            ).len() + encode_utf8(memo_chars(self.data_info)).len() + SIGNATURE_LENGTH
                <= u32::MAX,
        ensures
            r.offer.sender@ == self.sender.unwrap()@,
            bviews(r.offer.sender_assets@) == bviews(self.sender_assets@),
            r.offer.sender_value == self.sender_value,
            r.offer.recipient@ == self.meta.public_key@,
            bviews(r.offer.recipient_assets@) == bviews(self.recipient_assets@),
            r.offer.fee_strategy == strategy_byte(self.fee_strategy),
            r.seed == self.seed,
            r.sender_signature@ == spec_zero_sig(),
            r.data_info@ == memo_chars(self.data_info),
            r.signature@ == spec_zero_sig(),
            r.wf(),
    {
        let ghost sa0 = bviews(self.sender_assets@);
        let ghost ra0 = bviews(self.recipient_assets@);
        let ghost saw = self.sender_assets@;
        let ghost raw_a = self.recipient_assets@;
        let sender = match &self.sender {
            Some(k) => k.duplicate(),
            None => PublicKey::zero(),
        };
        let offer = ExchangeOffer::new(
            &sender,
            self.sender_assets,
            self.sender_value,
            &self.meta.public_key,
            self.recipient_assets,
            self.fee_strategy.to_byte(),
        );
        proof {
            assert forall|i: int|
                0 <= i < offer.sender_assets@.len() implies (
            #[trigger] offer.sender_assets@[i]).wf() by {
                assert(bviews(offer.sender_assets@)[i] == sa0[i]);
                assert(sa0[i] == saw[i]@);
            }
            assert forall|i: int|
                0 <= i < offer.recipient_assets@.len() implies (
            #[trigger] offer.recipient_assets@[i]).wf() by {
                assert(bviews(offer.recipient_assets@)[i] == ra0[i]);
                assert(ra0[i] == raw_a[i]@);
            }
        }
        let sender_signature = Signature::zero();
        let memo = match &self.data_info {
            Some(s) => s.clone(),
            None => String::new(),
        };
        proof {
            crate::transactions::exchange::lemma_exchange_sizes(
                offer.spec_bytes(),
                self.seed,
                sender_signature@,
                memo@,
            );
        }
        Exchange::new(offer, self.seed, &sender_signature, memo.as_str())
    }
}

/// Builds an `exchange_intermediary` transaction.
#[derive(Debug)]
pub struct ExchangeIntermediaryBuilder {
    pub meta: TransactionMetadata,
    pub intermediary_public_key: Option<PublicKey>,
    pub intermediary_secret_key: Option<SecretKey>,
    pub commission: u64,
    pub sender_public_key: Option<PublicKey>,
    pub sender_secret_key: Option<SecretKey>,
    pub sender_assets: Vec<AssetBundle>,
    pub sender_value: u64,
    pub recipient_assets: Vec<AssetBundle>,
    pub fee_strategy: FeeStrategy,
    pub seed: u64,
    pub data_info: Option<String>,
}

impl ExchangeIntermediaryBuilder {
    fn start(meta: TransactionMetadata) -> (r: ExchangeIntermediaryBuilder)
        ensures
            r.meta == meta,
            r.intermediary_public_key is None,
            r.intermediary_secret_key is None,
            r.commission == 0,
            r.sender_public_key is None,
            r.sender_secret_key is None,
            r.sender_assets@ == Seq::<AssetBundle>::empty(),
            r.sender_value == 0,
            r.recipient_assets@ == Seq::<AssetBundle>::empty(),
            r.fee_strategy == FeeStrategy::Recipient,
            1 <= r.seed < u64::MAX,
            r.data_info is None,
    {
        ExchangeIntermediaryBuilder {
            meta,
            intermediary_public_key: None,
            intermediary_secret_key: None,
            commission: 0,
            sender_public_key: None,
            sender_secret_key: None,
            sender_assets: Vec::new(),
            sender_value: 0,
            recipient_assets: Vec::new(),
            fee_strategy: FeeStrategy::Recipient,
            seed: rand_seed(),
            data_info: None,
        }
    }

    /// Adds a bundle the sender gives, of the builder's own asset.
    pub fn sender_add_asset(self, name: &str, count: u64) -> (r: ExchangeIntermediaryBuilder)
        ensures
            bviews(r.sender_assets@) == bviews(self.sender_assets@).push(
                (spec_asset_id(name.spec_bytes(), self.meta.public_key@), count as int),
            ),
            r.meta == self.meta,
            r.intermediary_public_key == self.intermediary_public_key,
            r.intermediary_secret_key == self.intermediary_secret_key,
            r.commission == self.commission,
            r.sender_public_key == self.sender_public_key,
            r.sender_secret_key == self.sender_secret_key,
            r.sender_value == self.sender_value,
            r.recipient_assets == self.recipient_assets,
            r.fee_strategy == self.fee_strategy,
            r.seed == self.seed,
            r.data_info == self.data_info,
    {
        let owner = self.meta.public_key.duplicate();
        let asset = AssetBundle::from_data(name, count, &owner);
        self.sender_add_asset_value(asset)
    }

    /// Adds a bundle the sender gives.
    pub fn sender_add_asset_value(self, asset: AssetBundle) -> (r: ExchangeIntermediaryBuilder)
        ensures
            bviews(r.sender_assets@) == bviews(self.sender_assets@).push(asset@),
            r.meta == self.meta,
            r.intermediary_public_key == self.intermediary_public_key,
            r.intermediary_secret_key == self.intermediary_secret_key,
            r.commission == self.commission,
            r.sender_public_key == self.sender_public_key,
            r.sender_secret_key == self.sender_secret_key,
            r.sender_value == self.sender_value,
            r.recipient_assets == self.recipient_assets,
            r.fee_strategy == self.fee_strategy,
            r.seed == self.seed,
            r.data_info == self.data_info,
    {
        let mut b = self;
        b.sender_assets.push(asset);
        proof {
            lemma_bviews_push(self.sender_assets@, asset);
        }
        b
    }

    /// Adds a bundle the sender gives, in place.
    pub fn sender_add_asset_value_ref(&mut self, asset: AssetBundle)
        ensures
            bviews(final(self).sender_assets@) == bviews(old(self).sender_assets@).push(asset@),
            final(self).meta == old(self).meta,
            final(self).intermediary_public_key == old(self).intermediary_public_key,
            final(self).intermediary_secret_key == old(self).intermediary_secret_key,
            final(self).commission == old(self).commission,
            final(self).sender_public_key == old(self).sender_public_key,
            final(self).sender_secret_key == old(self).sender_secret_key,
            final(self).sender_value == old(self).sender_value,
            final(self).recipient_assets == old(self).recipient_assets,
            final(self).fee_strategy == old(self).fee_strategy,
            final(self).seed == old(self).seed,
            final(self).data_info == old(self).data_info,
    {
        proof {
            lemma_bviews_push(old(self).sender_assets@, asset);
        }
        self.sender_assets.push(asset);
    }

    /// Sets the coins the sender gives.
    pub fn sender_value(self, sender_value: u64) -> (r: ExchangeIntermediaryBuilder)
        ensures
            r == (ExchangeIntermediaryBuilder { sender_value, ..self }),
    {
        ExchangeIntermediaryBuilder { sender_value, ..self }
    }

    /// Sets the intermediary's keypair.
    pub fn intermediary_key_pair(self, public_key: PublicKey, secret_key: SecretKey) -> (r:
        ExchangeIntermediaryBuilder)
        ensures
            r == (ExchangeIntermediaryBuilder {
                intermediary_public_key: Some(public_key),
                intermediary_secret_key: Some(secret_key),
                ..self
            }),
    {
        ExchangeIntermediaryBuilder {
            intermediary_public_key: Some(public_key),
            intermediary_secret_key: Some(secret_key),
            ..self
        }
    }

    /// Sets the intermediary's commission.
    pub fn commission(self, commission: u64) -> (r: ExchangeIntermediaryBuilder)
        ensures
            r == (ExchangeIntermediaryBuilder { commission, ..self }),
    {
        ExchangeIntermediaryBuilder { commission, ..self }
    }

    /// Sets the sender's keypair.
    pub fn sender_key_pair(self, public_key: PublicKey, secret_key: SecretKey) -> (r:
        ExchangeIntermediaryBuilder)
        ensures
            r == (ExchangeIntermediaryBuilder {
                sender_public_key: Some(public_key),
                sender_secret_key: Some(secret_key),
                ..self
            }),
    {
        ExchangeIntermediaryBuilder {
            sender_public_key: Some(public_key),
            sender_secret_key: Some(secret_key),
            ..self
        }
    }

    /// Adds a bundle the recipient gives, of the builder's own asset.
    pub fn recipient_add_asset(self, name: &str, count: u64) -> (r: ExchangeIntermediaryBuilder)
        ensures
            bviews(r.recipient_assets@) == bviews(self.recipient_assets@).push(
                (spec_asset_id(name.spec_bytes(), self.meta.public_key@), count as int),
            ),
            r.meta == self.meta,
            r.intermediary_public_key == self.intermediary_public_key,
            r.intermediary_secret_key == self.intermediary_secret_key,
            r.commission == self.commission,
            r.sender_public_key == self.sender_public_key,
            r.sender_secret_key == self.sender_secret_key,
            r.sender_assets == self.sender_assets,
            r.sender_value == self.sender_value,
            r.fee_strategy == self.fee_strategy,
            r.seed == self.seed,
            r.data_info == self.data_info,
    {
        let owner = self.meta.public_key.duplicate();
        let asset = AssetBundle::from_data(name, count, &owner);
        self.recipient_add_asset_value(asset)
    }

    /// Adds a bundle the recipient gives.
    pub fn recipient_add_asset_value(self, asset: AssetBundle) -> (r: ExchangeIntermediaryBuilder)
        ensures
            bviews(r.recipient_assets@) == bviews(self.recipient_assets@).push(asset@),
            r.meta == self.meta,
            r.intermediary_public_key == self.intermediary_public_key,
            r.intermediary_secret_key == self.intermediary_secret_key,
            r.commission == self.commission,
            r.sender_public_key == self.sender_public_key,
            r.sender_secret_key == self.sender_secret_key,
            r.sender_assets == self.sender_assets,
            r.sender_value == self.sender_value,
            r.fee_strategy == self.fee_strategy,
            r.seed == self.seed,
            r.data_info == self.data_info,
    {
        let mut b = self;
        b.recipient_assets.push(asset);
        proof {
            lemma_bviews_push(self.recipient_assets@, asset);
        }
        b
    }

    /// Adds a bundle the recipient gives, in place.
    pub fn recipient_add_asset_value_ref(&mut self, asset: AssetBundle)
        ensures
            bviews(final(self).recipient_assets@) == bviews(old(self).recipient_assets@).push(
                asset@,
            ),
            final(self).meta == old(self).meta,
            final(self).intermediary_public_key == old(self).intermediary_public_key,
            final(self).intermediary_secret_key == old(self).intermediary_secret_key,
            final(self).commission == old(self).commission,
            final(self).sender_public_key == old(self).sender_public_key,
            final(self).sender_secret_key == old(self).sender_secret_key,
            final(self).sender_assets == old(self).sender_assets,
            final(self).sender_value == old(self).sender_value,
            final(self).fee_strategy == old(self).fee_strategy,
            final(self).seed == old(self).seed,
            final(self).data_info == old(self).data_info,
    {
        proof {
            lemma_bviews_push(old(self).recipient_assets@, asset);
        }
        self.recipient_assets.push(asset);
    }

    /// Sets the fee strategy.
    pub fn fee_strategy(self, fee_strategy: FeeStrategy) -> (r: ExchangeIntermediaryBuilder)
        ensures
            r == (ExchangeIntermediaryBuilder { fee_strategy, ..self }),
    {
        ExchangeIntermediaryBuilder { fee_strategy, ..self }
    }

    /// Sets the replay seed.
    pub fn seed(self, seed: u64) -> (r: ExchangeIntermediaryBuilder)
        ensures
            r == (ExchangeIntermediaryBuilder { seed, ..self }),
    {
        ExchangeIntermediaryBuilder { seed, ..self }
    }

    /// Sets the memo.
    pub fn data_info(self, data_info: &str) -> (r: ExchangeIntermediaryBuilder)
        ensures
            (r.data_info matches Some(s) && s@ == data_info@),
            r.meta == self.meta,
            r.intermediary_public_key == self.intermediary_public_key,
            r.intermediary_secret_key == self.intermediary_secret_key,
            r.commission == self.commission,
            r.sender_public_key == self.sender_public_key,
            r.sender_secret_key == self.sender_secret_key,
            r.sender_assets == self.sender_assets,
            r.sender_value == self.sender_value,
            r.recipient_assets == self.recipient_assets,
            r.fee_strategy == self.fee_strategy,
            r.seed == self.seed,
    {
        ExchangeIntermediaryBuilder { data_info: Some(String::from_str(data_info)), ..self }
    }

    /// Assembles the exchange; the offer and message signature slots
    /// start zeroed for the embedding to fill.
    #[verifier::rlimit(100)]
    pub fn build(self) -> (r: ExchangeIntermediary)
        requires
            meta_wf(&self.meta),
            self.sender_public_key is Some,
            self.sender_secret_key is Some,
            self.intermediary_public_key is Some,
            self.intermediary_secret_key is Some,
            self.sender_public_key.unwrap().wf(),
            self.intermediary_public_key.unwrap().wf(),
            forall|i: int|
                0 <= i < self.sender_assets@.len() ==> (#[trigger] self.sender_assets@[i]).wf(),
            forall|i: int|
                0 <= i < self.recipient_assets@.len() ==> (
                #[trigger] self.recipient_assets@[i]).wf(),
            plain_fits(exin_offer_vs(&self)),
            HEADER_LENGTH + 152 + crate::messages::spec_plain(exin_offer_vs(&self)).len()
                + encode_utf8(memo_chars(self.data_info)).len() + SIGNATURE_LENGTH <= u32::MAX,
        ensures
            r.offer.intermediary.wallet@ == self.intermediary_public_key.unwrap()@,
            r.offer.intermediary.commission == self.commission,
            r.offer.sender@ == self.sender_public_key.unwrap()@,
            bviews(r.offer.sender_assets@) == bviews(self.sender_assets@),
            r.offer.sender_value == self.sender_value,
            r.offer.recipient@ == self.meta.public_key@,
            bviews(r.offer.recipient_assets@) == bviews(self.recipient_assets@),
            r.offer.fee_strategy == strategy_byte(self.fee_strategy),
            r.seed == self.seed,
            r.sender_signature@ == spec_zero_sig(),
            r.intermediary_signature@ == spec_zero_sig(),
            r.data_info@ == memo_chars(self.data_info),
            r.signature@ == spec_zero_sig(),
            r.wf(),
    {
        let interm_pk = match &self.intermediary_public_key {
            Some(k) => k.duplicate(),
            None => PublicKey::zero(),
        };
        let intermediary = Intermediary::new(&interm_pk, self.commission);
        let sender_pk = match &self.sender_public_key {
            Some(k) => k.duplicate(),
            None => PublicKey::zero(),
        };
        let ghost sa0 = bviews(self.sender_assets@);
        let ghost ra0 = bviews(self.recipient_assets@);
        let ghost saw = self.sender_assets@;
        let ghost raw_a = self.recipient_assets@;
        let offer = ExchangeOfferIntermediary::new(
            intermediary,
            &sender_pk,
            self.sender_assets,
            self.sender_value,
            &self.meta.public_key,
            self.recipient_assets,
            self.fee_strategy.to_byte(),
        );
        proof {
            assert forall|i: int|
                0 <= i < offer.sender_assets@.len() implies (
            #[trigger] offer.sender_assets@[i]).wf() by {
                assert(bviews(offer.sender_assets@)[i] == sa0[i]);
                assert(sa0[i] == saw[i]@);
            }
            assert forall|i: int|
                0 <= i < offer.recipient_assets@.len() implies (
            #[trigger] offer.recipient_assets@[i]).wf() by {
                assert(bviews(offer.recipient_assets@)[i] == ra0[i]);
                assert(ra0[i] == raw_a[i]@);
            }
        }
        let sender_signature = Signature::zero();
        let intermediary_signature = Signature::zero();
        let memo = match &self.data_info {
            Some(s) => s.clone(),
            None => String::new(),
        };
        proof {
            crate::transactions::exchange_intermediary::lemma_exchange_intermediary_sizes(
                offer.spec_bytes(),
                self.seed,
                sender_signature@,
                intermediary_signature@,
                memo@,
            );
        }
        ExchangeIntermediary::new(
            offer,
            self.seed,
            &sender_signature,
            &intermediary_signature,
            memo.as_str(),
        )
    }
}

/// Builds a `trade` transaction; the message's signer is the buyer.
#[derive(Debug)]
pub struct TradeBuilder {
    pub meta: TransactionMetadata,
    pub seller_public: Option<PublicKey>,
    pub seller_secret: Option<SecretKey>,
    pub assets: Vec<TradeAsset>,
    pub fee_strategy: FeeStrategy,
    pub seed: u64,
    pub data_info: Option<String>,
}

impl TradeBuilder {
    fn start(meta: TransactionMetadata) -> (r: TradeBuilder)
        ensures
            r.meta == meta,
            r.seller_public is None,
            r.seller_secret is None,
            r.assets@ == Seq::<TradeAsset>::empty(),
            r.fee_strategy == FeeStrategy::Recipient,
            1 <= r.seed < u64::MAX,
            r.data_info is None,
    {
        TradeBuilder {
            meta,
            seller_public: None,
            seller_secret: None,
            assets: Vec::new(),
            fee_strategy: FeeStrategy::Recipient,
            seed: rand_seed(),
            data_info: None,
        }
    }

    /// Sets the seller's keypair.
    pub fn seller(self, pub_key: PublicKey, sec_key: SecretKey) -> (r: TradeBuilder)
        ensures
            r == (TradeBuilder { seller_public: Some(pub_key), seller_secret: Some(sec_key), ..self }),
    {
        TradeBuilder { seller_public: Some(pub_key), seller_secret: Some(sec_key), ..self }
    }

    /// Adds an asset by name, priced per unit; its identifier derives
    /// from the seller's key, which must already be set.
    pub fn add_asset(self, name: &str, count: u64, price: u64) -> (r: TradeBuilder)
        requires
            self.seller_public is Some,
        ensures
            tviews(r.assets@) == tviews(self.assets@).push(
                (
                    spec_asset_id(name.spec_bytes(), self.seller_public.unwrap()@),
                    count as int,
                    price as int,
                ),
            ),
            r.meta == self.meta,
            r.seller_public == self.seller_public,
            r.seller_secret == self.seller_secret,
            r.fee_strategy == self.fee_strategy,
            r.seed == self.seed,
            r.data_info == self.data_info,
    {
        let seller = match &self.seller_public {
            Some(k) => k.duplicate(),
            None => PublicKey::zero(),
        };
        let id = AssetId::from_data(name, &seller);
        self.add_asset_value(TradeAsset::new(id, count, price))
    }

    /// Adds a priced asset.
    pub fn add_asset_value(self, asset: TradeAsset) -> (r: TradeBuilder)
        ensures
            tviews(r.assets@) == tviews(self.assets@).push(asset@),
            r.meta == self.meta,
            r.seller_public == self.seller_public,
            r.seller_secret == self.seller_secret,
            r.fee_strategy == self.fee_strategy,
            r.seed == self.seed,
            r.data_info == self.data_info,
    {
        let mut b = self;
        b.assets.push(asset);
        proof {
            lemma_tviews_push(self.assets@, asset);
        }
        b
    }

    /// Adds a priced asset in place.
    pub fn add_asset_value_ref(&mut self, asset: TradeAsset)
        ensures
            tviews(final(self).assets@) == tviews(old(self).assets@).push(asset@),
            final(self).meta == old(self).meta,
            final(self).seller_public == old(self).seller_public,
            final(self).seller_secret == old(self).seller_secret,
            final(self).fee_strategy == old(self).fee_strategy,
            final(self).seed == old(self).seed,
            final(self).data_info == old(self).data_info,
    {
        proof {
            lemma_tviews_push(old(self).assets@, asset);
        }
        self.assets.push(asset);
    }

    /// Sets the fee strategy.
    pub fn fee_strategy(self, fee_strategy: FeeStrategy) -> (r: TradeBuilder)
        ensures
            r == (TradeBuilder { fee_strategy, ..self }),
    {
        TradeBuilder { fee_strategy, ..self }
    }

    /// Sets the replay seed.
    pub fn seed(self, seed: u64) -> (r: TradeBuilder)
        ensures
            r == (TradeBuilder { seed, ..self }),
    {
        TradeBuilder { seed, ..self }
    }

    /// Sets the memo.
    pub fn data_info(self, data_info: &str) -> (r: TradeBuilder)
        ensures
            (r.data_info matches Some(s) && s@ == data_info@),
            r.meta == self.meta,
            r.seller_public == self.seller_public,
            r.seller_secret == self.seller_secret,
            r.assets == self.assets,
            r.fee_strategy == self.fee_strategy,
            r.seed == self.seed,
    {
        TradeBuilder { data_info: Some(String::from_str(data_info)), ..self }
    }

    /// Assembles the trade; the offer and message signature slots start
    /// zeroed for the embedding to fill.
    pub fn build(self) -> (r: Trade)
        requires
            meta_wf(&self.meta),
            self.seller_public is Some,
            self.seller_secret is Some,
            self.seller_public.unwrap().wf(),
            forall|i: int| 0 <= i < self.assets@.len() ==> (#[trigger] self.assets@[i]).wf(),
            plain_fits(trade_offer_vs(&self)),
            HEADER_LENGTH + 88 + crate::messages::spec_plain(trade_offer_vs(&self)).len()
                + encode_utf8(memo_chars(self.data_info)).len() + SIGNATURE_LENGTH <= u32::MAX,
        ensures
            r.offer.buyer@ == self.meta.public_key@,
            r.offer.seller@ == self.seller_public.unwrap()@,
            tviews(r.offer.assets@) == tviews(self.assets@),
            r.offer.fee_strategy == strategy_byte(self.fee_strategy),
            r.seed == self.seed,
            r.seller_signature@ == spec_zero_sig(),
            r.data_info@ == memo_chars(self.data_info),
            r.signature@ == spec_zero_sig(),
            r.wf(),
    {
        let seller_pk = match &self.seller_public {
            Some(k) => k.duplicate(),
            None => PublicKey::zero(),
        };
        let ghost ta0 = tviews(self.assets@);
        let ghost taw = self.assets@;
        let offer = TradeOffer::new(
            &self.meta.public_key,
            &seller_pk,
            self.assets,
            self.fee_strategy.to_byte(),
        );
        proof {
            assert forall|i: int|
                0 <= i < offer.assets@.len() implies (#[trigger] offer.assets@[i]).wf() by {
                assert(tviews(offer.assets@)[i] == ta0[i]);
                assert(ta0[i] == taw[i]@);
            }
        }
        let signature = Signature::zero();
        let memo = match &self.data_info {
            Some(s) => s.clone(),
            None => String::new(),
        };
        proof {
            crate::transactions::trade::lemma_trade_sizes(
                offer.spec_bytes(),
                self.seed,
                signature@,
                memo@,
            );
        }
        Trade::new(offer, self.seed, &signature, memo.as_str())
    }
}

/// Builds a `trade_intermediary` transaction.
#[derive(Debug)]
pub struct TradeIntermediaryBuilder {
    pub meta: TransactionMetadata,
    pub seller_public: Option<PublicKey>,
    pub seller_secret: Option<SecretKey>,
    pub intermediary_public_key: Option<PublicKey>,
    pub intermediary_secret_key: Option<SecretKey>,
    pub commission: u64,
    pub assets: Vec<TradeAsset>,
    pub fee_strategy: FeeStrategy,
    pub seed: u64,
    pub data_info: Option<String>,
}

impl TradeIntermediaryBuilder {
    fn start(meta: TransactionMetadata) -> (r: TradeIntermediaryBuilder)
        ensures
            r.meta == meta,
            r.seller_public is None,
            r.seller_secret is None,
            r.intermediary_public_key is None,
            r.intermediary_secret_key is None,
            r.commission == 0,
            r.assets@ == Seq::<TradeAsset>::empty(),
            r.fee_strategy == FeeStrategy::Recipient,
            1 <= r.seed < u64::MAX,
            r.data_info is None,
    {
        TradeIntermediaryBuilder {
            meta,
            seller_public: None,
            seller_secret: None,
            intermediary_public_key: None,
            intermediary_secret_key: None,
            commission: 0,
            assets: Vec::new(),
            fee_strategy: FeeStrategy::Recipient,
            seed: rand_seed(),
            data_info: None,
        }
    }

    /// Sets the seller's keypair.
    pub fn seller(self, pub_key: PublicKey, sec_key: SecretKey) -> (r: TradeIntermediaryBuilder)
        ensures
            r == (TradeIntermediaryBuilder {
                seller_public: Some(pub_key),
                seller_secret: Some(sec_key),
                ..self
            }),
    {
        TradeIntermediaryBuilder {
            seller_public: Some(pub_key),
            seller_secret: Some(sec_key),
            ..self
        }
    }

    /// Sets the intermediary's keypair.
    pub fn intermediary_key_pair(
        self,
        public_key: PublicKey,
        secret_key: SecretKey,
    ) -> (r: TradeIntermediaryBuilder)
        ensures
            r == (TradeIntermediaryBuilder {
                intermediary_public_key: Some(public_key),
                intermediary_secret_key: Some(secret_key),
                ..self
            }),
    {
        TradeIntermediaryBuilder {
            intermediary_public_key: Some(public_key),
            intermediary_secret_key: Some(secret_key),
            ..self
        }
    }

    /// Sets the intermediary's commission.
    pub fn commission(self, commission: u64) -> (r: TradeIntermediaryBuilder)
        ensures
            r == (TradeIntermediaryBuilder { commission, ..self }),
    {
        TradeIntermediaryBuilder { commission, ..self }
    }

    /// Adds an asset by name, priced per unit; its identifier derives
    /// from the seller's key, which must already be set.
    pub fn add_asset(self, name: &str, count: u64, price: u64) -> (r: TradeIntermediaryBuilder)
        requires
            self.seller_public is Some,
        ensures
            tviews(r.assets@) == tviews(self.assets@).push(
                (
                    spec_asset_id(name.spec_bytes(), self.seller_public.unwrap()@),
                    count as int,
                    price as int,
                ),
            ),
            r.meta == self.meta,
            r.seller_public == self.seller_public,
            r.seller_secret == self.seller_secret,
            r.intermediary_public_key == self.intermediary_public_key,
            r.intermediary_secret_key == self.intermediary_secret_key,
            r.commission == self.commission,
            r.fee_strategy == self.fee_strategy,
            r.seed == self.seed,
            r.data_info == self.data_info,
    {
        let seller = match &self.seller_public {
            Some(k) => k.duplicate(),
            None => PublicKey::zero(),
        };
        let id = AssetId::from_data(name, &seller);
        self.add_asset_value(TradeAsset::new(id, count, price))
    }

    /// Adds a priced asset.
    pub fn add_asset_value(self, asset: TradeAsset) -> (r: TradeIntermediaryBuilder)
        ensures
            tviews(r.assets@) == tviews(self.assets@).push(asset@),
            r.meta == self.meta,
            r.seller_public == self.seller_public,
            r.seller_secret == self.seller_secret,
            r.intermediary_public_key == self.intermediary_public_key,
            r.intermediary_secret_key == self.intermediary_secret_key,
            r.commission == self.commission,
            r.fee_strategy == self.fee_strategy,
            r.seed == self.seed,
            r.data_info == self.data_info,
    {
        let mut b = self;
        b.assets.push(asset);
        proof {
            lemma_tviews_push(self.assets@, asset);
        }
        b
    }

    /// Adds a priced asset in place.
    pub fn add_asset_value_ref(&mut self, asset: TradeAsset)
        ensures
            tviews(final(self).assets@) == tviews(old(self).assets@).push(asset@),
            final(self).meta == old(self).meta,
            final(self).seller_public == old(self).seller_public,
            final(self).seller_secret == old(self).seller_secret,
            final(self).intermediary_public_key == old(self).intermediary_public_key,
            final(self).intermediary_secret_key == old(self).intermediary_secret_key,
            final(self).commission == old(self).commission,
            final(self).fee_strategy == old(self).fee_strategy,
            final(self).seed == old(self).seed,
            final(self).data_info == old(self).data_info,
    {
        proof {
            lemma_tviews_push(old(self).assets@, asset);
        }
        self.assets.push(asset);
    }

    /// Sets the fee strategy.
    pub fn fee_strategy(self, fee_strategy: FeeStrategy) -> (r: TradeIntermediaryBuilder)
        ensures
            r == (TradeIntermediaryBuilder { fee_strategy, ..self }),
    {
        TradeIntermediaryBuilder { fee_strategy, ..self }
    }

    /// Sets the replay seed.
    pub fn seed(self, seed: u64) -> (r: TradeIntermediaryBuilder)
        ensures
            r == (TradeIntermediaryBuilder { seed, ..self }),
    {
        TradeIntermediaryBuilder { seed, ..self }
    }

    /// Sets the memo.
    pub fn data_info(self, data_info: &str) -> (r: TradeIntermediaryBuilder)
        ensures
            (r.data_info matches Some(s) && s@ == data_info@),
            r.meta == self.meta,
            r.seller_public == self.seller_public,
            r.seller_secret == self.seller_secret,
            r.intermediary_public_key == self.intermediary_public_key,
            r.intermediary_secret_key == self.intermediary_secret_key,
            r.commission == self.commission,
            r.assets == self.assets,
            r.fee_strategy == self.fee_strategy,
            r.seed == self.seed,
    {
        TradeIntermediaryBuilder { data_info: Some(String::from_str(data_info)), ..self }
    }

    /// Assembles the trade; the offer and message signature slots start
    /// zeroed for the embedding to fill.
    pub fn build(self) -> (r: TradeIntermediary)
        requires
            meta_wf(&self.meta),
            self.seller_public is Some,
            self.seller_secret is Some,
            self.intermediary_public_key is Some,
            self.intermediary_secret_key is Some,
            self.seller_public.unwrap().wf(),
            self.intermediary_public_key.unwrap().wf(),
            forall|i: int| 0 <= i < self.assets@.len() ==> (#[trigger] self.assets@[i]).wf(),
            plain_fits(trade_int_offer_vs(&self)),
            HEADER_LENGTH + 152 + crate::messages::spec_plain(trade_int_offer_vs(&self)).len()
                + encode_utf8(memo_chars(self.data_info)).len() + SIGNATURE_LENGTH <= u32::MAX,
        ensures
            r.offer.intermediary.wallet@ == self.intermediary_public_key.unwrap()@,
            r.offer.intermediary.commission == self.commission,
            r.offer.buyer@ == self.meta.public_key@,
            r.offer.seller@ == self.seller_public.unwrap()@,
            tviews(r.offer.assets@) == tviews(self.assets@),
            r.offer.fee_strategy == strategy_byte(self.fee_strategy),
            r.seed == self.seed,
            r.seller_signature@ == spec_zero_sig(),
            r.intermediary_signature@ == spec_zero_sig(),
            r.data_info@ == memo_chars(self.data_info),
            r.signature@ == spec_zero_sig(),
            r.wf(),
    {
        let seller_pk = match &self.seller_public {
            Some(k) => k.duplicate(),
            None => PublicKey::zero(),
        };
        let interm_pk = match &self.intermediary_public_key {
            Some(k) => k.duplicate(),
            None => PublicKey::zero(),
        };
        let intermediary = Intermediary::new(&interm_pk, self.commission);
        let ghost ta0 = tviews(self.assets@);
        let ghost taw = self.assets@;
        let offer = TradeOfferIntermediary::new(
            intermediary,
            &self.meta.public_key,
            &seller_pk,
            self.assets,
            self.fee_strategy.to_byte(),
        );
        proof {
            assert forall|i: int|
                0 <= i < offer.assets@.len() implies (#[trigger] offer.assets@[i]).wf() by {
                assert(tviews(offer.assets@)[i] == ta0[i]);
                assert(ta0[i] == taw[i]@);
            }
        }
        let seller_signature = Signature::zero();
        let intermediary_signature = Signature::zero();
        let memo = match &self.data_info {
            Some(s) => s.clone(),
            None => String::new(),
        };
        proof {
            crate::transactions::trade_intermediary::lemma_trade_int_sizes(
                offer.spec_bytes(),
                self.seed,
                seller_signature@,
                intermediary_signature@,
                memo@,
            );
        }
        TradeIntermediary::new(
            offer,
            self.seed,
            &seller_signature,
            &intermediary_signature,
            memo.as_str(),
        )
    }
}

/// Builds a plain `transfer` transaction.
#[derive(Debug)]
pub struct TransferBuilder {
    pub meta: TransactionMetadata,
    pub recipient: Option<PublicKey>,
    pub amount: u64,
    pub assets: Vec<AssetBundle>,
    pub seed: u64,
    pub data_info: Option<String>,
}

impl TransferBuilder {
    fn start(meta: TransactionMetadata) -> (r: TransferBuilder)
        ensures
            r.meta == meta,
            r.recipient is None,
            r.amount == 0,
            r.assets@ == Seq::<AssetBundle>::empty(),
            1 <= r.seed < u64::MAX,
            r.data_info is None,
    {
        TransferBuilder {
            meta,
            recipient: None,
            amount: 0,
            assets: Vec::new(),
            seed: rand_seed(),
            data_info: None,
        }
    }

    /// Sets the recipient.
    pub fn recipient(self, pub_key: PublicKey) -> (r: TransferBuilder)
        ensures
            r == (TransferBuilder { recipient: Some(pub_key), ..self }),
    {
        TransferBuilder { recipient: Some(pub_key), ..self }
    }

    /// Sets the coin amount.
    pub fn amount(self, amount: u64) -> (r: TransferBuilder)
        ensures
            r == (TransferBuilder { amount, ..self }),
    {
        TransferBuilder { amount, ..self }
    }

    /// Adds a bundle of the sender's own asset.
    pub fn add_asset(self, name: &str, count: u64) -> (r: TransferBuilder)
        ensures
            bviews(r.assets@) == bviews(self.assets@).push(
                (spec_asset_id(name.spec_bytes(), self.meta.public_key@), count as int),
            ),
            r.meta == self.meta,
            r.recipient == self.recipient,
            r.amount == self.amount,
            r.seed == self.seed,
            r.data_info == self.data_info,
    {
        let owner = self.meta.public_key.duplicate();
        let asset = AssetBundle::from_data(name, count, &owner);
        self.add_asset_value(asset)
    }

    /// Adds a bundle.
    pub fn add_asset_value(self, asset: AssetBundle) -> (r: TransferBuilder)
        ensures
            bviews(r.assets@) == bviews(self.assets@).push(asset@),
            r.meta == self.meta,
            r.recipient == self.recipient,
            r.amount == self.amount,
            r.seed == self.seed,
            r.data_info == self.data_info,
    {
        let mut b = self;
        b.assets.push(asset);
        proof {
            lemma_bviews_push(self.assets@, asset);
        }
        b
    }

    /// Adds a bundle in place.
    pub fn add_asset_value_ref(&mut self, asset: AssetBundle)
        ensures
            bviews(final(self).assets@) == bviews(old(self).assets@).push(asset@),
            final(self).meta == old(self).meta,
            final(self).recipient == old(self).recipient,
            final(self).amount == old(self).amount,
            final(self).seed == old(self).seed,
            final(self).data_info == old(self).data_info,
    {
        proof {
            lemma_bviews_push(old(self).assets@, asset);
        }
        self.assets.push(asset);
    }

    /// Sets the replay seed.
    pub fn seed(self, seed: u64) -> (r: TransferBuilder)
        ensures
            r == (TransferBuilder { seed, ..self }),
    {
        TransferBuilder { seed, ..self }
    }

    /// Sets the memo.
    pub fn data_info(self, data_info: &str) -> (r: TransferBuilder)
        ensures
            (r.data_info matches Some(s) && s@ == data_info@),
            r.meta == self.meta,
            r.recipient == self.recipient,
            r.amount == self.amount,
            r.assets == self.assets,
            r.seed == self.seed,
    {
        TransferBuilder { data_info: Some(String::from_str(data_info)), ..self }
    }

    /// Assembles the transfer, its signature slot zeroed for the
    /// embedding to fill.
    pub fn build(self) -> (r: Transfer)
        requires
            meta_wf(&self.meta),
            self.recipient is Some,
            self.recipient.unwrap().wf(),
            forall|i: int| 0 <= i < self.assets@.len() ==> (#[trigger] self.assets@[i]).wf(),
            msg_fits(
                transfer_values(
                    self.meta.public_key@,
                    self.recipient.unwrap()@,
                    self.amount,
                    bviews(self.assets@),
                    self.seed,
                    memo_chars(self.data_info),
                ),
            ),
        ensures
            r.from@ == self.meta.public_key@,
            r.to@ == self.recipient.unwrap()@,
            r.amount == self.amount,
            bviews(r.assets@) == bviews(self.assets@),
            r.seed == self.seed,
            r.data_info@ == memo_chars(self.data_info),
            r.signature@ == spec_zero_sig(),
            r.wf(),
    {
        let to = match &self.recipient {
            Some(k) => k.duplicate(),
            None => PublicKey::zero(),
        };
        let memo = match &self.data_info {
            Some(s) => s.clone(),
            None => String::new(),
        };
        Transfer::new(&self.meta.public_key, &to, self.amount, self.assets, self.seed, memo.as_str())
    }
}

/// Builds a `transfer_with_fees_payer` transaction.
#[derive(Debug)]
pub struct TransferWithFeesPayerBuilder {
    pub meta: TransactionMetadata,
    pub recipient: Option<PublicKey>,
    pub fees_payer_pk: Option<PublicKey>,
    pub fees_payer_sk: Option<SecretKey>,
    pub amount: u64,
    pub assets: Vec<AssetBundle>,
    pub seed: u64,
    pub data_info: Option<String>,
}

impl TransferWithFeesPayerBuilder {
    fn start(meta: TransactionMetadata) -> (r: TransferWithFeesPayerBuilder)
        ensures
            r.meta == meta,
            r.recipient is None,
            r.fees_payer_pk is None,
            r.fees_payer_sk is None,
            r.amount == 0,
            r.assets@ == Seq::<AssetBundle>::empty(),
            1 <= r.seed < u64::MAX,
            r.data_info is None,
    {
        TransferWithFeesPayerBuilder {
            meta,
            recipient: None,
            fees_payer_pk: None,
            fees_payer_sk: None,
            amount: 0,
            assets: Vec::new(),
            seed: rand_seed(),
            data_info: None,
        }
    }

    /// Sets the recipient.
    pub fn recipient(self, pub_key: PublicKey) -> (r: TransferWithFeesPayerBuilder)
        ensures
            r == (TransferWithFeesPayerBuilder { recipient: Some(pub_key), ..self }),
    {
        TransferWithFeesPayerBuilder { recipient: Some(pub_key), ..self }
    }

    /// Sets the fees payer's keypair.
    pub fn fees_payer(self, pub_key: PublicKey, secret: SecretKey) -> (r:
        TransferWithFeesPayerBuilder)
        ensures
            r == (TransferWithFeesPayerBuilder {
                fees_payer_pk: Some(pub_key),
                fees_payer_sk: Some(secret),
                ..self
            }),
    {
        TransferWithFeesPayerBuilder {
            fees_payer_pk: Some(pub_key),
            fees_payer_sk: Some(secret),
            ..self
        }
    }

    /// Sets the coin amount.
    pub fn amount(self, amount: u64) -> (r: TransferWithFeesPayerBuilder)
        ensures
            r == (TransferWithFeesPayerBuilder { amount, ..self }),
    {
        TransferWithFeesPayerBuilder { amount, ..self }
    }

    /// Adds a bundle of the sender's own asset.
    pub fn add_asset(self, name: &str, count: u64) -> (r: TransferWithFeesPayerBuilder)
        ensures
            bviews(r.assets@) == bviews(self.assets@).push(
                (spec_asset_id(name.spec_bytes(), self.meta.public_key@), count as int),
            ),
            r.meta == self.meta,
            r.recipient == self.recipient,
            r.fees_payer_pk == self.fees_payer_pk,
            r.fees_payer_sk == self.fees_payer_sk,
            r.amount == self.amount,
            r.seed == self.seed,
            r.data_info == self.data_info,
    {
        let owner = self.meta.public_key.duplicate();
        let asset = AssetBundle::from_data(name, count, &owner);
        self.add_asset_value(asset)
    }

    /// Adds a bundle.
    pub fn add_asset_value(self, asset: AssetBundle) -> (r: TransferWithFeesPayerBuilder)
        ensures
            bviews(r.assets@) == bviews(self.assets@).push(asset@),
            r.meta == self.meta,
            r.recipient == self.recipient,
            r.fees_payer_pk == self.fees_payer_pk,
            r.fees_payer_sk == self.fees_payer_sk,
            r.amount == self.amount,
            r.seed == self.seed,
            r.data_info == self.data_info,
    {
        let mut b = self;
        b.assets.push(asset);
        proof {
            lemma_bviews_push(self.assets@, asset);
        }
        b
    }

    /// Adds a bundle in place.
    pub fn add_asset_value_ref(&mut self, asset: AssetBundle)
        ensures
            bviews(final(self).assets@) == bviews(old(self).assets@).push(asset@),
            final(self).meta == old(self).meta,
            final(self).recipient == old(self).recipient,
            final(self).fees_payer_pk == old(self).fees_payer_pk,
            final(self).fees_payer_sk == old(self).fees_payer_sk,
            final(self).amount == old(self).amount,
            final(self).seed == old(self).seed,
            final(self).data_info == old(self).data_info,
    {
        proof {
            lemma_bviews_push(old(self).assets@, asset);
        }
        self.assets.push(asset);
    }

    /// Sets the replay seed.
    pub fn seed(self, seed: u64) -> (r: TransferWithFeesPayerBuilder)
        ensures
            r == (TransferWithFeesPayerBuilder { seed, ..self }),
    {
        TransferWithFeesPayerBuilder { seed, ..self }
    }

    /// Sets the memo.
    pub fn data_info(self, data_info: &str) -> (r: TransferWithFeesPayerBuilder)
        ensures
            (r.data_info matches Some(s) && s@ == data_info@),
            r.meta == self.meta,
            r.recipient == self.recipient,
            r.fees_payer_pk == self.fees_payer_pk,
            r.fees_payer_sk == self.fees_payer_sk,
            r.amount == self.amount,
            r.assets == self.assets,
            r.seed == self.seed,
    {
        TransferWithFeesPayerBuilder { data_info: Some(String::from_str(data_info)), ..self }
    }

    /// Assembles the transfer; the offer and message signature slots
    /// start zeroed for the embedding to fill.
    pub fn build(self) -> (r: TransferWithFeesPayer)
        requires
            meta_wf(&self.meta),
            self.recipient is Some,
            self.fees_payer_pk is Some,
            self.fees_payer_sk is Some,
            self.recipient.unwrap().wf(),
            self.fees_payer_pk.unwrap().wf(),
            forall|i: int| 0 <= i < self.assets@.len() ==> (#[trigger] self.assets@[i]).wf(),
            plain_fits(twfp_offer_vs(&self)),
            HEADER_LENGTH + 88 + crate::messages::spec_plain(twfp_offer_vs(&self)).len()
                + encode_utf8(memo_chars(self.data_info)).len() + SIGNATURE_LENGTH <= u32::MAX,
        ensures
            r.offer.from@ == self.meta.public_key@,
            r.offer.to@ == self.recipient.unwrap()@,
            r.offer.fees_payer@ == self.fees_payer_pk.unwrap()@,
            r.offer.amount == self.amount,
            bviews(r.offer.assets@) == bviews(self.assets@),
            r.seed == self.seed,
            r.fees_payer_signature@ == spec_zero_sig(),
            r.data_info@ == memo_chars(self.data_info),
            r.signature@ == spec_zero_sig(),
            r.wf(),
    {
        let to = match &self.recipient {
            Some(k) => k.duplicate(),
            None => PublicKey::zero(),
        };
        let payer_pk = match &self.fees_payer_pk {
            Some(k) => k.duplicate(),
            None => PublicKey::zero(),
        };
        let ghost ba0 = bviews(self.assets@);
        let ghost baw = self.assets@;
        let offer = TransferOffer::new(
            &self.meta.public_key,
            &to,
            &payer_pk,
            self.amount,
            self.assets,
        );
        proof {
            assert forall|i: int|
                0 <= i < offer.assets@.len() implies (#[trigger] offer.assets@[i]).wf() by {
                assert(bviews(offer.assets@)[i] == ba0[i]);
                assert(ba0[i] == baw[i]@);
            }
        }
        let fees_payer_signature = Signature::zero();
        let memo = match &self.data_info {
            Some(s) => s.clone(),
            None => String::new(),
        };
        proof {
            crate::transactions::transfer_fees_payers::lemma_transfer_fees_payer_sizes(
                offer.spec_bytes(),
                self.seed,
                fees_payer_signature@,
                memo@,
            );
        }
        TransferWithFeesPayer::new(
            offer,
            self.seed,
            &fees_payer_signature,
            memo.as_str(),
        )
    }
}

/// Builds a standing bid or ask offer.
#[derive(Debug)]
pub struct OfferBuilder {
    pub meta: TransactionMetadata,
    pub asset: Option<TradeAsset>,
    pub seed: u64,
    pub data_info: Option<String>,
}

impl OfferBuilder {
    fn start(meta: TransactionMetadata) -> (r: OfferBuilder)
        ensures
            r.meta == meta,
            r.asset is None,
            1 <= r.seed < u64::MAX,
            r.data_info is None,
    {
        OfferBuilder { meta, asset: None, seed: rand_seed(), data_info: None }
    }

    /// Sets the one priced asset of the offer.
    pub fn asset(self, asset: TradeAsset) -> (r: OfferBuilder)
        ensures
            r == (OfferBuilder { asset: Some(asset), ..self }),
    {
        OfferBuilder { asset: Some(asset), ..self }
    }

    /// Sets the replay seed.
    pub fn seed(self, seed: u64) -> (r: OfferBuilder)
        ensures
            r == (OfferBuilder { seed, ..self }),
    {
        OfferBuilder { seed, ..self }
    }

    /// Sets the memo.
    pub fn data_info(self, data_info: &str) -> (r: OfferBuilder)
        ensures
            (r.data_info matches Some(s) && s@ == data_info@),
            r.meta == self.meta,
            r.asset == self.asset,
            r.seed == self.seed,
    {
        OfferBuilder { data_info: Some(String::from_str(data_info)), ..self }
    }

    /// Assembles a bid offer, its signature slot zeroed for the
    /// embedding to fill.
    pub fn bid_build(self) -> (r: BidOffer)
        requires
            meta_wf(&self.meta),
            self.asset is Some,
            self.asset.unwrap().wf(),
            msg_fits(
                bidoffer_values(
                    self.meta.public_key@,
                    self.asset.unwrap()@,
                    self.seed,
                    memo_chars(self.data_info),
                ),
            ),
        ensures
            r.pub_key@ == self.meta.public_key@,
            r.asset@ == self.asset.unwrap()@,
            r.seed == self.seed,
            r.memo@ == memo_chars(self.data_info),
            r.signature@ == spec_zero_sig(),
            r.wf(),
    {
        let asset = match &self.asset {
            Some(a) => a.duplicate(),
            None => TradeAsset::new(crate::assets::AssetId { bytes: Vec::new() }, 0, 0),
        };
        let memo = match &self.data_info {
            Some(s) => s.clone(),
            None => String::new(),
        };
        BidOffer::new(&self.meta.public_key, asset, self.seed, memo.as_str())
    }

    /// Assembles an ask offer, its signature slot zeroed for the
    /// embedding to fill.
    pub fn ask_build(self) -> (r: AskOffer)
        requires
            meta_wf(&self.meta),
            self.asset is Some,
            self.asset.unwrap().wf(),
            msg_fits(
                askoffer_values(
                    self.meta.public_key@,
                    self.asset.unwrap()@,
                    self.seed,
                    memo_chars(self.data_info),
                ),
            ),
        ensures
            r.pub_key@ == self.meta.public_key@,
            r.asset@ == self.asset.unwrap()@,
            r.seed == self.seed,
            r.memo@ == memo_chars(self.data_info),
            r.signature@ == spec_zero_sig(),
            r.wf(),
    {
        let asset = match &self.asset {
            Some(a) => a.duplicate(),
            None => TradeAsset::new(crate::assets::AssetId { bytes: Vec::new() }, 0, 0),
        };
        let memo = match &self.data_info {
            Some(s) => s.clone(),
            None => String::new(),
        };
        AskOffer::new(&self.meta.public_key, asset, self.seed, memo.as_str())
    }
}

} // verus!
