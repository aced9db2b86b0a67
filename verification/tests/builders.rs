//! The transaction builders assemble exactly what the direct
//! constructors produce.

use dmbc::assets::{AssetBundle, Fraction, MetaAsset, TradeAsset};
use dmbc::builders::fee;
use dmbc::builders::transaction;
use dmbc::crypto::{PublicKey, PublicKeySodium, SecretKey, Signature};
use dmbc::fees::FeeStrategy;
use dmbc::transactions::add_assets::AddAssets;
use dmbc::transactions::ask_offer::AskOffer;
use dmbc::transactions::bid_offer::BidOffer;
use dmbc::transactions::components::Intermediary;
use dmbc::transactions::delete_assets::DeleteAssets;
use dmbc::transactions::exchange::{Exchange, ExchangeOffer};
use dmbc::transactions::exchange_intermediary::{ExchangeIntermediary, ExchangeOfferIntermediary};
use dmbc::transactions::trade::{Trade, TradeOffer};
use dmbc::transactions::trade_intermediary::{TradeIntermediary, TradeOfferIntermediary};
use dmbc::transactions::transfer::Transfer;

fn tenth() -> Fraction {
    Fraction::new(1, 10).unwrap()
}

fn gen_keypair_from(tag: u8) -> (PublicKey, SecretKey) {
    (
        PublicKey(PublicKeySodium { bytes: vec![tag; 32] }),
        SecretKey { bytes: vec![tag; 64] },
    )
}

#[test]
#[should_panic]
fn meta_underspecified() {
    transaction::Builder::new().tx_add_assets();
}

#[test]
fn not_equal() {
    let (public_key, secret_key) = gen_keypair_from(1);
    let (receiver_key, _) = gen_keypair_from(2);

    let fees_foobar = fee::Builder::new()
        .trade(10, tenth())
        .exchange(10, tenth())
        .transfer(10, tenth())
        .build();

    let fees_bazqux = fee::Builder::new()
        .trade(11, tenth())
        .exchange(11, tenth())
        .transfer(11, tenth())
        .build();

    let asset_foobar = MetaAsset::new(&receiver_key, "foobar", 9, fees_foobar);
    let asset_bazqux = MetaAsset::new(&receiver_key, "bazqux", 18, fees_bazqux);

    let transaction = transaction::Builder::new()
        .keypair(public_key.clone(), secret_key.clone())
        .tx_add_assets()
        .add_asset_value(asset_foobar.clone())
        .build();

    let assets = vec![asset_bazqux];
    let equivalent = AddAssets::new(&public_key, assets, 0);

    assert_ne!(transaction, equivalent);
}

#[test]
fn add_assets() {
    let (public_key, secret_key) = gen_keypair_from(3);
    let (receiver_key, _) = gen_keypair_from(4);

    let fees_foobar = fee::Builder::new()
        .trade(10, tenth())
        .exchange(10, tenth())
        .transfer(10, tenth())
        .build();

    let fees_bazqux = fee::Builder::new()
        .trade(11, tenth())
        .exchange(11, tenth())
        .transfer(11, tenth())
        .build();

    let asset_foobar = MetaAsset::new(&receiver_key, "foobar", 9, fees_foobar);
    let asset_bazqux = MetaAsset::new(&receiver_key, "bazqux", 18, fees_bazqux);

    let transaction = transaction::Builder::new()
        .keypair(public_key.clone(), secret_key.clone())
        .tx_add_assets()
        .add_asset_value(asset_foobar.clone())
        .add_asset_value(asset_bazqux.clone())
        .seed(123)
        .build();

    let assets = vec![asset_foobar, asset_bazqux];
    let equivalent = AddAssets::new(&public_key, assets, 123);

    assert_eq!(transaction, equivalent);
}

#[test]
fn del_assets() {
    let (public_key, secret_key) = gen_keypair_from(5);
    let asset = AssetBundle::from_data("foobar", 9, &public_key);
    let transaction = transaction::Builder::new()
        .keypair(public_key.clone(), secret_key.clone())
        .tx_del_assets()
        .add_asset_value(asset.clone())
        .seed(6)
        .build();

    let assets = vec![asset];
    let equivalent = DeleteAssets::new(&public_key, assets, 6);

    assert_eq!(transaction, equivalent);
}

#[test]
fn exchange() {
    let (recipient_pk, recipient_sk) = gen_keypair_from(6);

    let (sender_pk, sender_sk) = gen_keypair_from(7);
    let sender_asset = AssetBundle::from_data("foobar", 9, &sender_pk);
    let recipient_asset = AssetBundle::from_data("bazqux", 13, &recipient_pk);

    let transaction = transaction::Builder::new()
        .keypair(recipient_pk.clone(), recipient_sk.clone())
        .tx_exchange()
        .sender(sender_pk.clone())
        .sender_secret(sender_sk.clone())
        .sender_add_asset_value(sender_asset.clone())
        .sender_value(9)
        .recipient_add_asset_value(recipient_asset.clone())
        .fee_strategy(FeeStrategy::Recipient)
        .seed(1)
        .data_info("test_exchange")
        .build();

    let offer = ExchangeOffer::new(
        &sender_pk,
        vec![sender_asset.clone()],
        9,
        &recipient_pk,
        vec![recipient_asset.clone()],
        1,
    );
    let sender_signature = Signature::zero();
    let equivalent = Exchange::new(offer, 1, &sender_signature, "test_exchange");

    assert_eq!(transaction, equivalent);
}

#[test]
fn exchange_with_intermediary() {
    let (sender_pk, sender_sk) = gen_keypair_from(8);
    let (intermediary_pk, intermediary_sk) = gen_keypair_from(9);
    let (recipient_pk, recipient_sk) = gen_keypair_from(10);
    let (creator_pk, _) = gen_keypair_from(11);

    let sender_asset = AssetBundle::from_data("foobar", 9, &creator_pk);
    let recipient_asset = AssetBundle::from_data("bazqux", 13, &creator_pk);
    let transaction = transaction::Builder::new()
        .keypair(recipient_pk.clone(), recipient_sk.clone())
        .tx_exchange_with_intermediary()
        .intermediary_key_pair(intermediary_pk.clone(), intermediary_sk.clone())
        .commission(10)
        .sender_key_pair(sender_pk.clone(), sender_sk.clone())
        .sender_add_asset_value(sender_asset.clone())
        .sender_value(9)
        .recipient_add_asset_value(recipient_asset.clone())
        .fee_strategy(FeeStrategy::Recipient)
        .seed(1)
        .data_info("test_exchange")
        .build();

    let intermediary = Intermediary::new(&intermediary_pk, 10);

    let offer = ExchangeOfferIntermediary::new(
        intermediary,
        &sender_pk,
        vec![sender_asset.clone()],
        9,
        &recipient_pk,
        vec![recipient_asset.clone()],
        1,
    );
    let sender_signature = Signature::zero();
    let intermediary_signature = Signature::zero();
    let equivalent = ExchangeIntermediary::new(
        offer,
        1,
        &sender_signature,
        &intermediary_signature,
        "test_exchange",
    );

    assert_eq!(transaction, equivalent);
}

#[test]
fn trade_assets() {
    let (public_key, secret_key) = gen_keypair_from(12);
    let (seller_public, seller_secret) = gen_keypair_from(13);
    let asset = AssetBundle::from_data("foobar", 9, &public_key);
    let trade_asset = TradeAsset::from_bundle(asset, 10);
    let transaction = transaction::Builder::new()
        .keypair(public_key.clone(), secret_key.clone())
        .tx_trade_assets()
        .add_asset_value(trade_asset.clone())
        .seller(seller_public.clone(), seller_secret.clone())
        .fee_strategy(FeeStrategy::Recipient)
        .seed(1)
        .data_info("test_trade")
        .build();

    let offer = TradeOffer::new(
        &public_key,
        &seller_public,
        vec![trade_asset],
        FeeStrategy::Recipient.to_byte(),
    );
    let signature = Signature::zero();
    let equivalent = Trade::new(offer, 1, &signature, "test_trade");

    assert_eq!(transaction, equivalent);
}

#[test]
fn trade_assets_with_intermediary() {
    let (buyer_public_key, buyer_secret_key) = gen_keypair_from(14);
    let (intermediary_public_key, intermediary_secret_key) = gen_keypair_from(15);
    let (seller_public_key, seller_secret_key) = gen_keypair_from(16);
    let asset = AssetBundle::from_data("foobar", 9, &seller_public_key);
    let trade_asset = TradeAsset::from_bundle(asset, 10);
    let transaction = transaction::Builder::new()
        .keypair(buyer_public_key.clone(), buyer_secret_key.clone())
        .tx_trade_assets_with_intermediary()
        .intermediary_key_pair(intermediary_public_key.clone(), intermediary_secret_key.clone())
        .commission(40)
        .add_asset_value(trade_asset.clone())
        .seller(seller_public_key.clone(), seller_secret_key.clone())
        .fee_strategy(FeeStrategy::Recipient)
        .seed(1)
        .data_info("trade_test")
        .build();

    let intermediary = Intermediary::new(&intermediary_public_key, 40);
    let offer = TradeOfferIntermediary::new(
        intermediary,
        &buyer_public_key,
        &seller_public_key,
        vec![trade_asset],
        FeeStrategy::Recipient.to_byte(),
    );
    let seller_signature = Signature::zero();
    let intermediary_signature = Signature::zero();
    let equivalent = TradeIntermediary::new(
        offer,
        1,
        &seller_signature,
        &intermediary_signature,
        "trade_test",
    );

    assert_eq!(transaction, equivalent);
}

#[test]
fn transfer() {
    let (public_key, secret_key) = gen_keypair_from(17);
    let (recipient, _) = gen_keypair_from(18);
    let asset = AssetBundle::from_data("foobar", 9, &public_key);
    let transaction = transaction::Builder::new()
        .keypair(public_key.clone(), secret_key.clone())
        .tx_transfer()
        .recipient(recipient.clone())
        .amount(9)
        .add_asset_value(asset.clone())
        .seed(1)
        .data_info("info")
        .build();

    let equivalent = Transfer::new(&public_key, &recipient, 9, vec![asset], 1, "info");

    assert_eq!(transaction, equivalent);
}

#[test]
fn bid_offer() {
    let (public_key, secret_key) = gen_keypair_from(19);
    let asset = AssetBundle::from_data("foobar", 9, &public_key);
    let trade_asset = TradeAsset::from_bundle(asset, 10);
    let build_bid = transaction::Builder::new()
        .keypair(public_key.clone(), secret_key.clone())
        .tx_offer()
        .asset(trade_asset.clone())
        .seed(1)
        .data_info("info")
        .bid_build();

    let bid = BidOffer::new(&public_key, trade_asset, 1, "info");

    assert_eq!(build_bid, bid);
}

#[test]
fn ask_offer() {
    let (public_key, secret_key) = gen_keypair_from(20);
    let asset = AssetBundle::from_data("foobar", 9, &public_key);
    let trade_asset = TradeAsset::from_bundle(asset, 10);
    let build_bid = transaction::Builder::new()
        .keypair(public_key.clone(), secret_key.clone())
        .tx_offer()
        .asset(trade_asset.clone())
        .seed(1)
        .data_info("info")
        .ask_build();

    let bid = AskOffer::new(&public_key, trade_asset, 1, "info");

    assert_eq!(build_bid, bid);
}
