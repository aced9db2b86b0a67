//! The ledger's moves, fees and settlement, exercised on concrete
//! values, together with the codec's round trips and rejections.

use dmbc::assets::{AssetBundle, AssetId, AssetInfo, Fee, Fees, Fraction, TradeAsset};
use dmbc::bytesutil::hex_string;
use dmbc::crypto::{digest32, PublicKey, PublicKeySodium, SecretKey, Signature, SignatureSodium};
use dmbc::encoding::{EncodingError, FieldKind};
use dmbc::error::Error;
use dmbc::fees::{split_fee, FeeStrategy};
use dmbc::fork::Fork;
use dmbc::messages::{MessageBuffer, RawMessage};
use dmbc::registry::{tx_from_raw, Any, TransactionVariant};
use dmbc::transactions::components::{Configuration, Intermediary, SERVICE_ID, TRANSFER_ID};
use dmbc::transactions::delete_assets::DeleteAssets;
use dmbc::transactions::trade_intermediary::{TradeIntermediary, TradeOfferIntermediary};
use dmbc::transactions::transfer::Transfer;
use dmbc::wallet::{move_assets, move_coins, Wallet};

fn zero_tenth() -> Fraction {
    Fraction::new(0, 1).unwrap()
}

fn gen_keypair_from(tag: u8) -> (PublicKey, SecretKey) {
    (
        PublicKey(PublicKeySodium { bytes: vec![tag; 32] }),
        SecretKey { bytes: vec![tag; 64] },
    )
}

fn plain_fees() -> Fees {
    Fees::new(
        Fee::new(2, zero_tenth()),
        Fee::new(0, zero_tenth()),
        Fee::new(0, zero_tenth()),
    )
}

fn config(genesis: &PublicKey) -> Configuration {
    Configuration::new(genesis.duplicate(), 10, 10, 10, 10, 10)
}

#[test]
fn hex_of_bytes() {
    assert_eq!(hex_string(vec![0xf9, 0xb4, 0xca]), "f9b4ca");
    assert_eq!(hex_string(vec![]), "");
    assert_eq!(hex_string(vec![0x00, 0x01]), "0001");
}

#[test]
fn digest_depends_on_input() {
    let a = digest32(&vec![1u8, 2, 3]);
    let b = digest32(&vec![1u8, 2, 4]);
    assert_eq!(a.bytes.len(), 32);
    assert_ne!(a.bytes, b.bytes);
    let a2 = digest32(&vec![1u8, 2, 3]);
    assert_eq!(a.bytes, a2.bytes);
}

#[test]
fn asset_id_is_content_derived() {
    let (pk, _) = gen_keypair_from(22);
    let (other, _) = gen_keypair_from(23);
    let a = AssetId::from_data("foobar", &pk);
    let b = AssetId::from_data("foobar", &pk);
    assert_eq!(a, b);
    assert_ne!(a, AssetId::from_data("bazqux", &pk));
    assert_ne!(a, AssetId::from_data("foobar", &other));
}

#[test]
fn move_coins_insufficient_changes_nothing() {
    let mut a = Wallet::new(5, Vec::new());
    let mut b = Wallet::new(7, Vec::new());
    let r = move_coins(&mut a, &mut b, 6);
    assert_eq!(r, Err(Error::InsufficientFunds));
    assert_eq!(a.balance, 5);
    assert_eq!(b.balance, 7);
    let r2 = move_coins(&mut a, &mut b, 5);
    assert_eq!(r2, Ok(()));
    assert_eq!(a.balance, 0);
    assert_eq!(b.balance, 12);
}

#[test]
fn move_assets_is_all_or_nothing() {
    let (pk, _) = gen_keypair_from(24);
    let id1 = AssetId::from_data("first", &pk);
    let id2 = AssetId::from_data("second", &pk);
    let mut from = Wallet::new(
        0,
        vec![AssetBundle::new(id1.duplicate(), 5), AssetBundle::new(id2.duplicate(), 3)],
    );
    let mut to = Wallet::new(0, Vec::new());
    let ask = vec![AssetBundle::new(id1.duplicate(), 2), AssetBundle::new(id2.duplicate(), 4)];
    let r = move_assets(&mut from, &mut to, &ask);
    assert_eq!(r, Err(Error::InsufficientAssetAmount));
    assert_eq!(from.assets.len(), 2);
    assert_eq!(from.assets[0].amount, 5);
    assert_eq!(from.assets[1].amount, 3);
    assert_eq!(to.assets.len(), 0);

    let ok = vec![AssetBundle::new(id1.duplicate(), 2), AssetBundle::new(id2.duplicate(), 3)];
    let r2 = move_assets(&mut from, &mut to, &ok);
    assert_eq!(r2, Ok(()));
    assert_eq!(from.assets.len(), 1);
    assert_eq!(from.assets[0].amount, 3);
    assert_eq!(to.assets.len(), 2);
    assert_eq!(to.assets[0].amount, 2);
    assert_eq!(to.assets[1].amount, 3);

    let missing = vec![AssetBundle::new(AssetId::from_data("other", &pk), 1)];
    let r3 = move_assets(&mut from, &mut to, &missing);
    assert_eq!(r3, Err(Error::AssetNotFound));
}

#[test]
fn split_fee_sums_back() {
    assert_eq!(split_fee(10), (5, 5));
    assert_eq!(split_fee(11), (6, 5));
    assert_eq!(split_fee(0), (0, 0));
    assert_eq!(split_fee(1), (1, 0));
}

#[test]
fn fee_strategy_bytes() {
    assert_eq!(FeeStrategy::try_from(1), Some(FeeStrategy::Recipient));
    assert_eq!(FeeStrategy::try_from(2), Some(FeeStrategy::Sender));
    assert_eq!(FeeStrategy::try_from(3), Some(FeeStrategy::RecipientAndSender));
    assert_eq!(FeeStrategy::try_from(4), Some(FeeStrategy::Intermediary));
    assert_eq!(FeeStrategy::try_from(0), None);
    assert_eq!(FeeStrategy::try_from(5), None);
    assert_eq!(FeeStrategy::Recipient.to_byte(), 1);
}

#[test]
fn transfer_message_round_trip() {
    let (from_pk, _) = gen_keypair_from(25);
    let (to_pk, _) = gen_keypair_from(26);
    let asset = AssetBundle::from_data("foobar", 9, &from_pk);
    let mut tx = Transfer::new(&from_pk, &to_pk, 42, vec![asset], 7, "memo text");
    let attached = Signature(SignatureSodium { bytes: vec![7u8; 64] });
    tx.set_signature(&attached);
    let raw = tx.to_raw();
    let back = Transfer::from_raw(&raw).unwrap();
    assert_eq!(back.signature, attached);
    assert_eq!(back, tx);
}

#[test]
fn trade_intermediary_message_round_trip() {
    let (buyer_pk, buyer_sk) = gen_keypair_from(27);
    let (seller_pk, seller_sk) = gen_keypair_from(28);
    let (interm_pk, interm_sk) = gen_keypair_from(29);
    let asset = TradeAsset::from_bundle(AssetBundle::from_data("foobar", 9, &seller_pk), 10);
    let offer = TradeOfferIntermediary::new(
        Intermediary::new(&interm_pk, 40),
        &buyer_pk,
        &seller_pk,
        vec![asset],
        FeeStrategy::Intermediary.to_byte(),
    );
    let seller_sig = Signature::zero();
    let interm_sig = Signature::zero();
    let tx = TradeIntermediary::new(offer, 5, &seller_sig, &interm_sig, "note");
    assert!(tx.verify());
    let raw = tx.to_raw();
    let back = TradeIntermediary::from_raw(&raw).unwrap();
    assert_eq!(back, tx);

    match tx_from_raw(&raw).unwrap() {
        TransactionVariant::TradeIntermediary(decoded) => assert_eq!(decoded, tx),
        other => panic!("decoded the wrong kind: {:?}", other),
    }
}

#[test]
fn segment_validation_rejects_corruption() {
    let (from_pk, from_sk) = gen_keypair_from(30);
    let (to_pk, _) = gen_keypair_from(31);
    let asset = AssetBundle::from_data("foobar", 9, &from_pk);
    let tx = Transfer::new(&from_pk, &to_pk, 42, vec![asset], 7, "memo");
    let raw = tx.to_raw();
    let good = raw.0.raw.clone();

    // The bundle segment's pointer sits at body offset 72: nudging it up
    // makes a gap, nudging it down an overlap.
    let mut gap = good.clone();
    gap[10 + 72] = gap[10 + 72].wrapping_add(1);
    match Transfer::from_raw(&RawMessage::from_vec(gap)) {
        Err(EncodingError::SpaceBetweenSegments { .. }) => {},
        other => panic!("expected a gap rejection, got {:?}", other),
    }

    let mut overlap = good.clone();
    overlap[10 + 72] = overlap[10 + 72].wrapping_sub(1);
    match Transfer::from_raw(&RawMessage::from_vec(overlap)) {
        Err(EncodingError::OverlappingSegment { .. }) => {},
        other => panic!("expected an overlap rejection, got {:?}", other),
    }

    // Growing a segment's count past the buffer rejects the reference.
    let mut past_end = good.clone();
    past_end[10 + 76] = 0xff;
    match Transfer::from_raw(&RawMessage::from_vec(past_end)) {
        Err(EncodingError::IncorrectSegmentReference { .. }) => {},
        other => panic!("expected an out-of-range rejection, got {:?}", other),
    }

    // A buffer too short for the fixed part is rejected before any read.
    let short = good[..80].to_vec();
    match Transfer::from_raw(&RawMessage::from_vec(short)) {
        Err(EncodingError::UnexpectedlyShortRawMessage { .. })
        | Err(EncodingError::UnexpectedlyShortPayload { .. }) => {},
        other => panic!("expected a short-buffer rejection, got {:?}", other),
    }
}

#[test]
fn boolean_fields_reject_other_bytes() {
    let mut raw = vec![0u8; 10 + 1 + 64];
    raw[10] = 2;
    let buffer = MessageBuffer::from_vec(raw);
    match buffer.check(FieldKind::Flag, 0, 1, 11) {
        Err(EncodingError::IncorrectBoolean { value: 2, .. }) => {},
        other => panic!("expected a boolean rejection, got {:?}", other),
    }
    let mut raw_ok = vec![0u8; 10 + 1 + 64];
    raw_ok[10] = 1;
    let buffer_ok = MessageBuffer::from_vec(raw_ok);
    assert!(buffer_ok.check(FieldKind::Flag, 0, 1, 11).is_ok());
}

#[test]
fn registry_dispatches_on_ids() {
    let (from_pk, from_sk) = gen_keypair_from(32);
    let (to_pk, _) = gen_keypair_from(33);
    let tx = Transfer::new(&from_pk, &to_pk, 1, Vec::new(), 7, "");
    let raw = tx.to_raw();
    match tx_from_raw(&raw).unwrap() {
        TransactionVariant::Transfer(decoded) => assert_eq!(decoded.amount, 1),
        other => panic!("decoded the wrong kind: {:?}", other),
    }

    // A consensus-service message passes through the peer registry.
    let any = Any::from_raw(tx.to_raw()).unwrap();
    match any {
        Any::Transaction(t) => assert_eq!(t.0.message_type(), TRANSFER_ID),
        other => panic!("expected a transaction, got {:?}", other),
    }

    // An unknown type of the ledger's service is rejected.
    let mut wrong = tx.to_raw().0.raw;
    wrong[2] = 0xff;
    wrong[3] = 0xff;
    match tx_from_raw(&RawMessage::from_vec(wrong)) {
        Err(EncodingError::IncorrectMessageType { .. }) => {},
        other => panic!("expected a type rejection, got {:?}", other),
    }
}

#[test]
fn transfer_settles_fee_amount_and_assets() {
    let (genesis_pk, _) = gen_keypair_from(34);
    let (a_pk, a_sk) = gen_keypair_from(35);
    let (b_pk, _) = gen_keypair_from(36);
    let cfg = config(&genesis_pk);

    let foobar = AssetId::from_data("foobar", &a_pk);
    let mut fork = Fork::new();
    fork.store_wallet(
        &a_pk,
        Wallet::new(1000, vec![AssetBundle::new(foobar.duplicate(), 9)]),
    );
    fork.store_wallet(&b_pk, Wallet::new(0, Vec::new()));

    let tx = Transfer::new(&a_pk, &b_pk, 9, vec![AssetBundle::new(foobar.duplicate(), 9)], 1, "");
    assert!(tx.verify());
    let r = tx.execute(&mut fork, &cfg);
    assert_eq!(r, Ok(()));

    let a_after = fork.fetch_wallet(&a_pk);
    let b_after = fork.fetch_wallet(&b_pk);
    let g_after = fork.fetch_wallet(&genesis_pk);
    assert_eq!(a_after.balance, 1000 - 10 - 9);
    assert_eq!(a_after.assets.len(), 0);
    assert_eq!(b_after.balance, 9);
    assert_eq!(b_after.assets.len(), 1);
    assert_eq!(b_after.assets[0].amount, 9);
    assert_eq!(g_after.balance, 10);
    assert_eq!(fork.get_status(&tx.hash()), Some(Ok(())));
}

#[test]
fn transfer_without_funds_records_the_error() {
    let (genesis_pk, _) = gen_keypair_from(37);
    let (a_pk, a_sk) = gen_keypair_from(38);
    let (b_pk, _) = gen_keypair_from(39);
    let cfg = config(&genesis_pk);

    let mut fork = Fork::new();
    fork.store_wallet(&a_pk, Wallet::new(3, Vec::new()));

    let tx = Transfer::new(&a_pk, &b_pk, 9, Vec::new(), 1, "");
    let r = tx.execute(&mut fork, &cfg);
    assert_eq!(r, Err(Error::InsufficientFunds));
    assert_eq!(fork.fetch_wallet(&a_pk).balance, 3);
    assert_eq!(fork.get_status(&tx.hash()), Some(Err(Error::InsufficientFunds)));
}

#[test]
fn delete_assets_reaches_zero_but_stays() {
    let (genesis_pk, _) = gen_keypair_from(40);
    let (owner_pk, owner_sk) = gen_keypair_from(41);
    let cfg = config(&genesis_pk);

    let id = AssetId::from_data("foobar", &owner_pk);
    let mut fork = Fork::new();
    fork.store_wallet(
        &owner_pk,
        Wallet::new(100, vec![AssetBundle::new(id.duplicate(), 9)]),
    );
    fork.store_asset(&id, AssetInfo::new(&owner_pk, 9, plain_fees()));

    let tx = DeleteAssets::new(&owner_pk, vec![AssetBundle::new(id.duplicate(), 9)], 1);
    let r = tx.execute(&mut fork, &cfg);
    assert_eq!(r, Ok(()));

    let info = fork.fetch_asset(&id).expect("the registry record must stay present");
    assert_eq!(info.amount, 0);
    assert_eq!(fork.fetch_wallet(&owner_pk).assets.len(), 0);
    assert_eq!(fork.get_status(&tx.hash()), Some(Ok(())));
}

#[test]
fn delete_assets_by_treasury_charges_nothing() {
    let (genesis_pk, _) = gen_keypair_from(40);
    let cfg = config(&genesis_pk);

    let id = AssetId::from_data("foobar", &genesis_pk);
    let mut fork = Fork::new();
    fork.store_wallet(
        &genesis_pk,
        Wallet::new(100, vec![AssetBundle::new(id.duplicate(), 9)]),
    );
    fork.store_asset(&id, AssetInfo::new(&genesis_pk, 9, plain_fees()));

    let tx = DeleteAssets::new(&genesis_pk, vec![AssetBundle::new(id.duplicate(), 4)], 2);
    assert_eq!(tx.calculate_fees(&cfg).len(), 0);
    let r = tx.execute(&mut fork, &cfg);
    assert_eq!(r, Ok(()));

    let treasury = fork.fetch_wallet(&genesis_pk);
    assert_eq!(treasury.balance, 100);
    assert_eq!(treasury.assets[0].amount, 5);
    assert_eq!(fork.fetch_asset(&id).unwrap().amount, 5);
    assert_eq!(fork.get_status(&tx.hash()), Some(Ok(())));
}

#[test]
fn delete_assets_overdraw_leaves_supply() {
    let (genesis_pk, _) = gen_keypair_from(42);
    let (owner_pk, owner_sk) = gen_keypair_from(43);
    let cfg = config(&genesis_pk);

    let id = AssetId::from_data("foobar", &owner_pk);
    let mut fork = Fork::new();
    fork.store_wallet(
        &owner_pk,
        Wallet::new(100, vec![AssetBundle::new(id.duplicate(), 9)]),
    );
    fork.store_asset(&id, AssetInfo::new(&owner_pk, 9, plain_fees()));

    let tx = DeleteAssets::new(&owner_pk, vec![AssetBundle::new(id.duplicate(), 10)], 1);
    let r = tx.execute(&mut fork, &cfg);
    assert_eq!(r, Err(Error::InsufficientAssetAmount));

    let info = fork.fetch_asset(&id).unwrap();
    assert_eq!(info.amount, 9);
    assert_eq!(fork.fetch_wallet(&owner_pk).assets[0].amount, 9);
    assert_eq!(fork.get_status(&tx.hash()), Some(Err(Error::InsufficientAssetAmount)));
}

#[test]
fn delete_unknown_asset_fails() {
    let (genesis_pk, _) = gen_keypair_from(44);
    let (owner_pk, owner_sk) = gen_keypair_from(45);
    let cfg = config(&genesis_pk);

    let id = AssetId::from_data("ghost", &owner_pk);
    let mut fork = Fork::new();
    fork.store_wallet(&owner_pk, Wallet::new(100, Vec::new()));

    let tx = DeleteAssets::new(&owner_pk, vec![AssetBundle::new(id.duplicate(), 1)], 1);
    let r = tx.execute(&mut fork, &cfg);
    assert_eq!(r, Err(Error::AssetNotFound));
}

#[test]
fn trade_intermediary_settles_everyone() {
    let (genesis_pk, _) = gen_keypair_from(46);
    let (buyer_pk, buyer_sk) = gen_keypair_from(47);
    let (seller_pk, seller_sk) = gen_keypair_from(48);
    let (interm_pk, interm_sk) = gen_keypair_from(49);
    let (creator_pk, _) = gen_keypair_from(50);
    let cfg = config(&genesis_pk);

    let id = AssetId::from_data("foobar", &creator_pk);
    let mut fork = Fork::new();
    fork.store_wallet(&buyer_pk, Wallet::new(1000, Vec::new()));
    fork.store_wallet(
        &seller_pk,
        Wallet::new(500, vec![AssetBundle::new(id.duplicate(), 9)]),
    );
    fork.store_wallet(&interm_pk, Wallet::new(300, Vec::new()));
    fork.store_asset(&id, AssetInfo::new(&creator_pk, 9, plain_fees()));

    let offer = TradeOfferIntermediary::new(
        Intermediary::new(&interm_pk, 7),
        &buyer_pk,
        &seller_pk,
        vec![TradeAsset::new(id.duplicate(), 9, 10)],
        FeeStrategy::Intermediary.to_byte(),
    );
    let seller_sig = Signature::zero();
    let interm_sig = Signature::zero();
    let tx = TradeIntermediary::new(offer, 5, &seller_sig, &interm_sig, "");
    assert!(tx.verify());

    let r = tx.execute(&mut fork, &cfg);
    assert_eq!(r, Ok(()));

    // The buyer paid the total, nine units at a price of ten.
    let buyer = fork.fetch_wallet(&buyer_pk);
    assert_eq!(buyer.balance, 1000 - 90);
    assert_eq!(buyer.assets.len(), 1);
    assert_eq!(buyer.assets[0].amount, 9);
    // The seller received the whole total and gave the assets away.
    let seller = fork.fetch_wallet(&seller_pk);
    assert_eq!(seller.balance, 500 + 90);
    assert_eq!(seller.assets.len(), 0);
    // The intermediary bore the flat fee and the creator royalty; its
    // own commission comes back to itself.
    let interm = fork.fetch_wallet(&interm_pk);
    assert_eq!(interm.balance, 300 - 10 - 2);
    // The creator earned the royalty, the treasury the flat fee.
    assert_eq!(fork.fetch_wallet(&creator_pk).balance, 2);
    assert_eq!(fork.fetch_wallet(&genesis_pk).balance, 10);
    assert_eq!(fork.get_status(&tx.hash()), Some(Ok(())));
}

#[test]
fn trade_intermediary_missing_registry_keeps_fee() {
    let (genesis_pk, _) = gen_keypair_from(51);
    let (buyer_pk, buyer_sk) = gen_keypair_from(52);
    let (seller_pk, seller_sk) = gen_keypair_from(53);
    let (interm_pk, interm_sk) = gen_keypair_from(54);
    let cfg = config(&genesis_pk);

    let id = AssetId::from_data("unregistered", &seller_pk);
    let mut fork = Fork::new();
    fork.store_wallet(&buyer_pk, Wallet::new(1000, Vec::new()));
    fork.store_wallet(&seller_pk, Wallet::new(500, Vec::new()));
    fork.store_wallet(&interm_pk, Wallet::new(300, Vec::new()));

    let offer = TradeOfferIntermediary::new(
        Intermediary::new(&interm_pk, 7),
        &buyer_pk,
        &seller_pk,
        vec![TradeAsset::new(id.duplicate(), 9, 10)],
        FeeStrategy::Intermediary.to_byte(),
    );
    let seller_sig = Signature::zero();
    let interm_sig = Signature::zero();
    let tx = TradeIntermediary::new(offer, 5, &seller_sig, &interm_sig, "");

    let r = tx.execute(&mut fork, &cfg);
    assert_eq!(r, Err(Error::AssetNotFound));
    // The flat fee stayed collected; nothing else moved.
    assert_eq!(fork.fetch_wallet(&interm_pk).balance, 290);
    assert_eq!(fork.fetch_wallet(&genesis_pk).balance, 10);
    assert_eq!(fork.fetch_wallet(&buyer_pk).balance, 1000);
    assert_eq!(fork.fetch_wallet(&seller_pk).balance, 500);
}

#[test]
fn standing_offer_round_trip() {
    let (pk, sk) = gen_keypair_from(55);
    let asset = TradeAsset::from_bundle(AssetBundle::from_data("foobar", 9, &pk), 10);
    let tx = dmbc::transactions::ask_offer::AskOffer::new(&pk, asset, 3, "standing");
    let raw = tx.to_raw();
    match tx_from_raw(&raw).unwrap() {
        TransactionVariant::AskOffer(back) => assert_eq!(back, tx),
        other => panic!("decoded the wrong kind: {:?}", other),
    }
}

#[test]
fn exchange_message_round_trip() {
    let (sender_pk, sender_sk) = gen_keypair_from(56);
    let (recipient_pk, recipient_sk) = gen_keypair_from(57);
    let give = AssetBundle::from_data("foobar", 9, &sender_pk);
    let take = AssetBundle::from_data("bazqux", 13, &recipient_pk);
    let offer = dmbc::transactions::exchange::ExchangeOffer::new(
        &sender_pk,
        vec![give],
        9,
        &recipient_pk,
        vec![take],
        FeeStrategy::Recipient.to_byte(),
    );
    let sender_sig = Signature::zero();
    let tx = dmbc::transactions::exchange::Exchange::new(offer, 4, &sender_sig, "swap");
    assert!(tx.verify());
    let raw = tx.to_raw();
    match tx_from_raw(&raw).unwrap() {
        TransactionVariant::Exchange(back) => assert_eq!(back, tx),
        other => panic!("decoded the wrong kind: {:?}", other),
    }
}

#[test]
fn add_assets_message_round_trip() {
    let (issuer_pk, issuer_sk) = gen_keypair_from(58);
    let (receiver_pk, _) = gen_keypair_from(59);
    let meta = dmbc::assets::MetaAsset::new(&receiver_pk, "foobar", 9, plain_fees());
    let tx = dmbc::transactions::add_assets::AddAssets::new(&issuer_pk, vec![meta], 8);
    let raw = tx.to_raw();
    match tx_from_raw(&raw).unwrap() {
        TransactionVariant::AddAssets(back) => assert_eq!(back, tx),
        other => panic!("decoded the wrong kind: {:?}", other),
    }
}

#[test]
fn verify_rejects_bad_structure() {
    let (buyer_pk, buyer_sk) = gen_keypair_from(60);
    let (seller_pk, seller_sk) = gen_keypair_from(61);
    let (interm_pk, interm_sk) = gen_keypair_from(62);

    // Buyer and seller must differ.
    let offer_same = TradeOfferIntermediary::new(
        Intermediary::new(&interm_pk, 7),
        &buyer_pk,
        &buyer_pk,
        Vec::new(),
        FeeStrategy::Recipient.to_byte(),
    );
    let s1 = Signature::zero();
    let s2 = Signature::zero();
    let tx_same = TradeIntermediary::new(offer_same, 5, &s1, &s2, "");
    assert!(!tx_same.verify());

    // The fee strategy must be one of the four known values.
    let offer_bad = TradeOfferIntermediary::new(
        Intermediary::new(&interm_pk, 7),
        &buyer_pk,
        &seller_pk,
        Vec::new(),
        9,
    );
    let b1 = Signature::zero();
    let b2 = Signature::zero();
    let tx_bad = TradeIntermediary::new(offer_bad, 5, &b1, &b2, "");
    assert!(!tx_bad.verify());

}
