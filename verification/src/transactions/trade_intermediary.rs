//! The `trade_intermediary` transaction: a buyer takes priced assets
//! from a seller through an intermediary who earns a commission. The
//! flat fee goes first and stays collected; the principal goes next and
//! stays; creator royalties, the commission and the asset movement
//! settle together or not at all.

use vstd::prelude::*;
use vstd::string::{StrSliceExecFns, StringExecFns, StringSliceAdditionalSpecFns};
use vstd::utf8::{encode_utf8, valid_utf8};

use crate::assets::{AssetBundle, TradeAsset};
use crate::bytesutil::le16;
use crate::crypto::{HashDigest, PublicKey, SIGNATURE_LENGTH, Signature, spec_zero_sig};
use crate::encoding::{kinds_of, views_of, EncodingError, FieldKind, FieldV, FieldValue};
use crate::error::Error;
use crate::fees::{collect_fits, collect_spec, lemma_collect_equiv, lemma_split2_equiv,
    lemma_trade_fees_equiv, split2_fits, split2_spec, split_fee, supdate, trade_fees_fits,
    trade_fees_spec, trade_total, trade_total_exec, trade_total_fits, ws_wallet, FeeStrategy,
    ThirdPartyFees, WalletSet};
use crate::fork::{assoc_set, kfind, lemma_assoc_set, stored_wallet, Fork};
use crate::messages::{decode_message_body, decode_plain, encode_plain, encode_unsigned,
    spec_decode_body, spec_decode_plain, spec_msg_unsigned, spec_plain, RawMessage, HEADER_LENGTH,
    PROTOCOL_MAJOR_VERSION, TEST_NETWORK_ID};
use crate::transactions::components::{Configuration, Intermediary, SERVICE_ID,
    TRADE_INTERMEDIARY_ID};
use crate::wallet::{add_bundle, amount_of, bviews, move_all, move_assets, move_coins, move_fits,
    Wallet, WalletV};
use crate::wire::{bytes_to_string, decode_trade_assets, encode_trade_assets,
    intermediary_record, parse_trade_assets, trade_assets_record, tviews};

verus! {

/// The field values of the offer the counterparties sign.
pub open spec fn trade_offer_values(
    interm_wallet: Seq<u8>,
    commission: u64,
    buyer: Seq<u8>,
    seller: Seq<u8>,
    ts: Seq<(Seq<u8>, int, int)>,
    fee_strategy: u8,
) -> Seq<FieldV> {
    seq![
        FieldV::Segment(intermediary_record(interm_wallet, commission as int)),
        FieldV::Key(buyer),
        FieldV::Key(seller),
        FieldV::Segment(trade_assets_record(ts)),
        FieldV::U8(fee_strategy),
    ]
}

/// The field layout of the offer.
pub open spec fn trade_offer_layout() -> Seq<FieldKind> {
    seq![FieldKind::Segment, FieldKind::Key, FieldKind::Key, FieldKind::Segment, FieldKind::Unsigned8]
}

/// The offer layout, executable form.
pub fn trade_offer_layout_exec() -> (r: Vec<FieldKind>)
    ensures
        r@ == trade_offer_layout(),
{
    let mut v: Vec<FieldKind> = Vec::new();
    v.push(FieldKind::Segment);
    v.push(FieldKind::Key);
    v.push(FieldKind::Key);
    v.push(FieldKind::Segment);
    v.push(FieldKind::Unsigned8);
    proof {
        assert(v@ =~= trade_offer_layout());
    }
    v
}

/// The fixed part of the offer layout is 81 bytes.
pub proof fn lemma_trade_offer_layout_total()
    ensures
        crate::encoding::fixed_total(trade_offer_layout()) == 81,
{
    let k0 = trade_offer_layout();
    let k1 = seq![FieldKind::Key, FieldKind::Key, FieldKind::Segment, FieldKind::Unsigned8];
    let k2 = seq![FieldKind::Key, FieldKind::Segment, FieldKind::Unsigned8];
    let k3 = seq![FieldKind::Segment, FieldKind::Unsigned8];
    let k4 = seq![FieldKind::Unsigned8];
    let k5 = Seq::<FieldKind>::empty();
    assert(k0.drop_first() =~= k1);
    assert(k1.drop_first() =~= k2);
    assert(k2.drop_first() =~= k3);
    assert(k3.drop_first() =~= k4);
    assert(k4.drop_first() =~= k5);
    assert(crate::encoding::fixed_total(k5) == 0);
    assert(crate::encoding::fixed_total(k4) == 1);
    assert(crate::encoding::fixed_total(k3) == 9);
    assert(crate::encoding::fixed_total(k2) == 41);
    assert(crate::encoding::fixed_total(k1) == 73);
    assert(crate::encoding::fixed_total(k0) == 81);
}

/// The offer a trade's counterparties sign: intermediary, buyer, seller,
/// the priced assets, and who bears the flat fee.
#[derive(Debug, Clone, PartialEq)]
pub struct TradeOfferIntermediary {
    pub intermediary: Intermediary,
    pub buyer: PublicKey,
    pub seller: PublicKey,
    pub assets: Vec<TradeAsset>,
    pub fee_strategy: u8,
}

impl TradeOfferIntermediary {
    /// The ghost field values of this offer.
    pub open spec fn spec_values(&self) -> Seq<FieldV> {
        trade_offer_values(
            self.intermediary.wallet@,
            self.intermediary.commission,
            self.buyer@,
            self.seller@,
            tviews(self.assets@),
            self.fee_strategy,
        )
    }

    /// The encoded bytes of this offer, the ones the seller and the
    /// intermediary sign.
    pub open spec fn spec_bytes(&self) -> Seq<u8> {
        spec_plain(self.spec_values())
    }

    /// Whether the offer's parts are well formed.
    pub open spec fn wf(&self) -> bool {
        &&& self.intermediary.wf()
        &&& self.buyer.wf()
        &&& self.seller.wf()
        &&& forall|i: int| 0 <= i < self.assets@.len() ==> (#[trigger] self.assets@[i]).wf()
    }

    /// Whether the encoded offer fits the wire's offsets.
    pub open spec fn fits(&self) -> bool {
        crate::encoding::fixed_total(kinds_of(self.spec_values())) + crate::encoding::seg_total(
            self.spec_values(),
        ) <= u32::MAX
    }

    /// Builds an offer.
    pub fn new(
        intermediary: Intermediary,
        buyer: &PublicKey,
        seller: &PublicKey,
        assets: Vec<TradeAsset>,
        fee_strategy: u8,
    ) -> (r: TradeOfferIntermediary)
        ensures
            r.intermediary.wallet@ == intermediary.wallet@,
            r.intermediary.commission == intermediary.commission,
            r.buyer@ == buyer@,
            r.seller@ == seller@,
            tviews(r.assets@) == tviews(assets@),
            r.fee_strategy == fee_strategy,
    {
        TradeOfferIntermediary {
            intermediary,
            buyer: buyer.duplicate(),
            seller: seller.duplicate(),
            assets,
            fee_strategy,
        }
    }

    /// The executable field values of this offer.
    pub fn field_values(&self) -> (r: Vec<FieldValue>)
        ensures
            views_of(r@) == self.spec_values(),
    {
        let mut rec = crate::bytesutil::copy_bytes(&self.intermediary.wallet.0.bytes);
        crate::encoding::push_u64_bytes(&mut rec, self.intermediary.commission);
        let mut v: Vec<FieldValue> = Vec::new();
        v.push(FieldValue::Segment(rec));
        v.push(FieldValue::Key(self.buyer.duplicate()));
        v.push(FieldValue::Key(self.seller.duplicate()));
        v.push(FieldValue::Segment(encode_trade_assets(&self.assets)));
        v.push(FieldValue::U8(self.fee_strategy));
        proof {
            assert(views_of(v@) =~= self.spec_values());
        }
        v
    }

    /// The encoded bytes of this offer.
    pub fn into_bytes(&self) -> (r: Vec<u8>)
        requires
            self.wf(),
            self.fits(),
        ensures
            r@ == self.spec_bytes(),
    {
        let vals = self.field_values();
        encode_plain(&vals)
    }

    /// An owned copy of the offer.
    pub fn duplicate(&self) -> (r: Self)
        ensures
            r.intermediary.wallet@ == self.intermediary.wallet@,
            r.intermediary.commission == self.intermediary.commission,
            r.buyer@ == self.buyer@,
            r.seller@ == self.seller@,
            tviews(r.assets@) == tviews(self.assets@),
            r.fee_strategy == self.fee_strategy,
    {
        let mut assets: Vec<TradeAsset> = Vec::new();
        let mut i: usize = 0;
        let ghost m = tviews(self.assets@);
        while i < self.assets.len()
            invariant
                i <= self.assets@.len(),
                m == tviews(self.assets@),
                m.len() == self.assets@.len(),
                assets@.len() == i,
                tviews(assets@) == m.take(i as int),
            decreases self.assets@.len() - i,
        {
            let ghost prev = assets@;
            let a = self.assets[i].duplicate();
            let ghost av = a@;
            assets.push(a);
            proof {
                assert(av == m[i as int]);
                assert forall|j: int| 0 <= j < assets@.len() implies tviews(assets@)[j] == m.take(
                    i + 1 as int,
                )[j] by {
                    if j < i as int {
                        assert(tviews(prev)[j] == m.take(i as int)[j]);
                        assert(assets@[j] == prev[j]);
                    } else {
                        assert(assets@[j] == a);
                        assert(tviews(assets@)[j] == av);
                    }
                }
                assert(tviews(assets@) =~= m.take(i + 1 as int));
            }
            i += 1;
        }
        proof {
            assert(m.take(m.len() as int) =~= m);
        }
        TradeOfferIntermediary {
            intermediary: self.intermediary.duplicate(),
            buyer: self.buyer.duplicate(),
            seller: self.seller.duplicate(),
            assets,
            fee_strategy: self.fee_strategy,
        }
    }
}

/// The field values of the whole trade message.
pub open spec fn trade_int_values(
    offer_bytes: Seq<u8>,
    seed: u64,
    seller_sig: Seq<u8>,
    interm_sig: Seq<u8>,
    data_info: Seq<char>,
) -> Seq<FieldV> {
    seq![
        FieldV::Segment(offer_bytes),
        FieldV::U64(seed),
        FieldV::Sig(seller_sig),
        FieldV::Sig(interm_sig),
        FieldV::Segment(encode_utf8(data_info)),
    ]
}

/// The field layout of the whole trade message.
pub open spec fn trade_int_layout() -> Seq<FieldKind> {
    seq![FieldKind::Segment, FieldKind::Unsigned64, FieldKind::Sig, FieldKind::Sig, FieldKind::Segment]
}

/// The trade layout, executable form.
pub fn trade_int_layout_exec() -> (r: Vec<FieldKind>)
    ensures
        r@ == trade_int_layout(),
{
    let mut v: Vec<FieldKind> = Vec::new();
    v.push(FieldKind::Segment);
    v.push(FieldKind::Unsigned64);
    v.push(FieldKind::Sig);
    v.push(FieldKind::Sig);
    v.push(FieldKind::Segment);
    proof {
        assert(v@ =~= trade_int_layout());
    }
    v
}

/// The fixed part of the trade layout is 152 bytes.
pub proof fn lemma_trade_int_layout_total()
    ensures
        crate::encoding::fixed_total(trade_int_layout()) == 152,
{
    let k0 = trade_int_layout();
    let k1 = seq![FieldKind::Unsigned64, FieldKind::Sig, FieldKind::Sig, FieldKind::Segment];
    let k2 = seq![FieldKind::Sig, FieldKind::Sig, FieldKind::Segment];
    let k3 = seq![FieldKind::Sig, FieldKind::Segment];
    let k4 = seq![FieldKind::Segment];
    let k5 = Seq::<FieldKind>::empty();
    assert(k0.drop_first() =~= k1);
    assert(k1.drop_first() =~= k2);
    assert(k2.drop_first() =~= k3);
    assert(k3.drop_first() =~= k4);
    assert(k4.drop_first() =~= k5);
    assert(crate::encoding::fixed_total(k5) == 0);
    assert(crate::encoding::fixed_total(k4) == 8);
    assert(crate::encoding::fixed_total(k3) == 72);
    assert(crate::encoding::fixed_total(k2) == 136);
    assert(crate::encoding::fixed_total(k1) == 144);
    assert(crate::encoding::fixed_total(k0) == 152);
}

/// A `trade_intermediary` transaction.
#[derive(Debug, Clone, PartialEq)]
pub struct TradeIntermediary {
    pub offer: TradeOfferIntermediary,
    pub seed: u64,
    pub seller_signature: Signature,
    pub intermediary_signature: Signature,
    pub data_info: String,
    pub signature: Signature,
}

/// The strategy a wire byte selects; meaningful for bytes one to four.
pub open spec fn byte_strategy(b: u8) -> FeeStrategy {
    if b == 1 {
        FeeStrategy::Recipient
    } else if b == 2 {
        FeeStrategy::Sender
    } else if b == 3 {
        FeeStrategy::RecipientAndSender
    } else {
        FeeStrategy::Intermediary
    }
}

/// The wallets after the flat fee stage: the strategy's payer or payers
/// are debited by parts that sum to the fee, and the treasury is
/// credited the whole fee; a short payer stops everything unchanged.
pub open spec fn fee_stage_model(
    strategy: FeeStrategy,
    fee: int,
    buyer: Seq<u8>,
    seller: Seq<u8>,
    interm: Seq<u8>,
    genesis: Seq<u8>,
    w0: Seq<(Seq<u8>, WalletV)>,
) -> Result<Seq<(Seq<u8>, WalletV)>, Error> {
    let g0 = stored_wallet(w0, genesis);
    let gplus = WalletV { balance: g0.balance + fee, ..g0 };
    match strategy {
        FeeStrategy::Recipient => {
            let b0 = stored_wallet(w0, buyer);
            if b0.balance < fee {
                Err(Error::InsufficientFunds)
            } else {
                Ok(
                    assoc_set(
                        assoc_set(w0, buyer, WalletV { balance: b0.balance - fee, ..b0 }),
                        genesis,
                        gplus,
                    ),
                )
            }
        },
        FeeStrategy::Sender => {
            let s0 = stored_wallet(w0, seller);
            if s0.balance < fee {
                Err(Error::InsufficientFunds)
            } else {
                Ok(
                    assoc_set(
                        assoc_set(w0, seller, WalletV { balance: s0.balance - fee, ..s0 }),
                        genesis,
                        gplus,
                    ),
                )
            }
        },
        FeeStrategy::RecipientAndSender => {
            let s0 = stored_wallet(w0, seller);
            let b0 = stored_wallet(w0, buyer);
            let h1 = fee - fee / 2;
            let h2 = fee / 2;
            if s0.balance < h1 {
                Err(Error::InsufficientFunds)
            } else if b0.balance < h2 {
                Err(Error::InsufficientFunds)
            } else {
                Ok(
                    assoc_set(
                        assoc_set(
                            assoc_set(w0, seller, WalletV { balance: s0.balance - h1, ..s0 }),
                            buyer,
                            WalletV { balance: b0.balance - h2, ..b0 },
                        ),
                        genesis,
                        gplus,
                    ),
                )
            }
        },
        FeeStrategy::Intermediary => {
            let i0 = stored_wallet(w0, interm);
            if i0.balance < fee {
                Err(Error::InsufficientFunds)
            } else {
                Ok(
                    assoc_set(
                        assoc_set(w0, interm, WalletV { balance: i0.balance - fee, ..i0 }),
                        genesis,
                        gplus,
                    ),
                )
            }
        },
    }
}

/// The wallets after the principal stage: the buyer pays the total to
/// the seller, or everything stays as the fee stage left it.
pub open spec fn principal_model(
    total: int,
    buyer: Seq<u8>,
    seller: Seq<u8>,
    wa: Seq<(Seq<u8>, WalletV)>,
) -> Result<Seq<(Seq<u8>, WalletV)>, Error> {
    let ba = stored_wallet(wa, buyer);
    let sa = stored_wallet(wa, seller);
    if ba.balance < total {
        Err(Error::InsufficientFunds)
    } else {
        Ok(
            assoc_set(
                assoc_set(wa, buyer, WalletV { balance: ba.balance - total, ..ba }),
                seller,
                WalletV { balance: sa.balance + total, ..sa },
            ),
        )
    }
}

/// The bundles a priced asset list moves: identifier and amount.
pub open spec fn ts_to_bs(ts: Seq<(Seq<u8>, int, int)>) -> Seq<(Seq<u8>, int)> {
    Seq::new(ts.len(), |i: int| (ts[i].0, ts[i].1))
}

/// Whether two wallet stores agree on every key.
pub open spec fn kequiv(w1: Seq<(Seq<u8>, WalletV)>, w2: Seq<(Seq<u8>, WalletV)>) -> bool {
    forall|k: Seq<u8>| #[trigger] kfind(w1, k) == kfind(w2, k)
}

/// The royalty and commission collection of a trade, against the
/// strategy's payer or payers.
pub open spec fn collect_stage(
    strategy: FeeStrategy,
    wb: Seq<(Seq<u8>, WalletV)>,
    table: Seq<(Seq<u8>, int)>,
    buyer: Seq<u8>,
    seller: Seq<u8>,
    interm: Seq<u8>,
) -> Result<Seq<(Seq<u8>, WalletV)>, Error> {
    let e = Seq::<(Seq<u8>, WalletV)>::empty();
    match strategy {
        FeeStrategy::Recipient => collect_spec(wb, e, table, buyer),
        FeeStrategy::Sender => collect_spec(wb, e, table, seller),
        FeeStrategy::RecipientAndSender => split2_spec(wb, e, table, seller, buyer),
        FeeStrategy::Intermediary => collect_spec(wb, e, table, interm),
    }
}

/// Whether the collection stage stays within machine bounds.
pub open spec fn collect_stage_fits(
    strategy: FeeStrategy,
    wb: Seq<(Seq<u8>, WalletV)>,
    table: Seq<(Seq<u8>, int)>,
    buyer: Seq<u8>,
    seller: Seq<u8>,
    interm: Seq<u8>,
) -> bool {
    let e = Seq::<(Seq<u8>, WalletV)>::empty();
    match strategy {
        FeeStrategy::Recipient => collect_fits(wb, e, table, buyer),
        FeeStrategy::Sender => collect_fits(wb, e, table, seller),
        FeeStrategy::RecipientAndSender => split2_fits(wb, e, table, seller, buyer),
        FeeStrategy::Intermediary => collect_fits(wb, e, table, interm),
    }
}

/// How a trade with an intermediary leaves the wallet store: the flat
/// fee stage is all-or-nothing and irrevocable; a missing registry
/// record stops everything after the fee; the principal stage is
/// irrevocable once done; royalties, commission and asset movement
/// settle together or leave the principal state.
pub open spec fn trade_int_post(
    strategy: FeeStrategy,
    fee: int,
    commission: u64,
    buyer: Seq<u8>,
    seller: Seq<u8>,
    interm: Seq<u8>,
    genesis: Seq<u8>,
    ts: Seq<(Seq<u8>, int, int)>,
    a0: Seq<(Seq<u8>, (Seq<u8>, int, ((int, int, int), (int, int, int), (int, int, int))))>,
    w0: Seq<(Seq<u8>, WalletV)>,
    w1: Seq<(Seq<u8>, WalletV)>,
    r: Result<(), Error>,
) -> bool {
    match fee_stage_model(strategy, fee, buyer, seller, interm, genesis, w0) {
        Err(e) => r == Err::<(), Error>(e) && w1 == w0,
        Ok(wa) => match trade_fees_spec(a0, ts, Seq::<(Seq<u8>, int)>::empty()) {
            Err(e) => r == Err::<(), Error>(e) && kequiv(w1, wa),
            Ok(t0) => {
                let table = add_bundle(t0, interm, commission as int);
                match principal_model(trade_total(ts), buyer, seller, wa) {
                    Err(e) => r == Err::<(), Error>(e) && kequiv(w1, wa),
                    Ok(wb) => match collect_stage(strategy, wb, table, buyer, seller, interm) {
                        Err(e) => r == Err::<(), Error>(e) && kequiv(w1, wb),
                        Ok(ws3) => {
                            let sw = ws_wallet(wb, ws3, seller);
                            let bw = ws_wallet(wb, ws3, buyer);
                            match move_all(sw.assets, bw.assets, ts_to_bs(ts)) {
                                Err(e) => r == Err::<(), Error>(e) && kequiv(w1, wb),
                                Ok(pair) => {
                                    let ws4 = supdate(
                                        supdate(
                                            ws3,
                                            seller,
                                            WalletV { balance: sw.balance, assets: pair.0 },
                                        ),
                                        buyer,
                                        WalletV { balance: bw.balance, assets: pair.1 },
                                    );
                                    r == Ok::<(), Error>(()) && (forall|k: Seq<u8>|
                                        #[trigger] kfind(w1, k) == (match kfind(ws4, k) {
                                            Some(w) => Some(w),
                                            None => kfind(wb, k),
                                        }))
                                },
                            }
                        },
                    },
                }
            },
        },
    }
}

impl TradeIntermediary {
    /// The ghost field values of this trade's message.
    pub open spec fn spec_values(&self) -> Seq<FieldV> {
        trade_int_values(
            self.offer.spec_bytes(),
            self.seed,
            self.seller_signature@,
            self.intermediary_signature@,
            self.data_info@,
        )
    }

    /// The unsigned bytes of this trade's message.
    pub open spec fn spec_unsigned(&self) -> Seq<u8> {
        spec_msg_unsigned(
            TEST_NETWORK_ID,
            PROTOCOL_MAJOR_VERSION,
            TRADE_INTERMEDIARY_ID,
            SERVICE_ID,
            self.spec_values(),
        )
    }

    /// Whether the trade's parts are well formed.
    pub open spec fn wf(&self) -> bool {
        &&& self.offer.wf()
        &&& self.seller_signature.wf()
        &&& self.intermediary_signature.wf()
        &&& self.signature.wf()
    }

    /// Whether the encoded message fits the wire's offsets.
    pub open spec fn fits(&self) -> bool {
        &&& self.offer.fits()
        &&& HEADER_LENGTH + crate::encoding::fixed_total(kinds_of(self.spec_values()))
            + crate::encoding::seg_total(self.spec_values()) + SIGNATURE_LENGTH <= u32::MAX
    }

    /// The executable field values of this trade's message.
    pub fn field_values(&self) -> (r: Vec<FieldValue>)
        requires
            self.offer.wf(),
            self.offer.fits(),
        ensures
            views_of(r@) == self.spec_values(),
    {
        let mut v: Vec<FieldValue> = Vec::new();
        v.push(FieldValue::Segment(self.offer.into_bytes()));
        v.push(FieldValue::U64(self.seed));
        v.push(FieldValue::Sig(self.seller_signature.duplicate()));
        v.push(FieldValue::Sig(self.intermediary_signature.duplicate()));
        v.push(FieldValue::Segment(self.data_info.as_str().as_bytes_vec()));
        proof {
            assert(views_of(v@) =~= self.spec_values());
        }
        v
    }

    /// Builds a trade message around an offer and the counterparties'
    /// signatures; the message signature slot starts zeroed for the
    /// embedding to fill.
    pub fn new(
        offer: TradeOfferIntermediary,
        seed: u64,
        seller_signature: &Signature,
        intermediary_signature: &Signature,
        data_info: &str,
    ) -> (r: TradeIntermediary)
        requires
            offer.wf(),
            offer.fits(),
            seller_signature.wf(),
            intermediary_signature.wf(),
            HEADER_LENGTH + crate::encoding::fixed_total(
                kinds_of(
                    trade_int_values(
                        offer.spec_bytes(),
                        seed,
                        seller_signature@,
                        intermediary_signature@,
                        data_info@,
                    ),
                ),
            ) + crate::encoding::seg_total(
                trade_int_values(
                    offer.spec_bytes(),
                    seed,
                    seller_signature@,
                    intermediary_signature@,
                    data_info@,
                ),
            ) + SIGNATURE_LENGTH <= u32::MAX,
        ensures
            r.offer == offer,
            r.seed == seed,
            r.seller_signature@ == seller_signature@,
            r.intermediary_signature@ == intermediary_signature@,
            r.data_info@ == data_info@,
            r.signature@ == spec_zero_sig(),
            r.wf(),
    {
        let tx = TradeIntermediary {
            offer,
            seed,
            seller_signature: seller_signature.duplicate(),
            intermediary_signature: intermediary_signature.duplicate(),
            data_info: String::from_str(data_info),
            signature: Signature::zero(),
        };
        tx
    }

    /// Raw bytes of the offer.
    pub fn offer_raw(&self) -> (r: Vec<u8>)
        requires
            self.offer.wf(),
            self.offer.fits(),
        ensures
            r@ == self.offer.spec_bytes(),
    {
        self.offer.into_bytes()
    }

    /// The signed raw message of this trade.
    pub fn to_raw(&self) -> (r: RawMessage)
        requires
            self.wf(),
            self.fits(),
        ensures
            r@ == self.spec_unsigned() + self.signature@,
    {
        let vals = self.field_values();
        let mut bytes = encode_unsigned(
            TEST_NETWORK_ID,
            PROTOCOL_MAJOR_VERSION,
            TRADE_INTERMEDIARY_ID,
            SERVICE_ID,
            &vals,
        );
        crate::bytesutil::append_bytes(&mut bytes, &self.signature.0.bytes);
        RawMessage::from_vec(bytes)
    }

    /// The hash that keys this trade's recorded result.
    pub fn hash(&self) -> (r: HashDigest)
        requires
            self.wf(),
            self.fits(),
        ensures
            r@ == crate::bytesutil::spec_digest32(self.spec_unsigned() + self.signature@),
            r.wf(),
    {
        let raw = self.to_raw();
        crate::crypto::digest32(&raw.0.raw)
    }

    /// Structural checks: the three parties differ pairwise and the fee
    /// strategy is a known one. Signature verification is the
    /// embedding's, over the message bytes and the offer bytes.
    pub fn verify(&self) -> (r: bool)
        ensures
            r == (self.offer.seller@ != self.offer.buyer@ && self.offer.intermediary.wallet@
                != self.offer.seller@ && self.offer.intermediary.wallet@ != self.offer.buyer@ && 1
                <= self.offer.fee_strategy <= 4),
    {
        let wallets_ok = !self.offer.seller.same_as(&self.offer.buyer)
            && !self.offer.intermediary.wallet.same_as(&self.offer.seller)
            && !self.offer.intermediary.wallet.same_as(&self.offer.buyer);
        if !wallets_ok {
            return false;
        }
        match FeeStrategy::try_from(self.offer.fee_strategy) {
            Some(_) => true,
            None => false,
        }
    }

    /// Executes the trade against the fork and records the outcome under
    /// the transaction's hash.
    pub fn execute(&self, fork: &mut Fork, cfg: &Configuration) -> (r: Result<(), Error>)
        requires
            self.wf(),
            self.fits(),
            cfg.wf(),
            trade_process_req(self, old(fork)@.wallets, old(fork)@.assets, cfg),
        ensures
            trade_int_post(
                byte_strategy(self.offer.fee_strategy),
                cfg.trade_fee as int,
                self.offer.intermediary.commission,
                self.offer.buyer@,
                self.offer.seller@,
                self.offer.intermediary.wallet@,
                cfg.genesis_key@,
                tviews(self.offer.assets@),
                old(fork)@.assets,
                old(fork)@.wallets,
                final(fork)@.wallets,
                r,
            ),
            kfind(final(fork)@.statuses, crate::bytesutil::spec_digest32(self.spec_unsigned() + self.signature@))
                == Some(r),
            forall|k: Seq<u8>|
                k != crate::bytesutil::spec_digest32(self.spec_unsigned() + self.signature@) ==> kfind(
                    final(fork)@.statuses,
                    k,
                ) == kfind(old(fork)@.statuses, k),
            final(fork)@.assets == old(fork)@.assets,
    {
        let r = self.process(fork, cfg);
        let h = self.hash();
        fork.store_status(&h, r);
        r
    }

    /// The state transition of the trade: collect the flat fee by
    /// strategy; compute the royalty table; move the principal; collect
    /// royalties and commission; move the assets; commit.
    #[verifier::rlimit(100)]
    pub fn process(&self, fork: &mut Fork, cfg: &Configuration) -> (r: Result<(), Error>)
        requires
            self.wf(),
            cfg.wf(),
            self.offer.fits(),
            trade_process_req(self, old(fork)@.wallets, old(fork)@.assets, cfg),
        ensures
            trade_int_post(
                byte_strategy(self.offer.fee_strategy),
                cfg.trade_fee as int,
                self.offer.intermediary.commission,
                self.offer.buyer@,
                self.offer.seller@,
                self.offer.intermediary.wallet@,
                cfg.genesis_key@,
                tviews(self.offer.assets@),
                old(fork)@.assets,
                old(fork)@.wallets,
                final(fork)@.wallets,
                r,
            ),
            final(fork)@.assets == old(fork)@.assets,
            final(fork)@.statuses == old(fork)@.statuses,
    {
        let ghost w0 = old(fork)@.wallets;
        let ghost a0 = old(fork)@.assets;
        let ghost strategy = byte_strategy(self.offer.fee_strategy);
        let ghost buyer_k = self.offer.buyer@;
        let ghost seller_k = self.offer.seller@;
        let ghost interm_k = self.offer.intermediary.wallet@;
        let ghost genesis_k = cfg.genesis_key@;
        let ghost ts = tviews(self.offer.assets@);
        let fee = cfg.trade_fee;

        // Flat fee stage, all-or-nothing and irrevocable once stored.
        let mut genesis = fork.fetch_wallet(&cfg.genesis_key);
        if self.offer.fee_strategy == 1 {
            let mut buyer = fork.fetch_wallet(&self.offer.buyer);
            match move_coins(&mut buyer, &mut genesis, fee) {
                Err(e) => {
                    return Err(e);
                },
                Ok(()) => {},
            }
            fork.store_wallet(&self.offer.buyer, buyer);
            fork.store_wallet(&cfg.genesis_key, genesis);
            proof {
                let b0 = stored_wallet(w0, buyer_k);
                let g0 = stored_wallet(w0, genesis_k);
                let m1 = assoc_set(w0, buyer_k, WalletV { balance: b0.balance - fee, ..b0 });
                lemma_assoc_set(w0, buyer_k, WalletV { balance: b0.balance - fee, ..b0 });
                lemma_assoc_set(m1, genesis_k, WalletV { balance: g0.balance + fee, ..g0 });
            }
        } else if self.offer.fee_strategy == 2 {
            let mut seller = fork.fetch_wallet(&self.offer.seller);
            match move_coins(&mut seller, &mut genesis, fee) {
                Err(e) => {
                    return Err(e);
                },
                Ok(()) => {},
            }
            fork.store_wallet(&self.offer.seller, seller);
            fork.store_wallet(&cfg.genesis_key, genesis);
            proof {
                let s0 = stored_wallet(w0, seller_k);
                let g0 = stored_wallet(w0, genesis_k);
                let m1 = assoc_set(w0, seller_k, WalletV { balance: s0.balance - fee, ..s0 });
                lemma_assoc_set(w0, seller_k, WalletV { balance: s0.balance - fee, ..s0 });
                lemma_assoc_set(m1, genesis_k, WalletV { balance: g0.balance + fee, ..g0 });
            }
        } else if self.offer.fee_strategy == 3 {
            let (h1, h2) = split_fee(fee);
            let mut seller = fork.fetch_wallet(&self.offer.seller);
            let mut buyer = fork.fetch_wallet(&self.offer.buyer);
            match move_coins(&mut seller, &mut genesis, h1) {
                Err(e) => {
                    return Err(e);
                },
                Ok(()) => {},
            }
            match move_coins(&mut buyer, &mut genesis, h2) {
                Err(e) => {
                    return Err(e);
                },
                Ok(()) => {},
            }
            fork.store_wallet(&self.offer.seller, seller);
            fork.store_wallet(&self.offer.buyer, buyer);
            fork.store_wallet(&cfg.genesis_key, genesis);
            proof {
                let s0 = stored_wallet(w0, seller_k);
                let b0 = stored_wallet(w0, buyer_k);
                let g0 = stored_wallet(w0, genesis_k);
                let m1 = assoc_set(w0, seller_k, WalletV { balance: s0.balance - (fee - fee / 2), ..s0 });
                let m2 = assoc_set(m1, buyer_k, WalletV { balance: b0.balance - fee / 2, ..b0 });
                lemma_assoc_set(w0, seller_k, WalletV { balance: s0.balance - (fee - fee / 2), ..s0 });
                lemma_assoc_set(m1, buyer_k, WalletV { balance: b0.balance - fee / 2, ..b0 });
                lemma_assoc_set(m2, genesis_k, WalletV { balance: g0.balance + fee, ..g0 });
            }
        } else {
            let mut interm = fork.fetch_wallet(&self.offer.intermediary.wallet);
            match move_coins(&mut interm, &mut genesis, fee) {
                Err(e) => {
                    return Err(e);
                },
                Ok(()) => {},
            }
            fork.store_wallet(&self.offer.intermediary.wallet, interm);
            fork.store_wallet(&cfg.genesis_key, genesis);
            proof {
                let i0 = stored_wallet(w0, interm_k);
                let g0 = stored_wallet(w0, genesis_k);
                let m1 = assoc_set(w0, interm_k, WalletV { balance: i0.balance - fee, ..i0 });
                lemma_assoc_set(w0, interm_k, WalletV { balance: i0.balance - fee, ..i0 });
                lemma_assoc_set(m1, genesis_k, WalletV { balance: g0.balance + fee, ..g0 });
            }
        }
        let ghost wa = fee_stage_model(
            strategy,
            fee as int,
            buyer_k,
            seller_k,
            interm_k,
            genesis_k,
            w0,
        )->Ok_0;
        proof {
            assert(kequiv(fork@.wallets, wa));
        }

        // Royalty table: every traded asset must be registered.
        let mut fees = match ThirdPartyFees::new_trade(fork, &self.offer.assets) {
            Ok(f) => f,
            Err(e) => {
                proof {
                    lemma_trade_fees_equiv(fork@.assets, a0, ts, Seq::<(Seq<u8>, int)>::empty());
                }
                return Err(e);
            },
        };
        proof {
            lemma_trade_fees_equiv(fork@.assets, a0, ts, Seq::<(Seq<u8>, int)>::empty());
        }
        fees.add_fee(&self.offer.intermediary.wallet, self.offer.intermediary.commission);
        let ghost table = fees@;

        // Principal: the buyer pays the total to the seller.
        let total = trade_total_exec(&self.offer.assets);
        let mut wallet_buyer = fork.fetch_wallet(&self.offer.buyer);
        let mut wallet_seller = fork.fetch_wallet(&self.offer.seller);
        match move_coins(&mut wallet_buyer, &mut wallet_seller, total) {
            Err(e) => {
                return Err(e);
            },
            Ok(()) => {},
        }
        fork.store_wallet(&self.offer.buyer, wallet_buyer);
        fork.store_wallet(&self.offer.seller, wallet_seller);
        let ghost wb = principal_model(trade_total(ts), buyer_k, seller_k, wa)->Ok_0;
        proof {
            assert(kequiv(fork@.wallets, wb)) by {
                lemma_assoc_set(wa, buyer_k, stored_wallet(wa, buyer_k));
                lemma_assoc_set(
                    assoc_set(
                        wa,
                        buyer_k,
                        WalletV {
                            balance: stored_wallet(wa, buyer_k).balance - total,
                            ..stored_wallet(wa, buyer_k)
                        },
                    ),
                    seller_k,
                    stored_wallet(wa, seller_k),
                );
                assert(forall|k: Seq<u8>| #![auto] kfind(wb, k) == kfind(fork@.wallets, k)) by {
                    lemma_assoc_set(
                        wa,
                        buyer_k,
                        WalletV {
                            balance: stored_wallet(wa, buyer_k).balance - total,
                            ..stored_wallet(wa, buyer_k)
                        },
                    );
                    lemma_assoc_set(
                        assoc_set(
                            wa,
                            buyer_k,
                            WalletV {
                                balance: stored_wallet(wa, buyer_k).balance - total,
                                ..stored_wallet(wa, buyer_k)
                            },
                        ),
                        seller_k,
                        WalletV {
                            balance: stored_wallet(wa, seller_k).balance + total,
                            ..stored_wallet(wa, seller_k)
                        },
                    );
                };
            };
        }

        // Royalties and commission, against the strategy's payer or
        // payers, into a working set.
        proof {
            match strategy {
                FeeStrategy::Recipient => {
                    lemma_collect_equiv(
                        fork@.wallets,
                        wb,
                        Seq::<(Seq<u8>, WalletV)>::empty(),
                        table,
                        buyer_k,
                    );
                },
                FeeStrategy::Sender => {
                    lemma_collect_equiv(
                        fork@.wallets,
                        wb,
                        Seq::<(Seq<u8>, WalletV)>::empty(),
                        table,
                        seller_k,
                    );
                },
                FeeStrategy::RecipientAndSender => {
                    lemma_split2_equiv(
                        fork@.wallets,
                        wb,
                        Seq::<(Seq<u8>, WalletV)>::empty(),
                        table,
                        seller_k,
                        buyer_k,
                    );
                },
                FeeStrategy::Intermediary => {
                    lemma_collect_equiv(
                        fork@.wallets,
                        wb,
                        Seq::<(Seq<u8>, WalletV)>::empty(),
                        table,
                        interm_k,
                    );
                },
            }
        }
        let collected = if self.offer.fee_strategy == 1 {
            fees.collect(fork, &self.offer.buyer)
        } else if self.offer.fee_strategy == 2 {
            fees.collect(fork, &self.offer.seller)
        } else if self.offer.fee_strategy == 3 {
            fees.collect2(fork, &self.offer.seller, &self.offer.buyer)
        } else {
            fees.collect(fork, &self.offer.intermediary.wallet)
        };
        let mut updated = match collected {
            Ok(ws) => ws,
            Err(e) => {
                return Err(e);
            },
        };

        // Assets move from the seller to the buyer inside the working
        // set, and everything commits together.
        let mut wallet_seller2 = updated.wallet_of(fork, &self.offer.seller);
        let mut wallet_buyer2 = updated.wallet_of(fork, &self.offer.buyer);
        let bundles = to_bundles(&self.offer.assets);
        match move_assets(&mut wallet_seller2, &mut wallet_buyer2, &bundles) {
            Err(e) => {
                return Err(e);
            },
            Ok(()) => {},
        }
        updated.put(&self.offer.seller, wallet_seller2);
        updated.put(&self.offer.buyer, wallet_buyer2);
        updated.commit(fork);
        Ok(())
    }
}

/// The machine bounds and distinctness a trade execution relies on.
/// The parties and the treasury must be pairwise distinct because the
/// wallet store is last-write-wins: committing several working copies
/// of one aliased wallet would silently drop all but the final write,
/// so an aliased trade is not given a meaning here.
pub open spec fn trade_process_req(
    tx: &TradeIntermediary,
    w0: Seq<(Seq<u8>, WalletV)>,
    a0: Seq<(Seq<u8>, (Seq<u8>, int, ((int, int, int), (int, int, int), (int, int, int))))>,
    cfg: &Configuration,
) -> bool {
    let strategy = byte_strategy(tx.offer.fee_strategy);
    let buyer = tx.offer.buyer@;
    let seller = tx.offer.seller@;
    let interm = tx.offer.intermediary.wallet@;
    let genesis = cfg.genesis_key@;
    let ts = tviews(tx.offer.assets@);
    let fee = cfg.trade_fee as int;
    &&& 1 <= tx.offer.fee_strategy <= 4
    &&& buyer != seller
    &&& buyer != interm
    &&& seller != interm
    &&& genesis != buyer
    &&& genesis != seller
    &&& genesis != interm
    &&& trade_total_fits(ts)
    &&& stored_wallet(w0, genesis).balance + fee <= u64::MAX
    &&& trade_fees_fits(a0, ts, Seq::<(Seq<u8>, int)>::empty())
    &&& (match fee_stage_model(strategy, fee, buyer, seller, interm, genesis, w0) {
        Err(_) => true,
        Ok(wa) => {
            &&& stored_wallet(wa, seller).balance + trade_total(ts) <= u64::MAX
            &&& (match trade_fees_spec(a0, ts, Seq::<(Seq<u8>, int)>::empty()) {
                Err(_) => true,
                Ok(t0) => {
                    let table = add_bundle(t0, interm, tx.offer.intermediary.commission as int);
                    &&& amount_of(t0, interm) + tx.offer.intermediary.commission <= u64::MAX
                    &&& (match principal_model(trade_total(ts), buyer, seller, wa) {
                        Err(_) => true,
                        Ok(wb) => {
                            &&& collect_stage_fits(strategy, wb, table, buyer, seller, interm)
                            &&& (match collect_stage(strategy, wb, table, buyer, seller, interm) {
                                Err(_) => true,
                                Ok(ws3) => move_fits(
                                    ws_wallet(wb, ws3, seller).assets,
                                    ws_wallet(wb, ws3, buyer).assets,
                                    ts_to_bs(ts),
                                ),
                            })
                        },
                    })
                },
            })
        },
    })
}

/// The bundles a priced asset list moves, executable form.
pub fn to_bundles(assets: &Vec<TradeAsset>) -> (r: Vec<AssetBundle>)
    ensures
        bviews(r@) == ts_to_bs(tviews(assets@)),
{
    let ghost ts = tviews(assets@);
    let mut out: Vec<AssetBundle> = Vec::new();
    let mut i: usize = 0;
    while i < assets.len()
        invariant
            i <= assets@.len(),
            ts == tviews(assets@),
            ts.len() == assets@.len(),
            out@.len() == i,
            bviews(out@) == ts_to_bs(ts).take(i as int),
        decreases assets@.len() - i,
    {
        let ghost prev = out@;
        let b = assets[i].to_bundle();
        let ghost bv = b@;
        out.push(b);
        proof {
            assert(ts[i as int] == assets@[i as int]@);
            assert(bv == ts_to_bs(ts)[i as int]);
            assert forall|j: int| 0 <= j < out@.len() implies bviews(out@)[j] == ts_to_bs(ts).take(
                i + 1 as int,
            )[j] by {
                if j < i as int {
                    assert(bviews(prev)[j] == ts_to_bs(ts).take(i as int)[j]);
                    assert(out@[j] == prev[j]);
                } else {
                    assert(out@[j] == b);
                    assert(bviews(out@)[j] == bv);
                }
            }
            assert(bviews(out@) =~= ts_to_bs(ts).take(i + 1 as int));
        }
        i += 1;
    }
    proof {
        assert(ts_to_bs(ts).take(ts.len() as int) =~= ts_to_bs(ts));
    }
    out
}


/// Whether a raw buffer decodes as a trade with an intermediary: the
/// header names the kind, every message field checks out, the nested
/// offer with its 40-byte intermediary record and its asset list parse,
/// and the memo is valid text.
pub open spec fn trade_int_decode_ok(raw: Seq<u8>) -> bool {
    &&& raw.len() >= HEADER_LENGTH + SIGNATURE_LENGTH
    &&& le16(raw, 2) == TRADE_INTERMEDIARY_ID
    &&& le16(raw, 4) == SERVICE_ID
    &&& match spec_decode_body(raw, trade_int_layout()) {
        Ok(vt) => {
            &&& (vt[0] matches FieldV::Segment(ob) && match spec_decode_plain(
                ob,
                trade_offer_layout(),
            ) {
                Ok(ot) => {
                    &&& (ot[0] matches FieldV::Segment(ir) && ir.len() == 40)
                    &&& (ot[3] matches FieldV::Segment(ab) && parse_trade_assets(ab) is Some)
                },
                Err(_) => false,
            })
            &&& (vt[4] matches FieldV::Segment(d) && valid_utf8(d))
        },
        Err(_) => false,
    }
}

impl TradeIntermediary {
    /// Parses a trade out of a raw message: the header, every message
    /// field, the nested offer record, its intermediary record, its
    /// asset list and the memo text are all validated before anything
    /// is used.
    pub fn from_raw(raw: &RawMessage) -> (r: Result<TradeIntermediary, EncodingError>)
        ensures
            r matches Ok(tx) ==> raw@.len() >= HEADER_LENGTH + SIGNATURE_LENGTH && le16(raw@, 2)
                == TRADE_INTERMEDIARY_ID && le16(raw@, 4) == SERVICE_ID && (spec_decode_body(
                raw@,
                trade_int_layout(),
            ) matches Ok(vt) && vt.len() == 5 && (vt[0] matches FieldV::Segment(ob)
                && (spec_decode_plain(ob, trade_offer_layout()) matches Ok(ot) && ot.len() == 5
                && (ot[0] matches FieldV::Segment(ir) && ir.len() == 40
                && tx.offer.intermediary.wallet@ == ir.subrange(0, 32)
                && tx.offer.intermediary.commission == crate::bytesutil::le64(ir, 32)) && ot[1]
                == FieldV::Key(tx.offer.buyer@) && ot[2] == FieldV::Key(tx.offer.seller@) && (
            ot[3] matches FieldV::Segment(ab) && parse_trade_assets(ab) == Some(
                tviews(tx.offer.assets@),
            )) && ot[4] == FieldV::U8(tx.offer.fee_strategy))) && vt[1] == FieldV::U64(tx.seed)
                && vt[2] == FieldV::Sig(tx.seller_signature@) && vt[3] == FieldV::Sig(
                tx.intermediary_signature@,
            ) && (vt[4] matches FieldV::Segment(d) && encode_utf8(tx.data_info@) == d))
                && tx.signature@ == raw@.subrange(raw@.len() - SIGNATURE_LENGTH, raw@.len() as int)
                && tx.wf(),
            (r is Ok) == trade_int_decode_ok(raw@),
    {
        if raw.0.raw.len() < HEADER_LENGTH + SIGNATURE_LENGTH {
            return Err(
                EncodingError::UnexpectedlyShortRawMessage {
                    position: 0,
                    size: raw.0.raw.len() as u32,
                },
            );
        }
        let mtype = raw.0.message_type();
        if mtype != TRADE_INTERMEDIARY_ID {
            return Err(EncodingError::IncorrectMessageType { message_type: mtype });
        }
        let sid = raw.0.service_id();
        if sid != SERVICE_ID {
            return Err(EncodingError::IncorrectServiceId { service_id: sid });
        }
        let kinds = trade_int_layout_exec();
        proof {
            lemma_trade_int_layout_total();
        }
        let mut vals = match decode_message_body(raw, &kinds) {
            Ok(v) => v,
            Err(e) => {
                return Err(e);
            },
        };
        let ghost vt = views_of(vals@);
        proof {
            crate::encoding::lemma_dec_shape(
                raw@,
                trade_int_layout(),
                HEADER_LENGTH as int,
                HEADER_LENGTH + crate::encoding::fixed_total(trade_int_layout()),
                raw@.len() - SIGNATURE_LENGTH,
            );
            assert(vt.len() == 5);
            assert(vals@.len() == 5);
            assert(forall|i: int| 0 <= i < 5 ==> (#[trigger] vt[i]) == vals@[i]@);
            assert(forall|i: int|
                0 <= i < 5 ==> (#[trigger] vt[i]).kind() == trade_int_layout()[i] && vt[i].wf());
        }
        let v4 = vals.remove(4);
        let v3 = vals.remove(3);
        let v2 = vals.remove(2);
        let v1 = vals.remove(1);
        let v0 = vals.remove(0);
        proof {
            assert(v0@ == vt[0] && v1@ == vt[1] && v2@ == vt[2] && v3@ == vt[3] && v4@ == vt[4]);
        }
        let offer_bytes = v0.into_segment().unwrap();
        let seed = v1.into_u64().unwrap();
        let seller_signature = v2.into_sig().unwrap();
        let intermediary_signature = v3.into_sig().unwrap();
        let data_bytes = v4.into_segment().unwrap();

        let okinds = trade_offer_layout_exec();
        proof {
            lemma_trade_offer_layout_total();
        }
        let mut ovals = match decode_plain(&offer_bytes, &okinds) {
            Ok(v) => v,
            Err(e) => {
                return Err(e);
            },
        };
        let ghost ot = views_of(ovals@);
        proof {
            crate::encoding::lemma_fixed_total_nonneg(trade_offer_layout());
            crate::encoding::lemma_dec_shape(
                offer_bytes@,
                trade_offer_layout(),
                0,
                crate::encoding::fixed_total(trade_offer_layout()),
                offer_bytes@.len() as int,
            );
            assert(ot.len() == 5);
            assert(ovals@.len() == 5);
            assert(forall|i: int| 0 <= i < 5 ==> (#[trigger] ot[i]) == ovals@[i]@);
            assert(forall|i: int|
                0 <= i < 5 ==> (#[trigger] ot[i]).kind() == trade_offer_layout()[i] && ot[i].wf());
        }
        let o4 = ovals.remove(4);
        let o3 = ovals.remove(3);
        let o2 = ovals.remove(2);
        let o1 = ovals.remove(1);
        let o0 = ovals.remove(0);
        proof {
            assert(o0@ == ot[0] && o1@ == ot[1] && o2@ == ot[2] && o3@ == ot[3] && o4@ == ot[4]);
        }
        let interm_bytes = o0.into_segment().unwrap();
        if interm_bytes.len() != 40 {
            return Err(
                EncodingError::IncorrectSegmentSize {
                    position: 0,
                    value: interm_bytes.len() as u32,
                },
            );
        }
        let interm_key_bytes = crate::bytesutil::read_bytes(&interm_bytes, 0, 32);
        let commission = crate::bytesutil::read_u64_le(&interm_bytes, 32);
        let buyer = o1.into_key().unwrap();
        let seller = o2.into_key().unwrap();
        let assets_bytes = o3.into_segment().unwrap();
        let fee_strategy = o4.into_u8().unwrap();
        let assets = match decode_trade_assets(&assets_bytes) {
            Ok(a) => a,
            Err(e) => {
                return Err(e);
            },
        };
        let data_info = match bytes_to_string(&data_bytes) {
            Some(s) => s,
            None => {
                return Err(EncodingError::Utf8 { position: 0 });
            },
        };
        let signature = raw.0.signature();
        let intermediary = Intermediary {
            wallet: PublicKey(crate::crypto::PublicKeySodium { bytes: interm_key_bytes }),
            commission,
        };
        Ok(
            TradeIntermediary {
                offer: TradeOfferIntermediary {
                    intermediary,
                    buyer,
                    seller,
                    assets,
                    fee_strategy,
                },
                seed,
                seller_signature,
                intermediary_signature,
                data_info,
                signature,
            },
        )
    }
}


/// The sizes of the message layout: a fixed part of 152 bytes, and
/// segments for the offer bytes and the encoded memo.
pub proof fn lemma_trade_int_sizes(
    offer_bytes: Seq<u8>,
    seed: u64,
    sig1: Seq<u8>,
    sig2: Seq<u8>,
    data_info: Seq<char>,
)
    ensures
        crate::encoding::fixed_total(kinds_of(trade_int_values(offer_bytes, seed, sig1, sig2, data_info))) == 152,
        crate::encoding::seg_total(trade_int_values(offer_bytes, seed, sig1, sig2, data_info)) == offer_bytes.len() + encode_utf8(data_info).len(),
{
    let vs = trade_int_values(offer_bytes, seed, sig1, sig2, data_info);
    let ks = kinds_of(vs);
    let k0 = seq![FieldKind::Segment, FieldKind::Unsigned64, FieldKind::Sig, FieldKind::Sig, FieldKind::Segment];
    let k1 = seq![FieldKind::Unsigned64, FieldKind::Sig, FieldKind::Sig, FieldKind::Segment];
    let k2 = seq![FieldKind::Sig, FieldKind::Sig, FieldKind::Segment];
    let k3 = seq![FieldKind::Sig, FieldKind::Segment];
    let k4 = seq![FieldKind::Segment];
    let k5 = Seq::<FieldKind>::empty();
    assert(ks =~= k0);
    assert(k0.drop_first() =~= k1);
    assert(k1.drop_first() =~= k2);
    assert(k2.drop_first() =~= k3);
    assert(k3.drop_first() =~= k4);
    assert(k4.drop_first() =~= k5);
    assert(crate::encoding::fixed_total(k5) == 0);
    assert(crate::encoding::fixed_total(k4) == 8);
    assert(crate::encoding::fixed_total(k3) == 72);
    assert(crate::encoding::fixed_total(k2) == 136);
    assert(crate::encoding::fixed_total(k1) == 144);
    assert(crate::encoding::fixed_total(k0) == 152);
    assert(vs.skip(0)[0] == vs[0]);
    assert(vs.skip(0).drop_first() =~= vs.skip(1));
    assert(vs.skip(1)[0] == vs[1]);
    assert(vs.skip(1).drop_first() =~= vs.skip(2));
    assert(vs.skip(2)[0] == vs[2]);
    assert(vs.skip(2).drop_first() =~= vs.skip(3));
    assert(vs.skip(3)[0] == vs[3]);
    assert(vs.skip(3).drop_first() =~= vs.skip(4));
    assert(vs.skip(4)[0] == vs[4]);
    assert(vs.skip(4).drop_first() =~= vs.skip(5));
    assert(vs.skip(5) =~= Seq::<FieldV>::empty());
    assert(vs.skip(0) =~= vs);
    assert(crate::encoding::seg_total(vs.skip(5)) == 0);
    assert(crate::encoding::seg_total(vs.skip(4)) == encode_utf8(data_info).len());
    assert(crate::encoding::seg_total(vs.skip(3)) == encode_utf8(data_info).len());
    assert(crate::encoding::seg_total(vs.skip(2)) == encode_utf8(data_info).len());
    assert(crate::encoding::seg_total(vs.skip(1)) == encode_utf8(data_info).len());
    assert(crate::encoding::seg_total(vs.skip(0)) == offer_bytes.len() + encode_utf8(data_info).len());
}


impl TradeIntermediary {
    /// Attaches the message's own signature, once the embedding has
    /// signed the bytes `to_raw` lays out before the trailing
    /// signature; every other part stays as it was.
    pub fn set_signature(&mut self, signature: &Signature)
        requires
            signature.wf(),
        ensures
            final(self).signature@ == signature@,
            final(self).signature.wf(),
            final(self).offer == old(self).offer,
            final(self).seed == old(self).seed,
            final(self).seller_signature == old(self).seller_signature,
            final(self).intermediary_signature == old(self).intermediary_signature,
            final(self).data_info == old(self).data_info,
    {
        self.signature = signature.duplicate();
    }
}

} // verus!
