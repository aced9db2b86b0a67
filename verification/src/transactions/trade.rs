//! The `trade` transaction: a buyer takes priced assets from a seller
//! who has signed the offer.

use vstd::prelude::*;
use vstd::string::{StrSliceExecFns, StringExecFns, StringSliceAdditionalSpecFns};
use vstd::utf8::{encode_utf8, valid_utf8};

use crate::assets::{AssetBundle, TradeAsset};
use crate::crypto::{HashDigest, PublicKey, SIGNATURE_LENGTH, Signature, spec_zero_sig};
use crate::encoding::{kinds_of, views_of, FieldKind, FieldV, FieldValue};
use crate::messages::{decode_message_body, decode_plain, encode_plain, encode_unsigned,
    spec_decode_body, spec_decode_plain, spec_msg_unsigned, spec_plain, RawMessage, HEADER_LENGTH,
    PROTOCOL_MAJOR_VERSION, TEST_NETWORK_ID};
use crate::encoding::EncodingError;
use crate::bytesutil::le16;
use crate::wire::{bytes_to_string, decode_trade_assets, parse_trade_assets};
use crate::transactions::components::{SERVICE_ID, TRADE_ID};
use crate::wallet::bviews;
use crate::wire::{encode_trade_assets, trade_assets_record, tviews};

verus! {

/// The field values of the offer the seller signs: buyer, seller, the
/// priced assets, and who bears the flat fee.
pub open spec fn trade_offer_values(
    buyer: Seq<u8>,
    seller: Seq<u8>,
    ts: Seq<(Seq<u8>, int, int)>,
    fee_strategy: u8,
) -> Seq<FieldV> {
    seq![
        FieldV::Key(buyer),
        FieldV::Key(seller),
        FieldV::Segment(trade_assets_record(ts)),
        FieldV::U8(fee_strategy),
    ]
}

/// The offer a trade's seller signs.
#[derive(Debug, Clone, PartialEq)]
pub struct TradeOffer {
    pub buyer: PublicKey,
    pub seller: PublicKey,
    pub assets: Vec<TradeAsset>,
    pub fee_strategy: u8,
}

impl TradeOffer {
    /// The ghost field values of this offer.
    pub open spec fn spec_values(&self) -> Seq<FieldV> {
        trade_offer_values(self.buyer@, self.seller@, tviews(self.assets@), self.fee_strategy)
    }

    /// The encoded bytes of this offer.
    pub open spec fn spec_bytes(&self) -> Seq<u8> {
        spec_plain(self.spec_values())
    }

    /// Whether the offer's parts are well formed.
    pub open spec fn wf(&self) -> bool {
        &&& self.buyer.wf()
        &&& self.seller.wf()
        &&& forall|i: int| 0 <= i < self.assets@.len() ==> (#[trigger] self.assets@[i]).wf()
    }

    /// Whether the encoded offer fits the wire's offsets.
    pub open spec fn fits(&self) -> bool {
        crate::encoding::fixed_total(kinds_of(self.spec_values())) + crate::encoding::seg_total(
            self.spec_values(),
        ) <= u32::MAX
    }

    /// Builds an offer.
    pub fn new(buyer: &PublicKey, seller: &PublicKey, assets: Vec<TradeAsset>, fee_strategy: u8) -> (r: TradeOffer)
        ensures
            r.buyer@ == buyer@,
            r.seller@ == seller@,
            tviews(r.assets@) == tviews(assets@),
            r.fee_strategy == fee_strategy,
    {
        TradeOffer { buyer: buyer.duplicate(), seller: seller.duplicate(), assets, fee_strategy }
    }

    /// The executable field values of this offer.
    pub fn field_values(&self) -> (r: Vec<FieldValue>)
        ensures
            views_of(r@) == self.spec_values(),
    {
        let mut v: Vec<FieldValue> = Vec::new();
        v.push(FieldValue::Key(self.buyer.duplicate()));
        v.push(FieldValue::Key(self.seller.duplicate()));
        v.push(FieldValue::Segment(encode_trade_assets(&self.assets)));
        v.push(FieldValue::U8(self.fee_strategy));
        proof {
            assert(views_of(v@) =~= self.spec_values());
        }
        v
    }

    /// The encoded bytes of this offer.
    pub fn into_bytes(&self) -> (r: Vec<u8>)
        requires
            self.wf(),
            self.fits(),
        ensures
            r@ == self.spec_bytes(),
    {
        let vals = self.field_values();
        encode_plain(&vals)
    }
}

/// The field values of the whole trade message.
pub open spec fn trade_values(
    offer_bytes: Seq<u8>,
    seed: u64,
    seller_sig: Seq<u8>,
    data_info: Seq<char>,
) -> Seq<FieldV> {
    seq![
        FieldV::Segment(offer_bytes),
        FieldV::U64(seed),
        FieldV::Sig(seller_sig),
        FieldV::Segment(encode_utf8(data_info)),
    ]
}

/// A `trade` transaction.
#[derive(Debug, Clone, PartialEq)]
pub struct Trade {
    pub offer: TradeOffer,
    pub seed: u64,
    pub seller_signature: Signature,
    pub data_info: String,
    pub signature: Signature,
}

impl Trade {
    /// The ghost field values of this message.
    pub open spec fn spec_values(&self) -> Seq<FieldV> {
        trade_values(self.offer.spec_bytes(), self.seed, self.seller_signature@, self.data_info@)
    }

    /// Whether the message's parts are well formed.
    pub open spec fn wf(&self) -> bool {
        &&& self.offer.wf()
        &&& self.seller_signature.wf()
        &&& self.signature.wf()
    }

    /// The executable field values of this message.
    pub fn field_values(&self) -> (r: Vec<FieldValue>)
        requires
            self.offer.wf(),
            self.offer.fits(),
        ensures
            views_of(r@) == self.spec_values(),
    {
        let mut v: Vec<FieldValue> = Vec::new();
        v.push(FieldValue::Segment(self.offer.into_bytes()));
        v.push(FieldValue::U64(self.seed));
        v.push(FieldValue::Sig(self.seller_signature.duplicate()));
        v.push(FieldValue::Segment(self.data_info.as_str().as_bytes_vec()));
        proof {
            assert(views_of(v@) =~= self.spec_values());
        }
        v
    }

    /// Builds a trade message around an offer and the seller's
    /// signature; the message signature slot starts zeroed for the
    /// embedding to fill.
    pub fn new(
        offer: TradeOffer,
        seed: u64,
        seller_signature: &Signature,
        data_info: &str,
    ) -> (r: Trade)
        requires
            offer.wf(),
            offer.fits(),
            seller_signature.wf(),
            HEADER_LENGTH + crate::encoding::fixed_total(
                kinds_of(trade_values(offer.spec_bytes(), seed, seller_signature@, data_info@)),
            ) + crate::encoding::seg_total(
                trade_values(offer.spec_bytes(), seed, seller_signature@, data_info@),
            ) + SIGNATURE_LENGTH <= u32::MAX,
        ensures
            r.offer == offer,
            r.seed == seed,
            r.seller_signature@ == seller_signature@,
            r.data_info@ == data_info@,
            r.signature@ == spec_zero_sig(),
            r.wf(),
    {
        let tx = Trade {
            offer,
            seed,
            seller_signature: seller_signature.duplicate(),
            data_info: String::from_str(data_info),
            signature: Signature::zero(),
        };
        tx
    }

    /// Structural checks: the parties differ and the fee strategy is a
    /// known one. Signature verification is the embedding's, over the
    /// message bytes and the offer bytes.
    pub fn verify(&self) -> (r: bool)
        ensures
            r == (self.offer.buyer@ != self.offer.seller@ && 1 <= self.offer.fee_strategy <= 4),
    {
        if self.offer.buyer.same_as(&self.offer.seller) {
            return false;
        }
        match crate::fees::FeeStrategy::try_from(self.offer.fee_strategy) {
            Some(_) => true,
            None => false,
        }
    }

    /// The unsigned bytes of this message.
    pub open spec fn spec_unsigned(&self) -> Seq<u8> {
        spec_msg_unsigned(
            TEST_NETWORK_ID,
            PROTOCOL_MAJOR_VERSION,
            TRADE_ID,
            SERVICE_ID,
            self.spec_values(),
        )
    }

    /// Whether the encoded message fits the wire's offsets.
    pub open spec fn fits(&self) -> bool {
        &&& self.offer.fits()
        &&& HEADER_LENGTH + crate::encoding::fixed_total(kinds_of(self.spec_values()))
            + crate::encoding::seg_total(self.spec_values()) + SIGNATURE_LENGTH <= u32::MAX
    }

    /// The signed raw message.
    pub fn to_raw(&self) -> (r: RawMessage)
        requires
            self.wf(),
            self.fits(),
        ensures
            r@ == self.spec_unsigned() + self.signature@,
    {
        let vals = self.field_values();
        let mut bytes = encode_unsigned(
            TEST_NETWORK_ID,
            PROTOCOL_MAJOR_VERSION,
            TRADE_ID,
            SERVICE_ID,
            &vals,
        );
        crate::bytesutil::append_bytes(&mut bytes, &self.signature.0.bytes);
        RawMessage::from_vec(bytes)
    }

    /// The hash that keys this message's recorded result.
    pub fn hash(&self) -> (r: HashDigest)
        requires
            self.wf(),
            self.fits(),
        ensures
            r@ == crate::bytesutil::spec_digest32(self.spec_unsigned() + self.signature@),
            r.wf(),
    {
        let raw = self.to_raw();
        crate::crypto::digest32(&raw.0.raw)
    }

}


/// The sizes of the message layout: a fixed part of 88 bytes, and
/// segments for the offer bytes and the encoded memo.
pub proof fn lemma_trade_sizes(
    offer_bytes: Seq<u8>,
    seed: u64,
    seller_sig: Seq<u8>,
    data_info: Seq<char>,
)
    ensures
        crate::encoding::fixed_total(kinds_of(trade_values(offer_bytes, seed, seller_sig, data_info))) == 88,
        crate::encoding::seg_total(trade_values(offer_bytes, seed, seller_sig, data_info)) == offer_bytes.len() + encode_utf8(data_info).len(),
{
    let vs = trade_values(offer_bytes, seed, seller_sig, data_info);
    let ks = kinds_of(vs);
    let k0 = seq![FieldKind::Segment, FieldKind::Unsigned64, FieldKind::Sig, FieldKind::Segment];
    let k1 = seq![FieldKind::Unsigned64, FieldKind::Sig, FieldKind::Segment];
    let k2 = seq![FieldKind::Sig, FieldKind::Segment];
    let k3 = seq![FieldKind::Segment];
    let k4 = Seq::<FieldKind>::empty();
    assert(ks =~= k0);
    assert(k0.drop_first() =~= k1);
    assert(k1.drop_first() =~= k2);
    assert(k2.drop_first() =~= k3);
    assert(k3.drop_first() =~= k4);
    assert(crate::encoding::fixed_total(k4) == 0);
    assert(crate::encoding::fixed_total(k3) == 8);
    assert(crate::encoding::fixed_total(k2) == 72);
    assert(crate::encoding::fixed_total(k1) == 80);
    assert(crate::encoding::fixed_total(k0) == 88);
    assert(vs.skip(0)[0] == vs[0]);
    assert(vs.skip(0).drop_first() =~= vs.skip(1));
    assert(vs.skip(1)[0] == vs[1]);
    assert(vs.skip(1).drop_first() =~= vs.skip(2));
    assert(vs.skip(2)[0] == vs[2]);
    assert(vs.skip(2).drop_first() =~= vs.skip(3));
    assert(vs.skip(3)[0] == vs[3]);
    assert(vs.skip(3).drop_first() =~= vs.skip(4));
    assert(vs.skip(4) =~= Seq::<FieldV>::empty());
    assert(vs.skip(0) =~= vs);
    assert(crate::encoding::seg_total(vs.skip(4)) == 0);
    assert(crate::encoding::seg_total(vs.skip(3)) == encode_utf8(data_info).len());
    assert(crate::encoding::seg_total(vs.skip(2)) == encode_utf8(data_info).len());
    assert(crate::encoding::seg_total(vs.skip(1)) == encode_utf8(data_info).len());
    assert(crate::encoding::seg_total(vs.skip(0)) == offer_bytes.len() + encode_utf8(data_info).len());
}


/// The field layout of the offer.
pub open spec fn trade_offer_layout() -> Seq<FieldKind> {
    seq![FieldKind::Key, FieldKind::Key, FieldKind::Segment, FieldKind::Unsigned8]
}

/// The offer layout, executable form.
pub fn trade_offer_layout_exec() -> (r: Vec<FieldKind>)
    ensures
        r@ == trade_offer_layout(),
{
    let mut v: Vec<FieldKind> = Vec::new();
    v.push(FieldKind::Key);
    v.push(FieldKind::Key);
    v.push(FieldKind::Segment);
    v.push(FieldKind::Unsigned8);
    proof {
        assert(v@ =~= trade_offer_layout());
    }
    v
}

/// The fixed part of the offer layout is 73 bytes.
pub proof fn lemma_trade_offer_layout_total()
    ensures
        crate::encoding::fixed_total(trade_offer_layout()) == 73,
{
    let k0 = trade_offer_layout();
    let k1 = seq![FieldKind::Key, FieldKind::Segment, FieldKind::Unsigned8];
    let k2 = seq![FieldKind::Segment, FieldKind::Unsigned8];
    let k3 = seq![FieldKind::Unsigned8];
    let k4 = Seq::<FieldKind>::empty();
    assert(k0.drop_first() =~= k1);
    assert(k1.drop_first() =~= k2);
    assert(k2.drop_first() =~= k3);
    assert(k3.drop_first() =~= k4);
    assert(crate::encoding::fixed_total(k4) == 0);
    assert(crate::encoding::fixed_total(k3) == 1);
    assert(crate::encoding::fixed_total(k2) == 9);
    assert(crate::encoding::fixed_total(k1) == 41);
    assert(crate::encoding::fixed_total(k0) == 73);
}

/// The field layout of the whole trade message.
pub open spec fn trade_layout() -> Seq<FieldKind> {
    seq![FieldKind::Segment, FieldKind::Unsigned64, FieldKind::Sig, FieldKind::Segment]
}

/// The trade layout, executable form.
pub fn trade_layout_exec() -> (r: Vec<FieldKind>)
    ensures
        r@ == trade_layout(),
{
    let mut v: Vec<FieldKind> = Vec::new();
    v.push(FieldKind::Segment);
    v.push(FieldKind::Unsigned64);
    v.push(FieldKind::Sig);
    v.push(FieldKind::Segment);
    proof {
        assert(v@ =~= trade_layout());
    }
    v
}

/// The fixed part of the trade layout is 88 bytes.
pub proof fn lemma_trade_layout_total()
    ensures
        crate::encoding::fixed_total(trade_layout()) == 88,
{
    let k0 = trade_layout();
    let k1 = seq![FieldKind::Unsigned64, FieldKind::Sig, FieldKind::Segment];
    let k2 = seq![FieldKind::Sig, FieldKind::Segment];
    let k3 = seq![FieldKind::Segment];
    let k4 = Seq::<FieldKind>::empty();
    assert(k0.drop_first() =~= k1);
    assert(k1.drop_first() =~= k2);
    assert(k2.drop_first() =~= k3);
    assert(k3.drop_first() =~= k4);
    assert(crate::encoding::fixed_total(k4) == 0);
    assert(crate::encoding::fixed_total(k3) == 8);
    assert(crate::encoding::fixed_total(k2) == 72);
    assert(crate::encoding::fixed_total(k1) == 80);
    assert(crate::encoding::fixed_total(k0) == 88);
}

/// Whether a raw buffer decodes as a trade: the header names the kind,
/// every message field checks out, the nested offer and its asset list
/// parse, and the memo is valid text.
pub open spec fn trade_decode_ok(raw: Seq<u8>) -> bool {
    &&& raw.len() >= HEADER_LENGTH + SIGNATURE_LENGTH
    &&& le16(raw, 2) == TRADE_ID
    &&& le16(raw, 4) == SERVICE_ID
    &&& match spec_decode_body(raw, trade_layout()) {
        Ok(vt) => {
            &&& (vt[0] matches FieldV::Segment(ob) && match spec_decode_plain(
                ob,
                trade_offer_layout(),
            ) {
                Ok(ot) => (ot[2] matches FieldV::Segment(ab) && parse_trade_assets(ab) is Some),
                Err(_) => false,
            })
            &&& (vt[3] matches FieldV::Segment(d) && valid_utf8(d))
        },
        Err(_) => false,
    }
}

impl Trade {
    /// Parses a trade out of a raw message: the header, every message
    /// field, the nested offer record, its asset list and the memo text
    /// are all validated before anything is used.
    #[verifier::rlimit(100)]
    #[verifier::spinoff_prover]
    pub fn from_raw(raw: &RawMessage) -> (r: Result<Trade, EncodingError>)
        ensures
            r matches Ok(tx) ==> raw@.len() >= HEADER_LENGTH + SIGNATURE_LENGTH && le16(raw@, 2)
                == TRADE_ID && le16(raw@, 4) == SERVICE_ID && (spec_decode_body(
                raw@,
                trade_layout(),
            ) matches Ok(vt) && vt.len() == 4 && vt[1] == FieldV::U64(tx.seed) && vt[2]
                == FieldV::Sig(tx.seller_signature@) && (vt[3] matches FieldV::Segment(d)
                && encode_utf8(tx.data_info@) == d)) && tx.signature@ == raw@.subrange(
                raw@.len() - SIGNATURE_LENGTH,
                raw@.len() as int,
            ) && tx.wf(),
            (r is Ok) == trade_decode_ok(raw@),
    {
        if raw.0.raw.len() < HEADER_LENGTH + SIGNATURE_LENGTH {
            return Err(
                EncodingError::UnexpectedlyShortRawMessage {
                    position: 0,
                    size: raw.0.raw.len() as u32,
                },
            );
        }
        let mtype = raw.0.message_type();
        if mtype != TRADE_ID {
            return Err(EncodingError::IncorrectMessageType { message_type: mtype });
        }
        let sid = raw.0.service_id();
        if sid != SERVICE_ID {
            return Err(EncodingError::IncorrectServiceId { service_id: sid });
        }
        let kinds = trade_layout_exec();
        proof {
            lemma_trade_layout_total();
        }
        let mut vals = match decode_message_body(raw, &kinds) {
            Ok(v) => v,
            Err(e) => {
                return Err(e);
            },
        };
        let ghost vt = views_of(vals@);
        proof {
            crate::encoding::lemma_dec_shape(
                raw@,
                trade_layout(),
                HEADER_LENGTH as int,
                HEADER_LENGTH + crate::encoding::fixed_total(trade_layout()),
                raw@.len() - SIGNATURE_LENGTH,
            );
            assert(vt.len() == 4);
            assert(vals@.len() == 4);
            assert(forall|i: int| 0 <= i < 4 ==> (#[trigger] vt[i]) == vals@[i]@);
            assert(forall|i: int|
                0 <= i < 4 ==> (#[trigger] vt[i]).kind() == trade_layout()[i] && vt[i].wf());
        }
        let v3 = vals.remove(3);
        let v2 = vals.remove(2);
        let v1 = vals.remove(1);
        let v0 = vals.remove(0);
        proof {
            assert(v0@ == vt[0] && v1@ == vt[1] && v2@ == vt[2] && v3@ == vt[3]);
        }
        let offer_bytes = v0.into_segment().unwrap();
        let seed = v1.into_u64().unwrap();
        let seller_signature = v2.into_sig().unwrap();
        let data_bytes = v3.into_segment().unwrap();
        let offer = match parse_trade_offer(&offer_bytes) {
            Ok(o) => o,
            Err(e) => {
                return Err(e);
            },
        };
        let data_info = match bytes_to_string(&data_bytes) {
            Some(s) => s,
            None => {
                return Err(EncodingError::Utf8 { position: 0 });
            },
        };
        let signature = raw.0.signature();
        Ok(Trade { offer, seed, seller_signature, data_info, signature })
    }
}

/// Parses an encoded trade offer, validating every field and the asset
/// list before anything is used; exactly the well-formed offers parse.
pub fn parse_trade_offer(offer_bytes: &Vec<u8>) -> (r: Result<TradeOffer, EncodingError>)
    ensures
        r matches Ok(o) ==> (spec_decode_plain(offer_bytes@, trade_offer_layout()) matches Ok(ot)
            && ot.len() == 4 && ot[0] == FieldV::Key(o.buyer@) && ot[1] == FieldV::Key(o.seller@)
            && (ot[2] matches FieldV::Segment(ab) && parse_trade_assets(ab) == Some(
            tviews(o.assets@),
        )) && ot[3] == FieldV::U8(o.fee_strategy)) && o.wf(),
        (r is Ok) == (match spec_decode_plain(offer_bytes@, trade_offer_layout()) {
            Ok(ot) => (ot[2] matches FieldV::Segment(ab) && parse_trade_assets(ab) is Some),
            Err(_) => false,
        }),
{
    let okinds = trade_offer_layout_exec();
    proof {
        lemma_trade_offer_layout_total();
    }
    let mut ovals = match decode_plain(offer_bytes, &okinds) {
        Ok(v) => v,
        Err(e) => {
            return Err(e);
        },
    };
    let ghost ot = views_of(ovals@);
    proof {
        crate::encoding::lemma_fixed_total_nonneg(trade_offer_layout());
        crate::encoding::lemma_dec_shape(
            offer_bytes@,
            trade_offer_layout(),
            0,
            crate::encoding::fixed_total(trade_offer_layout()),
            offer_bytes@.len() as int,
        );
        assert(ot.len() == 4);
        assert(ovals@.len() == 4);
        assert(forall|i: int| 0 <= i < 4 ==> (#[trigger] ot[i]) == ovals@[i]@);
        assert(forall|i: int|
            0 <= i < 4 ==> (#[trigger] ot[i]).kind() == trade_offer_layout()[i] && ot[i].wf());
    }
    let o3 = ovals.remove(3);
    let o2 = ovals.remove(2);
    let o1 = ovals.remove(1);
    let o0 = ovals.remove(0);
    proof {
        assert(o0@ == ot[0] && o1@ == ot[1] && o2@ == ot[2] && o3@ == ot[3]);
    }
    let buyer = o0.into_key().unwrap();
    let seller = o1.into_key().unwrap();
    let assets_bytes = o2.into_segment().unwrap();
    let fee_strategy = o3.into_u8().unwrap();
    let assets = match decode_trade_assets(&assets_bytes) {
        Ok(a) => a,
        Err(e) => {
            return Err(e);
        },
    };
    Ok(TradeOffer { buyer, seller, assets, fee_strategy })
}


impl Trade {
    /// Attaches the message's own signature, once the embedding has
    /// signed the bytes `to_raw` lays out before the trailing
    /// signature; every other part stays as it was.
    pub fn set_signature(&mut self, signature: &Signature)
        requires
            signature.wf(),
        ensures
            final(self).signature@ == signature@,
            final(self).signature.wf(),
            final(self).offer == old(self).offer,
            final(self).seed == old(self).seed,
            final(self).seller_signature == old(self).seller_signature,
            final(self).data_info == old(self).data_info,
    {
        self.signature = signature.duplicate();
    }
}

} // verus!
