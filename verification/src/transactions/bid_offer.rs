//! The standing bid offer: a maker bids for an asset at a price.

use vstd::prelude::*;
use vstd::string::{StrSliceExecFns, StringExecFns, StringSliceAdditionalSpecFns};
use vstd::utf8::{encode_utf8, valid_utf8};

use crate::assets::TradeAsset;
use crate::crypto::{HashDigest, PublicKey, SIGNATURE_LENGTH, Signature, spec_zero_sig};
use crate::encoding::{kinds_of, views_of, FieldKind, FieldV, FieldValue};
use crate::messages::{encode_plain, encode_unsigned, spec_msg_unsigned, spec_plain, RawMessage,
    HEADER_LENGTH, PROTOCOL_MAJOR_VERSION, TEST_NETWORK_ID};
use crate::transactions::components::{SERVICE_ID, BID_OFFER_ID};
use crate::wire::{encode_trade_assets, trade_assets_record, tviews};

verus! {

/// The field values of the standing offer: its maker, the one priced
/// asset, the replay seed and the memo.
pub open spec fn bidoffer_values(
    pub_key: Seq<u8>,
    asset: (Seq<u8>, int, int),
    seed: u64,
    memo: Seq<char>,
) -> Seq<FieldV> {
    seq![
        FieldV::Key(pub_key),
        FieldV::Segment(trade_assets_record(seq![asset])),
        FieldV::U64(seed),
        FieldV::Segment(encode_utf8(memo)),
    ]
}

/// A standing `bidoffer` registered against an asset's order book;
/// no funds move when it is placed.
#[derive(Debug, Clone, PartialEq)]
pub struct BidOffer {
    pub pub_key: PublicKey,
    pub asset: TradeAsset,
    pub seed: u64,
    pub memo: String,
    pub signature: Signature,
}

impl BidOffer {
    /// The ghost field values of this message.
    pub open spec fn spec_values(&self) -> Seq<FieldV> {
        bidoffer_values(self.pub_key@, self.asset@, self.seed, self.memo@)
    }

    /// Whether the message's parts are well formed.
    pub open spec fn wf(&self) -> bool {
        &&& self.pub_key.wf()
        &&& self.asset.wf()
        &&& self.signature.wf()
    }

    /// The executable field values of this message.
    pub fn field_values(&self) -> (r: Vec<FieldValue>)
        ensures
            views_of(r@) == self.spec_values(),
    {
        let mut one: Vec<TradeAsset> = Vec::new();
        one.push(self.asset.duplicate());
        proof {
            assert(tviews(one@) =~= seq![self.asset@]);
        }
        let mut v: Vec<FieldValue> = Vec::new();
        v.push(FieldValue::Key(self.pub_key.duplicate()));
        v.push(FieldValue::Segment(encode_trade_assets(&one)));
        v.push(FieldValue::U64(self.seed));
        v.push(FieldValue::Segment(self.memo.as_str().as_bytes_vec()));
        proof {
            assert(views_of(v@) =~= self.spec_values());
        }
        v
    }

    /// Builds a standing offer; its signature slot starts zeroed for
    /// the embedding to fill.
    pub fn new(pub_key: &PublicKey, asset: TradeAsset, seed: u64, memo: &str) -> (r:
        BidOffer)
        requires
            pub_key.wf(),
            asset.wf(),
            HEADER_LENGTH + crate::encoding::fixed_total(
                kinds_of(bidoffer_values(pub_key@, asset@, seed, memo@)),
            ) + crate::encoding::seg_total(bidoffer_values(pub_key@, asset@, seed, memo@))
                + SIGNATURE_LENGTH <= u32::MAX,
        ensures
            r.pub_key@ == pub_key@,
            r.asset@ == asset@,
            r.seed == seed,
            r.memo@ == memo@,
            r.signature@ == spec_zero_sig(),
            r.wf(),
    {
        let tx = BidOffer {
            pub_key: pub_key.duplicate(),
            asset,
            seed,
            memo: String::from_str(memo),
            signature: Signature::zero(),
        };
        tx
    }


    /// The unsigned bytes of this message.
    pub open spec fn spec_unsigned(&self) -> Seq<u8> {
        spec_msg_unsigned(
            TEST_NETWORK_ID,
            PROTOCOL_MAJOR_VERSION,
            BID_OFFER_ID,
            SERVICE_ID,
            self.spec_values(),
        )
    }

    /// Whether the encoded message fits the wire's offsets.
    pub open spec fn fits(&self) -> bool {
        HEADER_LENGTH + crate::encoding::fixed_total(kinds_of(self.spec_values()))
            + crate::encoding::seg_total(self.spec_values()) + SIGNATURE_LENGTH <= u32::MAX
    }

    /// The signed raw message.
    pub fn to_raw(&self) -> (r: RawMessage)
        requires
            self.wf(),
            self.fits(),
        ensures
            r@ == self.spec_unsigned() + self.signature@,
    {
        let vals = self.field_values();
        let mut bytes = encode_unsigned(
            TEST_NETWORK_ID,
            PROTOCOL_MAJOR_VERSION,
            BID_OFFER_ID,
            SERVICE_ID,
            &vals,
        );
        crate::bytesutil::append_bytes(&mut bytes, &self.signature.0.bytes);
        RawMessage::from_vec(bytes)
    }

    /// The hash that keys this message's recorded result.
    pub fn hash(&self) -> (r: HashDigest)
        requires
            self.wf(),
            self.fits(),
        ensures
            r@ == crate::bytesutil::spec_digest32(self.spec_unsigned() + self.signature@),
            r.wf(),
    {
        let raw = self.to_raw();
        crate::crypto::digest32(&raw.0.raw)
    }

}


/// The field layout of the standing offer.
pub open spec fn bidoffer_layout() -> Seq<FieldKind> {
    seq![FieldKind::Key, FieldKind::Segment, FieldKind::Unsigned64, FieldKind::Segment]
}

/// The layout, executable form.
pub fn bidoffer_layout_exec() -> (r: Vec<FieldKind>)
    ensures
        r@ == bidoffer_layout(),
{
    let mut v: Vec<FieldKind> = Vec::new();
    v.push(FieldKind::Key);
    v.push(FieldKind::Segment);
    v.push(FieldKind::Unsigned64);
    v.push(FieldKind::Segment);
    proof {
        assert(v@ =~= bidoffer_layout());
    }
    v
}

/// The fixed part of the layout is 56 bytes.
pub proof fn lemma_bidoffer_layout_total()
    ensures
        crate::encoding::fixed_total(bidoffer_layout()) == 56,
{
    let k0 = bidoffer_layout();
    let k1 = seq![FieldKind::Segment, FieldKind::Unsigned64, FieldKind::Segment];
    let k2 = seq![FieldKind::Unsigned64, FieldKind::Segment];
    let k3 = seq![FieldKind::Segment];
    let k4 = Seq::<FieldKind>::empty();
    assert(k0.drop_first() =~= k1);
    assert(k1.drop_first() =~= k2);
    assert(k2.drop_first() =~= k3);
    assert(k3.drop_first() =~= k4);
    assert(crate::encoding::fixed_total(k4) == 0);
    assert(crate::encoding::fixed_total(k3) == 8);
    assert(crate::encoding::fixed_total(k2) == 16);
    assert(crate::encoding::fixed_total(k1) == 24);
    assert(crate::encoding::fixed_total(k0) == 56);
}

/// Whether a raw buffer decodes as this standing offer: the header
/// names the kind, every field checks out, the asset segment holds
/// exactly one priced asset, and the memo is valid text.
pub open spec fn bidoffer_decode_ok(raw: Seq<u8>) -> bool {
    &&& raw.len() >= HEADER_LENGTH + SIGNATURE_LENGTH
    &&& crate::bytesutil::le16(raw, 2) == BID_OFFER_ID
    &&& crate::bytesutil::le16(raw, 4) == SERVICE_ID
    &&& match crate::messages::spec_decode_body(raw, bidoffer_layout()) {
        Ok(vt) => {
            &&& (vt[1] matches FieldV::Segment(ab) && match crate::wire::parse_trade_assets(ab) {
                Some(t) => t.len() == 1,
                None => false,
            })
            &&& (vt[3] matches FieldV::Segment(d) && valid_utf8(d))
        },
        Err(_) => false,
    }
}

impl BidOffer {
    /// Parses a standing offer out of a raw message: the header, every
    /// field, the single priced asset and the memo text are all
    /// validated before anything is used.
    #[verifier::rlimit(100)]
    pub fn from_raw(raw: &RawMessage) -> (r: Result<BidOffer, crate::encoding::EncodingError>)
        ensures
            r matches Ok(tx) ==> raw@.len() >= HEADER_LENGTH + SIGNATURE_LENGTH
                && crate::bytesutil::le16(raw@, 2) == BID_OFFER_ID && crate::bytesutil::le16(raw@, 4)
                == SERVICE_ID && (crate::messages::spec_decode_body(raw@, bidoffer_layout()) matches
            Ok(vt) && vt.len() == 4 && vt[0] == FieldV::Key(tx.pub_key@) && (vt[1] matches
            FieldV::Segment(ab) && crate::wire::parse_trade_assets(ab) == Some(
                seq![tx.asset@],
            )) && vt[2] == FieldV::U64(tx.seed) && (vt[3] matches FieldV::Segment(d)
                && encode_utf8(tx.memo@) == d)) && tx.signature@ == raw@.subrange(
                raw@.len() - SIGNATURE_LENGTH,
                raw@.len() as int,
            ) && tx.wf(),
            (r is Ok) == bidoffer_decode_ok(raw@),
    {
        if raw.0.raw.len() < HEADER_LENGTH + SIGNATURE_LENGTH {
            return Err(
                crate::encoding::EncodingError::UnexpectedlyShortRawMessage {
                    position: 0,
                    size: raw.0.raw.len() as u32,
                },
            );
        }
        let mtype = raw.0.message_type();
        if mtype != BID_OFFER_ID {
            return Err(crate::encoding::EncodingError::IncorrectMessageType { message_type: mtype });
        }
        let sid = raw.0.service_id();
        if sid != SERVICE_ID {
            return Err(crate::encoding::EncodingError::IncorrectServiceId { service_id: sid });
        }
        let kinds = bidoffer_layout_exec();
        proof {
            lemma_bidoffer_layout_total();
        }
        let mut vals = match crate::messages::decode_message_body(raw, &kinds) {
            Ok(v) => v,
            Err(e) => {
                return Err(e);
            },
        };
        let ghost vt = crate::encoding::views_of(vals@);
        proof {
            crate::encoding::lemma_dec_shape(
                raw@,
                bidoffer_layout(),
                HEADER_LENGTH as int,
                HEADER_LENGTH + crate::encoding::fixed_total(bidoffer_layout()),
                raw@.len() - SIGNATURE_LENGTH,
            );
            assert(vt.len() == 4);
            assert(vals@.len() == 4);
            assert(forall|i: int| 0 <= i < 4 ==> (#[trigger] vt[i]) == vals@[i]@);
            assert(forall|i: int|
                0 <= i < 4 ==> (#[trigger] vt[i]).kind() == bidoffer_layout()[i] && vt[i].wf());
        }
        let v3 = vals.remove(3);
        let v2 = vals.remove(2);
        let v1 = vals.remove(1);
        let v0 = vals.remove(0);
        proof {
            assert(v0@ == vt[0] && v1@ == vt[1] && v2@ == vt[2] && v3@ == vt[3]);
        }
        let pub_key = v0.into_key().unwrap();
        let asset_bytes = v1.into_segment().unwrap();
        let seed = v2.into_u64().unwrap();
        let memo_bytes = v3.into_segment().unwrap();
        let mut assets = match crate::wire::decode_trade_assets(&asset_bytes) {
            Ok(a) => a,
            Err(e) => {
                return Err(e);
            },
        };
        if assets.len() != 1 {
            return Err(
                crate::encoding::EncodingError::IncorrectSegmentSize {
                    position: 0,
                    value: assets.len() as u32,
                },
            );
        }
        let ghost before = crate::wire::tviews(assets@);
        let asset = assets.remove(0);
        proof {
            assert(before[0] == asset@);
            assert(before =~= seq![asset@]);
        }
        let memo = match crate::wire::bytes_to_string(&memo_bytes) {
            Some(s) => s,
            None => {
                return Err(crate::encoding::EncodingError::Utf8 { position: 0 });
            },
        };
        let signature = raw.0.signature();
        Ok(BidOffer { pub_key, asset, seed, memo, signature })
    }
}


impl BidOffer {
    /// Attaches the message's own signature, once the embedding has
    /// signed the bytes `to_raw` lays out before the trailing
    /// signature; every other part stays as it was.
    pub fn set_signature(&mut self, signature: &Signature)
        requires
            signature.wf(),
        ensures
            final(self).signature@ == signature@,
            final(self).signature.wf(),
            final(self).pub_key == old(self).pub_key,
            final(self).asset == old(self).asset,
            final(self).seed == old(self).seed,
            final(self).memo == old(self).memo,
    {
        self.signature = signature.duplicate();
    }
}

} // verus!
