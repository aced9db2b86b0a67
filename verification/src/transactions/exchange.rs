//! The `exchange` transaction: two parties swap asset bundles and an
//! amount of coins, the sender having signed the offer.

use vstd::prelude::*;
use vstd::string::{StrSliceExecFns, StringExecFns, StringSliceAdditionalSpecFns};
use vstd::utf8::{encode_utf8, valid_utf8};

use crate::assets::{AssetBundle, TradeAsset};
use crate::crypto::{HashDigest, PublicKey, SIGNATURE_LENGTH, Signature, spec_zero_sig};
use crate::encoding::{kinds_of, views_of, FieldKind, FieldV, FieldValue};
use crate::bytesutil::le16;
use crate::encoding::EncodingError;
use crate::messages::{decode_message_body, decode_plain, encode_plain, encode_unsigned,
    spec_decode_body, spec_decode_plain, spec_msg_unsigned, spec_plain, RawMessage, HEADER_LENGTH,
    PROTOCOL_MAJOR_VERSION, TEST_NETWORK_ID};
use crate::wire::{bytes_to_string, decode_bundles, parse_bundles};
use crate::transactions::components::{EXCHANGE_ID, SERVICE_ID};
use crate::wallet::bviews;
use crate::wire::{bundles_bytes, encode_bundles};

verus! {

/// The field values of the offer the sender signs.
pub open spec fn exchange_offer_values(
    sender: Seq<u8>,
    sender_assets: Seq<(Seq<u8>, int)>,
    sender_value: u64,
    recipient: Seq<u8>,
    recipient_assets: Seq<(Seq<u8>, int)>,
    fee_strategy: u8,
) -> Seq<FieldV> {
    seq![
        FieldV::Key(sender),
        FieldV::Segment(bundles_bytes(sender_assets)),
        FieldV::U64(sender_value),
        FieldV::Key(recipient),
        FieldV::Segment(bundles_bytes(recipient_assets)),
        FieldV::U8(fee_strategy),
    ]
}

/// The offer an exchange's sender signs.
#[derive(Debug, Clone, PartialEq)]
pub struct ExchangeOffer {
    pub sender: PublicKey,
    pub sender_assets: Vec<AssetBundle>,
    pub sender_value: u64,
    pub recipient: PublicKey,
    pub recipient_assets: Vec<AssetBundle>,
    pub fee_strategy: u8,
}

impl ExchangeOffer {
    /// The ghost field values of this offer.
    pub open spec fn spec_values(&self) -> Seq<FieldV> {
        exchange_offer_values(
            self.sender@,
            bviews(self.sender_assets@),
            self.sender_value,
            self.recipient@,
            bviews(self.recipient_assets@),
            self.fee_strategy,
        )
    }

    /// The encoded bytes of this offer.
    pub open spec fn spec_bytes(&self) -> Seq<u8> {
        spec_plain(self.spec_values())
    }

    /// Whether the offer's parts are well formed.
    pub open spec fn wf(&self) -> bool {
        &&& self.sender.wf()
        &&& self.recipient.wf()
        &&& forall|i: int|
            0 <= i < self.sender_assets@.len() ==> (#[trigger] self.sender_assets@[i]).wf()
        &&& forall|i: int|
            0 <= i < self.recipient_assets@.len() ==> (#[trigger] self.recipient_assets@[i]).wf()
    }

    /// Whether the encoded offer fits the wire's offsets.
    pub open spec fn fits(&self) -> bool {
        crate::encoding::fixed_total(kinds_of(self.spec_values())) + crate::encoding::seg_total(
            self.spec_values(),
        ) <= u32::MAX
    }

    /// Builds an offer.
    pub fn new(
        sender: &PublicKey,
        sender_assets: Vec<AssetBundle>,
        sender_value: u64,
        recipient: &PublicKey,
        recipient_assets: Vec<AssetBundle>,
        fee_strategy: u8,
    ) -> (r: ExchangeOffer)
        ensures
            r.sender@ == sender@,
            bviews(r.sender_assets@) == bviews(sender_assets@),
            r.sender_value == sender_value,
            r.recipient@ == recipient@,
            bviews(r.recipient_assets@) == bviews(recipient_assets@),
            r.fee_strategy == fee_strategy,
    {
        ExchangeOffer {
            sender: sender.duplicate(),
            sender_assets,
            sender_value,
            recipient: recipient.duplicate(),
            recipient_assets,
            fee_strategy,
        }
    }

    /// The executable field values of this offer.
    pub fn field_values(&self) -> (r: Vec<FieldValue>)
        ensures
            views_of(r@) == self.spec_values(),
    {
        let mut v: Vec<FieldValue> = Vec::new();
        v.push(FieldValue::Key(self.sender.duplicate()));
        v.push(FieldValue::Segment(encode_bundles(&self.sender_assets)));
        v.push(FieldValue::U64(self.sender_value));
        v.push(FieldValue::Key(self.recipient.duplicate()));
        v.push(FieldValue::Segment(encode_bundles(&self.recipient_assets)));
        v.push(FieldValue::U8(self.fee_strategy));
        proof {
            assert(views_of(v@) =~= self.spec_values());
        }
        v
    }

    /// The encoded bytes of this offer.
    pub fn into_bytes(&self) -> (r: Vec<u8>)
        requires
            self.wf(),
            self.fits(),
        ensures
            r@ == self.spec_bytes(),
    {
        let vals = self.field_values();
        encode_plain(&vals)
    }
}

/// The field values of the whole exchange message.
pub open spec fn exchange_values(
    offer_bytes: Seq<u8>,
    seed: u64,
    sender_sig: Seq<u8>,
    data_info: Seq<char>,
) -> Seq<FieldV> {
    seq![
        FieldV::Segment(offer_bytes),
        FieldV::U64(seed),
        FieldV::Sig(sender_sig),
        FieldV::Segment(encode_utf8(data_info)),
    ]
}

/// An `exchange` transaction.
#[derive(Debug, Clone, PartialEq)]
pub struct Exchange {
    pub offer: ExchangeOffer,
    pub seed: u64,
    pub sender_signature: Signature,
    pub data_info: String,
    pub signature: Signature,
}

impl Exchange {
    /// The ghost field values of this message.
    pub open spec fn spec_values(&self) -> Seq<FieldV> {
        exchange_values(self.offer.spec_bytes(), self.seed, self.sender_signature@, self.data_info@)
    }

    /// Whether the message's parts are well formed.
    pub open spec fn wf(&self) -> bool {
        &&& self.offer.wf()
        &&& self.sender_signature.wf()
        &&& self.signature.wf()
    }

    /// The executable field values of this message.
    pub fn field_values(&self) -> (r: Vec<FieldValue>)
        requires
            self.offer.wf(),
            self.offer.fits(),
        ensures
            views_of(r@) == self.spec_values(),
    {
        let mut v: Vec<FieldValue> = Vec::new();
        v.push(FieldValue::Segment(self.offer.into_bytes()));
        v.push(FieldValue::U64(self.seed));
        v.push(FieldValue::Sig(self.sender_signature.duplicate()));
        v.push(FieldValue::Segment(self.data_info.as_str().as_bytes_vec()));
        proof {
            assert(views_of(v@) =~= self.spec_values());
        }
        v
    }

    /// Builds an exchange message around an offer and the sender's
    /// signature; the message signature slot starts zeroed for the
    /// embedding to fill.
    pub fn new(
        offer: ExchangeOffer,
        seed: u64,
        sender_signature: &Signature,
        data_info: &str,
    ) -> (r: Exchange)
        requires
            offer.wf(),
            offer.fits(),
            sender_signature.wf(),
            HEADER_LENGTH + crate::encoding::fixed_total(
                kinds_of(exchange_values(offer.spec_bytes(), seed, sender_signature@, data_info@)),
            ) + crate::encoding::seg_total(
                exchange_values(offer.spec_bytes(), seed, sender_signature@, data_info@),
            ) + SIGNATURE_LENGTH <= u32::MAX,
        ensures
            r.offer == offer,
            r.seed == seed,
            r.sender_signature@ == sender_signature@,
            r.data_info@ == data_info@,
            r.signature@ == spec_zero_sig(),
            r.wf(),
    {
        let tx = Exchange {
            offer,
            seed,
            sender_signature: sender_signature.duplicate(),
            data_info: String::from_str(data_info),
            signature: Signature::zero(),
        };
        tx
    }

    /// Structural checks: the parties differ and the fee strategy is a
    /// known one. Signature verification is the embedding's, over the
    /// message bytes and the offer bytes.
    pub fn verify(&self) -> (r: bool)
        ensures
            r == (self.offer.sender@ != self.offer.recipient@ && 1 <= self.offer.fee_strategy
                <= 4),
    {
        if self.offer.sender.same_as(&self.offer.recipient) {
            return false;
        }
        match crate::fees::FeeStrategy::try_from(self.offer.fee_strategy) {
            Some(_) => true,
            None => false,
        }
    }

    /// The unsigned bytes of this message.
    pub open spec fn spec_unsigned(&self) -> Seq<u8> {
        spec_msg_unsigned(
            TEST_NETWORK_ID,
            PROTOCOL_MAJOR_VERSION,
            EXCHANGE_ID,
            SERVICE_ID,
            self.spec_values(),
        )
    }

    /// Whether the encoded message fits the wire's offsets.
    pub open spec fn fits(&self) -> bool {
        &&& self.offer.fits()
        &&& HEADER_LENGTH + crate::encoding::fixed_total(kinds_of(self.spec_values()))
            + crate::encoding::seg_total(self.spec_values()) + SIGNATURE_LENGTH <= u32::MAX
    }

    /// The signed raw message.
    pub fn to_raw(&self) -> (r: RawMessage)
        requires
            self.wf(),
            self.fits(),
        ensures
            r@ == self.spec_unsigned() + self.signature@,
    {
        let vals = self.field_values();
        let mut bytes = encode_unsigned(
            TEST_NETWORK_ID,
            PROTOCOL_MAJOR_VERSION,
            EXCHANGE_ID,
            SERVICE_ID,
            &vals,
        );
        crate::bytesutil::append_bytes(&mut bytes, &self.signature.0.bytes);
        RawMessage::from_vec(bytes)
    }

    /// The hash that keys this message's recorded result.
    pub fn hash(&self) -> (r: HashDigest)
        requires
            self.wf(),
            self.fits(),
        ensures
            r@ == crate::bytesutil::spec_digest32(self.spec_unsigned() + self.signature@),
            r.wf(),
    {
        let raw = self.to_raw();
        crate::crypto::digest32(&raw.0.raw)
    }

}


/// The sizes of the message layout: a fixed part of 88 bytes, and
/// segments for the offer bytes and the encoded memo.
pub proof fn lemma_exchange_sizes(
    offer_bytes: Seq<u8>,
    seed: u64,
    sender_sig: Seq<u8>,
    data_info: Seq<char>,
)
    ensures
        crate::encoding::fixed_total(kinds_of(exchange_values(offer_bytes, seed, sender_sig, data_info))) == 88,
        crate::encoding::seg_total(exchange_values(offer_bytes, seed, sender_sig, data_info)) == offer_bytes.len() + encode_utf8(data_info).len(),
{
    let vs = exchange_values(offer_bytes, seed, sender_sig, data_info);
    let ks = kinds_of(vs);
    let k0 = seq![FieldKind::Segment, FieldKind::Unsigned64, FieldKind::Sig, FieldKind::Segment];
    let k1 = seq![FieldKind::Unsigned64, FieldKind::Sig, FieldKind::Segment];
    let k2 = seq![FieldKind::Sig, FieldKind::Segment];
    let k3 = seq![FieldKind::Segment];
    let k4 = Seq::<FieldKind>::empty();
    assert(ks =~= k0);
    assert(k0.drop_first() =~= k1);
    assert(k1.drop_first() =~= k2);
    assert(k2.drop_first() =~= k3);
    assert(k3.drop_first() =~= k4);
    assert(crate::encoding::fixed_total(k4) == 0);
    assert(crate::encoding::fixed_total(k3) == 8);
    assert(crate::encoding::fixed_total(k2) == 72);
    assert(crate::encoding::fixed_total(k1) == 80);
    assert(crate::encoding::fixed_total(k0) == 88);
    assert(vs.skip(0)[0] == vs[0]);
    assert(vs.skip(0).drop_first() =~= vs.skip(1));
    assert(vs.skip(1)[0] == vs[1]);
    assert(vs.skip(1).drop_first() =~= vs.skip(2));
    assert(vs.skip(2)[0] == vs[2]);
    assert(vs.skip(2).drop_first() =~= vs.skip(3));
    assert(vs.skip(3)[0] == vs[3]);
    assert(vs.skip(3).drop_first() =~= vs.skip(4));
    assert(vs.skip(4) =~= Seq::<FieldV>::empty());
    assert(vs.skip(0) =~= vs);
    assert(crate::encoding::seg_total(vs.skip(4)) == 0);
    assert(crate::encoding::seg_total(vs.skip(3)) == encode_utf8(data_info).len());
    assert(crate::encoding::seg_total(vs.skip(2)) == encode_utf8(data_info).len());
    assert(crate::encoding::seg_total(vs.skip(1)) == encode_utf8(data_info).len());
    assert(crate::encoding::seg_total(vs.skip(0)) == offer_bytes.len() + encode_utf8(data_info).len());
}


/// The field layout of the offer.
pub open spec fn exchange_offer_layout() -> Seq<FieldKind> {
    seq![
        FieldKind::Key,
        FieldKind::Segment,
        FieldKind::Unsigned64,
        FieldKind::Key,
        FieldKind::Segment,
        FieldKind::Unsigned8,
    ]
}

/// The offer layout, executable form.
pub fn exchange_offer_layout_exec() -> (r: Vec<FieldKind>)
    ensures
        r@ == exchange_offer_layout(),
{
    let mut v: Vec<FieldKind> = Vec::new();
    v.push(FieldKind::Key);
    v.push(FieldKind::Segment);
    v.push(FieldKind::Unsigned64);
    v.push(FieldKind::Key);
    v.push(FieldKind::Segment);
    v.push(FieldKind::Unsigned8);
    proof {
        assert(v@ =~= exchange_offer_layout());
    }
    v
}

/// The fixed part of the offer layout is 89 bytes.
pub proof fn lemma_exchange_offer_layout_total()
    ensures
        crate::encoding::fixed_total(exchange_offer_layout()) == 89,
{
    let k0 = exchange_offer_layout();
    let k1 = seq![
        FieldKind::Segment,
        FieldKind::Unsigned64,
        FieldKind::Key,
        FieldKind::Segment,
        FieldKind::Unsigned8,
    ];
    let k2 = seq![FieldKind::Unsigned64, FieldKind::Key, FieldKind::Segment, FieldKind::Unsigned8];
    let k3 = seq![FieldKind::Key, FieldKind::Segment, FieldKind::Unsigned8];
    let k4 = seq![FieldKind::Segment, FieldKind::Unsigned8];
    let k5 = seq![FieldKind::Unsigned8];
    let k6 = Seq::<FieldKind>::empty();
    assert(k0.drop_first() =~= k1);
    assert(k1.drop_first() =~= k2);
    assert(k2.drop_first() =~= k3);
    assert(k3.drop_first() =~= k4);
    assert(k4.drop_first() =~= k5);
    assert(k5.drop_first() =~= k6);
    assert(crate::encoding::fixed_total(k6) == 0);
    assert(crate::encoding::fixed_total(k5) == 1);
    assert(crate::encoding::fixed_total(k4) == 9);
    assert(crate::encoding::fixed_total(k3) == 41);
    assert(crate::encoding::fixed_total(k2) == 49);
    assert(crate::encoding::fixed_total(k1) == 57);
    assert(crate::encoding::fixed_total(k0) == 89);
}

/// The field layout of the whole exchange message.
pub open spec fn exchange_layout() -> Seq<FieldKind> {
    seq![FieldKind::Segment, FieldKind::Unsigned64, FieldKind::Sig, FieldKind::Segment]
}

/// The exchange layout, executable form.
pub fn exchange_layout_exec() -> (r: Vec<FieldKind>)
    ensures
        r@ == exchange_layout(),
{
    let mut v: Vec<FieldKind> = Vec::new();
    v.push(FieldKind::Segment);
    v.push(FieldKind::Unsigned64);
    v.push(FieldKind::Sig);
    v.push(FieldKind::Segment);
    proof {
        assert(v@ =~= exchange_layout());
    }
    v
}

/// The fixed part of the exchange layout is 88 bytes.
pub proof fn lemma_exchange_layout_total()
    ensures
        crate::encoding::fixed_total(exchange_layout()) == 88,
{
    let k0 = exchange_layout();
    let k1 = seq![FieldKind::Unsigned64, FieldKind::Sig, FieldKind::Segment];
    let k2 = seq![FieldKind::Sig, FieldKind::Segment];
    let k3 = seq![FieldKind::Segment];
    let k4 = Seq::<FieldKind>::empty();
    assert(k0.drop_first() =~= k1);
    assert(k1.drop_first() =~= k2);
    assert(k2.drop_first() =~= k3);
    assert(k3.drop_first() =~= k4);
    assert(crate::encoding::fixed_total(k4) == 0);
    assert(crate::encoding::fixed_total(k3) == 8);
    assert(crate::encoding::fixed_total(k2) == 72);
    assert(crate::encoding::fixed_total(k1) == 80);
    assert(crate::encoding::fixed_total(k0) == 88);
}

/// Parses an encoded exchange offer, validating every field and both
/// bundle lists before anything is used; exactly the well-formed offers
/// parse.
pub fn parse_exchange_offer(offer_bytes: &Vec<u8>) -> (r: Result<ExchangeOffer, EncodingError>)
    ensures
        r matches Ok(o) ==> (spec_decode_plain(offer_bytes@, exchange_offer_layout()) matches Ok(
            ot,
        ) && ot.len() == 6 && ot[0] == FieldV::Key(o.sender@) && (ot[1] matches FieldV::Segment(
            sb,
        ) && parse_bundles(sb) == Some(bviews(o.sender_assets@))) && ot[2] == FieldV::U64(
            o.sender_value,
        ) && ot[3] == FieldV::Key(o.recipient@) && (ot[4] matches FieldV::Segment(rb)
            && parse_bundles(rb) == Some(bviews(o.recipient_assets@))) && ot[5] == FieldV::U8(
            o.fee_strategy,
        )) && o.wf(),
        (r is Ok) == (match spec_decode_plain(offer_bytes@, exchange_offer_layout()) {
            Ok(ot) => {
                &&& (ot[1] matches FieldV::Segment(sb) && parse_bundles(sb) is Some)
                &&& (ot[4] matches FieldV::Segment(rb) && parse_bundles(rb) is Some)
            },
            Err(_) => false,
        }),
{
    let okinds = exchange_offer_layout_exec();
    proof {
        lemma_exchange_offer_layout_total();
    }
    let mut ovals = match decode_plain(offer_bytes, &okinds) {
        Ok(v) => v,
        Err(e) => {
            return Err(e);
        },
    };
    let ghost ot = views_of(ovals@);
    proof {
        crate::encoding::lemma_fixed_total_nonneg(exchange_offer_layout());
        crate::encoding::lemma_dec_shape(
            offer_bytes@,
            exchange_offer_layout(),
            0,
            crate::encoding::fixed_total(exchange_offer_layout()),
            offer_bytes@.len() as int,
        );
        assert(ot.len() == 6);
        assert(ovals@.len() == 6);
        assert(forall|i: int| 0 <= i < 6 ==> (#[trigger] ot[i]) == ovals@[i]@);
        assert(forall|i: int|
            0 <= i < 6 ==> (#[trigger] ot[i]).kind() == exchange_offer_layout()[i] && ot[i].wf());
    }
    let o5 = ovals.remove(5);
    let o4 = ovals.remove(4);
    let o3 = ovals.remove(3);
    let o2 = ovals.remove(2);
    let o1 = ovals.remove(1);
    let o0 = ovals.remove(0);
    proof {
        assert(o0@ == ot[0] && o1@ == ot[1] && o2@ == ot[2] && o3@ == ot[3] && o4@ == ot[4] && o5@
            == ot[5]);
    }
    let sender = o0.into_key().unwrap();
    let sender_bytes = o1.into_segment().unwrap();
    let sender_value = o2.into_u64().unwrap();
    let recipient = o3.into_key().unwrap();
    let recipient_bytes = o4.into_segment().unwrap();
    let fee_strategy = o5.into_u8().unwrap();
    let sender_assets = match decode_bundles(&sender_bytes) {
        Ok(a) => a,
        Err(e) => {
            return Err(e);
        },
    };
    let recipient_assets = match decode_bundles(&recipient_bytes) {
        Ok(a) => a,
        Err(e) => {
            return Err(e);
        },
    };
    Ok(
        ExchangeOffer {
            sender,
            sender_assets,
            sender_value,
            recipient,
            recipient_assets,
            fee_strategy,
        },
    )
}

/// Whether a raw buffer decodes as an exchange: the header names the
/// kind, every message field checks out, the nested offer with both
/// bundle lists parses, and the memo is valid text.
pub open spec fn exchange_decode_ok(raw: Seq<u8>) -> bool {
    &&& raw.len() >= HEADER_LENGTH + SIGNATURE_LENGTH
    &&& le16(raw, 2) == EXCHANGE_ID
    &&& le16(raw, 4) == SERVICE_ID
    &&& match spec_decode_body(raw, exchange_layout()) {
        Ok(vt) => {
            &&& (vt[0] matches FieldV::Segment(ob) && match spec_decode_plain(
                ob,
                exchange_offer_layout(),
            ) {
                Ok(ot) => {
                    &&& (ot[1] matches FieldV::Segment(sb) && parse_bundles(sb) is Some)
                    &&& (ot[4] matches FieldV::Segment(rb) && parse_bundles(rb) is Some)
                },
                Err(_) => false,
            })
            &&& (vt[3] matches FieldV::Segment(d) && valid_utf8(d))
        },
        Err(_) => false,
    }
}

impl Exchange {
    /// Parses an exchange out of a raw message: the header, every
    /// message field, the nested offer and the memo text are all
    /// validated before anything is used.
    #[verifier::rlimit(100)]
    pub fn from_raw(raw: &RawMessage) -> (r: Result<Exchange, EncodingError>)
        ensures
            r matches Ok(tx) ==> raw@.len() >= HEADER_LENGTH + SIGNATURE_LENGTH && le16(raw@, 2)
                == EXCHANGE_ID && le16(raw@, 4) == SERVICE_ID && (spec_decode_body(
                raw@,
                exchange_layout(),
            ) matches Ok(vt) && vt.len() == 4 && vt[1] == FieldV::U64(tx.seed) && vt[2]
                == FieldV::Sig(tx.sender_signature@) && (vt[3] matches FieldV::Segment(d)
                && encode_utf8(tx.data_info@) == d)) && tx.signature@ == raw@.subrange(
                raw@.len() - SIGNATURE_LENGTH,
                raw@.len() as int,
            ) && tx.wf(),
            (r is Ok) == exchange_decode_ok(raw@),
    {
        if raw.0.raw.len() < HEADER_LENGTH + SIGNATURE_LENGTH {
            return Err(
                EncodingError::UnexpectedlyShortRawMessage {
                    position: 0,
                    size: raw.0.raw.len() as u32,
                },
            );
        }
        let mtype = raw.0.message_type();
        if mtype != EXCHANGE_ID {
            return Err(EncodingError::IncorrectMessageType { message_type: mtype });
        }
        let sid = raw.0.service_id();
        if sid != SERVICE_ID {
            return Err(EncodingError::IncorrectServiceId { service_id: sid });
        }
        let kinds = exchange_layout_exec();
        proof {
            lemma_exchange_layout_total();
        }
        let mut vals = match decode_message_body(raw, &kinds) {
            Ok(v) => v,
            Err(e) => {
                return Err(e);
            },
        };
        let ghost vt = views_of(vals@);
        proof {
            crate::encoding::lemma_dec_shape(
                raw@,
                exchange_layout(),
                HEADER_LENGTH as int,
                HEADER_LENGTH + crate::encoding::fixed_total(exchange_layout()),
                raw@.len() - SIGNATURE_LENGTH,
            );
            assert(vt.len() == 4);
            assert(vals@.len() == 4);
            assert(forall|i: int| 0 <= i < 4 ==> (#[trigger] vt[i]) == vals@[i]@);
            assert(forall|i: int|
                0 <= i < 4 ==> (#[trigger] vt[i]).kind() == exchange_layout()[i] && vt[i].wf());
        }
        let v3 = vals.remove(3);
        let v2 = vals.remove(2);
        let v1 = vals.remove(1);
        let v0 = vals.remove(0);
        proof {
            assert(v0@ == vt[0] && v1@ == vt[1] && v2@ == vt[2] && v3@ == vt[3]);
        }
        let offer_bytes = v0.into_segment().unwrap();
        let seed = v1.into_u64().unwrap();
        let sender_signature = v2.into_sig().unwrap();
        let data_bytes = v3.into_segment().unwrap();
        let offer = match parse_exchange_offer(&offer_bytes) {
            Ok(o) => o,
            Err(e) => {
                return Err(e);
            },
        };
        let data_info = match bytes_to_string(&data_bytes) {
            Some(s) => s,
            None => {
                return Err(EncodingError::Utf8 { position: 0 });
            },
        };
        let signature = raw.0.signature();
        Ok(Exchange { offer, seed, sender_signature, data_info, signature })
    }
}


impl Exchange {
    /// Attaches the message's own signature, once the embedding has
    /// signed the bytes `to_raw` lays out before the trailing
    /// signature; every other part stays as it was.
    pub fn set_signature(&mut self, signature: &Signature)
        requires
            signature.wf(),
        ensures
            final(self).signature@ == signature@,
            final(self).signature.wf(),
            final(self).offer == old(self).offer,
            final(self).seed == old(self).seed,
            final(self).sender_signature == old(self).sender_signature,
            final(self).data_info == old(self).data_info,
    {
        self.signature = signature.duplicate();
    }
}

} // verus!
