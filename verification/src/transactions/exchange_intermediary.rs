//! The `exchange_intermediary` transaction: an exchange settled through
//! an intermediary who earns a commission and also signs the offer.

use vstd::prelude::*;
use vstd::string::{StrSliceExecFns, StringExecFns, StringSliceAdditionalSpecFns};
use vstd::utf8::{encode_utf8, valid_utf8};

use crate::assets::{AssetBundle, TradeAsset};
use crate::crypto::{HashDigest, PublicKey, SIGNATURE_LENGTH, Signature, spec_zero_sig};
use crate::encoding::{kinds_of, views_of, FieldKind, FieldV, FieldValue};
use crate::bytesutil::le16;
use crate::encoding::EncodingError;
use crate::messages::{decode_message_body, decode_plain, encode_plain, encode_unsigned,
    spec_decode_body, spec_decode_plain, spec_msg_unsigned, spec_plain, RawMessage, HEADER_LENGTH,
    PROTOCOL_MAJOR_VERSION, TEST_NETWORK_ID};
use crate::crypto::PublicKeySodium;
use crate::wire::{bytes_to_string, decode_bundles, parse_bundles};
use crate::transactions::components::{Intermediary, EXCHANGE_INTERMEDIARY_ID, SERVICE_ID};
use crate::wallet::bviews;
use crate::wire::{bundles_bytes, encode_bundles, intermediary_record};

verus! {

/// The field values of the offer the counterparties sign.
pub open spec fn exchange_offer_intermediary_values(
    interm_wallet: Seq<u8>,
    commission: u64,
    sender: Seq<u8>,
    sender_assets: Seq<(Seq<u8>, int)>,
    sender_value: u64,
    recipient: Seq<u8>,
    recipient_assets: Seq<(Seq<u8>, int)>,
    fee_strategy: u8,
) -> Seq<FieldV> {
    seq![
        FieldV::Segment(intermediary_record(interm_wallet, commission as int)),
        FieldV::Key(sender),
        FieldV::Segment(bundles_bytes(sender_assets)),
        FieldV::U64(sender_value),
        FieldV::Key(recipient),
        FieldV::Segment(bundles_bytes(recipient_assets)),
        FieldV::U8(fee_strategy),
    ]
}

/// The offer an exchange's counterparties sign when an intermediary
/// takes part.
#[derive(Debug, Clone, PartialEq)]
pub struct ExchangeOfferIntermediary {
    pub intermediary: Intermediary,
    pub sender: PublicKey,
    pub sender_assets: Vec<AssetBundle>,
    pub sender_value: u64,
    pub recipient: PublicKey,
    pub recipient_assets: Vec<AssetBundle>,
    pub fee_strategy: u8,
}

impl ExchangeOfferIntermediary {
    /// The ghost field values of this offer.
    pub open spec fn spec_values(&self) -> Seq<FieldV> {
        exchange_offer_intermediary_values(
            self.intermediary.wallet@,
            self.intermediary.commission,
            self.sender@,
            bviews(self.sender_assets@),
            self.sender_value,
            self.recipient@,
            bviews(self.recipient_assets@),
            self.fee_strategy,
        )
    }

    /// The encoded bytes of this offer.
    pub open spec fn spec_bytes(&self) -> Seq<u8> {
        spec_plain(self.spec_values())
    }

    /// Whether the offer's parts are well formed.
    pub open spec fn wf(&self) -> bool {
        &&& self.intermediary.wf()
        &&& self.sender.wf()
        &&& self.recipient.wf()
        &&& forall|i: int|
            0 <= i < self.sender_assets@.len() ==> (#[trigger] self.sender_assets@[i]).wf()
        &&& forall|i: int|
            0 <= i < self.recipient_assets@.len() ==> (#[trigger] self.recipient_assets@[i]).wf()
    }

    /// Whether the encoded offer fits the wire's offsets.
    pub open spec fn fits(&self) -> bool {
        crate::encoding::fixed_total(kinds_of(self.spec_values())) + crate::encoding::seg_total(
            self.spec_values(),
        ) <= u32::MAX
    }

    /// Builds an offer.
    pub fn new(
        intermediary: Intermediary,
        sender: &PublicKey,
        sender_assets: Vec<AssetBundle>,
        sender_value: u64,
        recipient: &PublicKey,
        recipient_assets: Vec<AssetBundle>,
        fee_strategy: u8,
    ) -> (r: ExchangeOfferIntermediary)
        ensures
            r.intermediary.wallet@ == intermediary.wallet@,
            r.intermediary.commission == intermediary.commission,
            r.sender@ == sender@,
            bviews(r.sender_assets@) == bviews(sender_assets@),
            r.sender_value == sender_value,
            r.recipient@ == recipient@,
            bviews(r.recipient_assets@) == bviews(recipient_assets@),
            r.fee_strategy == fee_strategy,
    {
        ExchangeOfferIntermediary {
            intermediary,
            sender: sender.duplicate(),
            sender_assets,
            sender_value,
            recipient: recipient.duplicate(),
            recipient_assets,
            fee_strategy,
        }
    }

    /// The executable field values of this offer.
    pub fn field_values(&self) -> (r: Vec<FieldValue>)
        ensures
            views_of(r@) == self.spec_values(),
    {
        let mut rec = crate::bytesutil::copy_bytes(&self.intermediary.wallet.0.bytes);
        crate::encoding::push_u64_bytes(&mut rec, self.intermediary.commission);
        let mut v: Vec<FieldValue> = Vec::new();
        v.push(FieldValue::Segment(rec));
        v.push(FieldValue::Key(self.sender.duplicate()));
        v.push(FieldValue::Segment(encode_bundles(&self.sender_assets)));
        v.push(FieldValue::U64(self.sender_value));
        v.push(FieldValue::Key(self.recipient.duplicate()));
        v.push(FieldValue::Segment(encode_bundles(&self.recipient_assets)));
        v.push(FieldValue::U8(self.fee_strategy));
        proof {
            assert(views_of(v@) =~= self.spec_values());
        }
        v
    }

    /// The encoded bytes of this offer.
    pub fn into_bytes(&self) -> (r: Vec<u8>)
        requires
            self.wf(),
            self.fits(),
        ensures
            r@ == self.spec_bytes(),
    {
        let vals = self.field_values();
        encode_plain(&vals)
    }
}

/// The field values of the whole message.
pub open spec fn exchange_intermediary_values(
    offer_bytes: Seq<u8>,
    seed: u64,
    sender_sig: Seq<u8>,
    interm_sig: Seq<u8>,
    data_info: Seq<char>,
) -> Seq<FieldV> {
    seq![
        FieldV::Segment(offer_bytes),
        FieldV::U64(seed),
        FieldV::Sig(sender_sig),
        FieldV::Sig(interm_sig),
        FieldV::Segment(encode_utf8(data_info)),
    ]
}

/// An `exchange_intermediary` transaction.
#[derive(Debug, Clone, PartialEq)]
pub struct ExchangeIntermediary {
    pub offer: ExchangeOfferIntermediary,
    pub seed: u64,
    pub sender_signature: Signature,
    pub intermediary_signature: Signature,
    pub data_info: String,
    pub signature: Signature,
}

impl ExchangeIntermediary {
    /// The ghost field values of this message.
    pub open spec fn spec_values(&self) -> Seq<FieldV> {
        exchange_intermediary_values(
            self.offer.spec_bytes(),
            self.seed,
            self.sender_signature@,
            self.intermediary_signature@,
            self.data_info@,
        )
    }

    /// Whether the message's parts are well formed.
    pub open spec fn wf(&self) -> bool {
        &&& self.offer.wf()
        &&& self.sender_signature.wf()
        &&& self.intermediary_signature.wf()
        &&& self.signature.wf()
    }

    /// The executable field values of this message.
    pub fn field_values(&self) -> (r: Vec<FieldValue>)
        requires
            self.offer.wf(),
            self.offer.fits(),
        ensures
            views_of(r@) == self.spec_values(),
    {
        let mut v: Vec<FieldValue> = Vec::new();
        v.push(FieldValue::Segment(self.offer.into_bytes()));
        v.push(FieldValue::U64(self.seed));
        v.push(FieldValue::Sig(self.sender_signature.duplicate()));
        v.push(FieldValue::Sig(self.intermediary_signature.duplicate()));
        v.push(FieldValue::Segment(self.data_info.as_str().as_bytes_vec()));
        proof {
            assert(views_of(v@) =~= self.spec_values());
        }
        v
    }

    /// Builds a message around an offer and the counterparties'
    /// signatures; the message signature slot starts zeroed for the
    /// embedding to fill.
    pub fn new(
        offer: ExchangeOfferIntermediary,
        seed: u64,
        sender_signature: &Signature,
        intermediary_signature: &Signature,
        data_info: &str,
    ) -> (r: ExchangeIntermediary)
        requires
            offer.wf(),
            offer.fits(),
            sender_signature.wf(),
            intermediary_signature.wf(),
            HEADER_LENGTH + crate::encoding::fixed_total(
                kinds_of(
                    exchange_intermediary_values(
                        offer.spec_bytes(),
                        seed,
                        sender_signature@,
                        intermediary_signature@,
                        data_info@,
                    ),
                ),
            ) + crate::encoding::seg_total(
                exchange_intermediary_values(
                    offer.spec_bytes(),
                    seed,
                    sender_signature@,
                    intermediary_signature@,
                    data_info@,
                ),
            ) + SIGNATURE_LENGTH <= u32::MAX,
        ensures
            r.offer == offer,
            r.seed == seed,
            r.sender_signature@ == sender_signature@,
            r.intermediary_signature@ == intermediary_signature@,
            r.data_info@ == data_info@,
            r.signature@ == spec_zero_sig(),
            r.wf(),
    {
        let tx = ExchangeIntermediary {
            offer,
            seed,
            sender_signature: sender_signature.duplicate(),
            intermediary_signature: intermediary_signature.duplicate(),
            data_info: String::from_str(data_info),
            signature: Signature::zero(),
        };
        tx
    }

    /// Structural checks: the three parties differ pairwise and the fee
    /// strategy is a known one. Signature verification is the
    /// embedding's, over the message bytes and the offer bytes.
    pub fn verify(&self) -> (r: bool)
        ensures
            r == (self.offer.sender@ != self.offer.recipient@ && self.offer.intermediary.wallet@
                != self.offer.sender@ && self.offer.intermediary.wallet@ != self.offer.recipient@
                && 1 <= self.offer.fee_strategy <= 4),
    {
        let wallets_ok = !self.offer.sender.same_as(&self.offer.recipient)
            && !self.offer.intermediary.wallet.same_as(&self.offer.sender)
            && !self.offer.intermediary.wallet.same_as(&self.offer.recipient);
        if !wallets_ok {
            return false;
        }
        match crate::fees::FeeStrategy::try_from(self.offer.fee_strategy) {
            Some(_) => true,
            None => false,
        }
    }

    /// The unsigned bytes of this message.
    pub open spec fn spec_unsigned(&self) -> Seq<u8> {
        spec_msg_unsigned(
            TEST_NETWORK_ID,
            PROTOCOL_MAJOR_VERSION,
            EXCHANGE_INTERMEDIARY_ID,
            SERVICE_ID,
            self.spec_values(),
        )
    }

    /// Whether the encoded message fits the wire's offsets.
    pub open spec fn fits(&self) -> bool {
        &&& self.offer.fits()
        &&& HEADER_LENGTH + crate::encoding::fixed_total(kinds_of(self.spec_values()))
            + crate::encoding::seg_total(self.spec_values()) + SIGNATURE_LENGTH <= u32::MAX
    }

    /// The signed raw message.
    pub fn to_raw(&self) -> (r: RawMessage)
        requires
            self.wf(),
            self.fits(),
        ensures
            r@ == self.spec_unsigned() + self.signature@,
    {
        let vals = self.field_values();
        let mut bytes = encode_unsigned(
            TEST_NETWORK_ID,
            PROTOCOL_MAJOR_VERSION,
            EXCHANGE_INTERMEDIARY_ID,
            SERVICE_ID,
            &vals,
        );
        crate::bytesutil::append_bytes(&mut bytes, &self.signature.0.bytes);
        RawMessage::from_vec(bytes)
    }

    /// The hash that keys this message's recorded result.
    pub fn hash(&self) -> (r: HashDigest)
        requires
            self.wf(),
            self.fits(),
        ensures
            r@ == crate::bytesutil::spec_digest32(self.spec_unsigned() + self.signature@),
            r.wf(),
    {
        let raw = self.to_raw();
        crate::crypto::digest32(&raw.0.raw)
    }

}


/// The sizes of the message layout: a fixed part of 152 bytes, and
/// segments for the offer bytes and the encoded memo.
pub proof fn lemma_exchange_intermediary_sizes(
    offer_bytes: Seq<u8>,
    seed: u64,
    sig1: Seq<u8>,
    sig2: Seq<u8>,
    data_info: Seq<char>,
)
    ensures
        crate::encoding::fixed_total(kinds_of(exchange_intermediary_values(offer_bytes, seed, sig1, sig2, data_info))) == 152,
        crate::encoding::seg_total(exchange_intermediary_values(offer_bytes, seed, sig1, sig2, data_info)) == offer_bytes.len() + encode_utf8(data_info).len(),
{
    let vs = exchange_intermediary_values(offer_bytes, seed, sig1, sig2, data_info);
    let ks = kinds_of(vs);
    let k0 = seq![FieldKind::Segment, FieldKind::Unsigned64, FieldKind::Sig, FieldKind::Sig, FieldKind::Segment];
    let k1 = seq![FieldKind::Unsigned64, FieldKind::Sig, FieldKind::Sig, FieldKind::Segment];
    let k2 = seq![FieldKind::Sig, FieldKind::Sig, FieldKind::Segment];
    let k3 = seq![FieldKind::Sig, FieldKind::Segment];
    let k4 = seq![FieldKind::Segment];
    let k5 = Seq::<FieldKind>::empty();
    assert(ks =~= k0);
    assert(k0.drop_first() =~= k1);
    assert(k1.drop_first() =~= k2);
    assert(k2.drop_first() =~= k3);
    assert(k3.drop_first() =~= k4);
    assert(k4.drop_first() =~= k5);
    assert(crate::encoding::fixed_total(k5) == 0);
    assert(crate::encoding::fixed_total(k4) == 8);
    assert(crate::encoding::fixed_total(k3) == 72);
    assert(crate::encoding::fixed_total(k2) == 136);
    assert(crate::encoding::fixed_total(k1) == 144);
    assert(crate::encoding::fixed_total(k0) == 152);
    assert(vs.skip(0)[0] == vs[0]);
    assert(vs.skip(0).drop_first() =~= vs.skip(1));
    assert(vs.skip(1)[0] == vs[1]);
    assert(vs.skip(1).drop_first() =~= vs.skip(2));
    assert(vs.skip(2)[0] == vs[2]);
    assert(vs.skip(2).drop_first() =~= vs.skip(3));
    assert(vs.skip(3)[0] == vs[3]);
    assert(vs.skip(3).drop_first() =~= vs.skip(4));
    assert(vs.skip(4)[0] == vs[4]);
    assert(vs.skip(4).drop_first() =~= vs.skip(5));
    assert(vs.skip(5) =~= Seq::<FieldV>::empty());
    assert(vs.skip(0) =~= vs);
    assert(crate::encoding::seg_total(vs.skip(5)) == 0);
    assert(crate::encoding::seg_total(vs.skip(4)) == encode_utf8(data_info).len());
    assert(crate::encoding::seg_total(vs.skip(3)) == encode_utf8(data_info).len());
    assert(crate::encoding::seg_total(vs.skip(2)) == encode_utf8(data_info).len());
    assert(crate::encoding::seg_total(vs.skip(1)) == encode_utf8(data_info).len());
    assert(crate::encoding::seg_total(vs.skip(0)) == offer_bytes.len() + encode_utf8(data_info).len());
}


/// The field layout of the offer.
pub open spec fn exin_offer_layout() -> Seq<FieldKind> {
    seq![
        FieldKind::Segment,
        FieldKind::Key,
        FieldKind::Segment,
        FieldKind::Unsigned64,
        FieldKind::Key,
        FieldKind::Segment,
        FieldKind::Unsigned8,
    ]
}

/// The offer layout, executable form.
pub fn exin_offer_layout_exec() -> (r: Vec<FieldKind>)
    ensures
        r@ == exin_offer_layout(),
{
    let mut v: Vec<FieldKind> = Vec::new();
    v.push(FieldKind::Segment);
    v.push(FieldKind::Key);
    v.push(FieldKind::Segment);
    v.push(FieldKind::Unsigned64);
    v.push(FieldKind::Key);
    v.push(FieldKind::Segment);
    v.push(FieldKind::Unsigned8);
    proof {
        assert(v@ =~= exin_offer_layout());
    }
    v
}

/// The fixed part of the offer layout is 97 bytes.
pub proof fn lemma_exin_offer_layout_total()
    ensures
        crate::encoding::fixed_total(exin_offer_layout()) == 97,
{
    let k0 = exin_offer_layout();
    let k1 = seq![
        FieldKind::Key,
        FieldKind::Segment,
        FieldKind::Unsigned64,
        FieldKind::Key,
        FieldKind::Segment,
        FieldKind::Unsigned8,
    ];
    let k2 = seq![
        FieldKind::Segment,
        FieldKind::Unsigned64,
        FieldKind::Key,
        FieldKind::Segment,
        FieldKind::Unsigned8,
    ];
    let k3 = seq![FieldKind::Unsigned64, FieldKind::Key, FieldKind::Segment, FieldKind::Unsigned8];
    let k4 = seq![FieldKind::Key, FieldKind::Segment, FieldKind::Unsigned8];
    let k5 = seq![FieldKind::Segment, FieldKind::Unsigned8];
    let k6 = seq![FieldKind::Unsigned8];
    let k7 = Seq::<FieldKind>::empty();
    assert(k0.drop_first() =~= k1);
    assert(k1.drop_first() =~= k2);
    assert(k2.drop_first() =~= k3);
    assert(k3.drop_first() =~= k4);
    assert(k4.drop_first() =~= k5);
    assert(k5.drop_first() =~= k6);
    assert(k6.drop_first() =~= k7);
    assert(crate::encoding::fixed_total(k7) == 0);
    assert(crate::encoding::fixed_total(k6) == 1);
    assert(crate::encoding::fixed_total(k5) == 9);
    assert(crate::encoding::fixed_total(k4) == 41);
    assert(crate::encoding::fixed_total(k3) == 49);
    assert(crate::encoding::fixed_total(k2) == 57);
    assert(crate::encoding::fixed_total(k1) == 89);
    assert(crate::encoding::fixed_total(k0) == 97);
}

/// The field layout of the whole message.
pub open spec fn exin_layout() -> Seq<FieldKind> {
    seq![FieldKind::Segment, FieldKind::Unsigned64, FieldKind::Sig, FieldKind::Sig, FieldKind::Segment]
}

/// The message layout, executable form.
pub fn exin_layout_exec() -> (r: Vec<FieldKind>)
    ensures
        r@ == exin_layout(),
{
    let mut v: Vec<FieldKind> = Vec::new();
    v.push(FieldKind::Segment);
    v.push(FieldKind::Unsigned64);
    v.push(FieldKind::Sig);
    v.push(FieldKind::Sig);
    v.push(FieldKind::Segment);
    proof {
        assert(v@ =~= exin_layout());
    }
    v
}

/// The fixed part of the message layout is 152 bytes.
pub proof fn lemma_exin_layout_total()
    ensures
        crate::encoding::fixed_total(exin_layout()) == 152,
{
    let k0 = exin_layout();
    let k1 = seq![FieldKind::Unsigned64, FieldKind::Sig, FieldKind::Sig, FieldKind::Segment];
    let k2 = seq![FieldKind::Sig, FieldKind::Sig, FieldKind::Segment];
    let k3 = seq![FieldKind::Sig, FieldKind::Segment];
    let k4 = seq![FieldKind::Segment];
    let k5 = Seq::<FieldKind>::empty();
    assert(k0.drop_first() =~= k1);
    assert(k1.drop_first() =~= k2);
    assert(k2.drop_first() =~= k3);
    assert(k3.drop_first() =~= k4);
    assert(k4.drop_first() =~= k5);
    assert(crate::encoding::fixed_total(k5) == 0);
    assert(crate::encoding::fixed_total(k4) == 8);
    assert(crate::encoding::fixed_total(k3) == 72);
    assert(crate::encoding::fixed_total(k2) == 136);
    assert(crate::encoding::fixed_total(k1) == 144);
    assert(crate::encoding::fixed_total(k0) == 152);
}

/// Parses an encoded offer with an intermediary, validating every
/// field, the intermediary record and both bundle lists before
/// anything is used; exactly the well-formed offers parse.
#[verifier::rlimit(100)]
pub fn parse_exin_offer(offer_bytes: &Vec<u8>) -> (r: Result<
    ExchangeOfferIntermediary,
    EncodingError,
>)
    ensures
        r matches Ok(o) ==> (spec_decode_plain(offer_bytes@, exin_offer_layout()) matches Ok(ot)
            && ot.len() == 7 && (ot[0] matches FieldV::Segment(ir) && ir.len() == 40
            && o.intermediary.wallet@ == ir.subrange(0, 32) && o.intermediary.commission
            == crate::bytesutil::le64(ir, 32)) && ot[1] == FieldV::Key(o.sender@) && (ot[2] matches
        FieldV::Segment(sb) && parse_bundles(sb) == Some(bviews(o.sender_assets@))) && ot[3]
            == FieldV::U64(o.sender_value) && ot[4] == FieldV::Key(o.recipient@) && (ot[5] matches
        FieldV::Segment(rb) && parse_bundles(rb) == Some(bviews(o.recipient_assets@))) && ot[6]
            == FieldV::U8(o.fee_strategy)) && o.wf(),
        (r is Ok) == (match spec_decode_plain(offer_bytes@, exin_offer_layout()) {
            Ok(ot) => {
                &&& (ot[0] matches FieldV::Segment(ir) && ir.len() == 40)
                &&& (ot[2] matches FieldV::Segment(sb) && parse_bundles(sb) is Some)
                &&& (ot[5] matches FieldV::Segment(rb) && parse_bundles(rb) is Some)
            },
            Err(_) => false,
        }),
{
    let okinds = exin_offer_layout_exec();
    proof {
        lemma_exin_offer_layout_total();
    }
    let mut ovals = match decode_plain(offer_bytes, &okinds) {
        Ok(v) => v,
        Err(e) => {
            return Err(e);
        },
    };
    let ghost ot = views_of(ovals@);
    proof {
        crate::encoding::lemma_fixed_total_nonneg(exin_offer_layout());
        crate::encoding::lemma_dec_shape(
            offer_bytes@,
            exin_offer_layout(),
            0,
            crate::encoding::fixed_total(exin_offer_layout()),
            offer_bytes@.len() as int,
        );
        assert(ot.len() == 7);
        assert(ovals@.len() == 7);
        assert(forall|i: int| 0 <= i < 7 ==> (#[trigger] ot[i]) == ovals@[i]@);
        assert(forall|i: int|
            0 <= i < 7 ==> (#[trigger] ot[i]).kind() == exin_offer_layout()[i] && ot[i].wf());
    }
    let o6 = ovals.remove(6);
    let o5 = ovals.remove(5);
    let o4 = ovals.remove(4);
    let o3 = ovals.remove(3);
    let o2 = ovals.remove(2);
    let o1 = ovals.remove(1);
    let o0 = ovals.remove(0);
    proof {
        assert(o0@ == ot[0] && o1@ == ot[1] && o2@ == ot[2] && o3@ == ot[3] && o4@ == ot[4] && o5@
            == ot[5] && o6@ == ot[6]);
    }
    let interm_bytes = o0.into_segment().unwrap();
    if interm_bytes.len() != 40 {
        return Err(
            EncodingError::IncorrectSegmentSize { position: 0, value: interm_bytes.len() as u32 },
        );
    }
    let interm_key_bytes = crate::bytesutil::read_bytes(&interm_bytes, 0, 32);
    let commission = crate::bytesutil::read_u64_le(&interm_bytes, 32);
    let sender = o1.into_key().unwrap();
    let sender_bytes = o2.into_segment().unwrap();
    let sender_value = o3.into_u64().unwrap();
    let recipient = o4.into_key().unwrap();
    let recipient_bytes = o5.into_segment().unwrap();
    let fee_strategy = o6.into_u8().unwrap();
    let sender_assets = match decode_bundles(&sender_bytes) {
        Ok(a) => a,
        Err(e) => {
            return Err(e);
        },
    };
    let recipient_assets = match decode_bundles(&recipient_bytes) {
        Ok(a) => a,
        Err(e) => {
            return Err(e);
        },
    };
    let intermediary = Intermediary {
        wallet: PublicKey(PublicKeySodium { bytes: interm_key_bytes }),
        commission,
    };
    Ok(
        ExchangeOfferIntermediary {
            intermediary,
            sender,
            sender_assets,
            sender_value,
            recipient,
            recipient_assets,
            fee_strategy,
        },
    )
}

/// Whether a raw buffer decodes as an exchange with an intermediary:
/// the header names the kind, every message field checks out, the
/// nested offer with its 40-byte intermediary record and both bundle
/// lists parses, and the memo is valid text.
pub open spec fn exin_decode_ok(raw: Seq<u8>) -> bool {
    &&& raw.len() >= HEADER_LENGTH + SIGNATURE_LENGTH
    &&& le16(raw, 2) == EXCHANGE_INTERMEDIARY_ID
    &&& le16(raw, 4) == SERVICE_ID
    &&& match spec_decode_body(raw, exin_layout()) {
        Ok(vt) => {
            &&& (vt[0] matches FieldV::Segment(ob) && match spec_decode_plain(
                ob,
                exin_offer_layout(),
            ) {
                Ok(ot) => {
                    &&& (ot[0] matches FieldV::Segment(ir) && ir.len() == 40)
                    &&& (ot[2] matches FieldV::Segment(sb) && parse_bundles(sb) is Some)
                    &&& (ot[5] matches FieldV::Segment(rb) && parse_bundles(rb) is Some)
                },
                Err(_) => false,
            })
            &&& (vt[4] matches FieldV::Segment(d) && valid_utf8(d))
        },
        Err(_) => false,
    }
}

impl ExchangeIntermediary {
    /// Parses an exchange with an intermediary out of a raw message:
    /// the header, every message field, the nested offer and the memo
    /// text are all validated before anything is used.
    #[verifier::rlimit(100)]
    pub fn from_raw(raw: &RawMessage) -> (r: Result<ExchangeIntermediary, EncodingError>)
        ensures
            r matches Ok(tx) ==> raw@.len() >= HEADER_LENGTH + SIGNATURE_LENGTH && le16(raw@, 2)
                == EXCHANGE_INTERMEDIARY_ID && le16(raw@, 4) == SERVICE_ID && (spec_decode_body(
                raw@,
                exin_layout(),
            ) matches Ok(vt) && vt.len() == 5 && vt[1] == FieldV::U64(tx.seed) && vt[2]
                == FieldV::Sig(tx.sender_signature@) && vt[3] == FieldV::Sig(
                tx.intermediary_signature@,
            ) && (vt[4] matches FieldV::Segment(d) && encode_utf8(tx.data_info@) == d))
                && tx.signature@ == raw@.subrange(raw@.len() - SIGNATURE_LENGTH, raw@.len() as int)
                && tx.wf(),
            (r is Ok) == exin_decode_ok(raw@),
    {
        if raw.0.raw.len() < HEADER_LENGTH + SIGNATURE_LENGTH {
            return Err(
                EncodingError::UnexpectedlyShortRawMessage {
                    position: 0,
                    size: raw.0.raw.len() as u32,
                },
            );
        }
        let mtype = raw.0.message_type();
        if mtype != EXCHANGE_INTERMEDIARY_ID {
            return Err(EncodingError::IncorrectMessageType { message_type: mtype });
        }
        let sid = raw.0.service_id();
        if sid != SERVICE_ID {
            return Err(EncodingError::IncorrectServiceId { service_id: sid });
        }
        let kinds = exin_layout_exec();
        proof {
            lemma_exin_layout_total();
        }
        let mut vals = match decode_message_body(raw, &kinds) {
            Ok(v) => v,
            Err(e) => {
                return Err(e);
            },
        };
        let ghost vt = views_of(vals@);
        proof {
            crate::encoding::lemma_dec_shape(
                raw@,
                exin_layout(),
                HEADER_LENGTH as int,
                HEADER_LENGTH + crate::encoding::fixed_total(exin_layout()),
                raw@.len() - SIGNATURE_LENGTH,
            );
            assert(vt.len() == 5);
            assert(vals@.len() == 5);
            assert(forall|i: int| 0 <= i < 5 ==> (#[trigger] vt[i]) == vals@[i]@);
            assert(forall|i: int|
                0 <= i < 5 ==> (#[trigger] vt[i]).kind() == exin_layout()[i] && vt[i].wf());
        }
        let v4 = vals.remove(4);
        let v3 = vals.remove(3);
        let v2 = vals.remove(2);
        let v1 = vals.remove(1);
        let v0 = vals.remove(0);
        proof {
            assert(v0@ == vt[0] && v1@ == vt[1] && v2@ == vt[2] && v3@ == vt[3] && v4@ == vt[4]);
        }
        let offer_bytes = v0.into_segment().unwrap();
        let seed = v1.into_u64().unwrap();
        let sender_signature = v2.into_sig().unwrap();
        let intermediary_signature = v3.into_sig().unwrap();
        let data_bytes = v4.into_segment().unwrap();
        let offer = match parse_exin_offer(&offer_bytes) {
            Ok(o) => o,
            Err(e) => {
                return Err(e);
            },
        };
        let data_info = match bytes_to_string(&data_bytes) {
            Some(s) => s,
            None => {
                return Err(EncodingError::Utf8 { position: 0 });
            },
        };
        let signature = raw.0.signature();
        Ok(
            ExchangeIntermediary {
                offer,
                seed,
                sender_signature,
                intermediary_signature,
                data_info,
                signature,
            },
        )
    }
}


impl ExchangeIntermediary {
    /// Attaches the message's own signature, once the embedding has
    /// signed the bytes `to_raw` lays out before the trailing
    /// signature; every other part stays as it was.
    pub fn set_signature(&mut self, signature: &Signature)
        requires
            signature.wf(),
        ensures
            final(self).signature@ == signature@,
            final(self).signature.wf(),
            final(self).offer == old(self).offer,
            final(self).seed == old(self).seed,
            final(self).sender_signature == old(self).sender_signature,
            final(self).intermediary_signature == old(self).intermediary_signature,
            final(self).data_info == old(self).data_info,
    {
        self.signature = signature.duplicate();
    }
}

} // verus!
