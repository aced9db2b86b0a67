//! The transfer with a separate fees payer: a third party signs the
//! offer and bears the flat fee of the transfer.

use vstd::prelude::*;
use vstd::string::{StrSliceExecFns, StringExecFns, StringSliceAdditionalSpecFns};
use vstd::utf8::{encode_utf8, valid_utf8};

use crate::assets::{AssetBundle, TradeAsset};
use crate::crypto::{HashDigest, PublicKey, SIGNATURE_LENGTH, Signature, spec_zero_sig};
use crate::encoding::{kinds_of, views_of, FieldKind, FieldV, FieldValue};
use crate::bytesutil::le16;
use crate::encoding::EncodingError;
use crate::messages::{decode_message_body, decode_plain, encode_plain, encode_unsigned,
    spec_decode_body, spec_decode_plain, spec_msg_unsigned, spec_plain, RawMessage, HEADER_LENGTH,
    PROTOCOL_MAJOR_VERSION, TEST_NETWORK_ID};
use crate::wire::{bytes_to_string, decode_bundles, parse_bundles};
use crate::transactions::components::{SERVICE_ID, TRANSFER_FEES_PAYER_ID};
use crate::wallet::bviews;
use crate::wire::{bundles_bytes, encode_bundles};

verus! {

/// The field values of the offer the fees payer signs.
pub open spec fn transfer_offer_values(
    from: Seq<u8>,
    to: Seq<u8>,
    fees_payer: Seq<u8>,
    amount: u64,
    assets: Seq<(Seq<u8>, int)>,
) -> Seq<FieldV> {
    seq![
        FieldV::Key(from),
        FieldV::Key(to),
        FieldV::Key(fees_payer),
        FieldV::U64(amount),
        FieldV::Segment(bundles_bytes(assets)),
    ]
}

/// The offer a transfer's fees payer signs.
#[derive(Debug, Clone, PartialEq)]
pub struct TransferOffer {
    pub from: PublicKey,
    pub to: PublicKey,
    pub fees_payer: PublicKey,
    pub amount: u64,
    pub assets: Vec<AssetBundle>,
}

impl TransferOffer {
    /// The ghost field values of this offer.
    pub open spec fn spec_values(&self) -> Seq<FieldV> {
        transfer_offer_values(
            self.from@,
            self.to@,
            self.fees_payer@,
            self.amount,
            bviews(self.assets@),
        )
    }

    /// The encoded bytes of this offer.
    pub open spec fn spec_bytes(&self) -> Seq<u8> {
        spec_plain(self.spec_values())
    }

    /// Whether the offer's parts are well formed.
    pub open spec fn wf(&self) -> bool {
        &&& self.from.wf()
        &&& self.to.wf()
        &&& self.fees_payer.wf()
        &&& forall|i: int| 0 <= i < self.assets@.len() ==> (#[trigger] self.assets@[i]).wf()
    }

    /// Whether the encoded offer fits the wire's offsets.
    pub open spec fn fits(&self) -> bool {
        crate::encoding::fixed_total(kinds_of(self.spec_values())) + crate::encoding::seg_total(
            self.spec_values(),
        ) <= u32::MAX
    }

    /// Builds an offer.
    pub fn new(
        from: &PublicKey,
        to: &PublicKey,
        fees_payer: &PublicKey,
        amount: u64,
        assets: Vec<AssetBundle>,
    ) -> (r: TransferOffer)
        ensures
            r.from@ == from@,
            r.to@ == to@,
            r.fees_payer@ == fees_payer@,
            r.amount == amount,
            bviews(r.assets@) == bviews(assets@),
    {
        TransferOffer {
            from: from.duplicate(),
            to: to.duplicate(),
            fees_payer: fees_payer.duplicate(),
            amount,
            assets,
        }
    }

    /// The executable field values of this offer.
    pub fn field_values(&self) -> (r: Vec<FieldValue>)
        ensures
            views_of(r@) == self.spec_values(),
    {
        let mut v: Vec<FieldValue> = Vec::new();
        v.push(FieldValue::Key(self.from.duplicate()));
        v.push(FieldValue::Key(self.to.duplicate()));
        v.push(FieldValue::Key(self.fees_payer.duplicate()));
        v.push(FieldValue::U64(self.amount));
        v.push(FieldValue::Segment(encode_bundles(&self.assets)));
        proof {
            assert(views_of(v@) =~= self.spec_values());
        }
        v
    }

    /// The encoded bytes of this offer.
    pub fn into_bytes(&self) -> (r: Vec<u8>)
        requires
            self.wf(),
            self.fits(),
        ensures
            r@ == self.spec_bytes(),
    {
        let vals = self.field_values();
        encode_plain(&vals)
    }
}

/// The field values of the whole message.
pub open spec fn transfer_fees_payer_values(
    offer_bytes: Seq<u8>,
    seed: u64,
    fees_payer_sig: Seq<u8>,
    data_info: Seq<char>,
) -> Seq<FieldV> {
    seq![
        FieldV::Segment(offer_bytes),
        FieldV::U64(seed),
        FieldV::Sig(fees_payer_sig),
        FieldV::Segment(encode_utf8(data_info)),
    ]
}

/// A `transfer_with_fees_payer` transaction.
#[derive(Debug, Clone, PartialEq)]
pub struct TransferWithFeesPayer {
    pub offer: TransferOffer,
    pub seed: u64,
    pub fees_payer_signature: Signature,
    pub data_info: String,
    pub signature: Signature,
}

impl TransferWithFeesPayer {
    /// The ghost field values of this message.
    pub open spec fn spec_values(&self) -> Seq<FieldV> {
        transfer_fees_payer_values(
            self.offer.spec_bytes(),
            self.seed,
            self.fees_payer_signature@,
            self.data_info@,
        )
    }

    /// Whether the message's parts are well formed.
    pub open spec fn wf(&self) -> bool {
        &&& self.offer.wf()
        &&& self.fees_payer_signature.wf()
        &&& self.signature.wf()
    }

    /// The executable field values of this message.
    pub fn field_values(&self) -> (r: Vec<FieldValue>)
        requires
            self.offer.wf(),
            self.offer.fits(),
        ensures
            views_of(r@) == self.spec_values(),
    {
        let mut v: Vec<FieldValue> = Vec::new();
        v.push(FieldValue::Segment(self.offer.into_bytes()));
        v.push(FieldValue::U64(self.seed));
        v.push(FieldValue::Sig(self.fees_payer_signature.duplicate()));
        v.push(FieldValue::Segment(self.data_info.as_str().as_bytes_vec()));
        proof {
            assert(views_of(v@) =~= self.spec_values());
        }
        v
    }

    /// Builds a message around an offer and the fees payer's
    /// signature; the message signature slot starts zeroed for the
    /// embedding to fill.
    pub fn new(
        offer: TransferOffer,
        seed: u64,
        fees_payer_signature: &Signature,
        data_info: &str,
    ) -> (r: TransferWithFeesPayer)
        requires
            offer.wf(),
            offer.fits(),
            fees_payer_signature.wf(),
            HEADER_LENGTH + crate::encoding::fixed_total(
                kinds_of(
                    transfer_fees_payer_values(
                        offer.spec_bytes(),
                        seed,
                        fees_payer_signature@,
                        data_info@,
                    ),
                ),
            ) + crate::encoding::seg_total(
                transfer_fees_payer_values(
                    offer.spec_bytes(),
                    seed,
                    fees_payer_signature@,
                    data_info@,
                ),
            ) + SIGNATURE_LENGTH <= u32::MAX,
        ensures
            r.offer == offer,
            r.seed == seed,
            r.fees_payer_signature@ == fees_payer_signature@,
            r.data_info@ == data_info@,
            r.signature@ == spec_zero_sig(),
            r.wf(),
    {
        let tx = TransferWithFeesPayer {
            offer,
            seed,
            fees_payer_signature: fees_payer_signature.duplicate(),
            data_info: String::from_str(data_info),
            signature: Signature::zero(),
        };
        tx
    }

    /// Structural check: the parties differ. Signature verification is
    /// the embedding's, over the message bytes and the offer bytes.
    pub fn verify(&self) -> (r: bool)
        ensures
            r == (self.offer.from@ != self.offer.to@),
    {
        !self.offer.from.same_as(&self.offer.to)
    }

    /// The unsigned bytes of this message.
    pub open spec fn spec_unsigned(&self) -> Seq<u8> {
        spec_msg_unsigned(
            TEST_NETWORK_ID,
            PROTOCOL_MAJOR_VERSION,
            TRANSFER_FEES_PAYER_ID,
            SERVICE_ID,
            self.spec_values(),
        )
    }

    /// Whether the encoded message fits the wire's offsets.
    pub open spec fn fits(&self) -> bool {
        &&& self.offer.fits()
        &&& HEADER_LENGTH + crate::encoding::fixed_total(kinds_of(self.spec_values()))
            + crate::encoding::seg_total(self.spec_values()) + SIGNATURE_LENGTH <= u32::MAX
    }

    /// The signed raw message.
    pub fn to_raw(&self) -> (r: RawMessage)
        requires
            self.wf(),
            self.fits(),
        ensures
            r@ == self.spec_unsigned() + self.signature@,
    {
        let vals = self.field_values();
        let mut bytes = encode_unsigned(
            TEST_NETWORK_ID,
            PROTOCOL_MAJOR_VERSION,
            TRANSFER_FEES_PAYER_ID,
            SERVICE_ID,
            &vals,
        );
        crate::bytesutil::append_bytes(&mut bytes, &self.signature.0.bytes);
        RawMessage::from_vec(bytes)
    }

    /// The hash that keys this message's recorded result.
    pub fn hash(&self) -> (r: HashDigest)
        requires
            self.wf(),
            self.fits(),
        ensures
            r@ == crate::bytesutil::spec_digest32(self.spec_unsigned() + self.signature@),
            r.wf(),
    {
        let raw = self.to_raw();
        crate::crypto::digest32(&raw.0.raw)
    }

}


/// The sizes of the message layout: a fixed part of 88 bytes, and
/// segments for the offer bytes and the encoded memo.
pub proof fn lemma_transfer_fees_payer_sizes(
    offer_bytes: Seq<u8>,
    seed: u64,
    fees_payer_sig: Seq<u8>,
    data_info: Seq<char>,
)
    ensures
        crate::encoding::fixed_total(kinds_of(transfer_fees_payer_values(offer_bytes, seed, fees_payer_sig, data_info))) == 88,
        crate::encoding::seg_total(transfer_fees_payer_values(offer_bytes, seed, fees_payer_sig, data_info)) == offer_bytes.len() + encode_utf8(data_info).len(),
{
    let vs = transfer_fees_payer_values(offer_bytes, seed, fees_payer_sig, data_info);
    let ks = kinds_of(vs);
    let k0 = seq![FieldKind::Segment, FieldKind::Unsigned64, FieldKind::Sig, FieldKind::Segment];
    let k1 = seq![FieldKind::Unsigned64, FieldKind::Sig, FieldKind::Segment];
    let k2 = seq![FieldKind::Sig, FieldKind::Segment];
    let k3 = seq![FieldKind::Segment];
    let k4 = Seq::<FieldKind>::empty();
    assert(ks =~= k0);
    assert(k0.drop_first() =~= k1);
    assert(k1.drop_first() =~= k2);
    assert(k2.drop_first() =~= k3);
    assert(k3.drop_first() =~= k4);
    assert(crate::encoding::fixed_total(k4) == 0);
    assert(crate::encoding::fixed_total(k3) == 8);
    assert(crate::encoding::fixed_total(k2) == 72);
    assert(crate::encoding::fixed_total(k1) == 80);
    assert(crate::encoding::fixed_total(k0) == 88);
    assert(vs.skip(0)[0] == vs[0]);
    assert(vs.skip(0).drop_first() =~= vs.skip(1));
    assert(vs.skip(1)[0] == vs[1]);
    assert(vs.skip(1).drop_first() =~= vs.skip(2));
    assert(vs.skip(2)[0] == vs[2]);
    assert(vs.skip(2).drop_first() =~= vs.skip(3));
    assert(vs.skip(3)[0] == vs[3]);
    assert(vs.skip(3).drop_first() =~= vs.skip(4));
    assert(vs.skip(4) =~= Seq::<FieldV>::empty());
    assert(vs.skip(0) =~= vs);
    assert(crate::encoding::seg_total(vs.skip(4)) == 0);
    assert(crate::encoding::seg_total(vs.skip(3)) == encode_utf8(data_info).len());
    assert(crate::encoding::seg_total(vs.skip(2)) == encode_utf8(data_info).len());
    assert(crate::encoding::seg_total(vs.skip(1)) == encode_utf8(data_info).len());
    assert(crate::encoding::seg_total(vs.skip(0)) == offer_bytes.len() + encode_utf8(data_info).len());
}


/// The field layout of the offer.
pub open spec fn transfer_offer_layout() -> Seq<FieldKind> {
    seq![FieldKind::Key, FieldKind::Key, FieldKind::Key, FieldKind::Unsigned64, FieldKind::Segment]
}

/// The offer layout, executable form.
pub fn transfer_offer_layout_exec() -> (r: Vec<FieldKind>)
    ensures
        r@ == transfer_offer_layout(),
{
    let mut v: Vec<FieldKind> = Vec::new();
    v.push(FieldKind::Key);
    v.push(FieldKind::Key);
    v.push(FieldKind::Key);
    v.push(FieldKind::Unsigned64);
    v.push(FieldKind::Segment);
    proof {
        assert(v@ =~= transfer_offer_layout());
    }
    v
}

/// The fixed part of the offer layout is 112 bytes.
pub proof fn lemma_transfer_offer_layout_total()
    ensures
        crate::encoding::fixed_total(transfer_offer_layout()) == 112,
{
    let k0 = transfer_offer_layout();
    let k1 = seq![FieldKind::Key, FieldKind::Key, FieldKind::Unsigned64, FieldKind::Segment];
    let k2 = seq![FieldKind::Key, FieldKind::Unsigned64, FieldKind::Segment];
    let k3 = seq![FieldKind::Unsigned64, FieldKind::Segment];
    let k4 = seq![FieldKind::Segment];
    let k5 = Seq::<FieldKind>::empty();
    assert(k0.drop_first() =~= k1);
    assert(k1.drop_first() =~= k2);
    assert(k2.drop_first() =~= k3);
    assert(k3.drop_first() =~= k4);
    assert(k4.drop_first() =~= k5);
    assert(crate::encoding::fixed_total(k5) == 0);
    assert(crate::encoding::fixed_total(k4) == 8);
    assert(crate::encoding::fixed_total(k3) == 16);
    assert(crate::encoding::fixed_total(k2) == 48);
    assert(crate::encoding::fixed_total(k1) == 80);
    assert(crate::encoding::fixed_total(k0) == 112);
}

/// The field layout of the whole message.
pub open spec fn transfer_fees_payer_layout() -> Seq<FieldKind> {
    seq![FieldKind::Segment, FieldKind::Unsigned64, FieldKind::Sig, FieldKind::Segment]
}

/// The message layout, executable form.
pub fn transfer_fees_payer_layout_exec() -> (r: Vec<FieldKind>)
    ensures
        r@ == transfer_fees_payer_layout(),
{
    let mut v: Vec<FieldKind> = Vec::new();
    v.push(FieldKind::Segment);
    v.push(FieldKind::Unsigned64);
    v.push(FieldKind::Sig);
    v.push(FieldKind::Segment);
    proof {
        assert(v@ =~= transfer_fees_payer_layout());
    }
    v
}

/// The fixed part of the message layout is 88 bytes.
pub proof fn lemma_transfer_fees_payer_layout_total()
    ensures
        crate::encoding::fixed_total(transfer_fees_payer_layout()) == 88,
{
    let k0 = transfer_fees_payer_layout();
    let k1 = seq![FieldKind::Unsigned64, FieldKind::Sig, FieldKind::Segment];
    let k2 = seq![FieldKind::Sig, FieldKind::Segment];
    let k3 = seq![FieldKind::Segment];
    let k4 = Seq::<FieldKind>::empty();
    assert(k0.drop_first() =~= k1);
    assert(k1.drop_first() =~= k2);
    assert(k2.drop_first() =~= k3);
    assert(k3.drop_first() =~= k4);
    assert(crate::encoding::fixed_total(k4) == 0);
    assert(crate::encoding::fixed_total(k3) == 8);
    assert(crate::encoding::fixed_total(k2) == 72);
    assert(crate::encoding::fixed_total(k1) == 80);
    assert(crate::encoding::fixed_total(k0) == 88);
}

/// Parses an encoded transfer offer, validating every field and the
/// bundle list before anything is used; exactly the well-formed offers
/// parse.
pub fn parse_transfer_offer(offer_bytes: &Vec<u8>) -> (r: Result<TransferOffer, EncodingError>)
    ensures
        r matches Ok(o) ==> (spec_decode_plain(offer_bytes@, transfer_offer_layout()) matches Ok(
            ot,
        ) && ot.len() == 5 && ot[0] == FieldV::Key(o.from@) && ot[1] == FieldV::Key(o.to@) && ot[2]
            == FieldV::Key(o.fees_payer@) && ot[3] == FieldV::U64(o.amount) && (ot[4] matches
        FieldV::Segment(ab) && parse_bundles(ab) == Some(bviews(o.assets@)))) && o.wf(),
        (r is Ok) == (match spec_decode_plain(offer_bytes@, transfer_offer_layout()) {
            Ok(ot) => (ot[4] matches FieldV::Segment(ab) && parse_bundles(ab) is Some),
            Err(_) => false,
        }),
{
    let okinds = transfer_offer_layout_exec();
    proof {
        lemma_transfer_offer_layout_total();
    }
    let mut ovals = match decode_plain(offer_bytes, &okinds) {
        Ok(v) => v,
        Err(e) => {
            return Err(e);
        },
    };
    let ghost ot = views_of(ovals@);
    proof {
        crate::encoding::lemma_fixed_total_nonneg(transfer_offer_layout());
        crate::encoding::lemma_dec_shape(
            offer_bytes@,
            transfer_offer_layout(),
            0,
            crate::encoding::fixed_total(transfer_offer_layout()),
            offer_bytes@.len() as int,
        );
        assert(ot.len() == 5);
        assert(ovals@.len() == 5);
        assert(forall|i: int| 0 <= i < 5 ==> (#[trigger] ot[i]) == ovals@[i]@);
        assert(forall|i: int|
            0 <= i < 5 ==> (#[trigger] ot[i]).kind() == transfer_offer_layout()[i] && ot[i].wf());
    }
    let o4 = ovals.remove(4);
    let o3 = ovals.remove(3);
    let o2 = ovals.remove(2);
    let o1 = ovals.remove(1);
    let o0 = ovals.remove(0);
    proof {
        assert(o0@ == ot[0] && o1@ == ot[1] && o2@ == ot[2] && o3@ == ot[3] && o4@ == ot[4]);
    }
    let from = o0.into_key().unwrap();
    let to = o1.into_key().unwrap();
    let fees_payer = o2.into_key().unwrap();
    let amount = o3.into_u64().unwrap();
    let assets_bytes = o4.into_segment().unwrap();
    let assets = match decode_bundles(&assets_bytes) {
        Ok(a) => a,
        Err(e) => {
            return Err(e);
        },
    };
    Ok(TransferOffer { from, to, fees_payer, amount, assets })
}

/// Whether a raw buffer decodes as a fees-payer transfer: the header
/// names the kind, every message field checks out, the nested offer
/// with its bundle list parses, and the memo is valid text.
pub open spec fn twfp_decode_ok(raw: Seq<u8>) -> bool {
    &&& raw.len() >= HEADER_LENGTH + SIGNATURE_LENGTH
    &&& le16(raw, 2) == TRANSFER_FEES_PAYER_ID
    &&& le16(raw, 4) == SERVICE_ID
    &&& match spec_decode_body(raw, transfer_fees_payer_layout()) {
        Ok(vt) => {
            &&& (vt[0] matches FieldV::Segment(ob) && match spec_decode_plain(
                ob,
                transfer_offer_layout(),
            ) {
                Ok(ot) => (ot[4] matches FieldV::Segment(ab) && parse_bundles(ab) is Some),
                Err(_) => false,
            })
            &&& (vt[3] matches FieldV::Segment(d) && valid_utf8(d))
        },
        Err(_) => false,
    }
}

impl TransferWithFeesPayer {
    /// Parses a fees-payer transfer out of a raw message: the header,
    /// every message field, the nested offer and the memo text are all
    /// validated before anything is used.
    #[verifier::rlimit(100)]
    pub fn from_raw(raw: &RawMessage) -> (r: Result<TransferWithFeesPayer, EncodingError>)
        ensures
            r matches Ok(tx) ==> raw@.len() >= HEADER_LENGTH + SIGNATURE_LENGTH && le16(raw@, 2)
                == TRANSFER_FEES_PAYER_ID && le16(raw@, 4) == SERVICE_ID && (spec_decode_body(
                raw@,
                transfer_fees_payer_layout(),
            ) matches Ok(vt) && vt.len() == 4 && vt[1] == FieldV::U64(tx.seed) && vt[2]
                == FieldV::Sig(tx.fees_payer_signature@) && (vt[3] matches FieldV::Segment(d)
                && encode_utf8(tx.data_info@) == d)) && tx.signature@ == raw@.subrange(
                raw@.len() - SIGNATURE_LENGTH,
                raw@.len() as int,
            ) && tx.wf(),
            (r is Ok) == twfp_decode_ok(raw@),
    {
        if raw.0.raw.len() < HEADER_LENGTH + SIGNATURE_LENGTH {
            return Err(
                EncodingError::UnexpectedlyShortRawMessage {
                    position: 0,
                    size: raw.0.raw.len() as u32,
                },
            );
        }
        let mtype = raw.0.message_type();
        if mtype != TRANSFER_FEES_PAYER_ID {
            return Err(EncodingError::IncorrectMessageType { message_type: mtype });
        }
        let sid = raw.0.service_id();
        if sid != SERVICE_ID {
            return Err(EncodingError::IncorrectServiceId { service_id: sid });
        }
        let kinds = transfer_fees_payer_layout_exec();
        proof {
            lemma_transfer_fees_payer_layout_total();
        }
        let mut vals = match decode_message_body(raw, &kinds) {
            Ok(v) => v,
            Err(e) => {
                return Err(e);
            },
        };
        let ghost vt = views_of(vals@);
        proof {
            crate::encoding::lemma_dec_shape(
                raw@,
                transfer_fees_payer_layout(),
                HEADER_LENGTH as int,
                HEADER_LENGTH + crate::encoding::fixed_total(transfer_fees_payer_layout()),
                raw@.len() - SIGNATURE_LENGTH,
            );
            assert(vt.len() == 4);
            assert(vals@.len() == 4);
            assert(forall|i: int| 0 <= i < 4 ==> (#[trigger] vt[i]) == vals@[i]@);
            assert(forall|i: int|
                0 <= i < 4 ==> (#[trigger] vt[i]).kind() == transfer_fees_payer_layout()[i] && vt[
                    i
                ].wf());
        }
        let v3 = vals.remove(3);
        let v2 = vals.remove(2);
        let v1 = vals.remove(1);
        let v0 = vals.remove(0);
        proof {
            assert(v0@ == vt[0] && v1@ == vt[1] && v2@ == vt[2] && v3@ == vt[3]);
        }
        let offer_bytes = v0.into_segment().unwrap();
        let seed = v1.into_u64().unwrap();
        let fees_payer_signature = v2.into_sig().unwrap();
        let data_bytes = v3.into_segment().unwrap();
        let offer = match parse_transfer_offer(&offer_bytes) {
            Ok(o) => o,
            Err(e) => {
                return Err(e);
            },
        };
        let data_info = match bytes_to_string(&data_bytes) {
            Some(s) => s,
            None => {
                return Err(EncodingError::Utf8 { position: 0 });
            },
        };
        let signature = raw.0.signature();
        Ok(TransferWithFeesPayer { offer, seed, fees_payer_signature, data_info, signature })
    }
}


impl TransferWithFeesPayer {
    /// Attaches the message's own signature, once the embedding has
    /// signed the bytes `to_raw` lays out before the trailing
    /// signature; every other part stays as it was.
    pub fn set_signature(&mut self, signature: &Signature)
        requires
            signature.wf(),
        ensures
            final(self).signature@ == signature@,
            final(self).signature.wf(),
            final(self).offer == old(self).offer,
            final(self).seed == old(self).seed,
            final(self).fees_payer_signature == old(self).fees_payer_signature,
            final(self).data_info == old(self).data_info,
    {
        self.signature = signature.duplicate();
    }
}

} // verus!
