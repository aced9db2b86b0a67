//! The `add_assets` transaction: an issuer commits new assets to the
//! ledger, each description naming its receiver, metadata, amount and
//! fee schedule; identifiers derive from the issuer and the metadata.

use vstd::prelude::*;
use vstd::string::{StrSliceExecFns, StringExecFns, StringSliceAdditionalSpecFns};
use vstd::utf8::encode_utf8;

use crate::assets::MetaAsset;
use crate::crypto::{HashDigest, PublicKey, SIGNATURE_LENGTH, Signature, spec_zero_sig};
use crate::encoding::{bytes4, kinds_of, views_of, FieldKind, FieldV, FieldValue};
use crate::bytesutil::{le16, le32, le64};
use crate::encoding::EncodingError;
use crate::messages::{decode_message_body, encode_unsigned, spec_decode_body, spec_msg_unsigned,
    RawMessage, HEADER_LENGTH, PROTOCOL_MAJOR_VERSION, TEST_NETWORK_ID};
use crate::wire::bytes_to_string;
use crate::transactions::components::{ADD_ASSETS_ID, SERVICE_ID};
use crate::wire::fees_record;

verus! {

/// The views of an asset-description list, in order.
pub open spec fn mviews(s: Seq<MetaAsset>) -> Seq<
    (Seq<u8>, Seq<char>, int, ((int, int, int), (int, int, int), (int, int, int))),
> {
    Seq::new(s.len(), |i: int| s[i]@)
}

/// Appending one description appends its view.
pub proof fn lemma_mviews_push(s: Seq<MetaAsset>, a: MetaAsset)
    ensures
        mviews(s.push(a)) == mviews(s).push(a@),
{
    assert forall|j: int| 0 <= j < s.len() + 1 implies mviews(s.push(a))[j] == mviews(s).push(
        a@,
    )[j] by {
        if j < s.len() {
            assert(s.push(a)[j] == s[j]);
        } else {
            assert(s.push(a)[j] == a);
        }
    }
    assert(mviews(s.push(a)) =~= mviews(s).push(a@));
}

/// The encoding of one asset description: receiver, amount, fee
/// schedule, then the metadata, length-prefixed.
pub open spec fn meta_record(
    m: (Seq<u8>, Seq<char>, int, ((int, int, int), (int, int, int), (int, int, int))),
) -> Seq<u8> {
    m.0 + crate::encoding::bytes8(m.2) + fees_record(m.3) + bytes4(encode_utf8(m.1).len() as int)
        + encode_utf8(m.1)
}

/// The encoding of a description list, one record after another.
pub open spec fn metas_bytes(
    s: Seq<(Seq<u8>, Seq<char>, int, ((int, int, int), (int, int, int), (int, int, int)))>,
) -> Seq<u8>
    decreases s.len(),
{
    if s.len() == 0 {
        Seq::<u8>::empty()
    } else {
        meta_record(s[0]) + metas_bytes(s.drop_first())
    }
}

/// Appending one description extends the byte stream at the end.
#[verifier::rlimit(100)]
#[verifier::spinoff_prover]
pub proof fn lemma_metas_push(
    s: Seq<(Seq<u8>, Seq<char>, int, ((int, int, int), (int, int, int), (int, int, int)))>,
    m: (Seq<u8>, Seq<char>, int, ((int, int, int), (int, int, int), (int, int, int))),
)
    ensures
        metas_bytes(s.push(m)) == metas_bytes(s) + meta_record(m),
    decreases s.len(),
{
    if s.len() == 0 {
        let ev = Seq::<
            (Seq<u8>, Seq<char>, int, ((int, int, int), (int, int, int), (int, int, int))),
        >::empty();
        assert(s =~= ev);
        assert(s.push(m)[0] == m);
        assert(s.push(m).drop_first() =~= ev);
        assert(metas_bytes(ev) == Seq::<u8>::empty());
        assert(metas_bytes(s.push(m)) == meta_record(m) + metas_bytes(ev));
        assert(metas_bytes(s.push(m)) =~= metas_bytes(s) + meta_record(m));
    } else {
        lemma_metas_push(s.drop_first(), m);
        assert(s.push(m)[0] == s[0]);
        assert(s.push(m).drop_first() =~= s.drop_first().push(m));
        assert(metas_bytes(s.push(m)) =~= metas_bytes(s) + meta_record(m));
    }
}

/// Encodes a description list; every metadata string must fit a
/// four-byte length.
#[verifier::rlimit(100)]
#[verifier::spinoff_prover]
pub fn encode_metas(v: &Vec<MetaAsset>) -> (r: Vec<u8>)
    requires
        forall|i: int|
            0 <= i < v@.len() ==> encode_utf8((#[trigger] v@[i])@.1).len() <= u32::MAX,
    ensures
        r@ == metas_bytes(mviews(v@)),
{
    let ghost m = mviews(v@);
    let mut out: Vec<u8> = Vec::new();
    let mut i: usize = 0;
    proof {
        assert(m.take(0) =~= Seq::<
            (Seq<u8>, Seq<char>, int, ((int, int, int), (int, int, int), (int, int, int))),
        >::empty());
        assert(out@ =~= metas_bytes(m.take(0)));
    }
    while i < v.len()
        invariant
            i <= v@.len(),
            m == mviews(v@),
            m.len() == v@.len(),
            forall|j: int|
                0 <= j < v@.len() ==> encode_utf8((#[trigger] v@[j])@.1).len() <= u32::MAX,
            out@ == metas_bytes(m.take(i as int)),
        decreases v@.len() - i,
    {
        proof {
            assert(m[i as int] == v@[i as int]@);
        }
        let ma = &v[i];
        crate::bytesutil::append_bytes(&mut out, &ma.receiver.0.bytes);
        crate::encoding::push_u64_bytes(&mut out, ma.amount);
        let fees = crate::wire::encode_fees(&ma.fees);
        crate::bytesutil::append_bytes(&mut out, &fees);
        let data = ma.data.as_str().as_bytes_vec();
        crate::encoding::push_u32_bytes(&mut out, data.len() as u32);
        crate::bytesutil::append_bytes(&mut out, &data);
        proof {
            lemma_metas_push(m.take(i as int), m[i as int]);
            assert(m.take(i as int).push(m[i as int]) =~= m.take(i + 1 as int));
            assert(out@ =~= metas_bytes(m.take(i + 1 as int)));
        }
        i += 1;
    }
    proof {
        assert(m.take(m.len() as int) =~= m);
    }
    out
}

/// The field values of an add: issuer key, descriptions, seed.
pub open spec fn add_values(
    pub_key: Seq<u8>,
    metas: Seq<(Seq<u8>, Seq<char>, int, ((int, int, int), (int, int, int), (int, int, int)))>,
    seed: u64,
) -> Seq<FieldV> {
    seq![FieldV::Key(pub_key), FieldV::Segment(metas_bytes(metas)), FieldV::U64(seed)]
}

/// An `add_assets` transaction.
#[derive(Debug, Clone, PartialEq)]
pub struct AddAssets {
    pub pub_key: PublicKey,
    pub assets: Vec<MetaAsset>,
    pub seed: u64,
    pub signature: Signature,
}

impl AddAssets {
    /// The ghost field values of this add.
    pub open spec fn spec_values(&self) -> Seq<FieldV> {
        add_values(self.pub_key@, mviews(self.assets@), self.seed)
    }

    /// The unsigned bytes of this add's message.
    pub open spec fn spec_unsigned(&self) -> Seq<u8> {
        spec_msg_unsigned(
            TEST_NETWORK_ID,
            PROTOCOL_MAJOR_VERSION,
            ADD_ASSETS_ID,
            SERVICE_ID,
            self.spec_values(),
        )
    }

    /// Whether the add's parts are well formed.
    pub open spec fn wf(&self) -> bool {
        &&& self.pub_key.wf()
        &&& self.signature.wf()
        &&& forall|i: int| 0 <= i < self.assets@.len() ==> (#[trigger] self.assets@[i]).wf()
        &&& forall|i: int|
            0 <= i < self.assets@.len() ==> encode_utf8((#[trigger] self.assets@[i])@.1).len()
                <= u32::MAX
    }

    /// Whether the encoded message fits the wire's offsets.
    pub open spec fn fits(&self) -> bool {
        HEADER_LENGTH + crate::encoding::fixed_total(kinds_of(self.spec_values()))
            + crate::encoding::seg_total(self.spec_values()) + SIGNATURE_LENGTH <= u32::MAX
    }

    /// The executable field values of this add.
    pub fn field_values(&self) -> (r: Vec<FieldValue>)
        requires
            forall|i: int|
                0 <= i < self.assets@.len() ==> encode_utf8((#[trigger] self.assets@[i])@.1).len()
                    <= u32::MAX,
        ensures
            views_of(r@) == self.spec_values(),
    {
        let mut v: Vec<FieldValue> = Vec::new();
        v.push(FieldValue::Key(self.pub_key.duplicate()));
        v.push(FieldValue::Segment(encode_metas(&self.assets)));
        v.push(FieldValue::U64(self.seed));
        proof {
            assert(views_of(v@) =~= self.spec_values());
        }
        v
    }

    /// Builds an add; its message signature slot starts zeroed for
    /// the embedding to fill.
    pub fn new(pub_key: &PublicKey, assets: Vec<MetaAsset>, seed: u64) -> (r:
        AddAssets)
        requires
            pub_key.wf(),
            forall|i: int| 0 <= i < assets@.len() ==> (#[trigger] assets@[i]).wf(),
            forall|i: int|
                0 <= i < assets@.len() ==> encode_utf8((#[trigger] assets@[i])@.1).len()
                    <= u32::MAX,
            HEADER_LENGTH + crate::encoding::fixed_total(
                kinds_of(add_values(pub_key@, mviews(assets@), seed)),
            ) + crate::encoding::seg_total(add_values(pub_key@, mviews(assets@), seed))
                + SIGNATURE_LENGTH <= u32::MAX,
        ensures
            r.pub_key@ == pub_key@,
            mviews(r.assets@) == mviews(assets@),
            r.seed == seed,
            r.signature@ == spec_zero_sig(),
            r.wf(),
    {
        let tx = AddAssets {
            pub_key: pub_key.duplicate(),
            assets,
            seed,
            signature: Signature::zero(),
        };
        tx
    }

    /// The signed raw message of this add.
    #[verifier::rlimit(100)]
    pub fn to_raw(&self) -> (r: RawMessage)
        requires
            self.wf(),
            self.fits(),
        ensures
            r@ == self.spec_unsigned() + self.signature@,
    {
        let vals = self.field_values();
        let mut bytes = encode_unsigned(
            TEST_NETWORK_ID,
            PROTOCOL_MAJOR_VERSION,
            ADD_ASSETS_ID,
            SERVICE_ID,
            &vals,
        );
        crate::bytesutil::append_bytes(&mut bytes, &self.signature.0.bytes);
        RawMessage::from_vec(bytes)
    }

    /// The hash that keys this add's recorded result.
    pub fn hash(&self) -> (r: HashDigest)
        requires
            self.wf(),
            self.fits(),
        ensures
            r@ == crate::bytesutil::spec_digest32(self.spec_unsigned() + self.signature@),
            r.wf(),
    {
        let raw = self.to_raw();
        crate::crypto::digest32(&raw.0.raw)
    }

}


/// The description list read back from `b`: each record a receiver, an
/// amount, a fee schedule and a length-prefixed metadata byte string.
pub open spec fn parse_metas(b: Seq<u8>) -> Option<
    Seq<(Seq<u8>, Seq<u8>, int, ((int, int, int), (int, int, int), (int, int, int)))>,
>
    decreases b.len(),
{
    if b.len() == 0 {
        Some(
            Seq::<
                (Seq<u8>, Seq<u8>, int, ((int, int, int), (int, int, int), (int, int, int))),
            >::empty(),
        )
    } else if b.len() < 116 {
        None
    } else {
        let dlen = le32(b, 112);
        if b.len() < 116 + dlen {
            None
        } else {
            match parse_metas(b.skip(116 + dlen)) {
                None => None,
                Some(t) => Some(
                    seq![
                        (
                            b.subrange(0, 32),
                            b.subrange(116, 116 + dlen),
                            le64(b, 32),
                            (
                                (le64(b, 40), le64(b, 48), le64(b, 56)),
                                (le64(b, 64), le64(b, 72), le64(b, 80)),
                                (le64(b, 88), le64(b, 96), le64(b, 104)),
                            ),
                        ),
                    ] + t,
                ),
            }
        }
    }
}

/// Whether a description list's bytes decode: each record complete and
/// its metadata valid text.
pub open spec fn metas_decode_ok(b: Seq<u8>) -> bool
    decreases b.len(),
{
    if b.len() == 0 {
        true
    } else if b.len() < 116 {
        false
    } else {
        let dlen = le32(b, 112);
        if b.len() < 116 + dlen {
            false
        } else {
            vstd::utf8::valid_utf8(b.subrange(116, 116 + dlen)) && metas_decode_ok(
                b.skip(116 + dlen),
            )
        }
    }
}

/// The ghost record a description's bytes carry: the receiver, the
/// metadata bytes, the amount and the fee schedule.
pub open spec fn meta_byte_views(
    s: Seq<(Seq<u8>, Seq<char>, int, ((int, int, int), (int, int, int), (int, int, int)))>,
) -> Seq<(Seq<u8>, Seq<u8>, int, ((int, int, int), (int, int, int), (int, int, int)))> {
    Seq::new(s.len(), |i: int| (s[i].0, encode_utf8(s[i].1), s[i].2, s[i].3))
}

/// Whether a raw buffer decodes as an add: the header names the kind,
/// every field checks out and each description record is complete with
/// valid metadata text.
pub open spec fn add_decode_ok(raw: Seq<u8>) -> bool {
    &&& raw.len() >= HEADER_LENGTH + SIGNATURE_LENGTH
    &&& le16(raw, 2) == ADD_ASSETS_ID
    &&& le16(raw, 4) == SERVICE_ID
    &&& match spec_decode_body(raw, add_layout()) {
        Ok(vt) => (vt[1] matches FieldV::Segment(mb) && metas_decode_ok(mb)),
        Err(_) => false,
    }
}

impl AddAssets {
    /// Parses an add out of a raw message: the header, every field and
    /// each description record are all validated before anything is
    /// used.
    #[verifier::rlimit(100)]
    pub fn from_raw(raw: &RawMessage) -> (r: Result<AddAssets, EncodingError>)
        ensures
            r matches Ok(tx) ==> raw@.len() >= HEADER_LENGTH + SIGNATURE_LENGTH && le16(raw@, 2)
                == ADD_ASSETS_ID && le16(raw@, 4) == SERVICE_ID && (spec_decode_body(
                raw@,
                add_layout(),
            ) matches Ok(vt) && vt.len() == 3 && vt[0] == FieldV::Key(tx.pub_key@) && (vt[1]
                matches FieldV::Segment(mb) && parse_metas(mb) == Some(
                meta_byte_views(mviews(tx.assets@)),
            )) && vt[2] == FieldV::U64(tx.seed)) && tx.signature@ == raw@.subrange(
                raw@.len() - SIGNATURE_LENGTH,
                raw@.len() as int,
            ) && tx.pub_key.wf() && tx.signature.wf(),
            (r is Ok) == add_decode_ok(raw@),
    {
        if raw.0.raw.len() < HEADER_LENGTH + SIGNATURE_LENGTH {
            return Err(
                EncodingError::UnexpectedlyShortRawMessage {
                    position: 0,
                    size: raw.0.raw.len() as u32,
                },
            );
        }
        let mtype = raw.0.message_type();
        if mtype != ADD_ASSETS_ID {
            return Err(EncodingError::IncorrectMessageType { message_type: mtype });
        }
        let sid = raw.0.service_id();
        if sid != SERVICE_ID {
            return Err(EncodingError::IncorrectServiceId { service_id: sid });
        }
        let kinds = add_layout_exec();
        proof {
            lemma_add_layout_total();
        }
        let mut vals = match decode_message_body(raw, &kinds) {
            Ok(v) => v,
            Err(e) => {
                return Err(e);
            },
        };
        let ghost vt = views_of(vals@);
        proof {
            crate::encoding::lemma_dec_shape(
                raw@,
                add_layout(),
                HEADER_LENGTH as int,
                HEADER_LENGTH + crate::encoding::fixed_total(add_layout()),
                raw@.len() - SIGNATURE_LENGTH,
            );
            assert(vt.len() == 3);
            assert(vals@.len() == 3);
            assert(forall|i: int| 0 <= i < 3 ==> (#[trigger] vt[i]) == vals@[i]@);
            assert(forall|i: int|
                0 <= i < 3 ==> (#[trigger] vt[i]).kind() == add_layout()[i] && vt[i].wf());
        }
        let v2 = vals.remove(2);
        let v1 = vals.remove(1);
        let v0 = vals.remove(0);
        proof {
            assert(v0@ == vt[0] && v1@ == vt[1] && v2@ == vt[2]);
        }
        let pub_key = v0.into_key().unwrap();
        let metas_bytes_vec = v1.into_segment().unwrap();
        let seed = v2.into_u64().unwrap();
        let assets = match decode_metas(&metas_bytes_vec) {
            Ok(a) => a,
            Err(e) => {
                return Err(e);
            },
        };
        let signature = raw.0.signature();
        Ok(AddAssets { pub_key, assets, seed, signature })
    }
}

/// The field layout of an add.
pub open spec fn add_layout() -> Seq<FieldKind> {
    seq![FieldKind::Key, FieldKind::Segment, FieldKind::Unsigned64]
}

/// The add layout, executable form.
pub fn add_layout_exec() -> (r: Vec<FieldKind>)
    ensures
        r@ == add_layout(),
{
    let mut v: Vec<FieldKind> = Vec::new();
    v.push(FieldKind::Key);
    v.push(FieldKind::Segment);
    v.push(FieldKind::Unsigned64);
    proof {
        assert(v@ =~= add_layout());
    }
    v
}

/// The fixed part of the add layout is 48 bytes.
pub proof fn lemma_add_layout_total()
    ensures
        crate::encoding::fixed_total(add_layout()) == 48,
{
    let k0 = add_layout();
    let k1 = seq![FieldKind::Segment, FieldKind::Unsigned64];
    let k2 = seq![FieldKind::Unsigned64];
    let k3 = Seq::<FieldKind>::empty();
    assert(k0.drop_first() =~= k1);
    assert(k1.drop_first() =~= k2);
    assert(k2.drop_first() =~= k3);
    assert(crate::encoding::fixed_total(k3) == 0);
    assert(crate::encoding::fixed_total(k2) == 8);
    assert(crate::encoding::fixed_total(k1) == 16);
    assert(crate::encoding::fixed_total(k0) == 48);
}

/// Decodes a description list; truncated records and metadata that is
/// not valid UTF-8 are rejected, and exactly those.
#[verifier::rlimit(100)]
#[verifier::spinoff_prover]
pub fn decode_metas(b: &Vec<u8>) -> (r: Result<Vec<MetaAsset>, EncodingError>)
    ensures
        (r matches Ok(vs) ==> parse_metas(b@) matches Some(t) && meta_byte_views(mviews(vs@)) == t),
        (r is Ok) == metas_decode_ok(b@),
{
    let mut out: Vec<MetaAsset> = Vec::new();
    let mut pos: usize = 0;
    let n = b.len();
    proof {
        assert(b@.skip(0) =~= b@);
    }
    while pos < n
        invariant
            pos <= n,
            n == b@.len(),
            metas_decode_ok(b@) == metas_decode_ok(b@.skip(pos as int)),
            (match parse_metas(b@.skip(pos as int)) {
                Some(t) => parse_metas(b@) matches Some(w) && w == meta_byte_views(mviews(out@))
                    + t,
                None => true,
            }),
        decreases n - pos,
    {
        if n - pos < 116 {
            proof {
                assert(b@.skip(pos as int).len() == n - pos);
                assert(!metas_decode_ok(b@.skip(pos as int)));
            }
            return Err(
                EncodingError::IncorrectSegmentSize {
                    position: pos as u32,
                    value: (n - pos) as u32,
                },
            );
        }
        let ghost tail = b@.skip(pos as int);
        let dlen32 = crate::bytesutil::read_u32_le(b, pos + 112);
        let dlen = dlen32 as usize;
        proof {
            assert forall|k: int| 0 <= k < tail.len() implies #[trigger] tail[k] == b@[pos + k] by {}
            assert(le32(tail, 112) == le32(b@, pos + 112));
        }
        if n - pos - 116 < dlen {
            proof {
                assert(!metas_decode_ok(tail));
            }
            return Err(
                EncodingError::IncorrectSegmentSize {
                    position: pos as u32,
                    value: dlen32,
                },
            );
        }
        let receiver_bytes = crate::bytesutil::read_bytes(b, pos, pos + 32);
        let amount = crate::bytesutil::read_u64_le(b, pos + 32);
        let f1 = crate::bytesutil::read_u64_le(b, pos + 40);
        let f2 = crate::bytesutil::read_u64_le(b, pos + 48);
        let f3 = crate::bytesutil::read_u64_le(b, pos + 56);
        let f4 = crate::bytesutil::read_u64_le(b, pos + 64);
        let f5 = crate::bytesutil::read_u64_le(b, pos + 72);
        let f6 = crate::bytesutil::read_u64_le(b, pos + 80);
        let f7 = crate::bytesutil::read_u64_le(b, pos + 88);
        let f8 = crate::bytesutil::read_u64_le(b, pos + 96);
        let f9 = crate::bytesutil::read_u64_le(b, pos + 104);
        let data_bytes = crate::bytesutil::read_bytes(b, pos + 116, pos + 116 + dlen);
        proof {
            assert(tail.subrange(116, 116 + dlen as int) =~= b@.subrange(
                pos + 116,
                pos + 116 + dlen as int,
            ));
        }
        let data = match bytes_to_string(&data_bytes) {
            Some(s) => s,
            None => {
                proof {
                    assert(!metas_decode_ok(tail));
                }
                return Err(EncodingError::Utf8 { position: pos as u32 });
            },
        };
        let fees = crate::assets::Fees {
            trade: crate::assets::Fee {
                fixed: f1,
                fraction: crate::assets::Fraction { num: f2, den: f3 },
            },
            exchange: crate::assets::Fee {
                fixed: f4,
                fraction: crate::assets::Fraction { num: f5, den: f6 },
            },
            transfer: crate::assets::Fee {
                fixed: f7,
                fraction: crate::assets::Fraction { num: f8, den: f9 },
            },
        };
        let ghost prev = out@;
        let ma = MetaAsset {
            receiver: crate::crypto::PublicKey(
                crate::crypto::PublicKeySodium { bytes: receiver_bytes },
            ),
            data,
            amount,
            fees,
        };
        let ghost mav = ma@;
        out.push(ma);
        proof {
            assert forall|k: int| 64 <= k < 112 implies #[trigger] tail[k] == b@[pos + k] by {}
            assert(tail.subrange(0, 32) =~= b@.subrange(pos as int, pos + 32));
            assert(le64(tail, 32) == le64(b@, pos + 32));
            assert(le64(tail, 40) == le64(b@, pos + 40));
            assert(le64(tail, 48) == le64(b@, pos + 48));
            assert(le64(tail, 56) == le64(b@, pos + 56));
            assert(le64(tail, 64) == le64(b@, pos + 64));
            assert(le64(tail, 72) == le64(b@, pos + 72));
            assert(le64(tail, 80) == le64(b@, pos + 80));
            assert(le64(tail, 88) == le64(b@, pos + 88));
            assert(le64(tail, 96) == le64(b@, pos + 96));
            assert(le64(tail, 104) == le64(b@, pos + 104));
            assert(tail.skip(116 + dlen as int) =~= b@.skip(pos + 116 + dlen as int));
            assert(metas_decode_ok(tail) == metas_decode_ok(b@.skip(pos + 116 + dlen as int)));
            assert(meta_byte_views(mviews(out@)) =~= meta_byte_views(mviews(prev)).push(
                (
                    b@.subrange(pos as int, pos + 32),
                    b@.subrange(pos + 116, pos + 116 + dlen as int),
                    amount as int,
                    (
                        (f1 as int, f2 as int, f3 as int),
                        (f4 as int, f5 as int, f6 as int),
                        (f7 as int, f8 as int, f9 as int),
                    ),
                ),
            ));
        }
        pos = pos + 116 + dlen;
    }
    proof {
        assert(b@.skip(n as int) =~= Seq::<u8>::empty());
        assert(metas_decode_ok(b@.skip(n as int)));
        assert(meta_byte_views(mviews(out@)) + Seq::<
            (Seq<u8>, Seq<u8>, int, ((int, int, int), (int, int, int), (int, int, int))),
        >::empty() =~= meta_byte_views(mviews(out@)));
    }
    Ok(out)
}


impl AddAssets {
    /// Attaches the message's own signature, once the embedding has
    /// signed the bytes `to_raw` lays out before the trailing
    /// signature; every other part stays as it was.
    pub fn set_signature(&mut self, signature: &Signature)
        requires
            signature.wf(),
        ensures
            final(self).signature@ == signature@,
            final(self).signature.wf(),
            final(self).pub_key == old(self).pub_key,
            final(self).assets == old(self).assets,
            final(self).seed == old(self).seed,
    {
        self.signature = signature.duplicate();
    }
}

} // verus!
