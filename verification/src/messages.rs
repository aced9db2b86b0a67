//! Raw message framing: a fixed header, an encoded body, and a trailing
//! signature. The header is one byte of network id, one byte of protocol
//! version, a two-byte little-endian message type, a two-byte
//! little-endian service id, and a four-byte little-endian payload
//! length that counts the whole buffer, signature included.

use vstd::prelude::*;

use crate::bytesutil::{append_bytes, copy_bytes, le16, le32, read_bytes, read_u16_le, read_u32_le,
    write_u16_le, write_u32_le};
use crate::crypto::{Signature, SignatureSodium, SIGNATURE_LENGTH};
use crate::encoding::{bytes2, bytes4, check_segment, dec_from, decode_rec, enc_fixed, enc_segs,
    encode_body, fixed_total, kind_slot_len, kind_slot_len_exec, kinds_of, lemma_dec_enc,
    lemma_enc_fixed_len, lemma_enc_segs_len, lemma_fixed_total_nonneg, lemma_seg_total_nonneg,
    seg_total, spec_body, views_of, wf_all, EncodingError, FieldKind, FieldV, FieldValue};

verus! {

/// Length of the message header, in bytes.
pub const HEADER_LENGTH: usize = 10;

/// Network id used by this deployment.
pub const TEST_NETWORK_ID: u8 = 0;

/// Version of the protocol. Different versions are incompatible.
pub const PROTOCOL_MAJOR_VERSION: u8 = 0;

/// The header bytes of a message whose whole length is `total`.
pub open spec fn spec_header(
    network_id: u8,
    version: u8,
    message_type: u16,
    service_id: u16,
    total: int,
) -> Seq<u8> {
    seq![network_id, version] + bytes2(message_type as int) + bytes2(service_id as int) + bytes4(
        total,
    )
}

/// The unsigned bytes of a message holding the fields `vs`: header, fixed
/// part, segment area. The declared length already counts the signature
/// that will follow.
pub open spec fn spec_msg_unsigned(
    network_id: u8,
    version: u8,
    message_type: u16,
    service_id: u16,
    vs: Seq<FieldV>,
) -> Seq<u8> {
    let ft = fixed_total(kinds_of(vs));
    let total = HEADER_LENGTH + ft + seg_total(vs) + SIGNATURE_LENGTH;
    spec_header(network_id, version, message_type, service_id, total) + spec_body(
        vs,
        HEADER_LENGTH + ft,
    )
}

/// A raw message represented by a bytes buffer.
#[derive(Debug, PartialEq)]
pub struct MessageBuffer {
    pub raw: Vec<u8>,
}

impl View for MessageBuffer {
    type V = Seq<u8>;

    open spec fn view(&self) -> Seq<u8> {
        self.raw@
    }
}

impl MessageBuffer {
    /// Creates a `MessageBuffer` from a bytes vector.
    pub fn from_vec(raw: Vec<u8>) -> (r: MessageBuffer)
        ensures
            r@ == raw@,
    {
        MessageBuffer { raw }
    }

    /// The length of the message in bytes.
    pub fn len(&self) -> (r: usize)
        ensures
            r == self@.len(),
    {
        self.raw.len()
    }

    /// Whether the buffer holds no bytes.
    pub fn is_empty(&self) -> (r: bool)
        ensures
            r == (self@.len() == 0),
    {
        self.raw.is_empty()
    }

    /// The network id byte.
    pub fn network_id(&self) -> (r: u8)
        requires
            self@.len() >= 1,
        ensures
            r == self@[0],
    {
        self.raw[0]
    }

    /// The protocol version byte.
    pub fn version(&self) -> (r: u8)
        requires
            self@.len() >= 2,
        ensures
            r == self@[1],
    {
        self.raw[1]
    }

    /// The message type, little-endian.
    pub fn message_type(&self) -> (r: u16)
        requires
            self@.len() >= 4,
        ensures
            r == le16(self@, 2),
    {
        read_u16_le(&self.raw, 2)
    }

    /// The id of the service, little-endian.
    pub fn service_id(&self) -> (r: u16)
        requires
            self@.len() >= 6,
        ensures
            r == le16(self@, 4),
    {
        read_u16_le(&self.raw, 4)
    }

    /// The whole buffer, header and signature included.
    pub fn body(&self) -> (r: &[u8])
        ensures
            r@ == self@,
    {
        self.raw.as_slice()
    }

    /// The trailing signature of the message.
    pub fn signature(&self) -> (r: Signature)
        requires
            self@.len() >= SIGNATURE_LENGTH,
        ensures
            r@ == self@.subrange(self@.len() - SIGNATURE_LENGTH, self@.len() as int),
            r.wf(),
    {
        let n = self.raw.len();
        let bytes = read_bytes(&self.raw, n - SIGNATURE_LENGTH, n);
        Signature(SignatureSodium { bytes })
    }

    /// Checks that a field of kind `kind` can be read from the body range
    /// `[from, to)`, given the end of the latest validated segment. Byte
    /// positions are body-relative; the header length is added here.
    /// Returns the new latest segment end.
    pub fn check(&self, kind: FieldKind, from: u32, to: u32, latest_segment: u32) -> (r: Result<
        u32,
        EncodingError,
    >)
        ensures
            r == spec_check(self@, kind, from, to, latest_segment),
            r matches Ok(end) ==> latest_segment <= end <= self@.len() - SIGNATURE_LENGTH,
    {
        let n = self.raw.len();
        if n < HEADER_LENGTH + SIGNATURE_LENGTH {
            return Err(
                EncodingError::UnexpectedlyShortRawMessage { position: 0, size: n as u32 },
            );
        }
        if n > u32::MAX as usize {
            return Err(EncodingError::OffsetOverflow);
        }
        let limit: u32 = (n as u32) - (SIGNATURE_LENGTH as u32);
        if latest_segment > limit {
            return Err(
                EncodingError::IncorrectSegmentReference { position: from, value: latest_segment },
            );
        }
        let slot = kind_slot_len_exec(kind);
        if from > u32::MAX - (HEADER_LENGTH as u32) || to > u32::MAX - (HEADER_LENGTH as u32) {
            return Err(EncodingError::OffsetOverflow);
        }
        let f = from + (HEADER_LENGTH as u32);
        let t = to + (HEADER_LENGTH as u32);
        if t < f || t - f != slot || t > limit {
            return Err(
                EncodingError::UnexpectedlyShortPayload { actual_size: limit, minimum_size: t },
            );
        }
        match kind {
            FieldKind::Segment => {
                let ptr = read_u32_le(&self.raw, f as usize);
                let cnt = read_u32_le(&self.raw, f as usize + 4);
                check_segment(ptr, cnt, latest_segment, limit, f)
            },
            FieldKind::Flag => {
                let b = self.raw[f as usize];
                if b == 0 || b == 1 {
                    Ok(latest_segment)
                } else {
                    Err(EncodingError::IncorrectBoolean { position: f, value: b })
                }
            },
            _ => Ok(latest_segment),
        }
    }
}

/// An immutable, shareable raw message.
#[derive(Debug, PartialEq)]
pub struct RawMessage(pub MessageBuffer);

impl View for RawMessage {
    type V = Seq<u8>;

    open spec fn view(&self) -> Seq<u8> {
        self.0@
    }
}

impl RawMessage {
    /// Creates a new `RawMessage` around the given buffer.
    pub fn new(buffer: MessageBuffer) -> (r: Self)
        ensures
            r@ == buffer@,
    {
        RawMessage(buffer)
    }

    /// Creates a new `RawMessage` from the given bytes.
    pub fn from_vec(vec: Vec<u8>) -> (r: Self)
        ensures
            r@ == vec@,
    {
        RawMessage(MessageBuffer::from_vec(vec))
    }

    /// The underlying buffer.
    pub fn buffer(&self) -> (r: &MessageBuffer)
        ensures
            r@ == self@,
    {
        &self.0
    }

    /// An owned copy of the message.
    pub fn duplicate(&self) -> (r: Self)
        ensures
            r@ == self@,
    {
        RawMessage(MessageBuffer { raw: copy_bytes(&self.0.raw) })
    }
}

/// The capability every message offers: parsing from and exposing its
/// raw bytes.
pub trait Message: Sized {
    /// Converts the raw message into the specific one.
    fn from_raw(raw: RawMessage) -> Result<Self, EncodingError>;

    /// The raw message.
    fn raw(&self) -> &RawMessage;
}

impl Message for RawMessage {
    fn from_raw(raw: RawMessage) -> Result<Self, EncodingError> {
        Ok(raw)
    }

    fn raw(&self) -> &RawMessage {
        self
    }
}

/// Message writer: an in-progress buffer of header plus fixed part, with
/// segments appended at the end as fields are written.
#[derive(Debug, PartialEq)]
pub struct MessageWriter {
    pub raw: Vec<u8>,
}

impl View for MessageWriter {
    type V = Seq<u8>;

    open spec fn view(&self) -> Seq<u8> {
        self.raw@
    }
}

impl MessageWriter {
    /// Creates a writer whose fixed part has `payload_length` bytes, with
    /// the header fields set and the payload zeroed.
    pub fn new(
        protocol_version: u8,
        network_id: u8,
        service_id: u16,
        message_type: u16,
        payload_length: usize,
    ) -> (r: Self)
        requires
            HEADER_LENGTH + payload_length <= u32::MAX,
        ensures
            r@.len() == HEADER_LENGTH + payload_length,
            r@[0] == network_id,
            r@[1] == protocol_version,
            le16(r@, 2) == message_type,
            le16(r@, 4) == service_id,
            le32(r@, 6) == 0,
            forall|j: int| HEADER_LENGTH <= j < r@.len() ==> r@[j] == 0u8,
    {
        let mut raw: Vec<u8> = vec![0u8; HEADER_LENGTH + payload_length];
        raw.set(0, network_id);
        raw.set(1, protocol_version);
        write_u16_le(&mut raw, 2, message_type);
        write_u16_le(&mut raw, 4, service_id);
        MessageWriter { raw }
    }

    /// Writes a field's slot at body range `[from, to)`; a segment field
    /// has its payload appended at the current end of the buffer and its
    /// slot made to point there.
    pub fn write(&mut self, field: &FieldValue, from: u32, to: u32)
        requires
            to - from == kind_slot_len(field@.kind()),
            HEADER_LENGTH + to <= old(self)@.len(),
            old(self)@.len() + (match field@ {
                FieldV::Segment(d) => d.len() as int,
                _ => 0,
            }) <= u32::MAX,
            field@.wf(),
        ensures
            final(self)@.len() == old(self)@.len() + (match field@ {
                FieldV::Segment(d) => d.len() as int,
                _ => 0,
            }),
            final(self)@.subrange(HEADER_LENGTH + from, HEADER_LENGTH + to)
                == crate::encoding::slot_bytes(field@, old(self)@.len() as int),
            forall|j: int|
                0 <= j < old(self)@.len() && !(HEADER_LENGTH + from <= j < HEADER_LENGTH + to)
                    ==> final(self)@[j] == old(self)@[j],
            final(self)@.subrange(old(self)@.len() as int, final(self)@.len() as int) == (
            match field@ {
                FieldV::Segment(d) => d,
                _ => Seq::<u8>::empty(),
            }),
    {
        let pos: usize = HEADER_LENGTH + from as usize;
        let seg_at: u32 = self.raw.len() as u32;
        let mut slot: Vec<u8> = Vec::new();
        crate::encoding::push_slot(&mut slot, field, seg_at);
        proof {
            crate::encoding::lemma_slot_len(field@, seg_at as int);
        }
        put_bytes_at(&mut self.raw, pos, &slot);
        match field {
            FieldValue::Segment(d) => {
                append_bytes(&mut self.raw, d);
                proof {
                    assert(self.raw@.subrange(HEADER_LENGTH + from, HEADER_LENGTH + to)
                        =~= crate::encoding::slot_bytes(field@, old(self)@.len() as int));
                    assert(self.raw@.subrange(old(self)@.len() as int, self.raw@.len() as int)
                        =~= d@);
                }
            },
            _ => {
                proof {
                    assert(self.raw@.subrange(HEADER_LENGTH + from, HEADER_LENGTH + to)
                        =~= crate::encoding::slot_bytes(field@, old(self)@.len() as int));
                    assert(self.raw@.subrange(old(self)@.len() as int, self.raw@.len() as int)
                        =~= Seq::<u8>::empty());
                }
            },
        }
    }

    /// Declares the payload length, counting the signature to come, and
    /// hands the buffer out unsigned.
    pub fn to_message_buffer(self) -> (r: MessageBuffer)
        requires
            self@.len() + SIGNATURE_LENGTH <= u32::MAX,
            self@.len() >= HEADER_LENGTH,
        ensures
            r@.len() == self@.len(),
            le32(r@, 6) == self@.len() + SIGNATURE_LENGTH,
            forall|j: int| 0 <= j < r@.len() && !(6 <= j < 10) ==> r@[j] == self@[j],
    {
        let mut raw = self.raw;
        let total: u32 = (raw.len() as u32) + (SIGNATURE_LENGTH as u32);
        write_u32_le(&mut raw, 6, total);
        MessageBuffer { raw }
    }

    /// Declares the payload length, appends the given signature, and
    /// hands the finished buffer out.
    pub fn append_signature(self, signature: &Signature) -> (r: MessageBuffer)
        requires
            self@.len() + SIGNATURE_LENGTH <= u32::MAX,
            self@.len() >= HEADER_LENGTH,
            signature.wf(),
        ensures
            r@.len() == self@.len() + SIGNATURE_LENGTH,
            le32(r@, 6) == self@.len() + SIGNATURE_LENGTH,
            forall|j: int| 0 <= j < self@.len() && !(6 <= j < 10) ==> r@[j] == self@[j],
            r@.subrange(self@.len() as int, r@.len() as int) == signature@,
    {
        let mut raw = self.raw;
        let total: u32 = (raw.len() as u32) + (SIGNATURE_LENGTH as u32);
        write_u32_le(&mut raw, 6, total);
        append_bytes(&mut raw, &signature.0.bytes);
        proof {
            assert(raw@.subrange(self@.len() as int, raw@.len() as int) =~= signature@);
        }
        MessageBuffer { raw }
    }
}

/// Overwrites `dst` at `[pos, pos + src.len())` with `src`.
fn put_bytes_at(dst: &mut Vec<u8>, pos: usize, src: &Vec<u8>)
    requires
        pos + src@.len() <= old(dst)@.len(),
    ensures
        final(dst)@.len() == old(dst)@.len(),
        final(dst)@.subrange(pos as int, pos + src@.len()) == src@,
        forall|j: int|
            0 <= j < final(dst)@.len() && !(pos <= j < pos + src@.len()) ==> final(dst)@[j] == old(
                dst,
            )@[j],
{
    let n: usize = dst.len();
    let m: usize = src.len();
    assert(pos + m <= n);
    let mut i: usize = 0;
    while i < m
        invariant
            i <= m,
            m == src@.len(),
            pos + m <= n,
            n == dst@.len(),
            pos + src@.len() <= dst@.len(),
            dst@.len() == old(dst)@.len(),
            forall|j: int| 0 <= j < i ==> dst@[pos + j] == src@[j],
            forall|j: int|
                0 <= j < dst@.len() && !(pos <= j < pos + i) ==> dst@[j] == old(dst)@[j],
        decreases src@.len() - i,
    {
        dst.set(pos + i, src[i]);
        i += 1;
    }
    proof {
        assert(dst@.subrange(pos as int, pos + src@.len()) =~= src@);
    }
}


/// Encodes the unsigned bytes of a message holding the given fields:
/// header, fixed part, segment area, with the declared length already
/// counting the signature to come.
pub fn encode_unsigned(
    network_id: u8,
    protocol_version: u8,
    message_type: u16,
    service_id: u16,
    values: &Vec<FieldValue>,
) -> (r: Vec<u8>)
    requires
        wf_all(views_of(values@)),
        HEADER_LENGTH + fixed_total(kinds_of(views_of(values@))) + seg_total(views_of(values@))
            + SIGNATURE_LENGTH <= u32::MAX,
    ensures
        r@ == spec_msg_unsigned(
            network_id,
            protocol_version,
            message_type,
            service_id,
            views_of(values@),
        ),
{
    let ghost views = views_of(values@);
    proof {
        crate::encoding::lemma_seg_total_nonneg(views);
        crate::encoding::lemma_fixed_total_nonneg(kinds_of(views));
    }
    let ft: u32 = crate::encoding::values_fixed_total_exec(values);
    let segstart: u32 = (HEADER_LENGTH as u32) + ft;
    let (fixed, segs) = encode_body(values, segstart);
    proof {
        lemma_enc_fixed_len(views, segstart as int);
        lemma_enc_segs_len(views);
    }
    let total: u32 = segstart + (segs.len() as u32) + (SIGNATURE_LENGTH as u32);
    let mut unsigned: Vec<u8> = Vec::new();
    unsigned.push(network_id);
    unsigned.push(protocol_version);
    crate::encoding::push_u16_bytes(&mut unsigned, message_type);
    crate::encoding::push_u16_bytes(&mut unsigned, service_id);
    crate::encoding::push_u32_bytes(&mut unsigned, total);
    proof {
        assert(unsigned@ =~= spec_header(
            network_id,
            protocol_version,
            message_type,
            service_id,
            total as int,
        ));
    }
    append_bytes(&mut unsigned, &fixed);
    append_bytes(&mut unsigned, &segs);
    proof {
        assert(unsigned@ =~= spec_msg_unsigned(
            network_id,
            protocol_version,
            message_type,
            service_id,
            views,
        ));
    }
    unsigned
}

/// What decoding a raw message's body under a layout yields: too-long or
/// too-short buffers are rejected before any field is read, the declared
/// payload length must equal the buffer's length, and then the fields
/// are checked and read one after another.
pub open spec fn spec_decode_body(raw: Seq<u8>, kinds: Seq<FieldKind>) -> Result<
    Seq<FieldV>,
    EncodingError,
> {
    let ft = fixed_total(kinds);
    if raw.len() > u32::MAX {
        Err(EncodingError::OffsetOverflow)
    } else if raw.len() < HEADER_LENGTH + ft + SIGNATURE_LENGTH {
        Err(
            EncodingError::UnexpectedlyShortPayload {
                actual_size: raw.len() as u32,
                minimum_size: (HEADER_LENGTH + ft + SIGNATURE_LENGTH) as u32,
            },
        )
    } else if le32(raw, 6) != raw.len() {
        Err(
            EncodingError::IncorrectSizeOfRawMessage {
                position: 6,
                actual_size: raw.len() as u32,
                declared_size: le32(raw, 6) as u32,
            },
        )
    } else {
        dec_from(
            raw,
            kinds,
            HEADER_LENGTH as int,
            HEADER_LENGTH + ft,
            raw.len() - SIGNATURE_LENGTH,
        )
    }
}

/// Decodes the body of a raw message under a layout, validating every
/// field before any is handed out.
pub fn decode_message_body(raw: &RawMessage, kinds: &Vec<FieldKind>) -> (r: Result<
    Vec<FieldValue>,
    EncodingError,
>)
    requires
        HEADER_LENGTH + fixed_total(kinds@) + SIGNATURE_LENGTH <= u32::MAX,
    ensures
        (r matches Ok(vals) ==> spec_decode_body(raw@, kinds@) matches Ok(vt) && views_of(vals@)
            == vt),
        (r matches Err(e) ==> spec_decode_body(raw@, kinds@) == Err::<Seq<FieldV>, EncodingError>(
            e,
        )),
{
    proof {
        crate::encoding::lemma_fixed_total_nonneg(kinds@);
    }
    let n: usize = raw.0.raw.len();
    if n > u32::MAX as usize {
        return Err(EncodingError::OffsetOverflow);
    }
    let ft: u32 = crate::encoding::fixed_total_exec(kinds);
    let need: u32 = (HEADER_LENGTH as u32) + ft + (SIGNATURE_LENGTH as u32);
    if (n as u32) < need {
        return Err(
            EncodingError::UnexpectedlyShortPayload { actual_size: n as u32, minimum_size: need },
        );
    }
    let declared = read_u32_le(&raw.0.raw, 6);
    if declared != n as u32 {
        return Err(
            EncodingError::IncorrectSizeOfRawMessage {
                position: 6,
                actual_size: n as u32,
                declared_size: declared,
            },
        );
    }
    proof {
        assert(kinds@.skip(0) =~= kinds@);
    }
    decode_rec(
        &raw.0.raw,
        kinds,
        0,
        HEADER_LENGTH as u32,
        (HEADER_LENGTH as u32) + ft,
        (n as u32) - (SIGNATURE_LENGTH as u32),
    )
}

/// Round trip: a message encoded from well-formed field values and
/// followed by any signature-sized trailer decodes back to exactly those
/// values, whatever the trailer holds.
pub proof fn lemma_message_roundtrip(
    network_id: u8,
    version: u8,
    message_type: u16,
    service_id: u16,
    vs: Seq<FieldV>,
    trailer: Seq<u8>,
)
    requires
        wf_all(vs),
        HEADER_LENGTH + fixed_total(kinds_of(vs)) + seg_total(vs) + SIGNATURE_LENGTH <= u32::MAX,
        trailer.len() == SIGNATURE_LENGTH,
    ensures
        spec_decode_body(
            spec_msg_unsigned(network_id, version, message_type, service_id, vs) + trailer,
            kinds_of(vs),
        ) == Ok::<Seq<FieldV>, EncodingError>(vs),
{
    let ft = fixed_total(kinds_of(vs));
    let st = seg_total(vs);
    let u = spec_msg_unsigned(network_id, version, message_type, service_id, vs);
    let raw = u + trailer;
    lemma_enc_fixed_len(vs, HEADER_LENGTH + ft);
    lemma_enc_segs_len(vs);
    lemma_seg_total_nonneg(vs);
    lemma_fixed_total_nonneg(kinds_of(vs));
    assert(spec_header(
        network_id,
        version,
        message_type,
        service_id,
        (HEADER_LENGTH + ft + st + SIGNATURE_LENGTH) as int,
    ).len() == HEADER_LENGTH);
    assert(raw.len() == HEADER_LENGTH + ft + st + SIGNATURE_LENGTH);
    assert(raw.subrange(HEADER_LENGTH as int, HEADER_LENGTH + ft) =~= enc_fixed(
        vs,
        HEADER_LENGTH + ft,
    ));
    assert(raw.subrange(HEADER_LENGTH + ft, HEADER_LENGTH + ft + st) =~= enc_segs(vs));
    assert(raw.subrange(6, 10) =~= bytes4((HEADER_LENGTH + ft + st + SIGNATURE_LENGTH) as int));
    crate::encoding::lemma_read32(raw, 6, (HEADER_LENGTH + ft + st + SIGNATURE_LENGTH) as int);
    lemma_dec_enc(vs, raw, HEADER_LENGTH as int, HEADER_LENGTH + ft, raw.len() - SIGNATURE_LENGTH);
}


/// The encoded bytes of a plain record that is not a framed message: its
/// fixed part followed by its segment area, positions relative to the
/// record's own start. Offers that counterparties sign are encoded so.
pub open spec fn spec_plain(vs: Seq<FieldV>) -> Seq<u8> {
    spec_body(vs, fixed_total(kinds_of(vs)))
}

/// Encodes a plain record.
pub fn encode_plain(values: &Vec<FieldValue>) -> (r: Vec<u8>)
    requires
        wf_all(views_of(values@)),
        fixed_total(kinds_of(views_of(values@))) + seg_total(views_of(values@)) <= u32::MAX,
    ensures
        r@ == spec_plain(views_of(values@)),
{
    let ghost views = views_of(values@);
    proof {
        crate::encoding::lemma_seg_total_nonneg(views);
        crate::encoding::lemma_fixed_total_nonneg(kinds_of(views));
    }
    let ft: u32 = crate::encoding::values_fixed_total_exec(values);
    let (fixed, segs) = encode_body(values, ft);
    let mut out = fixed;
    append_bytes(&mut out, &segs);
    proof {
        assert(out@ =~= spec_plain(views));
    }
    out
}

/// What decoding a plain record under a layout yields.
pub open spec fn spec_decode_plain(b: Seq<u8>, kinds: Seq<FieldKind>) -> Result<
    Seq<FieldV>,
    EncodingError,
> {
    let ft = fixed_total(kinds);
    if b.len() > u32::MAX {
        Err(EncodingError::OffsetOverflow)
    } else if b.len() < ft {
        Err(
            EncodingError::UnexpectedlyShortPayload {
                actual_size: b.len() as u32,
                minimum_size: ft as u32,
            },
        )
    } else {
        dec_from(b, kinds, 0, ft, b.len() as int)
    }
}

/// Decodes a plain record under a layout, validating every field before
/// any is handed out.
pub fn decode_plain(b: &Vec<u8>, kinds: &Vec<FieldKind>) -> (r: Result<
    Vec<FieldValue>,
    EncodingError,
>)
    requires
        fixed_total(kinds@) <= u32::MAX,
    ensures
        (r matches Ok(vals) ==> spec_decode_plain(b@, kinds@) matches Ok(vt) && views_of(vals@)
            == vt),
        (r matches Err(e) ==> spec_decode_plain(b@, kinds@) == Err::<Seq<FieldV>, EncodingError>(
            e,
        )),
{
    proof {
        crate::encoding::lemma_fixed_total_nonneg(kinds@);
    }
    let n: usize = b.len();
    if n > u32::MAX as usize {
        return Err(EncodingError::OffsetOverflow);
    }
    let ft: u32 = crate::encoding::fixed_total_exec(kinds);
    if (n as u32) < ft {
        return Err(
            EncodingError::UnexpectedlyShortPayload { actual_size: n as u32, minimum_size: ft },
        );
    }
    proof {
        assert(kinds@.skip(0) =~= kinds@);
    }
    decode_rec(b, kinds, 0, 0, ft, n as u32)
}

/// Round trip for plain records: a record encoded from well-formed
/// values decodes back to exactly those values.
pub proof fn lemma_plain_roundtrip(vs: Seq<FieldV>)
    requires
        wf_all(vs),
        fixed_total(kinds_of(vs)) + seg_total(vs) <= u32::MAX,
    ensures
        spec_decode_plain(spec_plain(vs), kinds_of(vs)) == Ok::<Seq<FieldV>, EncodingError>(vs),
{
    let ft = fixed_total(kinds_of(vs));
    let st = seg_total(vs);
    let b = spec_plain(vs);
    lemma_enc_fixed_len(vs, ft);
    lemma_enc_segs_len(vs);
    lemma_seg_total_nonneg(vs);
    lemma_fixed_total_nonneg(kinds_of(vs));
    assert(b.len() == ft + st);
    assert(b.subrange(0, ft) =~= enc_fixed(vs, ft));
    assert(b.subrange(ft, ft + st) =~= enc_segs(vs));
    lemma_dec_enc(vs, b, 0, ft, b.len() as int);
}


/// What checking one field of a buffer yields: the buffer must hold a
/// header and a signature, the slot must sit inside the segment area,
/// a boolean slot must hold zero or one, and a segment slot must point
/// exactly at the end of the latest validated segment and stay inside
/// the area.
pub open spec fn spec_check(
    raw: Seq<u8>,
    kind: FieldKind,
    from: u32,
    to: u32,
    latest_segment: u32,
) -> Result<u32, EncodingError> {
    if raw.len() < HEADER_LENGTH + SIGNATURE_LENGTH {
        Err(EncodingError::UnexpectedlyShortRawMessage { position: 0, size: raw.len() as u32 })
    } else if raw.len() > u32::MAX {
        Err(EncodingError::OffsetOverflow)
    } else {
        let limit = (raw.len() - SIGNATURE_LENGTH) as u32;
        if latest_segment > limit {
            Err(EncodingError::IncorrectSegmentReference { position: from, value: latest_segment })
        } else if from > u32::MAX - HEADER_LENGTH || to > u32::MAX - HEADER_LENGTH {
            Err(EncodingError::OffsetOverflow)
        } else {
            let f = (from + HEADER_LENGTH) as u32;
            let t = (to + HEADER_LENGTH) as u32;
            if t < f || t - f != kind_slot_len(kind) || t > limit {
                Err(EncodingError::UnexpectedlyShortPayload { actual_size: limit, minimum_size: t })
            } else {
                match kind {
                    FieldKind::Segment => {
                        let ptr = crate::bytesutil::le32(raw, f as int);
                        let cnt = crate::bytesutil::le32(raw, f as int + 4);
                        if cnt == 0 && (ptr == 0 || ptr == latest_segment) {
                            Ok(latest_segment)
                        } else if ptr < latest_segment {
                            Err(
                                EncodingError::OverlappingSegment {
                                    last_end: latest_segment,
                                    start: ptr as u32,
                                },
                            )
                        } else if ptr > latest_segment {
                            Err(
                                EncodingError::SpaceBetweenSegments {
                                    last_end: latest_segment,
                                    start: ptr as u32,
                                },
                            )
                        } else if cnt > limit - latest_segment {
                            Err(
                                EncodingError::IncorrectSegmentReference {
                                    position: f,
                                    value: ptr as u32,
                                },
                            )
                        } else {
                            Ok((latest_segment + cnt) as u32)
                        }
                    },
                    FieldKind::Flag => {
                        let b = raw[f as int];
                        if b == 0 || b == 1 {
                            Ok(latest_segment)
                        } else {
                            Err(EncodingError::IncorrectBoolean { position: f, value: b })
                        }
                    },
                    _ => Ok(latest_segment),
                }
            }
        }
    }
}

} // verus!
