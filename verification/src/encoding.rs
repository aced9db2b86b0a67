//! The binary field codec: typed field values, their little-endian wire
//! layout, segment validation, and a single generic encode/decode routine
//! used by every message kind.
//!
//! A message body is a fixed part followed by a segment area. Every field
//! occupies a fixed-size slot in the fixed part; variable-length fields
//! (byte strings) store an absolute pointer and a byte count in their slot
//! and their payload in the segment area. Segments must sit exactly one
//! after another: a decoder rejects overlaps, gaps, and ranges that reach
//! past the segment area or into the trailing signature.

use vstd::prelude::*;

use crate::bytesutil::{le16, le32, le64};
use crate::crypto::{PublicKey, Signature};

verus! {

/// Errors detected while checking or decoding an encoded buffer.
#[derive(Debug, PartialEq, Eq, Structural, Clone, Copy)]
pub enum EncodingError {
    /// The buffer is shorter than the fixed part the layout demands.
    UnexpectedlyShortPayload { actual_size: u32, minimum_size: u32 },
    /// A boolean slot held a byte other than zero or one.
    IncorrectBoolean { position: u32, value: u8 },
    /// A segment pointer reaches outside the segment area.
    IncorrectSegmentReference { position: u32, value: u32 },
    /// A segment count does not fit the segment area.
    IncorrectSegmentSize { position: u32, value: u32 },
    /// The raw message is too short to hold header and signature.
    UnexpectedlyShortRawMessage { position: u32, size: u32 },
    /// The declared length disagrees with the buffer's length.
    IncorrectSizeOfRawMessage { position: u32, actual_size: u32, declared_size: u32 },
    /// The message type is not known to the receiving service.
    IncorrectMessageType { message_type: u16 },
    /// The service id is not known.
    IncorrectServiceId { service_id: u16 },
    /// The network id is not the expected one.
    IncorrectNetworkId { network_id: u8 },
    /// The protocol version is not supported.
    UnsupportedProtocolVersion { version: u8 },
    /// A segment starts before the previous segment's end.
    OverlappingSegment { last_end: u32, start: u32 },
    /// A segment starts after the previous segment's end.
    SpaceBetweenSegments { last_end: u32, start: u32 },
    /// A text segment held bytes that are not valid UTF-8.
    Utf8 { position: u32 },
    /// Offset arithmetic would overflow.
    OffsetOverflow,
}

/// The kind of one field in a message layout.
#[derive(Debug, PartialEq, Eq, Structural, Clone, Copy)]
pub enum FieldKind {
    Unsigned8,
    Unsigned16,
    Unsigned32,
    Unsigned64,
    Flag,
    Key,
    Sig,
    Segment,
}

/// One decoded field value.
#[derive(Debug)]
pub enum FieldValue {
    /// A one-byte unsigned integer.
    U8(u8),
    /// A two-byte little-endian unsigned integer.
    U16(u16),
    /// A four-byte little-endian unsigned integer.
    U32(u32),
    /// An eight-byte little-endian unsigned integer.
    U64(u64),
    /// A boolean, encoded as a single zero-or-one byte.
    Flag(bool),
    /// A 32-byte public key.
    Key(PublicKey),
    /// A 64-byte signature.
    Sig(Signature),
    /// A variable-length byte string, stored in the segment area.
    Segment(Vec<u8>),
}

impl FieldValue {
    /// The kind of this value.
    pub open spec fn kind(&self) -> FieldKind {
        match self {
            FieldValue::U8(_) => FieldKind::Unsigned8,
            FieldValue::U16(_) => FieldKind::Unsigned16,
            FieldValue::U32(_) => FieldKind::Unsigned32,
            FieldValue::U64(_) => FieldKind::Unsigned64,
            FieldValue::Flag(_) => FieldKind::Flag,
            FieldValue::Key(_) => FieldKind::Key,
            FieldValue::Sig(_) => FieldKind::Sig,
            FieldValue::Segment(_) => FieldKind::Segment,
        }
    }

    /// Whether the value is well formed: keys and signatures hold their
    /// exact number of bytes.
    pub open spec fn wf(&self) -> bool {
        match self {
            FieldValue::Key(k) => k.wf(),
            FieldValue::Sig(s) => s.wf(),
            _ => true,
        }
    }
}

/// The ghost counterpart of a field value: what a value holds, over
/// mathematical sequences.
#[verifier::ext_equal]
pub enum FieldV {
    U8(u8),
    U16(u16),
    U32(u32),
    U64(u64),
    Flag(bool),
    Key(Seq<u8>),
    Sig(Seq<u8>),
    Segment(Seq<u8>),
}

impl View for FieldValue {
    type V = FieldV;

    open spec fn view(&self) -> FieldV {
        match self {
            FieldValue::U8(x) => FieldV::U8(*x),
            FieldValue::U16(x) => FieldV::U16(*x),
            FieldValue::U32(x) => FieldV::U32(*x),
            FieldValue::U64(x) => FieldV::U64(*x),
            FieldValue::Flag(b) => FieldV::Flag(*b),
            FieldValue::Key(k) => FieldV::Key(k@),
            FieldValue::Sig(s) => FieldV::Sig(s@),
            FieldValue::Segment(d) => FieldV::Segment(d@),
        }
    }
}

impl FieldV {
    /// The kind of this ghost value.
    pub open spec fn kind(&self) -> FieldKind {
        match self {
            FieldV::U8(_) => FieldKind::Unsigned8,
            FieldV::U16(_) => FieldKind::Unsigned16,
            FieldV::U32(_) => FieldKind::Unsigned32,
            FieldV::U64(_) => FieldKind::Unsigned64,
            FieldV::Flag(_) => FieldKind::Flag,
            FieldV::Key(_) => FieldKind::Key,
            FieldV::Sig(_) => FieldKind::Sig,
            FieldV::Segment(_) => FieldKind::Segment,
        }
    }

    /// Whether the ghost value is well formed: keys and signatures hold
    /// their exact number of bytes.
    pub open spec fn wf(&self) -> bool {
        match self {
            FieldV::Key(k) => k.len() == 32,
            FieldV::Sig(s) => s.len() == 64,
            _ => true,
        }
    }
}

/// The ghost views of a list of field values.
pub open spec fn views_of(vs: Seq<FieldValue>) -> Seq<FieldV> {
    vs.map_values(|v: FieldValue| v@)
}

/// The size in bytes of a kind's slot in the fixed part.
pub open spec fn kind_slot_len(k: FieldKind) -> int {
    match k {
        FieldKind::Unsigned8 => 1,
        FieldKind::Unsigned16 => 2,
        FieldKind::Unsigned32 => 4,
        FieldKind::Unsigned64 => 8,
        FieldKind::Flag => 1,
        FieldKind::Key => 32,
        FieldKind::Sig => 64,
        FieldKind::Segment => 8,
    }
}

/// The slot size of a kind, executable form.
pub fn kind_slot_len_exec(k: FieldKind) -> (r: u32)
    ensures
        r == kind_slot_len(k),
{
    match k {
        FieldKind::Unsigned8 => 1,
        FieldKind::Unsigned16 => 2,
        FieldKind::Unsigned32 => 4,
        FieldKind::Unsigned64 => 8,
        FieldKind::Flag => 1,
        FieldKind::Key => 32,
        FieldKind::Sig => 64,
        FieldKind::Segment => 8,
    }
}

/// The total size of the fixed part of a layout.
pub open spec fn fixed_total(kinds: Seq<FieldKind>) -> int
    decreases kinds.len(),
{
    if kinds.len() == 0 {
        0
    } else {
        kind_slot_len(kinds[0]) + fixed_total(kinds.drop_first())
    }
}

/// The segment payload bytes of one ghost value.
pub open spec fn seg_bytes(v: FieldV) -> Seq<u8> {
    match v {
        FieldV::Segment(d) => d,
        _ => Seq::<u8>::empty(),
    }
}

/// The total number of segment bytes of a value list.
pub open spec fn seg_total(vs: Seq<FieldV>) -> int
    decreases vs.len(),
{
    if vs.len() == 0 {
        0
    } else {
        seg_bytes(vs[0]).len() + seg_total(vs.drop_first())
    }
}

/// The kinds of a value list, in order.
pub open spec fn kinds_of(vs: Seq<FieldV>) -> Seq<FieldKind> {
    vs.map_values(|v: FieldV| v.kind())
}

/// Validates one segment reference against the running segment cursor.
///
/// `segpos` is where the previous segment ended (or the start of the
/// segment area for the first segment); `limit` is the end of the segment
/// area, which excludes the trailing signature. `position` is the byte
/// position of the slot, reported in errors. An empty segment may carry a
/// zero pointer or point at the cursor; any other pointer must equal the
/// cursor exactly: below is an overlap, above is a gap. The end of the
/// segment must stay within the limit.
pub fn check_segment(ptr: u32, count: u32, segpos: u32, limit: u32, position: u32) -> (r: Result<
    u32,
    EncodingError,
>)
    requires
        segpos <= limit,
    ensures
        count == 0 && (ptr == 0 || ptr == segpos) ==> r == Ok::<u32, EncodingError>(segpos),
        !(count == 0 && (ptr == 0 || ptr == segpos)) && ptr < segpos ==> r == Err::<
            u32,
            EncodingError,
        >(EncodingError::OverlappingSegment { last_end: segpos, start: ptr }),
        !(count == 0 && (ptr == 0 || ptr == segpos)) && ptr > segpos ==> r == Err::<
            u32,
            EncodingError,
        >(EncodingError::SpaceBetweenSegments { last_end: segpos, start: ptr }),
        !(count == 0 && (ptr == 0 || ptr == segpos)) && ptr == segpos && count > limit - segpos
            ==> r == Err::<u32, EncodingError>(
            EncodingError::IncorrectSegmentReference { position, value: ptr },
        ),
        !(count == 0 && (ptr == 0 || ptr == segpos)) && ptr == segpos && count <= limit - segpos
            ==> r == Ok::<u32, EncodingError>((segpos + count) as u32),
        r matches Ok(end) ==> segpos <= end <= limit,
{
    if count == 0 && (ptr == 0 || ptr == segpos) {
        return Ok(segpos);
    }
    if ptr < segpos {
        return Err(EncodingError::OverlappingSegment { last_end: segpos, start: ptr });
    }
    if ptr > segpos {
        return Err(EncodingError::SpaceBetweenSegments { last_end: segpos, start: ptr });
    }
    if count > limit - segpos {
        return Err(EncodingError::IncorrectSegmentReference { position, value: ptr });
    }
    Ok(segpos + count)
}


/// The two little-endian bytes of a value, lowest byte first.
pub open spec fn bytes2(v: int) -> Seq<u8> {
    seq![(v % 0x100) as u8, ((v / 0x100) % 0x100) as u8]
}

/// The four little-endian bytes of a value, lowest byte first.
pub open spec fn bytes4(v: int) -> Seq<u8> {
    bytes2(v % 0x10000) + bytes2(v / 0x10000)
}

/// The eight little-endian bytes of a value, lowest byte first.
pub open spec fn bytes8(v: int) -> Seq<u8> {
    bytes4(v % 0x100000000) + bytes4(v / 0x100000000)
}

/// The fixed-part slot bytes of one ghost value, where `segpos` is the
/// absolute position its segment payload would take.
pub open spec fn slot_bytes(v: FieldV, segpos: int) -> Seq<u8> {
    match v {
        FieldV::U8(x) => seq![x],
        FieldV::U16(x) => bytes2(x as int),
        FieldV::U32(x) => bytes4(x as int),
        FieldV::U64(x) => bytes8(x as int),
        FieldV::Flag(b) => seq![if b { 1u8 } else { 0u8 }],
        FieldV::Key(k) => k,
        FieldV::Sig(s) => s,
        FieldV::Segment(d) => bytes4(segpos) + bytes4(d.len() as int),
    }
}

/// The fixed part of the encoding of a value list, with its first segment
/// payload placed at absolute position `segpos`.
pub open spec fn enc_fixed(vs: Seq<FieldV>, segpos: int) -> Seq<u8>
    decreases vs.len(),
{
    if vs.len() == 0 {
        Seq::<u8>::empty()
    } else {
        slot_bytes(vs[0], segpos) + enc_fixed(vs.drop_first(), segpos + seg_bytes(vs[0]).len())
    }
}

/// The segment area of the encoding of a value list: payloads one after
/// another in field order.
pub open spec fn enc_segs(vs: Seq<FieldV>) -> Seq<u8>
    decreases vs.len(),
{
    if vs.len() == 0 {
        Seq::<u8>::empty()
    } else {
        seg_bytes(vs[0]) + enc_segs(vs.drop_first())
    }
}

/// The whole encoded body of a value list whose segment area starts at
/// absolute position `segstart`.
pub open spec fn spec_body(vs: Seq<FieldV>, segstart: int) -> Seq<u8> {
    enc_fixed(vs, segstart) + enc_segs(vs)
}

/// Splitting a value list splits its segment byte count.
pub proof fn lemma_seg_total_split(vs: Seq<FieldV>, i: int)
    requires
        0 <= i <= vs.len(),
    ensures
        seg_total(vs) == seg_total(vs.take(i)) + seg_total(vs.skip(i)),
    decreases i,
{
    if i == 0 {
        assert(vs.take(0) =~= Seq::<FieldV>::empty());
        assert(vs.skip(0) =~= vs);
    } else {
        lemma_seg_total_split(vs.drop_first(), i - 1);
        assert(vs.take(i).drop_first() =~= vs.drop_first().take(i - 1));
        assert(vs.skip(i) =~= vs.drop_first().skip(i - 1));
        assert(seg_total(vs.take(i)) == seg_bytes(vs[0]).len() + seg_total(
            vs.drop_first().take(i - 1),
        ));
    }
}

/// Segment byte counts are never negative.
pub proof fn lemma_seg_total_nonneg(vs: Seq<FieldV>)
    ensures
        seg_total(vs) >= 0,
    decreases vs.len(),
{
    if vs.len() > 0 {
        lemma_seg_total_nonneg(vs.drop_first());
    }
}

/// Fixed sizes are never negative.
pub proof fn lemma_fixed_total_nonneg(kinds: Seq<FieldKind>)
    ensures
        fixed_total(kinds) >= 0,
    decreases kinds.len(),
{
    if kinds.len() > 0 {
        lemma_fixed_total_nonneg(kinds.drop_first());
    }
}

/// Appending one value extends both encoded streams at the end.
pub proof fn lemma_enc_push(vs: Seq<FieldV>, v: FieldV, segpos: int)
    ensures
        enc_fixed(vs.push(v), segpos) == enc_fixed(vs, segpos) + slot_bytes(
            v,
            segpos + seg_total(vs),
        ),
        enc_segs(vs.push(v)) == enc_segs(vs) + seg_bytes(v),
        seg_total(vs.push(v)) == seg_total(vs) + seg_bytes(v).len(),
    decreases vs.len(),
{
    if vs.len() == 0 {
        let ev = Seq::<FieldV>::empty();
        let eb = Seq::<u8>::empty();
        assert(vs =~= ev);
        assert(vs.push(v).len() == 1);
        assert(vs.push(v)[0] == v);
        assert(vs.push(v).drop_first() =~= ev);
        assert(enc_fixed(ev, segpos + seg_bytes(v).len()) == eb);
        assert(enc_fixed(vs.push(v), segpos) == slot_bytes(v, segpos) + eb);
        assert(seg_total(ev) == 0);
        assert(enc_fixed(ev, segpos) == eb);
        assert(enc_fixed(vs.push(v), segpos) =~= enc_fixed(vs, segpos) + slot_bytes(
            v,
            segpos + seg_total(vs),
        ));
        assert(enc_segs(ev) == eb);
        assert(enc_segs(vs.push(v)) == seg_bytes(v) + enc_segs(ev));
        assert(enc_segs(vs.push(v)) =~= enc_segs(vs) + seg_bytes(v));
        assert(seg_total(vs.push(v)) == seg_bytes(v).len() + seg_total(ev));
    } else {
        lemma_enc_push(vs.drop_first(), v, segpos + seg_bytes(vs[0]).len());
        assert(vs.push(v).drop_first() =~= vs.drop_first().push(v));
        assert(vs.push(v)[0] == vs[0]);
        assert(enc_fixed(vs.push(v), segpos) =~= enc_fixed(vs, segpos) + slot_bytes(
            v,
            segpos + seg_total(vs),
        ));
        assert(enc_segs(vs.push(v)) =~= enc_segs(vs) + seg_bytes(v));
    }
}

/// Whether every value in a list is well formed.
pub open spec fn wf_all(vs: Seq<FieldV>) -> bool {
    forall|j: int| 0 <= j < vs.len() ==> (#[trigger] vs[j]).wf()
}

/// A well-formed slot is exactly as long as its kind's slot size.
pub proof fn lemma_slot_len(v: FieldV, segpos: int)
    requires
        v.wf(),
    ensures
        slot_bytes(v, segpos).len() == kind_slot_len(v.kind()),
{
    match v {
        FieldV::U8(x) => {},
        FieldV::U16(x) => {},
        FieldV::U32(x) => {},
        FieldV::U64(x) => {},
        FieldV::Flag(b) => {},
        FieldV::Key(k) => {},
        FieldV::Sig(sg) => {},
        FieldV::Segment(d) => {},
    }
}

/// The fixed part of an encoding of well-formed values is exactly as long
/// as the layout says.
pub proof fn lemma_enc_fixed_len(vs: Seq<FieldV>, segpos: int)
    requires
        wf_all(vs),
    ensures
        enc_fixed(vs, segpos).len() == fixed_total(kinds_of(vs)),
    decreases vs.len(),
{
    if vs.len() > 0 {
        assert(vs[0].wf());
        assert(wf_all(vs.drop_first())) by {
            assert(forall|j: int|
                0 <= j < vs.drop_first().len() ==> vs.drop_first()[j] == vs[j + 1]);
        };
        lemma_enc_fixed_len(vs.drop_first(), segpos + seg_bytes(vs[0]).len());
        lemma_slot_len(vs[0], segpos);
        assert(kinds_of(vs).drop_first() =~= kinds_of(vs.drop_first()));
        assert(kinds_of(vs)[0] == vs[0].kind());
    } else {
        assert(kinds_of(vs) =~= Seq::<FieldKind>::empty());
    }
}

/// The segment area of an encoding holds exactly the segment bytes.
pub proof fn lemma_enc_segs_len(vs: Seq<FieldV>)
    ensures
        enc_segs(vs).len() == seg_total(vs),
    decreases vs.len(),
{
    if vs.len() > 0 {
        lemma_enc_segs_len(vs.drop_first());
    }
}

/// Pushes the two little-endian bytes of `v` onto `out`.
pub fn push_u16_bytes(out: &mut Vec<u8>, v: u16)
    ensures
        final(out)@ == old(out)@ + bytes2(v as int),
{
    out.push((v % 0x100) as u8);
    out.push((v / 0x100) as u8);
    proof {
        assert((v / 0x100) % 0x100 == v / 0x100);
        assert(out@ =~= old(out)@ + bytes2(v as int));
    }
}

/// Pushes the four little-endian bytes of `v` onto `out`.
pub fn push_u32_bytes(out: &mut Vec<u8>, v: u32)
    ensures
        final(out)@ == old(out)@ + bytes4(v as int),
{
    push_u16_bytes(out, (v % 0x10000) as u16);
    push_u16_bytes(out, (v / 0x10000) as u16);
    proof {
        assert(out@ =~= old(out)@ + bytes4(v as int));
    }
}

/// Pushes the eight little-endian bytes of `v` onto `out`.
pub fn push_u64_bytes(out: &mut Vec<u8>, v: u64)
    ensures
        final(out)@ == old(out)@ + bytes8(v as int),
{
    push_u32_bytes(out, (v % 0x100000000) as u32);
    push_u32_bytes(out, (v / 0x100000000) as u32);
    proof {
        assert(out@ =~= old(out)@ + bytes8(v as int));
    }
}


/// Appends the fixed-part slot bytes of one value to `out`; `segpos` is
/// the absolute position the value's segment payload takes.
pub fn push_slot(out: &mut Vec<u8>, v: &FieldValue, segpos: u32)
    requires
        v@ matches FieldV::Segment(d) ==> d.len() <= u32::MAX,
    ensures
        final(out)@ == old(out)@ + slot_bytes(v@, segpos as int),
{
    match v {
        FieldValue::U8(x) => {
            out.push(*x);
            proof {
                assert(out@ =~= old(out)@ + seq![*x]);
            }
        },
        FieldValue::U16(x) => {
            push_u16_bytes(out, *x);
        },
        FieldValue::U32(x) => {
            push_u32_bytes(out, *x);
        },
        FieldValue::U64(x) => {
            push_u64_bytes(out, *x);
        },
        FieldValue::Flag(b) => {
            out.push(if *b { 1u8 } else { 0u8 });
            proof {
                assert(out@ =~= old(out)@ + slot_bytes(v@, segpos as int));
            }
        },
        FieldValue::Key(k) => {
            crate::bytesutil::append_bytes(out, &k.0.bytes);
        },
        FieldValue::Sig(sg) => {
            crate::bytesutil::append_bytes(out, &sg.0.bytes);
        },
        FieldValue::Segment(d) => {
            push_u32_bytes(out, segpos);
            push_u32_bytes(out, d.len() as u32);
            proof {
                assert(out@ =~= old(out)@ + (bytes4(segpos as int) + bytes4(d@.len() as int)));
            }
        },
    }
}

/// Encodes a value list into its fixed part and its segment area, with
/// the segment area to start at absolute position `segstart`.
pub fn encode_body(vs: &Vec<FieldValue>, segstart: u32) -> (r: (Vec<u8>, Vec<u8>))
    requires
        segstart + seg_total(views_of(vs@)) <= u32::MAX,
    ensures
        r.0@ == enc_fixed(views_of(vs@), segstart as int),
        r.1@ == enc_segs(views_of(vs@)),
{
    let ghost views = views_of(vs@);
    let mut fixed: Vec<u8> = Vec::new();
    let mut segs: Vec<u8> = Vec::new();
    let mut segpos: u32 = segstart;
    let mut i: usize = 0;
    proof {
        assert(views.take(0) =~= Seq::<FieldV>::empty());
        assert(fixed@ =~= enc_fixed(views.take(0), segstart as int));
        assert(segs@ =~= enc_segs(views.take(0)));
    }
    while i < vs.len()
        invariant
            i <= vs@.len(),
            views == views_of(vs@),
            views.len() == vs@.len(),
            segstart + seg_total(views) <= u32::MAX,
            fixed@ == enc_fixed(views.take(i as int), segstart as int),
            segs@ == enc_segs(views.take(i as int)),
            segpos == segstart + seg_total(views.take(i as int)),
            segpos <= u32::MAX,
        decreases vs@.len() - i,
    {
        proof {
            lemma_seg_total_split(views, i as int);
            assert(views.skip(i as int)[0] == views[i as int]);
            assert(views.skip(i as int).drop_first() =~= views.skip(i + 1 as int));
            lemma_seg_total_nonneg(views.skip(i + 1 as int));
            lemma_seg_total_nonneg(views.take(i as int));
            assert(seg_total(views) == seg_total(views.take(i as int)) + seg_bytes(
                views[i as int],
            ).len() + seg_total(views.skip(i + 1 as int)));
            assert(views[i as int] == vs@[i as int]@);
        }
        push_slot(&mut fixed, &vs[i], segpos);
        match &vs[i] {
            FieldValue::Segment(d) => {
                crate::bytesutil::append_bytes(&mut segs, d);
                segpos = segpos + (d.len() as u32);
            },
            _ => {},
        }
        proof {
            lemma_enc_push(views.take(i as int), views[i as int], segstart as int);
            assert(views.take(i as int).push(views[i as int]) =~= views.take(i + 1 as int));
            lemma_seg_total_split(views, i + 1 as int);
        }
        i += 1;
    }
    proof {
        assert(views.take(vs@.len() as int) =~= views);
    }
    (fixed, segs)
}


/// Prepends a value to a successful decode, passing an error through.
pub open spec fn dec_cons(v: FieldV, rest: Result<Seq<FieldV>, EncodingError>) -> Result<
    Seq<FieldV>,
    EncodingError,
> {
    match rest {
        Ok(t) => Ok(seq![v] + t),
        Err(e) => Err(e),
    }
}

/// Decodes the fields of layout `kinds` from `raw`, the fixed cursor at
/// `fpos` and the segment cursor at `segpos`; `limit` is the end of the
/// segment area. Every field is checked: a decoder that follows this
/// function validates all fields before any is used.
pub open spec fn dec_from(
    raw: Seq<u8>,
    kinds: Seq<FieldKind>,
    fpos: int,
    segpos: int,
    limit: int,
) -> Result<Seq<FieldV>, EncodingError>
    decreases kinds.len(),
{
    if kinds.len() == 0 {
        Ok(Seq::<FieldV>::empty())
    } else {
        let rest = kinds.drop_first();
        match kinds[0] {
            FieldKind::Unsigned8 => dec_cons(
                FieldV::U8(raw[fpos]),
                dec_from(raw, rest, fpos + 1, segpos, limit),
            ),
            FieldKind::Unsigned16 => dec_cons(
                FieldV::U16(le16(raw, fpos) as u16),
                dec_from(raw, rest, fpos + 2, segpos, limit),
            ),
            FieldKind::Unsigned32 => dec_cons(
                FieldV::U32(le32(raw, fpos) as u32),
                dec_from(raw, rest, fpos + 4, segpos, limit),
            ),
            FieldKind::Unsigned64 => dec_cons(
                FieldV::U64(le64(raw, fpos) as u64),
                dec_from(raw, rest, fpos + 8, segpos, limit),
            ),
            FieldKind::Flag => if raw[fpos] == 0 || raw[fpos] == 1 {
                dec_cons(FieldV::Flag(raw[fpos] == 1), dec_from(raw, rest, fpos + 1, segpos, limit))
            } else {
                Err(EncodingError::IncorrectBoolean { position: fpos as u32, value: raw[fpos] })
            },
            FieldKind::Key => dec_cons(
                FieldV::Key(raw.subrange(fpos, fpos + 32)),
                dec_from(raw, rest, fpos + 32, segpos, limit),
            ),
            FieldKind::Sig => dec_cons(
                FieldV::Sig(raw.subrange(fpos, fpos + 64)),
                dec_from(raw, rest, fpos + 64, segpos, limit),
            ),
            FieldKind::Segment => {
                let ptr = le32(raw, fpos);
                let cnt = le32(raw, fpos + 4);
                if cnt == 0 && (ptr == 0 || ptr == segpos) {
                    dec_cons(
                        FieldV::Segment(Seq::<u8>::empty()),
                        dec_from(raw, rest, fpos + 8, segpos, limit),
                    )
                } else if ptr < segpos {
                    Err(
                        EncodingError::OverlappingSegment {
                            last_end: segpos as u32,
                            start: ptr as u32,
                        },
                    )
                } else if ptr > segpos {
                    Err(
                        EncodingError::SpaceBetweenSegments {
                            last_end: segpos as u32,
                            start: ptr as u32,
                        },
                    )
                } else if cnt > limit - segpos {
                    Err(
                        EncodingError::IncorrectSegmentReference {
                            position: fpos as u32,
                            value: ptr as u32,
                        },
                    )
                } else {
                    dec_cons(
                        FieldV::Segment(raw.subrange(segpos, segpos + cnt)),
                        dec_from(raw, rest, fpos + 8, segpos + cnt, limit),
                    )
                }
            },
        }
    }
}

/// Decodes the fields of layout `kinds` beginning at field index `idx`,
/// mirroring `dec_from` exactly.
#[verifier::rlimit(60)]
pub fn decode_rec(
    raw: &Vec<u8>,
    kinds: &Vec<FieldKind>,
    idx: usize,
    fpos: u32,
    segpos: u32,
    limit: u32,
) -> (r: Result<Vec<FieldValue>, EncodingError>)
    requires
        idx <= kinds@.len(),
        fpos + fixed_total(kinds@.skip(idx as int)) <= segpos,
        segpos <= limit,
        limit <= raw@.len(),
    ensures
        (r matches Ok(vals) ==> dec_from(
            raw@,
            kinds@.skip(idx as int),
            fpos as int,
            segpos as int,
            limit as int,
        ) matches Ok(vt) && views_of(vals@) == vt),
        (r matches Err(e) ==> dec_from(
            raw@,
            kinds@.skip(idx as int),
            fpos as int,
            segpos as int,
            limit as int,
        ) == Err::<Seq<FieldV>, EncodingError>(e)),
    decreases kinds@.len() - idx,
{
    let ghost ks = kinds@.skip(idx as int);
    if idx == kinds.len() {
        proof {
            assert(ks =~= Seq::<FieldKind>::empty());
            assert(views_of(Seq::<FieldValue>::empty()) =~= Seq::<FieldV>::empty());
        }
        let empty_vals: Vec<FieldValue> = Vec::new();
        return Ok(empty_vals);
    }
    proof {
        assert(ks[0] == kinds@[idx as int]);
        assert(ks.drop_first() =~= kinds@.skip(idx + 1 as int));
        lemma_fixed_total_nonneg(ks.drop_first());
        assert(fixed_total(ks) == kind_slot_len(ks[0]) + fixed_total(ks.drop_first()));
    }
    let n: usize = raw.len();
    let kind = kinds[idx];
    let slot = kind_slot_len_exec(kind);
    assert(fpos + slot <= segpos);
    let val: FieldValue;
    let mut next_fpos: u32 = fpos + slot;
    let mut next_segpos: u32 = segpos;
    match kind {
        FieldKind::Unsigned8 => {
            val = FieldValue::U8(raw[fpos as usize]);
        },
        FieldKind::Unsigned16 => {
            val = FieldValue::U16(crate::bytesutil::read_u16_le(raw, fpos as usize));
        },
        FieldKind::Unsigned32 => {
            val = FieldValue::U32(crate::bytesutil::read_u32_le(raw, fpos as usize));
        },
        FieldKind::Unsigned64 => {
            val = FieldValue::U64(crate::bytesutil::read_u64_le(raw, fpos as usize));
        },
        FieldKind::Flag => {
            let b = raw[fpos as usize];
            if b == 0 || b == 1 {
                val = FieldValue::Flag(b == 1);
            } else {
                return Err(EncodingError::IncorrectBoolean { position: fpos, value: b });
            }
        },
        FieldKind::Key => {
            let bytes = crate::bytesutil::read_bytes(raw, fpos as usize, fpos as usize + 32);
            val = FieldValue::Key(PublicKey(crate::crypto::PublicKeySodium { bytes }));
        },
        FieldKind::Sig => {
            let bytes = crate::bytesutil::read_bytes(raw, fpos as usize, fpos as usize + 64);
            val = FieldValue::Sig(Signature(crate::crypto::SignatureSodium { bytes }));
        },
        FieldKind::Segment => {
            let ptr = crate::bytesutil::read_u32_le(raw, fpos as usize);
            let cnt = crate::bytesutil::read_u32_le(raw, fpos as usize + 4);
            if cnt == 0 && (ptr == 0 || ptr == segpos) {
                val = FieldValue::Segment(Vec::new());
            } else if ptr < segpos {
                return Err(EncodingError::OverlappingSegment { last_end: segpos, start: ptr });
            } else if ptr > segpos {
                return Err(EncodingError::SpaceBetweenSegments { last_end: segpos, start: ptr });
            } else if cnt > limit - segpos {
                return Err(EncodingError::IncorrectSegmentReference { position: fpos, value: ptr });
            } else {
                let data = crate::bytesutil::read_bytes(
                    raw,
                    segpos as usize,
                    segpos as usize + cnt as usize,
                );
                val = FieldValue::Segment(data);
                next_segpos = segpos + cnt;
            }
        },
    }
    match decode_rec(raw, kinds, idx + 1, next_fpos, next_segpos, limit) {
        Ok(mut rest) => {
            rest.insert(0, val);
            proof {
                assert(views_of(rest@) =~= seq![rest@[0]@] + views_of(rest@.drop_first()));
            }
            Ok(rest)
        },
        Err(e) => Err(e),
    }
}


/// Reading two little-endian bytes gives back the written value.
pub proof fn lemma_read16(s: Seq<u8>, i: int, v: int)
    requires
        0 <= v < 0x10000,
        0 <= i,
        i + 2 <= s.len(),
        s.subrange(i, i + 2) == bytes2(v),
    ensures
        le16(s, i) == v,
{
    assert(s[i] == bytes2(v)[0]);
    assert(s[i + 1] == bytes2(v)[1]);
    assert((v / 0x100) % 0x100 == v / 0x100);
}

/// Reading four little-endian bytes gives back the written value.
pub proof fn lemma_read32(s: Seq<u8>, i: int, v: int)
    requires
        0 <= v < 0x100000000,
        0 <= i,
        i + 4 <= s.len(),
        s.subrange(i, i + 4) == bytes4(v),
    ensures
        le32(s, i) == v,
{
    assert(s.subrange(i, i + 2) =~= bytes4(v).subrange(0, 2));
    assert(bytes4(v).subrange(0, 2) =~= bytes2(v % 0x10000));
    assert(s.subrange(i + 2, i + 4) =~= bytes4(v).subrange(2, 4));
    assert(bytes4(v).subrange(2, 4) =~= bytes2(v / 0x10000));
    lemma_read16(s, i, v % 0x10000);
    lemma_read16(s, i + 2, v / 0x10000);
}

/// Reading eight little-endian bytes gives back the written value.
pub proof fn lemma_read64(s: Seq<u8>, i: int, v: int)
    requires
        0 <= v < 0x10000000000000000,
        0 <= i,
        i + 8 <= s.len(),
        s.subrange(i, i + 8) == bytes8(v),
    ensures
        le64(s, i) == v,
{
    assert(s.subrange(i, i + 4) =~= bytes8(v).subrange(0, 4));
    assert(bytes8(v).subrange(0, 4) =~= bytes4(v % 0x100000000));
    assert(s.subrange(i + 4, i + 8) =~= bytes8(v).subrange(4, 8));
    assert(bytes8(v).subrange(4, 8) =~= bytes4(v / 0x100000000));
    lemma_read32(s, i, v % 0x100000000);
    lemma_read32(s, i + 4, v / 0x100000000);
}

/// Decoding reads back exactly the values that were encoded: the
/// round-trip law at the heart of the codec. `raw` holds the fixed part
/// of `vs` at `fpos` and the segment payloads at `segpos`, and decoding
/// `raw` under the layout of `vs` yields `vs` again.
#[verifier::rlimit(60)]
pub proof fn lemma_dec_enc(vs: Seq<FieldV>, raw: Seq<u8>, fpos: int, segpos: int, limit: int)
    requires
        wf_all(vs),
        0 <= fpos,
        fpos + fixed_total(kinds_of(vs)) <= raw.len(),
        0 <= segpos,
        segpos + seg_total(vs) <= limit,
        limit <= raw.len(),
        limit <= u32::MAX,
        raw.subrange(fpos, fpos + fixed_total(kinds_of(vs))) == enc_fixed(vs, segpos),
        raw.subrange(segpos, segpos + seg_total(vs)) == enc_segs(vs),
    ensures
        dec_from(raw, kinds_of(vs), fpos, segpos, limit) == Ok::<Seq<FieldV>, EncodingError>(vs),
    decreases vs.len(),
{
    lemma_seg_total_nonneg(vs);
    if vs.len() == 0 {
        assert(kinds_of(vs) =~= Seq::<FieldKind>::empty());
        assert(dec_from(raw, kinds_of(vs), fpos, segpos, limit) == Ok::<Seq<FieldV>, EncodingError>(
            Seq::<FieldV>::empty(),
        ));
        assert(vs =~= Seq::<FieldV>::empty());
    } else {
        let v0 = vs[0];
        let rest = vs.drop_first();
        let ks = kinds_of(vs);
        let slot = slot_bytes(v0, segpos);
        let slen = kind_slot_len(v0.kind());
        assert(v0.wf());
        assert(wf_all(rest)) by {
            assert(forall|j: int| 0 <= j < rest.len() ==> rest[j] == vs[j + 1]);
        };
        lemma_slot_len(v0, segpos);
        assert(ks[0] == v0.kind());
        assert(ks.drop_first() =~= kinds_of(rest));
        lemma_seg_total_nonneg(rest);
        lemma_fixed_total_nonneg(kinds_of(rest));
        let ftotal = fixed_total(ks);
        let fixed = enc_fixed(vs, segpos);
        lemma_enc_fixed_len(vs, segpos);
        lemma_enc_fixed_len(rest, segpos + seg_bytes(v0).len());
        lemma_enc_segs_len(vs);
        lemma_enc_segs_len(rest);
        // The slot of the first value sits at the front of the fixed part.
        assert(fixed == slot + enc_fixed(rest, segpos + seg_bytes(v0).len()));
        assert(raw.subrange(fpos, fpos + slen) =~= fixed.subrange(0, slen));
        assert(fixed.subrange(0, slen) =~= slot);
        // The fixed part of the remaining values follows it.
        assert(raw.subrange(fpos + slen, fpos + ftotal) =~= fixed.subrange(slen, ftotal));
        assert(fixed.subrange(slen, ftotal) =~= enc_fixed(rest, segpos + seg_bytes(v0).len()));
        // The segment payloads of the remaining values follow the first's.
        let segs = enc_segs(vs);
        assert(segs == seg_bytes(v0) + enc_segs(rest));
        assert(raw.subrange(segpos, segpos + seg_bytes(v0).len()) =~= segs.subrange(
            0,
            seg_bytes(v0).len() as int,
        ));
        assert(segs.subrange(0, seg_bytes(v0).len() as int) =~= seg_bytes(v0));
        assert(raw.subrange(
            segpos + seg_bytes(v0).len(),
            segpos + seg_bytes(v0).len() + seg_total(rest),
        ) =~= segs.subrange(seg_bytes(v0).len() as int, seg_total(vs)));
        assert(segs.subrange(seg_bytes(v0).len() as int, seg_total(vs)) =~= enc_segs(rest));
        lemma_dec_enc(rest, raw, fpos + slen, segpos + seg_bytes(v0).len(), limit);
        match v0 {
            FieldV::U8(x) => {
                assert(raw[fpos] == slot[0]);
                assert(seq![vs[0]] + rest =~= vs);
            },
            FieldV::U16(x) => {
                lemma_read16(raw, fpos, x as int);
                assert(seq![vs[0]] + rest =~= vs);
            },
            FieldV::U32(x) => {
                lemma_read32(raw, fpos, x as int);
                assert(seq![vs[0]] + rest =~= vs);
            },
            FieldV::U64(x) => {
                lemma_read64(raw, fpos, x as int);
                assert(seq![vs[0]] + rest =~= vs);
            },
            FieldV::Flag(b) => {
                assert(raw[fpos] == slot[0]);
                assert(seq![vs[0]] + rest =~= vs);
            },
            FieldV::Key(k) => {
                assert(raw.subrange(fpos, fpos + 32) =~= k);
                assert(seq![vs[0]] + rest =~= vs);
            },
            FieldV::Sig(sg) => {
                assert(raw.subrange(fpos, fpos + 64) =~= sg);
                assert(seq![vs[0]] + rest =~= vs);
            },
            FieldV::Segment(d) => {
                assert(slot.subrange(0, 4) =~= bytes4(segpos));
                assert(slot.subrange(4, 8) =~= bytes4(d.len() as int));
                assert(raw.subrange(fpos, fpos + 4) =~= slot.subrange(0, 4));
                assert(raw.subrange(fpos + 4, fpos + 8) =~= slot.subrange(4, 8));
                lemma_read32(raw, fpos, segpos);
                lemma_read32(raw, fpos + 4, d.len() as int);
                if d.len() == 0 {
                    assert(d =~= Seq::<u8>::empty());
                    assert(FieldV::Segment(Seq::<u8>::empty()) == v0);
                    assert(seq![vs[0]] + rest =~= vs);
                } else {
                    assert(d.len() <= limit - segpos);
                    assert(raw.subrange(segpos, segpos + d.len()) =~= d);
                    assert(seq![vs[0]] + rest =~= vs);
                }
            },
        }
    }
}


/// The kind of a field value, executable form.
pub fn field_kind(v: &FieldValue) -> (k: FieldKind)
    ensures
        k == v@.kind(),
{
    match v {
        FieldValue::U8(_) => FieldKind::Unsigned8,
        FieldValue::U16(_) => FieldKind::Unsigned16,
        FieldValue::U32(_) => FieldKind::Unsigned32,
        FieldValue::U64(_) => FieldKind::Unsigned64,
        FieldValue::Flag(_) => FieldKind::Flag,
        FieldValue::Key(_) => FieldKind::Key,
        FieldValue::Sig(_) => FieldKind::Sig,
        FieldValue::Segment(_) => FieldKind::Segment,
    }
}

/// Appending one kind adds its slot size at the end.
pub proof fn lemma_fixed_total_push(ks: Seq<FieldKind>, k: FieldKind)
    ensures
        fixed_total(ks.push(k)) == fixed_total(ks) + kind_slot_len(k),
    decreases ks.len(),
{
    if ks.len() == 0 {
        assert(ks.push(k).drop_first() =~= Seq::<FieldKind>::empty());
        assert(ks.push(k)[0] == k);
        assert(ks =~= Seq::<FieldKind>::empty());
    } else {
        lemma_fixed_total_push(ks.drop_first(), k);
        assert(ks.push(k).drop_first() =~= ks.drop_first().push(k));
        assert(ks.push(k)[0] == ks[0]);
    }
}

/// Splitting a layout splits its fixed size.
pub proof fn lemma_fixed_total_split(ks: Seq<FieldKind>, i: int)
    requires
        0 <= i <= ks.len(),
    ensures
        fixed_total(ks) == fixed_total(ks.take(i)) + fixed_total(ks.skip(i)),
    decreases i,
{
    if i == 0 {
        assert(ks.take(0) =~= Seq::<FieldKind>::empty());
        assert(ks.skip(0) =~= ks);
    } else {
        lemma_fixed_total_split(ks.drop_first(), i - 1);
        assert(ks.take(i).drop_first() =~= ks.drop_first().take(i - 1));
        assert(ks.skip(i) =~= ks.drop_first().skip(i - 1));
        assert(fixed_total(ks.take(i)) == kind_slot_len(ks[0]) + fixed_total(
            ks.drop_first().take(i - 1),
        ));
    }
}

/// The fixed size of a layout, executable form.
pub fn fixed_total_exec(kinds: &Vec<FieldKind>) -> (r: u32)
    requires
        fixed_total(kinds@) <= u32::MAX,
    ensures
        r == fixed_total(kinds@),
{
    let mut sum: u32 = 0;
    let mut i: usize = 0;
    proof {
        assert(kinds@.take(0) =~= Seq::<FieldKind>::empty());
    }
    while i < kinds.len()
        invariant
            i <= kinds@.len(),
            fixed_total(kinds@) <= u32::MAX,
            sum == fixed_total(kinds@.take(i as int)),
        decreases kinds@.len() - i,
    {
        proof {
            lemma_fixed_total_split(kinds@, i + 1 as int);
            lemma_fixed_total_nonneg(kinds@.skip(i + 1 as int));
            lemma_fixed_total_push(kinds@.take(i as int), kinds@[i as int]);
            assert(kinds@.take(i as int).push(kinds@[i as int]) =~= kinds@.take(i + 1 as int));
            lemma_fixed_total_nonneg(kinds@.take(i as int));
        }
        sum = sum + kind_slot_len_exec(kinds[i]);
        i += 1;
    }
    proof {
        assert(kinds@.take(kinds@.len() as int) =~= kinds@);
    }
    sum
}

/// The fixed size of the layout of a value list, executable form.
pub fn values_fixed_total_exec(vs: &Vec<FieldValue>) -> (r: u32)
    requires
        fixed_total(kinds_of(views_of(vs@))) <= u32::MAX,
    ensures
        r == fixed_total(kinds_of(views_of(vs@))),
{
    let ghost ks = kinds_of(views_of(vs@));
    let mut sum: u32 = 0;
    let mut i: usize = 0;
    proof {
        assert(ks.take(0) =~= Seq::<FieldKind>::empty());
    }
    while i < vs.len()
        invariant
            i <= vs@.len(),
            ks == kinds_of(views_of(vs@)),
            ks.len() == vs@.len(),
            fixed_total(ks) <= u32::MAX,
            sum == fixed_total(ks.take(i as int)),
        decreases vs@.len() - i,
    {
        proof {
            lemma_fixed_total_split(ks, i + 1 as int);
            lemma_fixed_total_nonneg(ks.skip(i + 1 as int));
            lemma_fixed_total_push(ks.take(i as int), ks[i as int]);
            assert(ks.take(i as int).push(ks[i as int]) =~= ks.take(i + 1 as int));
            lemma_fixed_total_nonneg(ks.take(i as int));
            assert(ks[i as int] == vs@[i as int]@.kind());
        }
        sum = sum + kind_slot_len_exec(field_kind(&vs[i]));
        i += 1;
    }
    proof {
        assert(ks.take(ks.len() as int) =~= ks);
    }
    sum
}


/// A successful decode yields one value per kind, each of its kind and
/// well formed.
#[verifier::rlimit(60)]
pub proof fn lemma_dec_shape(
    raw: Seq<u8>,
    kinds: Seq<FieldKind>,
    fpos: int,
    segpos: int,
    limit: int,
)
    requires
        0 <= fpos,
        fpos + fixed_total(kinds) <= segpos <= limit <= raw.len(),
    ensures
        dec_from(raw, kinds, fpos, segpos, limit) matches Ok(vs) ==> vs.len() == kinds.len()
            && (forall|i: int|
            0 <= i < vs.len() ==> (#[trigger] vs[i]).kind() == kinds[i] && vs[i].wf()),
    decreases kinds.len(),
{
    if kinds.len() > 0 {
        let rest_kinds = kinds.drop_first();
        lemma_fixed_total_nonneg(rest_kinds);
        let slot = kind_slot_len(kinds[0]);
        let f2 = fpos + slot;
        match kinds[0] {
            FieldKind::Segment => {
                let ptr = le32(raw, fpos);
                let cnt = le32(raw, fpos + 4);
                if cnt == 0 && (ptr == 0 || ptr == segpos) {
                    lemma_dec_shape(raw, rest_kinds, f2, segpos, limit);
                    shape_cons(FieldV::Segment(Seq::<u8>::empty()), kinds, dec_from(raw, rest_kinds, f2, segpos, limit));
                } else if ptr == segpos && 0 <= cnt <= limit - segpos {
                    lemma_dec_shape(raw, rest_kinds, f2, segpos + cnt, limit);
                    shape_cons(FieldV::Segment(raw.subrange(segpos, segpos + cnt)), kinds, dec_from(raw, rest_kinds, f2, segpos + cnt, limit));
                }
            },
            FieldKind::Unsigned8 => {
                lemma_dec_shape(raw, rest_kinds, f2, segpos, limit);
                shape_cons(FieldV::U8(raw[fpos]), kinds, dec_from(raw, rest_kinds, f2, segpos, limit));
            },
            FieldKind::Unsigned16 => {
                lemma_dec_shape(raw, rest_kinds, f2, segpos, limit);
                shape_cons(FieldV::U16(le16(raw, fpos) as u16), kinds, dec_from(raw, rest_kinds, f2, segpos, limit));
            },
            FieldKind::Unsigned32 => {
                lemma_dec_shape(raw, rest_kinds, f2, segpos, limit);
                shape_cons(FieldV::U32(le32(raw, fpos) as u32), kinds, dec_from(raw, rest_kinds, f2, segpos, limit));
            },
            FieldKind::Unsigned64 => {
                lemma_dec_shape(raw, rest_kinds, f2, segpos, limit);
                shape_cons(FieldV::U64(le64(raw, fpos) as u64), kinds, dec_from(raw, rest_kinds, f2, segpos, limit));
            },
            FieldKind::Flag => {
                if raw[fpos] == 0 || raw[fpos] == 1 {
                    lemma_dec_shape(raw, rest_kinds, f2, segpos, limit);
                    shape_cons(FieldV::Flag(raw[fpos] == 1), kinds, dec_from(raw, rest_kinds, f2, segpos, limit));
                }
            },
            FieldKind::Key => {
                assert(raw.subrange(fpos, fpos + 32).len() == 32);
                lemma_dec_shape(raw, rest_kinds, f2, segpos, limit);
                shape_cons(FieldV::Key(raw.subrange(fpos, fpos + 32)), kinds, dec_from(raw, rest_kinds, f2, segpos, limit));
            },
            FieldKind::Sig => {
                assert(raw.subrange(fpos, fpos + 64).len() == 64);
                lemma_dec_shape(raw, rest_kinds, f2, segpos, limit);
                shape_cons(FieldV::Sig(raw.subrange(fpos, fpos + 64)), kinds, dec_from(raw, rest_kinds, f2, segpos, limit));
            },
        }
    }
}

proof fn shape_cons(v: FieldV, kinds: Seq<FieldKind>, rest: Result<Seq<FieldV>, EncodingError>)
    requires
        kinds.len() > 0,
        v.kind() == kinds[0],
        v.wf(),
        rest matches Ok(t) ==> t.len() == kinds.drop_first().len() && (forall|i: int|
            0 <= i < t.len() ==> (#[trigger] t[i]).kind() == kinds.drop_first()[i] && t[i].wf()),
    ensures
        dec_cons(v, rest) matches Ok(vs) ==> vs.len() == kinds.len() && (forall|i: int|
            0 <= i < vs.len() ==> (#[trigger] vs[i]).kind() == kinds[i] && vs[i].wf()),
{
    match rest {
        Ok(t) => {
            let vs = seq![v] + t;
            assert(vs[0] == v);
            assert(forall|i: int| 1 <= i < vs.len() ==> vs[i] == t[i - 1]);
            assert(forall|i: int| 1 <= i < vs.len() ==> kinds.drop_first()[i - 1] == kinds[i]);
        },
        Err(e) => {},
    }
}

impl FieldValue {
    /// The public key this value holds, if it is a key field.
    pub fn into_key(self) -> (r: Option<PublicKey>)
        ensures
            (match self@ {
                FieldV::Key(k) => (r matches Some(p) && p@ == k),
                _ => r is None,
            }),
    {
        match self {
            FieldValue::Key(k) => Some(k),
            _ => None,
        }
    }

    /// The signature this value holds, if it is a signature field.
    pub fn into_sig(self) -> (r: Option<Signature>)
        ensures
            (match self@ {
                FieldV::Sig(sg) => (r matches Some(s) && s@ == sg),
                _ => r is None,
            }),
    {
        match self {
            FieldValue::Sig(s) => Some(s),
            _ => None,
        }
    }

    /// The integer this value holds, if it is an eight-byte field.
    pub fn into_u64(self) -> (r: Option<u64>)
        ensures
            (match self@ {
                FieldV::U64(x) => r == Some(x),
                _ => r is None,
            }),
    {
        match self {
            FieldValue::U64(x) => Some(x),
            _ => None,
        }
    }

    /// The byte this value holds, if it is a one-byte field.
    pub fn into_u8(self) -> (r: Option<u8>)
        ensures
            (match self@ {
                FieldV::U8(x) => r == Some(x),
                _ => r is None,
            }),
    {
        match self {
            FieldValue::U8(x) => Some(x),
            _ => None,
        }
    }

    /// The payload this value holds, if it is a segment field.
    pub fn into_segment(self) -> (r: Option<Vec<u8>>)
        ensures
            (match self@ {
                FieldV::Segment(d) => (r matches Some(b) && b@ == d),
                _ => r is None,
            }),
    {
        match self {
            FieldValue::Segment(d) => Some(d),
            _ => None,
        }
    }
}

} // verus!
