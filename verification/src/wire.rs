//! Byte encodings of the domain records that travel inside message
//! segments: asset bundles, trade assets, fee schedules, intermediaries
//! and asset descriptions, with their parsers.

use vstd::prelude::*;
use vstd::string::{StrSliceExecFns, StringSliceAdditionalSpecFns};

use crate::assets::{AssetBundle, AssetId, Fee, Fees, TradeAsset};
use crate::bytesutil::{append_bytes, le64, read_bytes, read_u64_le};
use crate::encoding::{bytes4, bytes8, EncodingError};
use crate::wallet::bviews;

verus! {

/// Relies on core::str::from_utf8: it parses exactly the valid UTF-8
/// byte strings, and the parsed text re-encodes to the input bytes.
#[verifier::external_body]
pub fn bytes_to_string(b: &Vec<u8>) -> (r: Option<String>)
    ensures
        r is Some <==> vstd::utf8::valid_utf8(b@),
        r matches Some(s) ==> s@ == vstd::utf8::decode_utf8(b@) && vstd::utf8::encode_utf8(s@)
            == b@,
{
    match core::str::from_utf8(b.as_slice()) {
        Ok(s) => Some(s.to_owned()),
        Err(_) => None,
    }
}

/// The 24-byte encoding of one bundle: 16 identifier bytes, then the
/// amount.
pub open spec fn bundle_bytes(b: (Seq<u8>, int)) -> Seq<u8> {
    b.0 + bytes8(b.1)
}

/// The encoding of a bundle list, one bundle after another.
pub open spec fn bundles_bytes(s: Seq<(Seq<u8>, int)>) -> Seq<u8>
    decreases s.len(),
{
    if s.len() == 0 {
        Seq::<u8>::empty()
    } else {
        bundle_bytes(s[0]) + bundles_bytes(s.drop_first())
    }
}

/// The bundle list read back from `b`: a multiple of 24 bytes, each
/// record an identifier and an amount.
pub open spec fn parse_bundles(b: Seq<u8>) -> Option<Seq<(Seq<u8>, int)>>
    decreases b.len(),
{
    if b.len() == 0 {
        Some(Seq::<(Seq<u8>, int)>::empty())
    } else if b.len() < 24 {
        None
    } else {
        match parse_bundles(b.skip(24)) {
            None => None,
            Some(t) => Some(seq![(b.subrange(0, 16), le64(b, 16))] + t),
        }
    }
}

/// Appending one bundle extends the byte stream at the end.
pub proof fn lemma_bundles_push(s: Seq<(Seq<u8>, int)>, b: (Seq<u8>, int))
    ensures
        bundles_bytes(s.push(b)) == bundles_bytes(s) + bundle_bytes(b),
    decreases s.len(),
{
    if s.len() == 0 {
        let ev = Seq::<(Seq<u8>, int)>::empty();
        assert(s =~= ev);
        assert(s.push(b)[0] == b);
        assert(s.push(b).drop_first() =~= ev);
        assert(bundles_bytes(ev) == Seq::<u8>::empty());
        assert(bundles_bytes(s.push(b)) == bundle_bytes(b) + bundles_bytes(ev));
        assert(bundles_bytes(s.push(b)) =~= bundles_bytes(s) + bundle_bytes(b));
    } else {
        lemma_bundles_push(s.drop_first(), b);
        assert(s.push(b)[0] == s[0]);
        assert(s.push(b).drop_first() =~= s.drop_first().push(b));
        assert(bundles_bytes(s.push(b)) =~= bundles_bytes(s) + bundle_bytes(b));
    }
}

/// Parsing reads back exactly the bundles that were encoded.
pub proof fn lemma_parse_bundles(s: Seq<(Seq<u8>, int)>)
    requires
        forall|i: int|
            0 <= i < s.len() ==> (#[trigger] s[i]).0.len() == 16 && 0 <= s[i].1 < 0x10000000000000000,
    ensures
        parse_bundles(bundles_bytes(s)) == Some(s),
    decreases s.len(),
{
    if s.len() == 0 {
        assert(bundles_bytes(s) =~= Seq::<u8>::empty());
    } else {
        let rest = s.drop_first();
        assert(forall|i: int| 0 <= i < rest.len() ==> rest[i] == s[i + 1]);
        lemma_parse_bundles(rest);
        let b = bundles_bytes(s);
        assert(b == bundle_bytes(s[0]) + bundles_bytes(rest));
        assert(bundle_bytes(s[0]).len() == 24);
        assert(b.skip(24) =~= bundles_bytes(rest));
        assert(b.subrange(0, 16) =~= s[0].0);
        assert(b.subrange(16, 24) =~= bytes8(s[0].1));
        crate::encoding::lemma_read64(b, 16, s[0].1);
        assert(seq![(b.subrange(0, 16), le64(b, 16))] + rest =~= s);
    }
}

/// Encodes a bundle list.
pub fn encode_bundles(v: &Vec<AssetBundle>) -> (r: Vec<u8>)
    ensures
        r@ == bundles_bytes(bviews(v@)),
{
    let ghost m = bviews(v@);
    let mut out: Vec<u8> = Vec::new();
    let mut i: usize = 0;
    proof {
        assert(m.take(0) =~= Seq::<(Seq<u8>, int)>::empty());
        assert(out@ =~= bundles_bytes(m.take(0)));
    }
    while i < v.len()
        invariant
            i <= v@.len(),
            m == bviews(v@),
            m.len() == v@.len(),
            out@ == bundles_bytes(m.take(i as int)),
        decreases v@.len() - i,
    {
        proof {
            assert(m[i as int] == v@[i as int]@);
        }
        append_bytes(&mut out, &v[i].id.bytes);
        crate::encoding::push_u64_bytes(&mut out, v[i].amount);
        proof {
            lemma_bundles_push(m.take(i as int), m[i as int]);
            assert(m.take(i as int).push(m[i as int]) =~= m.take(i + 1 as int));
            assert(out@ =~= bundles_bytes(m.take(i + 1 as int)));
        }
        i += 1;
    }
    proof {
        assert(m.take(m.len() as int) =~= m);
    }
    out
}

/// Decodes a bundle list; a tail shorter than one record is rejected.
pub fn decode_bundles(b: &Vec<u8>) -> (r: Result<Vec<AssetBundle>, EncodingError>)
    ensures
        (r matches Ok(vs) ==> parse_bundles(b@) matches Some(t) && bviews(vs@) == t),
        (r is Err ==> parse_bundles(b@) is None),
        (r matches Ok(vs) ==> forall|i: int| 0 <= i < vs@.len() ==> (#[trigger] vs@[i]).wf()),
{
    let mut out: Vec<AssetBundle> = Vec::new();
    let mut pos: usize = 0;
    let n = b.len();
    proof {
        assert(b@.skip(0) =~= b@);
    }
    while pos < n
        invariant
            pos <= n,
            n == b@.len(),
            pos % 24 == 0,
            (match parse_bundles(b@.skip(pos as int)) {
                Some(t) => parse_bundles(b@) matches Some(w) && w == bviews(out@) + t,
                None => parse_bundles(b@) is None,
            }),
            forall|i: int| 0 <= i < out@.len() ==> (#[trigger] out@[i]).wf(),
        decreases n - pos,
    {
        if n - pos < 24 {
            proof {
                assert(b@.skip(pos as int).len() == n - pos);
                assert(parse_bundles(b@.skip(pos as int)) is None);
            }
            return Err(
                EncodingError::IncorrectSegmentSize {
                    position: pos as u32,
                    value: (n - pos) as u32,
                },
            );
        }
        let ghost tail = b@.skip(pos as int);
        let id_bytes = read_bytes(b, pos, pos + 16);
        let amount = read_u64_le(b, pos + 16);
        let ghost prev = out@;
        out.push(AssetBundle { id: AssetId { bytes: id_bytes }, amount });
        proof {
            assert(tail.subrange(0, 16) =~= b@.subrange(pos as int, pos + 16));
            assert(tail.subrange(16, 24) =~= b@.subrange(pos + 16, pos + 24));
            assert(crate::bytesutil::le64(tail, 16) == crate::bytesutil::le64(b@, pos + 16)) by {
                assert(tail[16] == b@[pos + 16]);
                assert(tail[17] == b@[pos + 17]);
                assert(tail[18] == b@[pos + 18]);
                assert(tail[19] == b@[pos + 19]);
                assert(tail[20] == b@[pos + 20]);
                assert(tail[21] == b@[pos + 21]);
                assert(tail[22] == b@[pos + 22]);
                assert(tail[23] == b@[pos + 23]);
            };
            assert(tail.skip(24) =~= b@.skip(pos + 24));
            assert(bviews(out@) =~= bviews(prev).push(
                (b@.subrange(pos as int, pos + 16), amount as int),
            ));
        }
        pos = pos + 24;
    }
    proof {
        assert(b@.skip(n as int) =~= Seq::<u8>::empty());
        assert(parse_bundles(b@.skip(n as int)) == Some(Seq::<(Seq<u8>, int)>::empty()));
        assert(bviews(out@) + Seq::<(Seq<u8>, int)>::empty() =~= bviews(out@));
    }
    Ok(out)
}

/// The views of a trade-asset list, in order.
pub open spec fn tviews(s: Seq<TradeAsset>) -> Seq<(Seq<u8>, int, int)> {
    Seq::new(s.len(), |i: int| s[i]@)
}

/// Appending one trade asset appends its view.
pub proof fn lemma_tviews_push(s: Seq<TradeAsset>, a: TradeAsset)
    ensures
        tviews(s.push(a)) == tviews(s).push(a@),
{
    assert forall|j: int| 0 <= j < s.len() + 1 implies tviews(s.push(a))[j] == tviews(s).push(
        a@,
    )[j] by {
        if j < s.len() {
            assert(s.push(a)[j] == s[j]);
        } else {
            assert(s.push(a)[j] == a);
        }
    }
    assert(tviews(s.push(a)) =~= tviews(s).push(a@));
}

/// The 32-byte encoding of one trade asset: identifier, amount, price.
pub open spec fn trade_asset_record(t: (Seq<u8>, int, int)) -> Seq<u8> {
    t.0 + bytes8(t.1) + bytes8(t.2)
}

/// The encoding of a trade-asset list, one record after another.
pub open spec fn trade_assets_record(s: Seq<(Seq<u8>, int, int)>) -> Seq<u8>
    decreases s.len(),
{
    if s.len() == 0 {
        Seq::<u8>::empty()
    } else {
        trade_asset_record(s[0]) + trade_assets_record(s.drop_first())
    }
}

/// The trade-asset list read back from `b`.
pub open spec fn parse_trade_assets(b: Seq<u8>) -> Option<Seq<(Seq<u8>, int, int)>>
    decreases b.len(),
{
    if b.len() == 0 {
        Some(Seq::<(Seq<u8>, int, int)>::empty())
    } else if b.len() < 32 {
        None
    } else {
        match parse_trade_assets(b.skip(32)) {
            None => None,
            Some(t) => Some(seq![(b.subrange(0, 16), le64(b, 16), le64(b, 24))] + t),
        }
    }
}

/// Appending one trade asset extends the byte stream at the end.
#[verifier::rlimit(50)]
pub proof fn lemma_trade_assets_push(s: Seq<(Seq<u8>, int, int)>, t: (Seq<u8>, int, int))
    ensures
        trade_assets_record(s.push(t)) == trade_assets_record(s) + trade_asset_record(t),
    decreases s.len(),
{
    if s.len() == 0 {
        let ev = Seq::<(Seq<u8>, int, int)>::empty();
        assert(s =~= ev);
        assert(s.push(t)[0] == t);
        assert(s.push(t).drop_first() =~= ev);
        assert(trade_assets_record(ev) == Seq::<u8>::empty());
        assert(trade_assets_record(s.push(t)) == trade_asset_record(t) + trade_assets_record(ev));
        assert(trade_assets_record(s.push(t)) =~= trade_assets_record(s) + trade_asset_record(t));
    } else {
        lemma_trade_assets_push(s.drop_first(), t);
        assert(s.push(t)[0] == s[0]);
        assert(s.push(t).drop_first() =~= s.drop_first().push(t));
        assert(trade_assets_record(s.push(t)) =~= trade_assets_record(s) + trade_asset_record(t));
    }
}

/// Parsing reads back exactly the trade assets that were encoded.
pub proof fn lemma_parse_trade_assets(s: Seq<(Seq<u8>, int, int)>)
    requires
        forall|i: int|
            0 <= i < s.len() ==> (#[trigger] s[i]).0.len() == 16 && 0 <= s[i].1
                < 0x10000000000000000 && 0 <= s[i].2 < 0x10000000000000000,
    ensures
        parse_trade_assets(trade_assets_record(s)) == Some(s),
    decreases s.len(),
{
    if s.len() == 0 {
        assert(trade_assets_record(s) =~= Seq::<u8>::empty());
    } else {
        let rest = s.drop_first();
        assert(forall|i: int| 0 <= i < rest.len() ==> rest[i] == s[i + 1]);
        lemma_parse_trade_assets(rest);
        let b = trade_assets_record(s);
        assert(b == trade_asset_record(s[0]) + trade_assets_record(rest));
        assert(trade_asset_record(s[0]).len() == 32);
        assert(b.skip(32) =~= trade_assets_record(rest));
        assert(b.subrange(0, 16) =~= s[0].0);
        assert(b.subrange(16, 24) =~= bytes8(s[0].1));
        assert(b.subrange(24, 32) =~= bytes8(s[0].2));
        crate::encoding::lemma_read64(b, 16, s[0].1);
        crate::encoding::lemma_read64(b, 24, s[0].2);
        assert(seq![(b.subrange(0, 16), le64(b, 16), le64(b, 24))] + rest =~= s);
    }
}

/// Encodes a trade-asset list.
pub fn encode_trade_assets(v: &Vec<TradeAsset>) -> (r: Vec<u8>)
    ensures
        r@ == trade_assets_record(tviews(v@)),
{
    let ghost m = tviews(v@);
    let mut out: Vec<u8> = Vec::new();
    let mut i: usize = 0;
    proof {
        assert(m.take(0) =~= Seq::<(Seq<u8>, int, int)>::empty());
        assert(out@ =~= trade_assets_record(m.take(0)));
    }
    while i < v.len()
        invariant
            i <= v@.len(),
            m == tviews(v@),
            m.len() == v@.len(),
            out@ == trade_assets_record(m.take(i as int)),
        decreases v@.len() - i,
    {
        proof {
            assert(m[i as int] == v@[i as int]@);
        }
        append_bytes(&mut out, &v[i].id.bytes);
        crate::encoding::push_u64_bytes(&mut out, v[i].amount);
        crate::encoding::push_u64_bytes(&mut out, v[i].price);
        proof {
            lemma_trade_assets_push(m.take(i as int), m[i as int]);
            assert(m.take(i as int).push(m[i as int]) =~= m.take(i + 1 as int));
            assert(out@ =~= trade_assets_record(m.take(i + 1 as int)));
        }
        i += 1;
    }
    proof {
        assert(m.take(m.len() as int) =~= m);
    }
    out
}

/// Decodes a trade-asset list; a tail shorter than one record is
/// rejected.
pub fn decode_trade_assets(b: &Vec<u8>) -> (r: Result<Vec<TradeAsset>, EncodingError>)
    ensures
        (r matches Ok(vs) ==> parse_trade_assets(b@) matches Some(t) && tviews(vs@) == t),
        (r is Err ==> parse_trade_assets(b@) is None),
        (r matches Ok(vs) ==> forall|i: int| 0 <= i < vs@.len() ==> (#[trigger] vs@[i]).wf()),
{
    let mut out: Vec<TradeAsset> = Vec::new();
    let mut pos: usize = 0;
    let n = b.len();
    proof {
        assert(b@.skip(0) =~= b@);
    }
    while pos < n
        invariant
            pos <= n,
            n == b@.len(),
            pos % 32 == 0,
            (match parse_trade_assets(b@.skip(pos as int)) {
                Some(t) => parse_trade_assets(b@) matches Some(w) && w == tviews(out@) + t,
                None => parse_trade_assets(b@) is None,
            }),
            forall|i: int| 0 <= i < out@.len() ==> (#[trigger] out@[i]).wf(),
        decreases n - pos,
    {
        if n - pos < 32 {
            proof {
                assert(b@.skip(pos as int).len() == n - pos);
                assert(parse_trade_assets(b@.skip(pos as int)) is None);
            }
            return Err(
                EncodingError::IncorrectSegmentSize {
                    position: pos as u32,
                    value: (n - pos) as u32,
                },
            );
        }
        let ghost tail = b@.skip(pos as int);
        let id_bytes = read_bytes(b, pos, pos + 16);
        let amount = read_u64_le(b, pos + 16);
        let price = read_u64_le(b, pos + 24);
        let ghost prev = out@;
        out.push(TradeAsset { id: AssetId { bytes: id_bytes }, amount, price });
        proof {
            assert(tail.subrange(0, 16) =~= b@.subrange(pos as int, pos + 16));
            assert(tail.subrange(16, 32) =~= b@.subrange(pos + 16, pos + 32));
            assert forall|k: int| 16 <= k < 32 implies tail[k] == b@[pos + k] by {}
            assert(crate::bytesutil::le64(tail, 16) == crate::bytesutil::le64(b@, pos + 16));
            assert(crate::bytesutil::le64(tail, 24) == crate::bytesutil::le64(b@, pos + 24));
            assert(tail.skip(32) =~= b@.skip(pos + 32));
            assert(tviews(out@) =~= tviews(prev).push(
                (b@.subrange(pos as int, pos + 16), amount as int, price as int),
            ));
        }
        pos = pos + 32;
    }
    proof {
        assert(b@.skip(n as int) =~= Seq::<u8>::empty());
        assert(tviews(out@) + Seq::<(Seq<u8>, int, int)>::empty() =~= tviews(out@));
    }
    Ok(out)
}

/// The 24-byte encoding of one fee: flat part, numerator, denominator.
pub open spec fn fee_record(f: (int, int, int)) -> Seq<u8> {
    bytes8(f.0) + bytes8(f.1) + bytes8(f.2)
}

/// The 72-byte encoding of a fee schedule: trade, exchange, transfer.
pub open spec fn fees_record(f: ((int, int, int), (int, int, int), (int, int, int))) -> Seq<u8> {
    fee_record(f.0) + fee_record(f.1) + fee_record(f.2)
}

/// Encodes a fee schedule.
/// Encodes one fee.
pub fn encode_fee(f: &Fee) -> (r: Vec<u8>)
    ensures
        r@ == fee_record(f@),
{
    let mut out: Vec<u8> = Vec::new();
    crate::encoding::push_u64_bytes(&mut out, f.fixed);
    crate::encoding::push_u64_bytes(&mut out, f.fraction.num);
    crate::encoding::push_u64_bytes(&mut out, f.fraction.den);
    proof {
        assert(out@ =~= fee_record(f@));
    }
    out
}

/// Encodes a fee schedule.
pub fn encode_fees(f: &Fees) -> (r: Vec<u8>)
    ensures
        r@ == fees_record(f@),
{
    let mut out = encode_fee(&f.trade);
    let second = encode_fee(&f.exchange);
    let third = encode_fee(&f.transfer);
    append_bytes(&mut out, &second);
    append_bytes(&mut out, &third);
    proof {
        assert(out@ =~= fees_record(f@));
    }
    out
}

/// The 40-byte encoding of an intermediary: its key and its commission.
pub open spec fn intermediary_record(wallet: Seq<u8>, commission: int) -> Seq<u8> {
    wallet + bytes8(commission)
}

} // verus!
