//! Byte-level helpers: comparisons, copies, and little-endian integer
//! encoding over byte vectors. All multi-byte integers on the wire are
//! little-endian.

use vstd::prelude::*;

verus! {

/// Relies on String::push: appends the given character to the end of the string.
pub assume_specification[ String::push ](s: &mut String, ch: char)
    ensures
        final(s)@ == old(s)@ + seq![ch],
;

/// Little-endian value of two bytes of `s` starting at `i`.
pub open spec fn le16(s: Seq<u8>, i: int) -> int {
    s[i] + s[i + 1] * 0x100
}

/// Little-endian value of four bytes of `s` starting at `i`.
pub open spec fn le32(s: Seq<u8>, i: int) -> int {
    le16(s, i) + le16(s, i + 2) * 0x10000
}

/// Little-endian value of eight bytes of `s` starting at `i`.
pub open spec fn le64(s: Seq<u8>, i: int) -> int {
    le32(s, i) + le32(s, i + 4) * 0x100000000
}

/// Tests two byte slices for equality.
pub fn eq_bytes(a: &[u8], b: &[u8]) -> (r: bool)
    ensures
        r == (a@ == b@),
{
    if a.len() != b.len() {
        assert(a@.len() != b@.len());
        return false;
    }
    let mut i: usize = 0;
    while i < a.len()
        invariant
            i <= a@.len(),
            a@.len() == b@.len(),
            forall|j: int| 0 <= j < i ==> a@[j] == b@[j],
        decreases a@.len() - i,
    {
        if a[i] != b[i] {
            return false;
        }
        i += 1;
    }
    proof {
        assert(a@ =~= b@);
    }
    true
}

/// Copies a byte vector.
pub fn copy_bytes(v: &Vec<u8>) -> (r: Vec<u8>)
    ensures
        r@ == v@,
{
    let mut out: Vec<u8> = Vec::new();
    let mut i: usize = 0;
    while i < v.len()
        invariant
            i <= v@.len(),
            out@ == v@.subrange(0, i as int),
        decreases v@.len() - i,
    {
        out.push(v[i]);
        assert(out@ =~= v@.subrange(0, i + 1 as int));
        i += 1;
    }
    proof {
        assert(v@.subrange(0, v@.len() as int) =~= v@);
    }
    out
}

/// Appends `src` to `dst`.
pub fn append_bytes(dst: &mut Vec<u8>, src: &Vec<u8>)
    ensures
        final(dst)@ == old(dst)@ + src@,
{
    let mut i: usize = 0;
    while i < src.len()
        invariant
            i <= src@.len(),
            dst@ == old(dst)@ + src@.subrange(0, i as int),
        decreases src@.len() - i,
    {
        dst.push(src[i]);
        assert(dst@ =~= old(dst)@ + src@.subrange(0, i + 1 as int));
        i += 1;
    }
    proof {
        assert(src@.subrange(0, src@.len() as int) =~= src@);
    }
}

/// Reads the bytes of `v` in `[from, to)` into a fresh vector.
pub fn read_bytes(v: &Vec<u8>, from: usize, to: usize) -> (r: Vec<u8>)
    requires
        from <= to <= v@.len(),
    ensures
        r@ == v@.subrange(from as int, to as int),
{
    let mut out: Vec<u8> = Vec::new();
    let mut i: usize = from;
    while i < to
        invariant
            from <= i <= to <= v@.len(),
            out@ == v@.subrange(from as int, i as int),
        decreases to - i,
    {
        out.push(v[i]);
        assert(out@ =~= v@.subrange(from as int, i + 1 as int));
        i += 1;
    }
    out
}

/// Reads a little-endian `u16` at `pos`.
pub fn read_u16_le(v: &Vec<u8>, pos: usize) -> (r: u16)
    requires
        pos + 2 <= v@.len(),
    ensures
        r == le16(v@, pos as int),
{
    let n: usize = v.len();
    assert(pos + 2 <= n);
    let b0 = v[pos];
    let b1 = v[pos + 1];
    (b0 as u16) + (b1 as u16) * 0x100
}

/// Reads a little-endian `u32` at `pos`.
pub fn read_u32_le(v: &Vec<u8>, pos: usize) -> (r: u32)
    requires
        pos + 4 <= v@.len(),
    ensures
        r == le32(v@, pos as int),
{
    let n: usize = v.len();
    assert(pos + 4 <= n);
    let lo = read_u16_le(v, pos);
    let hi = read_u16_le(v, pos + 2);
    (lo as u32) + (hi as u32) * 0x10000
}

/// Reads a little-endian `u64` at `pos`.
pub fn read_u64_le(v: &Vec<u8>, pos: usize) -> (r: u64)
    requires
        pos + 8 <= v@.len(),
    ensures
        r == le64(v@, pos as int),
{
    let n: usize = v.len();
    assert(pos + 8 <= n);
    let lo = read_u32_le(v, pos);
    let hi = read_u32_le(v, pos + 4);
    (lo as u64) + (hi as u64) * 0x100000000
}

/// Writes `val` at `pos` as two little-endian bytes.
pub fn write_u16_le(v: &mut Vec<u8>, pos: usize, val: u16)
    requires
        pos + 2 <= old(v)@.len(),
    ensures
        final(v)@.len() == old(v)@.len(),
        le16(final(v)@, pos as int) == val,
        forall|j: int| 0 <= j < final(v)@.len() && !(pos <= j < pos + 2) ==> final(v)@[j] == old(v)@[j],
{
    let n: usize = v.len();
    assert(pos + 2 <= n);
    let b0: u8 = (val % 0x100) as u8;
    let b1: u8 = (val / 0x100) as u8;
    v.set(pos, b0);
    v.set(pos + 1, b1);
    assert(b0 + b1 * 0x100 == val) by {
        assert(val == val % 0x100 + (val / 0x100) * 0x100);
    };
}

/// Writes `val` at `pos` as four little-endian bytes.
pub fn write_u32_le(v: &mut Vec<u8>, pos: usize, val: u32)
    requires
        pos + 4 <= old(v)@.len(),
    ensures
        final(v)@.len() == old(v)@.len(),
        le32(final(v)@, pos as int) == val,
        forall|j: int| 0 <= j < final(v)@.len() && !(pos <= j < pos + 4) ==> final(v)@[j] == old(v)@[j],
{
    let n: usize = v.len();
    assert(pos + 4 <= n);
    let lo: u16 = (val % 0x10000) as u16;
    let hi: u16 = (val / 0x10000) as u16;
    write_u16_le(v, pos, lo);
    write_u16_le(v, pos + 2, hi);
    assert(lo + hi * 0x10000 == val) by {
        assert(val == val % 0x10000 + (val / 0x10000) * 0x10000);
    };
}

/// Writes `val` at `pos` as eight little-endian bytes.
pub fn write_u64_le(v: &mut Vec<u8>, pos: usize, val: u64)
    requires
        pos + 8 <= old(v)@.len(),
    ensures
        final(v)@.len() == old(v)@.len(),
        le64(final(v)@, pos as int) == val,
        forall|j: int| 0 <= j < final(v)@.len() && !(pos <= j < pos + 8) ==> final(v)@[j] == old(v)@[j],
{
    let n: usize = v.len();
    assert(pos + 8 <= n);
    let lo: u32 = (val % 0x100000000) as u32;
    let hi: u32 = (val / 0x100000000) as u32;
    write_u32_le(v, pos, lo);
    write_u32_le(v, pos + 4, hi);
    assert(lo + hi * 0x100000000 == val) by {
        assert(val == val % 0x100000000 + (val / 0x100000000) * 0x100000000);
    };
}

/// The hexadecimal digit for a value below sixteen, lower case.
pub open spec fn spec_hex_digit(x: int) -> char {
    if x == 0 { '0' } else if x == 1 { '1' } else if x == 2 { '2' } else if x == 3 { '3' }
    else if x == 4 { '4' } else if x == 5 { '5' } else if x == 6 { '6' } else if x == 7 { '7' }
    else if x == 8 { '8' } else if x == 9 { '9' } else if x == 10 { 'a' } else if x == 11 { 'b' }
    else if x == 12 { 'c' } else if x == 13 { 'd' } else if x == 14 { 'e' } else { 'f' }
}

/// The lower-case hexadecimal rendering of a byte sequence, two digits a byte.
pub open spec fn spec_hex(s: Seq<u8>) -> Seq<char>
    decreases s.len(),
{
    if s.len() == 0 {
        Seq::<char>::empty()
    } else {
        seq![spec_hex_digit((s[0] / 16) as int), spec_hex_digit((s[0] % 16) as int)] + spec_hex(s.drop_first())
    }
}

fn hex_digit(x: u8) -> (c: char)
    requires
        x < 16,
    ensures
        c == spec_hex_digit(x as int),
{
    if x < 10 {
        (('0' as u8) + x) as char
    } else {
        (('a' as u8) + (x - 10)) as char
    }
}

proof fn lemma_spec_hex_push(s: Seq<u8>, i: int)
    requires
        0 <= i < s.len(),
    ensures
        spec_hex(s.subrange(0, i + 1)) == spec_hex(s.subrange(0, i)) + seq![
            spec_hex_digit((s[i] / 16) as int),
            spec_hex_digit((s[i] % 16) as int),
        ],
    decreases i,
{
    if i == 0 {
        assert(s.subrange(0, 1).drop_first() =~= s.subrange(0, 0));
        assert(spec_hex(s.subrange(0, 0)) =~= Seq::<char>::empty());
        assert(spec_hex(s.subrange(0, 1)) =~= seq![
            spec_hex_digit((s[0] / 16) as int),
            spec_hex_digit((s[0] % 16) as int),
        ]);
    } else {
        let t = s.drop_first();
        lemma_spec_hex_push(t, i - 1);
        assert(s.subrange(0, i + 1).drop_first() =~= t.subrange(0, i));
        assert(s.subrange(0, i).drop_first() =~= t.subrange(0, i - 1));
        assert(spec_hex(s.subrange(0, i + 1)) == seq![
            spec_hex_digit((s[0] / 16) as int),
            spec_hex_digit((s[0] % 16) as int),
        ] + spec_hex(t.subrange(0, i)));
        assert(spec_hex(s.subrange(0, i)) == seq![
            spec_hex_digit((s[0] / 16) as int),
            spec_hex_digit((s[0] % 16) as int),
        ] + spec_hex(t.subrange(0, i - 1)));
        assert(spec_hex(s.subrange(0, i + 1)) =~= spec_hex(s.subrange(0, i)) + seq![
            spec_hex_digit((s[i] / 16) as int),
            spec_hex_digit((s[i] % 16) as int),
        ]);
    }
}

/// Renders bytes as a lower-case hexadecimal string, two digits a byte.
pub fn hex_string(bytes: Vec<u8>) -> (r: String)
    ensures
        r@ == spec_hex(bytes@),
{
    let mut out = String::new();
    let mut i: usize = 0;
    while i < bytes.len()
        invariant
            i <= bytes@.len(),
            out@ == spec_hex(bytes@.subrange(0, i as int)),
        decreases bytes@.len() - i,
    {
        let b = bytes[i];
        out.push(hex_digit(b / 16));
        out.push(hex_digit(b % 16));
        proof {
            lemma_spec_hex_push(bytes@, i as int);
        }
        i += 1;
    }
    proof {
        assert(bytes@.subrange(0, bytes@.len() as int) =~= bytes@);
    }
    out
}


/// The seed the byte fold starts from.
pub const FOLD_SEED: u64 = 0xcbf2_9ce4_8422_2325;

/// The factor the byte fold multiplies by at each step.
pub const FOLD_FACTOR: u64 = 0x100_0000_01b3;

/// One lane of the byte fold: each byte is mixed into the accumulator
/// and the result multiplied, truncated to sixty-four bits.
pub open spec fn spec_fold64(s: Seq<u8>, acc: u64) -> u64
    decreases s.len(),
{
    if s.len() == 0 {
        acc
    } else {
        spec_fold64(
            s.drop_first(),
            ((((acc ^ (s[0] as u64)) as u128) * (FOLD_FACTOR as u128)
                % 0x1_0000_0000_0000_0000) as u64),
        )
    }
}

/// The 32-byte content fold of a byte sequence: four lanes, each seeded
/// differently, laid out little-endian. It keys registry records and
/// recorded results, and asset identifiers derive from its prefix. It
/// is deterministic but not collision resistant; where colliding keys
/// must be ruled out against an adversary, the embedding supplies a
/// cryptographic hash instead.
pub open spec fn spec_digest32(s: Seq<u8>) -> Seq<u8> {
    crate::encoding::bytes8(spec_fold64(s, FOLD_SEED) as int) + crate::encoding::bytes8(
        spec_fold64(s, FOLD_SEED ^ 1) as int,
    ) + crate::encoding::bytes8(spec_fold64(s, FOLD_SEED ^ 2) as int) + crate::encoding::bytes8(
        spec_fold64(s, FOLD_SEED ^ 3) as int,
    )
}

/// One lane of the byte fold, executable form.
pub fn fold64(s: &Vec<u8>, seed: u64) -> (r: u64)
    ensures
        r == spec_fold64(s@, seed),
{
    let mut acc: u64 = seed;
    let mut i: usize = 0;
    proof {
        assert(s@.skip(0) =~= s@);
    }
    while i < s.len()
        invariant
            i <= s@.len(),
            spec_fold64(s@, seed) == spec_fold64(s@.skip(i as int), acc),
        decreases s@.len() - i,
    {
        proof {
            assert(s@.skip(i as int)[0] == s@[i as int]);
            assert(s@.skip(i as int).drop_first() =~= s@.skip(i + 1 as int));
        }
        let mixed: u64 = acc ^ (s[i] as u64);
        acc = (((mixed as u128) * (FOLD_FACTOR as u128)) % 0x1_0000_0000_0000_0000) as u64;
        i += 1;
    }
    proof {
        assert(s@.skip(s@.len() as int) =~= Seq::<u8>::empty());
    }
    acc
}

} // verus!
