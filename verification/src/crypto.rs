//! Key, signature and digest types. Signing, signature verification and
//! cryptographic hashing are outside collaborators: the library carries
//! keys and signatures as plain bytes, exposes the exact byte strings
//! they cover, and leaves the primitives to the embedding. Identifiers
//! and result keys use the library's own fully specified content fold.

use vstd::prelude::*;

use crate::bytesutil::{copy_bytes, eq_bytes, hex_string, spec_hex};

verus! {

/// Length of an Ed25519 public key, in bytes.
pub const PUBLIC_KEY_LENGTH: usize = 32;

/// Length of an Ed25519 secret key, in bytes.
pub const SECRET_KEY_LENGTH: usize = 64;

/// Length of an Ed25519 detached signature, in bytes.
pub const SIGNATURE_LENGTH: usize = 64;

/// Length of a SHA-256 digest, in bytes.
pub const HASH_LENGTH: usize = 32;

/// The bytes of an all-zero signature: the placeholder a message holds
/// until the embedding signs it.
pub open spec fn spec_zero_sig() -> Seq<u8> {
    Seq::new(SIGNATURE_LENGTH as nat, |i: int| 0u8)
}

/// Raw Ed25519 public key bytes.
#[derive(Debug, Clone, PartialEq)]
pub struct PublicKeySodium {
    pub bytes: Vec<u8>,
}

impl View for PublicKeySodium {
    type V = Seq<u8>;

    open spec fn view(&self) -> Seq<u8> {
        self.bytes@
    }
}

impl PublicKeySodium {
    /// A key of all zero bytes.
    pub fn zero() -> (r: Self)
        ensures
            r@ =~= Seq::new(PUBLIC_KEY_LENGTH as nat, |i: int| 0u8),
    {
        let bytes: Vec<u8> = zero_bytes(PUBLIC_KEY_LENGTH);
        PublicKeySodium { bytes }
    }

    /// Copies a key out of a slice; fails when the length is wrong.
    pub fn from_slice(b: &[u8]) -> (r: Option<Self>)
        ensures
            b@.len() == PUBLIC_KEY_LENGTH ==> (r matches Some(k) && k@ == b@),
            b@.len() != PUBLIC_KEY_LENGTH ==> r is None,
    {
        if b.len() != PUBLIC_KEY_LENGTH {
            return None;
        }
        Some(PublicKeySodium { bytes: slice_to_vec_u8(b) })
    }

    /// The key as raw bytes.
    pub fn as_ref(&self) -> (r: &[u8])
        ensures
            r@ == self@,
    {
        self.bytes.as_slice()
    }
}

/// Raw Ed25519 signature bytes.
#[derive(Debug, Clone, PartialEq)]
pub struct SignatureSodium {
    pub bytes: Vec<u8>,
}

impl View for SignatureSodium {
    type V = Seq<u8>;

    open spec fn view(&self) -> Seq<u8> {
        self.bytes@
    }
}

impl SignatureSodium {
    /// A signature of all zero bytes.
    pub fn zero() -> (r: Self)
        ensures
            r@ =~= Seq::new(SIGNATURE_LENGTH as nat, |i: int| 0u8),
    {
        let bytes: Vec<u8> = zero_bytes(SIGNATURE_LENGTH);
        SignatureSodium { bytes }
    }

    /// Copies a signature out of a slice; fails when the length is wrong.
    pub fn from_slice(b: &[u8]) -> (r: Option<Self>)
        ensures
            b@.len() == SIGNATURE_LENGTH ==> (r matches Some(s) && s@ == b@),
            b@.len() != SIGNATURE_LENGTH ==> r is None,
    {
        if b.len() != SIGNATURE_LENGTH {
            return None;
        }
        Some(SignatureSodium { bytes: slice_to_vec_u8(b) })
    }

    /// The signature as raw bytes.
    pub fn as_ref(&self) -> (r: &[u8])
        ensures
            r@ == self@,
    {
        self.bytes.as_slice()
    }
}

/// Ed25519 public key used to verify digital signatures.
#[derive(Debug, Clone, PartialEq)]
pub struct PublicKey(pub PublicKeySodium);

impl View for PublicKey {
    type V = Seq<u8>;

    open spec fn view(&self) -> Seq<u8> {
        self.0@
    }
}

impl PublicKey {
    /// Whether the key holds the right number of bytes.
    pub open spec fn wf(&self) -> bool {
        self@.len() == PUBLIC_KEY_LENGTH
    }

    /// A key of all zero bytes.
    pub fn zero() -> (r: Self)
        ensures
            r.wf(),
            r@ =~= Seq::new(PUBLIC_KEY_LENGTH as nat, |i: int| 0u8),
    {
        PublicKey(PublicKeySodium::zero())
    }

    /// Copies a key out of a slice; fails when the length is wrong.
    pub fn from_slice(bs: &[u8]) -> (r: Option<Self>)
        ensures
            bs@.len() == PUBLIC_KEY_LENGTH ==> (r matches Some(k) && k@ == bs@ && k.wf()),
            bs@.len() != PUBLIC_KEY_LENGTH ==> r is None,
    {
        match PublicKeySodium::from_slice(bs) {
            Some(inner) => Some(PublicKey(inner)),
            None => None,
        }
    }

    /// The key as raw bytes.
    pub fn as_ref(&self) -> (r: &[u8])
        ensures
            r@ == self@,
    {
        self.0.as_ref()
    }

    /// An owned copy of the key.
    pub fn duplicate(&self) -> (r: Self)
        ensures
            r@ == self@,
    {
        PublicKey(PublicKeySodium { bytes: copy_bytes(&self.0.bytes) })
    }

    /// Whether two keys hold the same bytes.
    pub fn same_as(&self, other: &PublicKey) -> (r: bool)
        ensures
            r == (self@ == other@),
    {
        eq_bytes(self.0.bytes.as_slice(), other.0.bytes.as_slice())
    }

    /// The hex rendering of the key, lower case.
    pub fn to_hex(&self) -> (r: String)
        ensures
            r@ == spec_hex(self@),
    {
        hex_string(copy_bytes(&self.0.bytes))
    }
}

/// Ed25519 digital signature.
#[derive(Debug, Clone, PartialEq)]
pub struct Signature(pub SignatureSodium);

impl View for Signature {
    type V = Seq<u8>;

    open spec fn view(&self) -> Seq<u8> {
        self.0@
    }
}

impl Signature {
    /// Whether the signature holds the right number of bytes.
    pub open spec fn wf(&self) -> bool {
        self@.len() == SIGNATURE_LENGTH
    }

    /// A signature of all zero bytes.
    pub fn zero() -> (r: Self)
        ensures
            r.wf(),
            r@ =~= Seq::new(SIGNATURE_LENGTH as nat, |i: int| 0u8),
    {
        Signature(SignatureSodium::zero())
    }

    /// Copies a signature out of a slice; fails when the length is wrong.
    pub fn from_slice(bs: &[u8]) -> (r: Option<Self>)
        ensures
            bs@.len() == SIGNATURE_LENGTH ==> (r matches Some(s) && s@ == bs@ && s.wf()),
            bs@.len() != SIGNATURE_LENGTH ==> r is None,
    {
        match SignatureSodium::from_slice(bs) {
            Some(inner) => Some(Signature(inner)),
            None => None,
        }
    }

    /// The signature as raw bytes.
    pub fn as_ref(&self) -> (r: &[u8])
        ensures
            r@ == self@,
    {
        self.0.as_ref()
    }

    /// An owned copy of the signature.
    pub fn duplicate(&self) -> (r: Self)
        ensures
            r@ == self@,
    {
        Signature(SignatureSodium { bytes: copy_bytes(&self.0.bytes) })
    }

    /// The hex rendering of the signature, lower case.
    pub fn to_hex(&self) -> (r: String)
        ensures
            r@ == spec_hex(self@),
    {
        hex_string(copy_bytes(&self.0.bytes))
    }
}

/// Ed25519 secret key used to create digital signatures.
#[derive(Debug, Clone, PartialEq)]
pub struct SecretKey {
    pub bytes: Vec<u8>,
}

impl View for SecretKey {
    type V = Seq<u8>;

    open spec fn view(&self) -> Seq<u8> {
        self.bytes@
    }
}

impl SecretKey {
    /// Whether the key holds the right number of bytes.
    pub open spec fn wf(&self) -> bool {
        self@.len() == SECRET_KEY_LENGTH
    }

    /// A key of all zero bytes.
    pub fn zero() -> (r: Self)
        ensures
            r.wf(),
            r@ =~= Seq::new(SECRET_KEY_LENGTH as nat, |i: int| 0u8),
    {
        SecretKey { bytes: zero_bytes(SECRET_KEY_LENGTH) }
    }

    /// An owned copy of the key.
    pub fn duplicate(&self) -> (r: Self)
        ensures
            r@ == self@,
    {
        SecretKey { bytes: copy_bytes(&self.bytes) }
    }
}

/// SHA-256 digest.
#[derive(Debug, Clone, PartialEq)]
pub struct HashDigest {
    pub bytes: Vec<u8>,
}

impl View for HashDigest {
    type V = Seq<u8>;

    open spec fn view(&self) -> Seq<u8> {
        self.bytes@
    }
}

impl HashDigest {
    /// Whether the digest holds the right number of bytes.
    pub open spec fn wf(&self) -> bool {
        self@.len() == HASH_LENGTH
    }

    /// An owned copy of the digest.
    pub fn duplicate(&self) -> (r: Self)
        ensures
            r@ == self@,
    {
        HashDigest { bytes: copy_bytes(&self.bytes) }
    }

    /// Whether two digests hold the same bytes.
    pub fn same_as(&self, other: &HashDigest) -> (r: bool)
        ensures
            r == (self@ == other@),
    {
        eq_bytes(self.bytes.as_slice(), other.bytes.as_slice())
    }

    /// The hex rendering of the digest, lower case.
    pub fn to_hex(&self) -> (r: String)
        ensures
            r@ == spec_hex(self@),
    {
        hex_string(copy_bytes(&self.bytes))
    }
}

fn zero_bytes(n: usize) -> (r: Vec<u8>)
    ensures
        r@ =~= Seq::new(n as nat, |i: int| 0u8),
{
    let mut out: Vec<u8> = Vec::new();
    let mut i: usize = 0;
    while i < n
        invariant
            i <= n,
            out@ =~= Seq::new(i as nat, |j: int| 0u8),
        decreases n - i,
    {
        out.push(0u8);
        i += 1;
    }
    out
}

fn slice_to_vec_u8(b: &[u8]) -> (r: Vec<u8>)
    ensures
        r@ == b@,
{
    let mut out: Vec<u8> = Vec::new();
    let mut i: usize = 0;
    while i < b.len()
        invariant
            i <= b@.len(),
            out@ == b@.subrange(0, i as int),
        decreases b@.len() - i,
    {
        out.push(b[i]);
        assert(out@ =~= b@.subrange(0, i + 1 as int));
        i += 1;
    }
    proof {
        assert(b@.subrange(0, b@.len() as int) =~= b@);
    }
    out
}

/// The 32-byte content fold of the given bytes: the key under which
/// registry records and recorded results are stored. The fold is
/// deterministic but not collision resistant: it detects accidents,
/// not adversaries. An embedding that keys adversarial input should
/// derive the digest with its cryptographic hash instead and store it
/// through `HashDigest::from_slice`.
pub fn digest32(m: &Vec<u8>) -> (r: HashDigest)
    ensures
        r@ == crate::bytesutil::spec_digest32(m@),
        r.wf(),
{
    let l0 = crate::bytesutil::fold64(m, crate::bytesutil::FOLD_SEED);
    let l1 = crate::bytesutil::fold64(m, crate::bytesutil::FOLD_SEED ^ 1);
    let l2 = crate::bytesutil::fold64(m, crate::bytesutil::FOLD_SEED ^ 2);
    let l3 = crate::bytesutil::fold64(m, crate::bytesutil::FOLD_SEED ^ 3);
    let mut bytes: Vec<u8> = Vec::new();
    crate::encoding::push_u64_bytes(&mut bytes, l0);
    crate::encoding::push_u64_bytes(&mut bytes, l1);
    crate::encoding::push_u64_bytes(&mut bytes, l2);
    crate::encoding::push_u64_bytes(&mut bytes, l3);
    proof {
        assert(bytes@ =~= crate::bytesutil::spec_digest32(m@));
    }
    HashDigest { bytes }
}

} // verus!
