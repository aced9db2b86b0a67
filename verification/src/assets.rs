//! Asset model: content-derived asset identifiers, asset bundles, trade
//! assets, per-kind fee schedules, and the registry record kept for every
//! asset, together with their byte encodings.

use vstd::prelude::*;
use vstd::string::{StrSliceExecFns, StringExecFns, StringSliceAdditionalSpecFns};

use crate::bytesutil::{copy_bytes, eq_bytes, hex_string, spec_hex};
use crate::bytesutil::spec_digest32;
use crate::crypto::PublicKey;
use crate::encoding::{bytes4, bytes8};
use crate::error::Error;

verus! {

/// Length of an asset identifier, in bytes.
pub const ASSET_ID_LENGTH: usize = 16;

/// A content-derived asset identifier: the leading bytes of the digest of
/// the creator's public key followed by the asset's metadata string.
#[derive(Debug, Clone, PartialEq)]
pub struct AssetId {
    pub bytes: Vec<u8>,
}

impl View for AssetId {
    type V = Seq<u8>;

    open spec fn view(&self) -> Seq<u8> {
        self.bytes@
    }
}

/// The identifier derived for an asset of creator `pk` with metadata
/// bytes `meta`: the prefix of the content fold of the two together.
pub open spec fn spec_asset_id(meta: Seq<u8>, pk: Seq<u8>) -> Seq<u8> {
    spec_digest32(pk + meta).subrange(0, ASSET_ID_LENGTH as int)
}

impl AssetId {
    /// Whether the identifier holds the right number of bytes.
    pub open spec fn wf(&self) -> bool {
        self@.len() == ASSET_ID_LENGTH
    }

    /// Derives the identifier of the asset with metadata `data` created
    /// by `pub_key`.
    pub fn from_data(data: &str, pub_key: &PublicKey) -> (r: AssetId)
        ensures
            r@ == spec_asset_id(data.spec_bytes(), pub_key@),
            r.wf(),
    {
        let mut input = copy_bytes(&pub_key.0.bytes);
        let data_bytes = data.as_bytes_vec();
        crate::bytesutil::append_bytes(&mut input, &data_bytes);
        let digest = crate::crypto::digest32(&input);
        let bytes = crate::bytesutil::read_bytes(&digest.bytes, 0, ASSET_ID_LENGTH);
        AssetId { bytes }
    }

    /// An owned copy of the identifier.
    pub fn duplicate(&self) -> (r: Self)
        ensures
            r@ == self@,
    {
        AssetId { bytes: copy_bytes(&self.bytes) }
    }

    /// Whether two identifiers hold the same bytes.
    pub fn same_as(&self, other: &AssetId) -> (r: bool)
        ensures
            r == (self@ == other@),
    {
        eq_bytes(self.bytes.as_slice(), other.bytes.as_slice())
    }

    /// The hex rendering of the identifier, lower case.
    pub fn to_hex(&self) -> (r: String)
        ensures
            r@ == spec_hex(self@),
    {
        hex_string(copy_bytes(&self.bytes))
    }
}

/// An unsigned rational with a positive denominator, no greater than one:
/// the fractional part of a fee schedule.
#[derive(Debug, Clone, Copy, PartialEq)]
pub struct Fraction {
    pub num: u64,
    pub den: u64,
}

impl View for Fraction {
    type V = (int, int);

    open spec fn view(&self) -> (int, int) {
        (self.num as int, self.den as int)
    }
}

impl Fraction {
    /// Whether the fraction is well formed: a positive denominator and a
    /// value no greater than one.
    pub open spec fn wf(&self) -> bool {
        0 < self.den && self.num <= self.den
    }

    /// Builds the fraction `num / den`; fails unless `den` is positive
    /// and the value is at most one.
    pub fn new(num: u64, den: u64) -> (r: Option<Fraction>)
        ensures
            (0 < den && num <= den) ==> (r matches Some(f) && f.num == num && f.den == den
                && f.wf()),
            !(0 < den && num <= den) ==> r is None,
    {
        if 0 < den && num <= den {
            Some(Fraction { num, den })
        } else {
            None
        }
    }

    /// The fraction applied to `x`, rounding down.
    pub open spec fn spec_apply(&self, x: int) -> int {
        x * self.num / self.den as int
    }

    /// Applies the fraction to `x`, rounding down.
    pub fn apply(&self, x: u64) -> (r: u64)
        requires
            self.wf(),
        ensures
            r == self.spec_apply(x as int),
            r <= x,
    {
        proof {
            assert((x as u128) * (self.num as u128) <= u128::MAX) by (nonlinear_arith)
                requires
                    x <= u64::MAX,
                    self.num <= u64::MAX,
            ;
        }
        let wide: u128 = (x as u128) * (self.num as u128) / (self.den as u128);
        proof {
            lemma_fraction_bound(x as int, self.num as int, self.den as int);
        }
        wide as u64
    }

    /// An owned copy of the fraction.
    pub fn duplicate(&self) -> (r: Self)
        ensures
            r == self,
    {
        Fraction { num: self.num, den: self.den }
    }
}

proof fn lemma_fraction_bound(x: int, num: int, den: int)
    requires
        x >= 0,
        0 < den,
        0 <= num <= den,
    ensures
        0 <= x * num / den <= x,
{
    assert(x * num <= x * den) by (nonlinear_arith)
        requires
            x >= 0,
            num <= den,
    ;
    assert(x * num >= 0) by (nonlinear_arith)
        requires
            x >= 0,
            num >= 0,
    ;
    assert(x * den / den == x) by (nonlinear_arith)
        requires
            0 < den,
    ;
    assert(x * num / den <= x * den / den) by (nonlinear_arith)
        requires
            0 < den,
            x * num <= x * den,
    ;
    assert(x * num / den >= 0) by (nonlinear_arith)
        requires
            0 < den,
            x * num >= 0,
    ;
}

/// The fee for one kind of operation: a flat part and a fractional part
/// of the amount moved.
#[derive(Debug, Clone, Copy, PartialEq)]
pub struct Fee {
    pub fixed: u64,
    pub fraction: Fraction,
}

impl View for Fee {
    type V = (int, int, int);

    open spec fn view(&self) -> (int, int, int) {
        (self.fixed as int, self.fraction.num as int, self.fraction.den as int)
    }
}

impl Fee {
    /// Whether the fee is well formed.
    pub open spec fn wf(&self) -> bool {
        self.fraction.wf()
    }

    /// Builds a fee from its flat part and its fraction.
    pub fn new(fixed: u64, fraction: Fraction) -> (r: Fee)
        ensures
            r.fixed == fixed,
            r.fraction == fraction,
    {
        Fee { fixed, fraction }
    }

    /// The whole fee owed on an amount of `x`: the flat part plus the
    /// fraction of `x`, rounding down.
    pub open spec fn spec_on(&self, x: int) -> int {
        self.fixed + self.fraction.spec_apply(x)
    }

    /// The fee owed on an amount of `x`.
    pub fn on_amount(&self, x: u64) -> (r: u64)
        requires
            self.wf(),
            self.spec_on(x as int) <= u64::MAX,
        ensures
            r == self.spec_on(x as int),
    {
        self.fixed + self.fraction.apply(x)
    }

    /// An owned copy of the fee.
    pub fn duplicate(&self) -> (r: Self)
        ensures
            r == self,
    {
        Fee { fixed: self.fixed, fraction: self.fraction.duplicate() }
    }
}

/// The per-kind fee schedule carried in an asset's registry record.
#[derive(Debug, Clone, Copy, PartialEq)]
pub struct Fees {
    pub trade: Fee,
    pub exchange: Fee,
    pub transfer: Fee,
}

impl View for Fees {
    type V = ((int, int, int), (int, int, int), (int, int, int));

    open spec fn view(&self) -> ((int, int, int), (int, int, int), (int, int, int)) {
        (self.trade@, self.exchange@, self.transfer@)
    }
}

impl Fees {
    /// Whether every fee of the schedule is well formed.
    pub open spec fn wf(&self) -> bool {
        self.trade.wf() && self.exchange.wf() && self.transfer.wf()
    }

    /// Builds a schedule from its three fees.
    pub fn new(trade: Fee, exchange: Fee, transfer: Fee) -> (r: Fees)
        ensures
            r.trade == trade,
            r.exchange == exchange,
            r.transfer == transfer,
    {
        Fees { trade, exchange, transfer }
    }

    /// An owned copy of the schedule.
    pub fn duplicate(&self) -> (r: Self)
        ensures
            r == self,
    {
        Fees {
            trade: self.trade.duplicate(),
            exchange: self.exchange.duplicate(),
            transfer: self.transfer.duplicate(),
        }
    }
}

/// A quantity of one asset: its identifier and an amount.
#[derive(Debug, Clone, PartialEq)]
pub struct AssetBundle {
    pub id: AssetId,
    pub amount: u64,
}

impl View for AssetBundle {
    type V = (Seq<u8>, int);

    open spec fn view(&self) -> (Seq<u8>, int) {
        (self.id@, self.amount as int)
    }
}

impl AssetBundle {
    /// Whether the bundle is well formed.
    pub open spec fn wf(&self) -> bool {
        self.id.wf()
    }

    /// Builds a bundle from an identifier and an amount.
    pub fn new(id: AssetId, amount: u64) -> (r: AssetBundle)
        ensures
            r.id@ == id@,
            r.amount == amount,
    {
        AssetBundle { id, amount }
    }

    /// Builds a bundle of the asset with metadata `name` created by
    /// `pub_key`.
    pub fn from_data(name: &str, amount: u64, pub_key: &PublicKey) -> (r: AssetBundle)
        ensures
            r.id@ == spec_asset_id(name.spec_bytes(), pub_key@),
            r.amount == amount,
            r.wf(),
    {
        AssetBundle { id: AssetId::from_data(name, pub_key), amount }
    }

    /// The identifier of the asset.
    pub fn id(&self) -> (r: AssetId)
        ensures
            r@ == self.id@,
    {
        self.id.duplicate()
    }

    /// The amount bundled.
    pub fn amount(&self) -> (r: u64)
        ensures
            r == self.amount,
    {
        self.amount
    }

    /// An owned copy of the bundle.
    pub fn duplicate(&self) -> (r: Self)
        ensures
            r@ == self@,
    {
        AssetBundle { id: self.id.duplicate(), amount: self.amount }
    }
}

/// A quantity of one asset offered at a price per unit.
#[derive(Debug, Clone, PartialEq)]
pub struct TradeAsset {
    pub id: AssetId,
    pub amount: u64,
    pub price: u64,
}

impl View for TradeAsset {
    type V = (Seq<u8>, int, int);

    open spec fn view(&self) -> (Seq<u8>, int, int) {
        (self.id@, self.amount as int, self.price as int)
    }
}

impl TradeAsset {
    /// Whether the trade asset is well formed.
    pub open spec fn wf(&self) -> bool {
        self.id.wf()
    }

    /// Builds a trade asset from identifier, amount and unit price.
    pub fn new(id: AssetId, amount: u64, price: u64) -> (r: TradeAsset)
        ensures
            r.id@ == id@,
            r.amount == amount,
            r.price == price,
    {
        TradeAsset { id, amount, price }
    }

    /// Builds a trade asset by putting a price on a bundle.
    pub fn from_bundle(bundle: AssetBundle, price: u64) -> (r: TradeAsset)
        ensures
            r.id@ == bundle.id@,
            r.amount == bundle.amount,
            r.price == price,
    {
        TradeAsset { id: bundle.id, amount: bundle.amount, price }
    }

    /// The bundle this trade asset moves.
    pub fn to_bundle(&self) -> (r: AssetBundle)
        ensures
            r.id@ == self.id@,
            r.amount == self.amount,
    {
        AssetBundle { id: self.id.duplicate(), amount: self.amount }
    }

    /// The identifier of the asset.
    pub fn id(&self) -> (r: AssetId)
        ensures
            r@ == self.id@,
    {
        self.id.duplicate()
    }

    /// The amount offered.
    pub fn amount(&self) -> (r: u64)
        ensures
            r == self.amount,
    {
        self.amount
    }

    /// The price of one unit.
    pub fn price(&self) -> (r: u64)
        ensures
            r == self.price,
    {
        self.price
    }

    /// An owned copy of the trade asset.
    pub fn duplicate(&self) -> (r: Self)
        ensures
            r@ == self@,
    {
        TradeAsset { id: self.id.duplicate(), amount: self.amount, price: self.price }
    }
}

/// The description of an asset to be committed to the ledger: who will
/// hold it, its metadata string, the amount issued, and its fee schedule.
#[derive(Debug, Clone, PartialEq)]
pub struct MetaAsset {
    pub receiver: PublicKey,
    pub data: String,
    pub amount: u64,
    pub fees: Fees,
}

impl View for MetaAsset {
    type V = (Seq<u8>, Seq<char>, int, ((int, int, int), (int, int, int), (int, int, int)));

    open spec fn view(&self) -> (
        Seq<u8>,
        Seq<char>,
        int,
        ((int, int, int), (int, int, int), (int, int, int)),
    ) {
        (self.receiver@, self.data@, self.amount as int, self.fees@)
    }
}

impl MetaAsset {
    /// Whether the description is well formed.
    pub open spec fn wf(&self) -> bool {
        self.receiver.wf() && self.fees.wf()
    }

    /// Builds a description from its parts.
    pub fn new(receiver: &PublicKey, data: &str, amount: u64, fees: Fees) -> (r: MetaAsset)
        ensures
            r.receiver@ == receiver@,
            r.data@ == data@,
            r.amount == amount,
            r.fees == fees,
    {
        MetaAsset {
            receiver: receiver.duplicate(),
            data: String::from_str(data),
            amount,
            fees,
        }
    }

    /// An owned copy of the description.
    pub fn duplicate(&self) -> (r: Self)
        ensures
            r.receiver@ == self.receiver@,
            r.data@ == self.data@,
            r.amount == self.amount,
            r.fees == self.fees,
    {
        MetaAsset {
            receiver: self.receiver.duplicate(),
            data: self.data.clone(),
            amount: self.amount,
            fees: self.fees.duplicate(),
        }
    }
}

/// The registry record of one asset: its creator, the outstanding
/// amount, and its fee schedule.
#[derive(Debug, Clone, PartialEq)]
pub struct AssetInfo {
    pub creator: PublicKey,
    pub amount: u64,
    pub fees: Fees,
}

impl View for AssetInfo {
    type V = (Seq<u8>, int, ((int, int, int), (int, int, int), (int, int, int)));

    open spec fn view(&self) -> (Seq<u8>, int, ((int, int, int), (int, int, int), (int, int, int))) {
        (self.creator@, self.amount as int, self.fees@)
    }
}

impl AssetInfo {
    /// Whether the record is well formed.
    pub open spec fn wf(&self) -> bool {
        self.creator.wf() && self.fees.wf()
    }

    /// Builds a record from its parts.
    pub fn new(creator: &PublicKey, amount: u64, fees: Fees) -> (r: AssetInfo)
        ensures
            r.creator@ == creator@,
            r.amount == amount,
            r.fees == fees,
    {
        AssetInfo { creator: creator.duplicate(), amount, fees }
    }

    /// The record with `by` units fewer outstanding; fails with an
    /// asset-amount error when more would be deleted than is
    /// outstanding, never silently dropping the record.
    pub fn decrease(&self, by: u64) -> (r: Result<AssetInfo, Error>)
        ensures
            self.amount >= by ==> (r matches Ok(info) && info.creator@ == self.creator@
                && info.amount == self.amount - by && info.fees == self.fees),
            self.amount < by ==> r == Err::<AssetInfo, Error>(Error::InsufficientAssetAmount),
    {
        if self.amount < by {
            return Err(Error::InsufficientAssetAmount);
        }
        Ok(
            AssetInfo {
                creator: self.creator.duplicate(),
                amount: self.amount - by,
                fees: self.fees.duplicate(),
            },
        )
    }

    /// The record with `by` units more outstanding.
    pub fn increase(&self, by: u64) -> (r: AssetInfo)
        requires
            self.amount + by <= u64::MAX,
        ensures
            r.creator@ == self.creator@,
            r.amount == self.amount + by,
            r.fees == self.fees,
    {
        AssetInfo {
            creator: self.creator.duplicate(),
            amount: self.amount + by,
            fees: self.fees.duplicate(),
        }
    }

    /// An owned copy of the record.
    pub fn duplicate(&self) -> (r: Self)
        ensures
            r.creator@ == self.creator@,
            r.amount == self.amount,
            r.fees == self.fees,
    {
        AssetInfo {
            creator: self.creator.duplicate(),
            amount: self.amount,
            fees: self.fees.duplicate(),
        }
    }
}

/// The 24-byte encoding of one bundle: identifier, then the amount.
pub open spec fn bundle_bytes(b: (Seq<u8>, int)) -> Seq<u8> {
    b.0 + bytes8(b.1)
}

/// The encoding of a bundle list: one bundle after another.
pub open spec fn bundles_bytes(s: Seq<(Seq<u8>, int)>) -> Seq<u8>
    decreases s.len(),
{
    if s.len() == 0 {
        Seq::<u8>::empty()
    } else {
        bundle_bytes(s[0]) + bundles_bytes(s.drop_first())
    }
}

/// The 32-byte encoding of one trade asset: identifier, amount, price.
pub open spec fn trade_asset_bytes(t: (Seq<u8>, int, int)) -> Seq<u8> {
    t.0 + bytes8(t.1) + bytes8(t.2)
}

/// The encoding of a trade-asset list: one asset after another.
pub open spec fn trade_assets_bytes(s: Seq<(Seq<u8>, int, int)>) -> Seq<u8>
    decreases s.len(),
{
    if s.len() == 0 {
        Seq::<u8>::empty()
    } else {
        trade_asset_bytes(s[0]) + trade_assets_bytes(s.drop_first())
    }
}

} // verus!
