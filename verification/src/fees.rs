//! Fee policy: who bears the protocol-level flat fee, how a split fee is
//! divided, and the per-creator royalties collected on trades.

use vstd::prelude::*;

use crate::assets::TradeAsset;
use crate::crypto::PublicKey;
use crate::error::Error;
use crate::fork::{kfind, Fork};
use crate::wallet::{bviews, Wallet, WalletV};

verus! {

/// Who bears the protocol-level flat fee of a transaction.
#[derive(Debug, PartialEq, Eq, Structural, Clone, Copy)]
pub enum FeeStrategy {
    /// The receiving party pays.
    Recipient,
    /// The sending party pays.
    Sender,
    /// Both parties pay, the fee split in two parts that sum to it.
    RecipientAndSender,
    /// The intermediary pays.
    Intermediary,
}

/// The byte that encodes each strategy on the wire.
pub open spec fn strategy_byte(s: FeeStrategy) -> u8 {
    match s {
        FeeStrategy::Recipient => 1,
        FeeStrategy::Sender => 2,
        FeeStrategy::RecipientAndSender => 3,
        FeeStrategy::Intermediary => 4,
    }
}

impl FeeStrategy {
    /// Reads a strategy from its wire byte; every byte outside the four
    /// known values is rejected.
    pub fn try_from(value: u8) -> (r: Option<FeeStrategy>)
        ensures
            value == 1 ==> r == Some(FeeStrategy::Recipient),
            value == 2 ==> r == Some(FeeStrategy::Sender),
            value == 3 ==> r == Some(FeeStrategy::RecipientAndSender),
            value == 4 ==> r == Some(FeeStrategy::Intermediary),
            !(1 <= value <= 4) ==> r is None,
            r matches Some(s) ==> strategy_byte(s) == value,
    {
        match value {
            1 => Some(FeeStrategy::Recipient),
            2 => Some(FeeStrategy::Sender),
            3 => Some(FeeStrategy::RecipientAndSender),
            4 => Some(FeeStrategy::Intermediary),
            _ => None,
        }
    }

    /// The wire byte of this strategy.
    pub fn to_byte(&self) -> (r: u8)
        ensures
            r == strategy_byte(*self),
    {
        match self {
            FeeStrategy::Recipient => 1,
            FeeStrategy::Sender => 2,
            FeeStrategy::RecipientAndSender => 3,
            FeeStrategy::Intermediary => 4,
        }
    }
}

/// Splits a fee in two parts whose sum is the fee itself; any odd
/// remainder goes to the first side, the sender's.
pub fn split_fee(fee: u64) -> (r: (u64, u64))
    ensures
        r.0 == fee - fee / 2,
        r.1 == fee / 2,
        r.0 + r.1 == fee,
{
    (fee - fee / 2, fee / 2)
}

/// The flat-fee charges each strategy makes: which party pays how much.
pub open spec fn fee_charges(
    strategy: FeeStrategy,
    fee: int,
    sender: Seq<u8>,
    recipient: Seq<u8>,
    intermediary: Seq<u8>,
) -> Seq<(Seq<u8>, int)> {
    match strategy {
        FeeStrategy::Recipient => seq![(recipient, fee)],
        FeeStrategy::Sender => seq![(sender, fee)],
        FeeStrategy::RecipientAndSender => seq![(sender, fee - fee / 2), (recipient, fee / 2)],
        FeeStrategy::Intermediary => seq![(intermediary, fee)],
    }
}

/// The sum of a charge list.
pub open spec fn total_charged(s: Seq<(Seq<u8>, int)>) -> int
    decreases s.len(),
{
    if s.len() == 0 {
        0
    } else {
        s[0].1 + total_charged(s.drop_first())
    }
}

/// For every one of the four fee strategies, the flat fee charged across
/// all paying parties sums to the configured fee exactly: a split divides
/// it in two parts whose sum is the original, with any odd remainder on
/// the sender's side.
pub proof fn lemma_fee_charges_total(
    strategy: FeeStrategy,
    fee: u64,
    sender: Seq<u8>,
    recipient: Seq<u8>,
    intermediary: Seq<u8>,
)
    ensures
        total_charged(fee_charges(strategy, fee as int, sender, recipient, intermediary))
            == fee,
{
    let cs = fee_charges(strategy, fee as int, sender, recipient, intermediary);
    let e = Seq::<(Seq<u8>, int)>::empty();
    assert(total_charged(e) == 0);
    match strategy {
        FeeStrategy::RecipientAndSender => {
            let one = seq![(recipient, ((fee as int) / 2) as int)];
            assert(cs.drop_first() =~= one);
            assert(one.drop_first() =~= e);
            assert(total_charged(one) == (fee as int) / 2);
            assert(cs[0].1 == fee - (fee as int) / 2);
            assert(total_charged(cs) == fee);
        },
        _ => {
            assert(cs.drop_first() =~= e);
            assert(total_charged(cs) == fee);
        },
    }
}

/// The wallet of `k` as the working set `ws` sees it: an entry of the
/// working set, else the stored wallet, else an empty wallet.
pub open spec fn ws_wallet(
    forkw: Seq<(Seq<u8>, WalletV)>,
    ws: Seq<(Seq<u8>, WalletV)>,
    k: Seq<u8>,
) -> WalletV {
    match kfind(ws, k) {
        Some(w) => w,
        None => match kfind(forkw, k) {
            Some(w) => w,
            None => WalletV { balance: 0, assets: Seq::empty() },
        },
    }
}

/// The working set after the creator fees of `table` are taken from
/// `payer`, one entry after another: the payer is debited and each
/// creator credited through the working set, so that repeated parties
/// compose; a short payer balance stops everything with an
/// insufficient-funds error.
pub open spec fn collect_spec(
    forkw: Seq<(Seq<u8>, WalletV)>,
    ws: Seq<(Seq<u8>, WalletV)>,
    table: Seq<(Seq<u8>, int)>,
    payer: Seq<u8>,
) -> Result<Seq<(Seq<u8>, WalletV)>, Error>
    decreases table.len(),
{
    if table.len() == 0 {
        Ok(ws)
    } else {
        let creator = table[0].0;
        let fee = table[0].1;
        let pw = ws_wallet(forkw, ws, payer);
        if pw.balance < fee {
            Err(Error::InsufficientFunds)
        } else {
            let ws1 = supdate(ws, payer, WalletV { balance: pw.balance - fee, ..pw });
            let cw = ws_wallet(forkw, ws1, creator);
            let ws2 = supdate(ws1, creator, WalletV { balance: cw.balance + fee, ..cw });
            collect_spec(forkw, ws2, table.drop_first(), payer)
        }
    }
}

/// Whether collecting stays within machine bounds at every credit.
pub open spec fn collect_fits(
    forkw: Seq<(Seq<u8>, WalletV)>,
    ws: Seq<(Seq<u8>, WalletV)>,
    table: Seq<(Seq<u8>, int)>,
    payer: Seq<u8>,
) -> bool
    decreases table.len(),
{
    if table.len() == 0 {
        true
    } else {
        let creator = table[0].0;
        let fee = table[0].1;
        let pw = ws_wallet(forkw, ws, payer);
        if pw.balance < fee {
            true
        } else {
            let ws1 = supdate(ws, payer, WalletV { balance: pw.balance - fee, ..pw });
            let cw = ws_wallet(forkw, ws1, creator);
            cw.balance + fee <= u64::MAX && collect_fits(
                forkw,
                supdate(ws1, creator, WalletV { balance: cw.balance + fee, ..cw }),
                table.drop_first(),
                payer,
            )
        }
    }
}

/// The association list with `k` set to `v`: the first entry keyed `k`
/// is overwritten, or a new entry appended.
pub open spec fn supdate(
    s: Seq<(Seq<u8>, WalletV)>,
    k: Seq<u8>,
    v: WalletV,
) -> Seq<(Seq<u8>, WalletV)>
    decreases s.len(),
{
    if s.len() == 0 {
        seq![(k, v)]
    } else if s[0].0 == k {
        seq![(k, v)] + s.drop_first()
    } else {
        seq![s[0]] + supdate(s.drop_first(), k, v)
    }
}

/// `supdate` sets its key and leaves every other key alone.
pub proof fn lemma_supdate(s: Seq<(Seq<u8>, WalletV)>, k: Seq<u8>, v: WalletV)
    ensures
        kfind(supdate(s, k, v), k) == Some(v),
        forall|k2: Seq<u8>| k2 != k ==> kfind(supdate(s, k, v), k2) == kfind(s, k2),
    decreases s.len(),
{
    let s2 = supdate(s, k, v);
    if s.len() == 0 {
        assert(s2[0] == (k, v));
        assert(s2.drop_first() =~= Seq::<(Seq<u8>, WalletV)>::empty());
        assert forall|k2: Seq<u8>| k2 != k implies kfind(s2, k2) == kfind(s, k2) by {
            assert(kfind(s2, k2) == kfind(s2.drop_first(), k2));
        }
    } else if s[0].0 == k {
        assert(s2[0] == (k, v));
        assert(s2.drop_first() =~= s.drop_first());
        assert forall|k2: Seq<u8>| k2 != k implies kfind(s2, k2) == kfind(s, k2) by {
            assert(kfind(s2, k2) == kfind(s2.drop_first(), k2));
            assert(kfind(s, k2) == kfind(s.drop_first(), k2));
        }
    } else {
        lemma_supdate(s.drop_first(), k, v);
        assert(s2[0] == s[0]);
        assert(s2.drop_first() =~= supdate(s.drop_first(), k, v));
        assert forall|k2: Seq<u8>| k2 != k implies kfind(s2, k2) == kfind(s, k2) by {
            if s[0].0 != k2 {
                assert(kfind(s2, k2) == kfind(supdate(s.drop_first(), k, v), k2));
                assert(kfind(s, k2) == kfind(s.drop_first(), k2));
            }
        }
    }
}

/// A working set of wallets read and modified while one transaction
/// settles, persisted in one go when every step has gone through.
#[derive(Debug)]
pub struct WalletSet {
    pub entries: Vec<(PublicKey, Wallet)>,
}

impl View for WalletSet {
    type V = Seq<(Seq<u8>, WalletV)>;

    open spec fn view(&self) -> Seq<(Seq<u8>, WalletV)> {
        crate::fork::wentries(self.entries@)
    }
}

impl WalletSet {
    /// Whether no key repeats in the set.
    pub open spec fn wf(&self) -> bool {
        forall|i: int, j: int| 0 <= i < j < self@.len() ==> self@[i].0 != self@[j].0
    }

    /// An empty working set.
    pub fn new() -> (r: WalletSet)
        ensures
            r@.len() == 0,
            r.wf(),
    {
        WalletSet { entries: Vec::new() }
    }

    /// The wallet of `pk` as this set sees it: its own entry, else the
    /// one stored in `fork`, else an empty wallet.
    pub fn wallet_of(&self, fork: &Fork, pk: &PublicKey) -> (r: Wallet)
        ensures
            r@ == ws_wallet(fork@.wallets, self@, pk@),
    {
        let ghost entries = self@;
        let mut i: usize = 0;
        while i < self.entries.len()
            invariant
                i <= self.entries@.len(),
                entries == self@,
                entries.len() == self.entries@.len(),
                forall|j: int| 0 <= j < i ==> (#[trigger] entries[j]).0 != pk@,
            decreases self.entries@.len() - i,
        {
            if self.entries[i].0.same_as(pk) {
                proof {
                    crate::fork::lemma_kfind_at(entries, pk@, i as int);
                }
                return self.entries[i].1.duplicate();
            }
            i += 1;
        }
        proof {
            crate::fork::lemma_kfind_absent(entries, pk@);
        }
        let w = fork.fetch_wallet(pk);
        proof {
            if kfind(fork@.wallets, pk@) is None {
                assert(w@ =~= WalletV { balance: 0, assets: Seq::empty() });
            }
        }
        w
    }

    /// Sets the wallet of `pk` in this set.
    pub fn put(&mut self, pk: &PublicKey, w: Wallet)
        requires
            old(self).wf(),
        ensures
            final(self)@ == supdate(old(self)@, pk@, w@),
            final(self).wf(),
    {
        let ghost entries = self@;
        let ghost wv = w@;
        let mut i: usize = 0;
        while i < self.entries.len()
            invariant
                i <= self.entries@.len(),
                self.entries@ == old(self).entries@,
                wv == w@,
                entries == self@,
                entries.len() == self.entries@.len(),
                forall|a: int, b: int| 0 <= a < b < entries.len() ==> entries[a].0 != entries[b].0,
                forall|j: int| 0 <= j < i ==> (#[trigger] entries[j]).0 != pk@,
            decreases self.entries@.len() - i,
        {
            if self.entries[i].0.same_as(pk) {
                self.entries.set(i, (pk.duplicate(), w));
                proof {
                    lemma_supdate_at(entries, pk@, wv, i as int);
                    assert(crate::fork::wentries(self.entries@) =~= entries.update(
                        i as int,
                        (pk@, wv),
                    ));
                    let ne = entries.update(i as int, (pk@, wv));
                    assert forall|a: int, b: int|
                        0 <= a < b < ne.len() implies ne[a].0 != ne[b].0 by {
                        assert(entries[i as int].0 == pk@);
                        if a != i && b != i {
                            assert(ne[a] == entries[a]);
                            assert(ne[b] == entries[b]);
                        }
                    }
                }
                return ;
            }
            i += 1;
        }
        self.entries.push((pk.duplicate(), w));
        proof {
            lemma_supdate_absent(entries, pk@, wv);
            assert(crate::fork::wentries(self.entries@) =~= entries.push((pk@, wv)));
        }
    }

    /// Writes every wallet of this set into the fork.
    pub fn commit(self, fork: &mut Fork)
        requires
            self.wf(),
        ensures
            forall|k: Seq<u8>|
                kfind(final(fork)@.wallets, k) == (match kfind(self@, k) {
                    Some(w) => Some(w),
                    None => kfind(old(fork)@.wallets, k),
                }),
            final(fork)@.assets == old(fork)@.assets,
            final(fork)@.statuses == old(fork)@.statuses,
    {
        let ghost entries = self@;
        let rest = self.entries;
        let mut idx: usize = 0;
        proof {
            assert(entries.take(0) =~= Seq::<(Seq<u8>, WalletV)>::empty());
        }
        while idx < rest.len()
            invariant
                idx <= rest@.len(),
                entries == crate::fork::wentries(rest@),
                entries.len() == rest@.len(),
                forall|i: int, j: int| 0 <= i < j < entries.len() ==> entries[i].0 != entries[j].0,
                fork@.assets == old(fork)@.assets,
                fork@.statuses == old(fork)@.statuses,
                forall|k: Seq<u8>|
                    kfind(fork@.wallets, k) == (match kfind(entries.take(idx as int), k) {
                        Some(w) => Some(w),
                        None => kfind(old(fork)@.wallets, k),
                    }),
            decreases rest@.len() - idx,
        {
            let ghost before = fork@.wallets;
            let pk = rest[idx].0.duplicate();
            let w = rest[idx].1.duplicate();
            proof {
                assert(entries[idx as int] == (rest@[idx as int].0@, rest@[idx as int].1@));
            }
            fork.store_wallet(&pk, w);
            proof {
                assert forall|k: Seq<u8>| #![auto] true implies kfind(fork@.wallets, k) == (
                match kfind(entries.take(idx + 1 as int), k) {
                    Some(wv) => Some(wv),
                    None => kfind(old(fork)@.wallets, k),
                }) by {
                    lemma_kfind_take_one(entries, idx as int, k);
                    if k == entries[idx as int].0 {
                        assert(forall|j: int|
                            0 <= j < idx ==> (#[trigger] entries.take(idx as int)[j]).0 != k);
                        crate::fork::lemma_kfind_absent(entries.take(idx as int), k);
                    }
                }
            }
            idx += 1;
        }
        proof {
            assert(entries.take(entries.len() as int) =~= entries);
        }
    }
}

proof fn lemma_supdate_at(s: Seq<(Seq<u8>, WalletV)>, k: Seq<u8>, v: WalletV, i: int)
    requires
        0 <= i < s.len(),
        s[i].0 == k,
        forall|j: int| 0 <= j < i ==> s[j].0 != k,
    ensures
        supdate(s, k, v) == s.update(i, (k, v)),
    decreases i,
{
    if i == 0 {
        assert(supdate(s, k, v) =~= s.update(0, (k, v)));
    } else {
        assert(forall|j: int| 0 <= j < s.drop_first().len() ==> s.drop_first()[j] == s[j + 1]);
        lemma_supdate_at(s.drop_first(), k, v, i - 1);
        assert(supdate(s, k, v) =~= s.update(i, (k, v)));
    }
}

proof fn lemma_supdate_absent(s: Seq<(Seq<u8>, WalletV)>, k: Seq<u8>, v: WalletV)
    requires
        forall|j: int| 0 <= j < s.len() ==> (#[trigger] s[j]).0 != k,
    ensures
        supdate(s, k, v) == s.push((k, v)),
    decreases s.len(),
{
    if s.len() == 0 {
        assert(supdate(s, k, v) =~= s.push((k, v)));
    } else {
        assert(forall|j: int| 0 <= j < s.drop_first().len() ==> s.drop_first()[j] == s[j + 1]);
        lemma_supdate_absent(s.drop_first(), k, v);
        assert(supdate(s, k, v) =~= s.push((k, v)));
    }
}

proof fn lemma_kfind_take_one(entries: Seq<(Seq<u8>, WalletV)>, i: int, k: Seq<u8>)
    requires
        0 <= i < entries.len(),
    ensures
        kfind(entries.take(i + 1), k) == (if kfind(entries.take(i), k) is Some {
            kfind(entries.take(i), k)
        } else if k == entries[i].0 {
            Some(entries[i].1)
        } else {
            None::<WalletV>
        }),
    decreases i,
{
    let s1 = entries.take(i + 1);
    let s0 = entries.take(i);
    if i == 0 {
        assert(s0 =~= Seq::<(Seq<u8>, WalletV)>::empty());
        assert(s1[0] == entries[0]);
        assert(s1.drop_first() =~= Seq::<(Seq<u8>, WalletV)>::empty());
    } else {
        assert(s1[0] == entries[0]);
        assert(s0[0] == entries[0]);
        if entries[0].0 == k {
        } else {
            assert(s1.drop_first() =~= entries.drop_first().take(i));
            assert(s0.drop_first() =~= entries.drop_first().take(i - 1));
            assert(entries.drop_first()[i - 1] == entries[i]);
            lemma_kfind_take_one(entries.drop_first(), i - 1, k);
        }
    }
}

/// The creator royalties owed on a list of trade assets, plus any
/// further parties added by hand: an association of each party with the
/// whole fee owed to it.
#[derive(Debug)]
pub struct ThirdPartyFees {
    pub table: Vec<(PublicKey, u64)>,
}

/// The entries of a fee table, keys and amounts in order.
pub open spec fn fentries(s: Seq<(PublicKey, u64)>) -> Seq<(Seq<u8>, int)> {
    Seq::new(s.len(), |i: int| (s[i].0@, s[i].1 as int))
}

impl View for ThirdPartyFees {
    type V = Seq<(Seq<u8>, int)>;

    open spec fn view(&self) -> Seq<(Seq<u8>, int)> {
        fentries(self.table@)
    }
}

/// The fee table accumulated over the trade assets `ts`: for each, the
/// creator of the asset earns the asset's trade fee on its total price,
/// merged by creator; an asset absent from the registry stops
/// everything with an asset-not-found error.
pub open spec fn trade_fees_spec(
    reg: Seq<(Seq<u8>, (Seq<u8>, int, ((int, int, int), (int, int, int), (int, int, int))))>,
    ts: Seq<(Seq<u8>, int, int)>,
    acc: Seq<(Seq<u8>, int)>,
) -> Result<Seq<(Seq<u8>, int)>, Error>
    decreases ts.len(),
{
    if ts.len() == 0 {
        Ok(acc)
    } else {
        match kfind(reg, ts[0].0) {
            None => Err(Error::AssetNotFound),
            Some(info) => {
                let total = ts[0].1 * ts[0].2;
                let fee = info.2.0.0 + total * info.2.0.1 / info.2.0.2;
                trade_fees_spec(
                    reg,
                    ts.drop_first(),
                    crate::wallet::add_bundle(acc, info.0, fee),
                )
            },
        }
    }
}


/// The sum of amount times price over a trade-asset list.
pub open spec fn trade_total(ts: Seq<(Seq<u8>, int, int)>) -> int
    decreases ts.len(),
{
    if ts.len() == 0 {
        0
    } else {
        ts[0].1 * ts[0].2 + trade_total(ts.drop_first())
    }
}

/// Whether every product and the whole sum stay within machine bounds.
pub open spec fn trade_total_fits(ts: Seq<(Seq<u8>, int, int)>) -> bool {
    &&& trade_total(ts) <= u64::MAX
    &&& forall|i: int|
        0 <= i < ts.len() ==> 0 <= (#[trigger] ts[i]).1 * ts[i].2 <= u64::MAX
}

/// Partial sums of a trade total are never negative.
pub proof fn lemma_trade_total_nonneg(ts: Seq<(Seq<u8>, int, int)>)
    requires
        forall|i: int| 0 <= i < ts.len() ==> 0 <= (#[trigger] ts[i]).1 * ts[i].2,
    ensures
        trade_total(ts) >= 0,
    decreases ts.len(),
{
    if ts.len() > 0 {
        assert(forall|i: int|
            0 <= i < ts.drop_first().len() ==> ts.drop_first()[i] == ts[i + 1]);
        lemma_trade_total_nonneg(ts.drop_first());
    }
}

/// Splitting a trade-asset list splits its total.
pub proof fn lemma_trade_total_split(ts: Seq<(Seq<u8>, int, int)>, i: int)
    requires
        0 <= i <= ts.len(),
    ensures
        trade_total(ts) == trade_total(ts.take(i)) + trade_total(ts.skip(i)),
    decreases i,
{
    if i == 0 {
        assert(ts.take(0) =~= Seq::<(Seq<u8>, int, int)>::empty());
        assert(ts.skip(0) =~= ts);
    } else {
        lemma_trade_total_split(ts.drop_first(), i - 1);
        assert(ts.take(i).drop_first() =~= ts.drop_first().take(i - 1));
        assert(ts.skip(i) =~= ts.drop_first().skip(i - 1));
        assert(trade_total(ts.take(i)) == ts[0].1 * ts[0].2 + trade_total(
            ts.drop_first().take(i - 1),
        ));
    }
}

/// The total price of a trade-asset list: the sum of amount times price
/// over every asset.
pub fn trade_total_exec(assets: &Vec<TradeAsset>) -> (r: u64)
    requires
        trade_total_fits(crate::wire::tviews(assets@)),
    ensures
        r == trade_total(crate::wire::tviews(assets@)),
{
    let ghost ts = crate::wire::tviews(assets@);
    let mut sum: u64 = 0;
    let mut i: usize = 0;
    proof {
        assert(ts.take(0) =~= Seq::<(Seq<u8>, int, int)>::empty());
    }
    while i < assets.len()
        invariant
            i <= assets@.len(),
            ts == crate::wire::tviews(assets@),
            ts.len() == assets@.len(),
            trade_total_fits(ts),
            sum == trade_total(ts.take(i as int)),
        decreases assets@.len() - i,
    {
        proof {
            assert(ts[i as int] == assets@[i as int]@);
            lemma_trade_total_split(ts, i as int);
            assert(ts.skip(i as int)[0] == ts[i as int]);
            assert(ts.skip(i as int).drop_first() =~= ts.skip(i + 1 as int));
            assert(forall|j: int|
                0 <= j < ts.skip(i + 1 as int).len() ==> #[trigger] ts.skip(i + 1 as int)[j] == ts[
                    i + 1 + j
                ]);
            lemma_trade_total_nonneg(ts.skip(i + 1 as int));
            assert(forall|j: int|
                0 <= j < ts.take(i as int).len() ==> #[trigger] ts.take(i as int)[j] == ts[j]);
            lemma_trade_total_nonneg(ts.take(i as int));
            assert((assets@[i as int].amount as int) * (assets@[i as int].price as int)
                <= u64::MAX);
            assert((assets@[i as int].amount as u128) * (assets@[i as int].price as u128)
                <= u64::MAX) by (nonlinear_arith)
                requires
                    (assets@[i as int].amount as int) * (assets@[i as int].price as int)
                        <= u64::MAX,
                    assets@[i as int].amount >= 0,
                    assets@[i as int].price >= 0,
            ;
            lemma_trade_total_split(ts, i + 1 as int);
        }
        let product: u64 = ((assets[i].amount as u128) * (assets[i].price as u128)) as u64;
        proof {
            assert(product == ts[i as int].1 * ts[i as int].2) by (nonlinear_arith)
                requires
                    product == ((assets@[i as int].amount as u128) * (
                    assets@[i as int].price as u128)) as u64,
                    (assets@[i as int].amount as u128) * (assets@[i as int].price as u128)
                        <= u64::MAX,
                    ts[i as int].1 == assets@[i as int].amount as int,
                    ts[i as int].2 == assets@[i as int].price as int,
            ;
            assert(trade_total(ts.take(i + 1 as int)) == trade_total(ts.take(i as int))
                + ts[i as int].1 * ts[i as int].2);
            assert(trade_total(ts.take(i + 1 as int)) <= trade_total(ts)) by {
                lemma_trade_total_nonneg(ts.skip(i + 1 as int));
                lemma_trade_total_split(ts, i + 1 as int);
            };
        }
        sum = sum + product;
        i += 1;
    }
    proof {
        assert(ts.take(ts.len() as int) =~= ts);
    }
    sum
}

/// Whether the royalty computation over `ts` stays within machine
/// bounds and only meets well-formed registry records, step by step.
pub open spec fn trade_fees_fits(
    reg: Seq<(Seq<u8>, (Seq<u8>, int, ((int, int, int), (int, int, int), (int, int, int))))>,
    ts: Seq<(Seq<u8>, int, int)>,
    acc: Seq<(Seq<u8>, int)>,
) -> bool
    decreases ts.len(),
{
    if ts.len() == 0 {
        true
    } else {
        match kfind(reg, ts[0].0) {
            None => true,
            Some(info) => {
                let total = ts[0].1 * ts[0].2;
                let fee = info.2.0.0 + total * info.2.0.1 / info.2.0.2;
                &&& 0 < info.2.0.2
                &&& 0 <= info.2.0.1 <= info.2.0.2
                &&& 0 <= total <= u64::MAX
                &&& fee <= u64::MAX
                &&& crate::wallet::amount_of(acc, info.0) + fee <= u64::MAX
                &&& trade_fees_fits(
                    reg,
                    ts.drop_first(),
                    crate::wallet::add_bundle(acc, info.0, fee),
                )
            },
        }
    }
}

impl ThirdPartyFees {
    /// Whether no party repeats in the table.
    pub open spec fn wf(&self) -> bool {
        forall|i: int, j: int| 0 <= i < j < self@.len() ==> self@[i].0 != self@[j].0
    }

    /// The creator royalties owed on the trade of `assets`: for each
    /// asset, its creator earns the asset's trade fee on the asset's
    /// total price, merged by creator; an asset missing from the
    /// registry fails with an asset-not-found error.
    pub fn new_trade(fork: &Fork, assets: &Vec<TradeAsset>) -> (r: Result<ThirdPartyFees, Error>)
        requires
            trade_fees_fits(
                fork@.assets,
                crate::wire::tviews(assets@),
                Seq::<(Seq<u8>, int)>::empty(),
            ),
        ensures
            (match trade_fees_spec(
                fork@.assets,
                crate::wire::tviews(assets@),
                Seq::<(Seq<u8>, int)>::empty(),
            ) {
                Ok(t) => (r matches Ok(f) && f@ == t && f.wf()),
                Err(e) => r == Err::<ThirdPartyFees, Error>(e),
            }),
    {
        let ghost ts = crate::wire::tviews(assets@);
        let ghost reg = fork@.assets;
        let ghost acc0 = Seq::<(Seq<u8>, int)>::empty();
        let mut fees = ThirdPartyFees { table: Vec::new() };
        let mut i: usize = 0;
        proof {
            assert(ts.skip(0) =~= ts);
            assert(fees@ =~= acc0);
        }
        while i < assets.len()
            invariant
                i <= assets@.len(),
                ts == crate::wire::tviews(assets@),
                ts.len() == assets@.len(),
                reg == fork@.assets,
                acc0 == Seq::<(Seq<u8>, int)>::empty(),
                fees.wf(),
                trade_fees_spec(reg, ts, acc0) == trade_fees_spec(reg, ts.skip(i as int), fees@),
                trade_fees_fits(reg, ts.skip(i as int), fees@),
            decreases assets@.len() - i,
        {
            proof {
                assert(ts.skip(i as int)[0] == ts[i as int]);
                assert(ts.skip(i as int).drop_first() =~= ts.skip(i + 1 as int));
                assert(ts[i as int] == assets@[i as int]@);
            }
            let a = &assets[i];
            let info = match fork.fetch_asset(&a.id) {
                Some(info) => info,
                None => {
                    return Err(Error::AssetNotFound);
                },
            };
            proof {
                assert((a.amount as u128) * (a.price as u128) <= u64::MAX) by (nonlinear_arith)
                    requires
                        (a.amount as int) * (a.price as int) <= u64::MAX,
                        a.amount >= 0,
                        a.price >= 0,
                ;
            }
            let total: u64 = ((a.amount as u128) * (a.price as u128)) as u64;
            proof {
                assert(total == (a.amount as int) * (a.price as int)) by (nonlinear_arith)
                    requires
                        total == ((a.amount as u128) * (a.price as u128)) as u64,
                        (a.amount as u128) * (a.price as u128) <= u64::MAX,
                ;
            }
            let fee: u64 = info.fees.trade.on_amount(total);
            self_add_fee(&mut fees, &info.creator, fee);
            i += 1;
        }
        proof {
            assert(ts.skip(ts.len() as int) =~= Seq::<(Seq<u8>, int, int)>::empty());
        }
        Ok(fees)
    }

    /// Adds a further fee for `party`, merged with any fee it already
    /// earns.
    pub fn add_fee(&mut self, party: &PublicKey, fee: u64)
        requires
            old(self).wf(),
            crate::wallet::amount_of(old(self)@, party@) + fee <= u64::MAX,
        ensures
            final(self)@ == crate::wallet::add_bundle(old(self)@, party@, fee as int),
            final(self).wf(),
    {
        self_add_fee(self, party, fee)
    }

    /// Takes every fee of the table from `payer` and credits each party,
    /// through a fresh working set over the fork.
    pub fn collect(&self, fork: &Fork, payer: &PublicKey) -> (r: Result<WalletSet, Error>)
        requires
            collect_fits(fork@.wallets, Seq::<(Seq<u8>, WalletV)>::empty(), self@, payer@),
        ensures
            (match collect_spec(
                fork@.wallets,
                Seq::<(Seq<u8>, WalletV)>::empty(),
                self@,
                payer@,
            ) {
                Ok(ws) => (r matches Ok(got) && got@ == ws && got.wf()),
                Err(e) => r == Err::<WalletSet, Error>(e),
            }),
    {
        let ws = WalletSet::new();
        proof {
            assert(ws@ =~= Seq::<(Seq<u8>, WalletV)>::empty());
        }
        self.collect_into(fork, payer, ws)
    }

    /// Takes every fee of the table, split in two parts that sum to it,
    /// from two payers: the first pays the larger half of an odd fee.
    pub fn collect2(&self, fork: &Fork, payer1: &PublicKey, payer2: &PublicKey) -> (r: Result<
        WalletSet,
        Error,
    >)
        requires
            split2_fits(fork@.wallets, Seq::<(Seq<u8>, WalletV)>::empty(), self@, payer1@, payer2@),
        ensures
            (match split2_spec(
                fork@.wallets,
                Seq::<(Seq<u8>, WalletV)>::empty(),
                self@,
                payer1@,
                payer2@,
            ) {
                Ok(ws) => (r matches Ok(got) && got@ == ws && got.wf()),
                Err(e) => r == Err::<WalletSet, Error>(e),
            }),
    {
        let ghost fw = fork@.wallets;
        let ghost t0 = self@;
        let mut ws = WalletSet::new();
        let mut i: usize = 0;
        proof {
            assert(ws@ =~= Seq::<(Seq<u8>, WalletV)>::empty());
            assert(t0.skip(0) =~= t0);
        }
        while i < self.table.len()
            invariant
                i <= self.table@.len(),
                t0 == self@,
                t0.len() == self.table@.len(),
                fw == fork@.wallets,
                ws.wf(),
                split2_spec(fw, Seq::<(Seq<u8>, WalletV)>::empty(), t0, payer1@, payer2@)
                    == split2_spec(fw, ws@, t0.skip(i as int), payer1@, payer2@),
                split2_fits(fw, ws@, t0.skip(i as int), payer1@, payer2@),
            decreases self.table@.len() - i,
        {
            proof {
                assert(t0.skip(i as int)[0] == t0[i as int]);
                assert(t0.skip(i as int).drop_first() =~= t0.skip(i + 1 as int));
                assert(t0[i as int] == (self.table@[i as int].0@, self.table@[i as int].1 as int));
            }
            let party = self.table[i].0.duplicate();
            let fee = self.table[i].1;
            let (part1, part2) = split_fee(fee);
            match pay_one(fork, &mut ws, payer1, &party, part1) {
                Err(e) => {
                    return Err(e);
                },
                Ok(()) => {},
            }
            match pay_one(fork, &mut ws, payer2, &party, part2) {
                Err(e) => {
                    return Err(e);
                },
                Ok(()) => {},
            }
            i += 1;
        }
        proof {
            assert(t0.skip(t0.len() as int) =~= Seq::<(Seq<u8>, int)>::empty());
        }
        Ok(ws)
    }

    /// Takes every fee of the table from `payer` into the given working
    /// set.
    fn collect_into(&self, fork: &Fork, payer: &PublicKey, ws: WalletSet) -> (r: Result<
        WalletSet,
        Error,
    >)
        requires
            ws.wf(),
            collect_fits(fork@.wallets, ws@, self@, payer@),
        ensures
            (match collect_spec(fork@.wallets, ws@, self@, payer@) {
                Ok(ws2) => (r matches Ok(got) && got@ == ws2 && got.wf()),
                Err(e) => r == Err::<WalletSet, Error>(e),
            }),
    {
        let ghost fw = fork@.wallets;
        let ghost t0 = self@;
        let ghost ws0 = ws@;
        let mut work = ws;
        let mut i: usize = 0;
        proof {
            assert(t0.skip(0) =~= t0);
        }
        while i < self.table.len()
            invariant
                i <= self.table@.len(),
                t0 == self@,
                t0.len() == self.table@.len(),
                fw == fork@.wallets,
                ws0 == ws@,
                work.wf(),
                collect_spec(fw, ws0, t0, payer@) == collect_spec(
                    fw,
                    work@,
                    t0.skip(i as int),
                    payer@,
                ),
                collect_fits(fw, work@, t0.skip(i as int), payer@),
            decreases self.table@.len() - i,
        {
            proof {
                assert(t0.skip(i as int)[0] == t0[i as int]);
                assert(t0.skip(i as int).drop_first() =~= t0.skip(i + 1 as int));
                assert(t0[i as int] == (self.table@[i as int].0@, self.table@[i as int].1 as int));
            }
            let party = self.table[i].0.duplicate();
            let fee = self.table[i].1;
            match pay_one(fork, &mut work, payer, &party, fee) {
                Err(e) => {
                    return Err(e);
                },
                Ok(()) => {},
            }
            i += 1;
        }
        proof {
            assert(t0.skip(t0.len() as int) =~= Seq::<(Seq<u8>, int)>::empty());
        }
        Ok(work)
    }
}

/// One debit-and-credit through a working set: the payer loses `fee`,
/// the party gains it, repeated parties composing.
pub open spec fn pay_one_spec(
    forkw: Seq<(Seq<u8>, WalletV)>,
    ws: Seq<(Seq<u8>, WalletV)>,
    payer: Seq<u8>,
    party: Seq<u8>,
    fee: int,
) -> Result<Seq<(Seq<u8>, WalletV)>, Error> {
    let pw = ws_wallet(forkw, ws, payer);
    if pw.balance < fee {
        Err(Error::InsufficientFunds)
    } else {
        let ws1 = supdate(ws, payer, WalletV { balance: pw.balance - fee, ..pw });
        let cw = ws_wallet(forkw, ws1, party);
        Ok(supdate(ws1, party, WalletV { balance: cw.balance + fee, ..cw }))
    }
}

fn pay_one(fork: &Fork, ws: &mut WalletSet, payer: &PublicKey, party: &PublicKey, fee: u64) -> (r:
    Result<(), Error>)
    requires
        old(ws).wf(),
        (match pay_one_spec(fork@.wallets, old(ws)@, payer@, party@, fee as int) {
            Ok(_) => true,
            Err(_) => true,
        }),
        ws_wallet(fork@.wallets, old(ws)@, payer@).balance >= fee ==> ws_wallet(
            fork@.wallets,
            supdate(
                old(ws)@,
                payer@,
                WalletV {
                    balance: ws_wallet(fork@.wallets, old(ws)@, payer@).balance - fee,
                    ..ws_wallet(fork@.wallets, old(ws)@, payer@)
                },
            ),
            party@,
        ).balance + fee <= u64::MAX,
    ensures
        (match pay_one_spec(fork@.wallets, old(ws)@, payer@, party@, fee as int) {
            Ok(ws2) => r == Ok::<(), Error>(()) && final(ws)@ == ws2,
            Err(e) => r == Err::<(), Error>(e) && final(ws)@ == old(ws)@,
        }),
        final(ws).wf(),
{
    let payer_wallet = ws.wallet_of(fork, payer);
    if payer_wallet.balance < fee {
        return Err(Error::InsufficientFunds);
    }
    let debited = Wallet::new(payer_wallet.balance - fee, payer_wallet.assets);
    ws.put(payer, debited);
    let party_wallet = ws.wallet_of(fork, party);
    let credited = Wallet::new(party_wallet.balance + fee, party_wallet.assets);
    ws.put(party, credited);
    proof {
        let pw = ws_wallet(fork@.wallets, old(ws)@, payer@);
        let ws1 = supdate(old(ws)@, payer@, WalletV { balance: pw.balance - fee, ..pw });
        let cw = ws_wallet(fork@.wallets, ws1, party@);
        assert(ws@ =~= supdate(ws1, party@, WalletV { balance: cw.balance + fee, ..cw }));
    }
    Ok(())
}

fn self_add_fee(fees: &mut ThirdPartyFees, party: &PublicKey, fee: u64)
    requires
        old(fees).wf(),
        crate::wallet::amount_of(old(fees)@, party@) + fee <= u64::MAX,
    ensures
        final(fees)@ == crate::wallet::add_bundle(old(fees)@, party@, fee as int),
        final(fees).wf(),
{
    let ghost entries = fees@;
    let mut i: usize = 0;
    while i < fees.table.len()
        invariant
            i <= fees.table@.len(),
            fees.table@ == old(fees).table@,
            entries == fees@,
            entries.len() == fees.table@.len(),
            crate::wallet::amount_of(entries, party@) + fee <= u64::MAX,
            forall|a: int, b: int| 0 <= a < b < entries.len() ==> entries[a].0 != entries[b].0,
            forall|j: int| 0 <= j < i ==> (#[trigger] entries[j]).0 != party@,
        decreases fees.table@.len() - i,
    {
        if fees.table[i].0.same_as(party) {
            proof {
                crate::wallet::lemma_find_idx_props(entries, party@);
                crate::fork::lemma_kfind_at(entries, party@, i as int);
                lemma_find_idx_unique(entries, party@, i as int);
                assert(crate::wallet::amount_of(entries, party@) == entries[i as int].1);
            }
            let have = fees.table[i].1;
            fees.table.set(i, (party.duplicate(), have + fee));
            proof {
                assert(fentries(fees.table@) =~= entries.update(
                    i as int,
                    (party@, have + fee as int),
                ));
                let ne = entries.update(i as int, (party@, have + fee as int));
                assert forall|a: int, b: int|
                    0 <= a < b < ne.len() implies ne[a].0 != ne[b].0 by {
                    assert(entries[i as int].0 == party@);
                    if a != i && b != i {
                        assert(ne[a] == entries[a]);
                        assert(ne[b] == entries[b]);
                    }
                }
                lemma_add_bundle_at(entries, party@, fee as int, i as int);
            }
            return ;
        }
        i += 1;
    }
    fees.table.push((party.duplicate(), fee));
    proof {
        crate::wallet::lemma_find_idx_props(entries, party@);
        assert(fentries(fees.table@) =~= entries.push((party@, fee as int)));
        lemma_add_bundle_absent(entries, party@, fee as int);
    }
}

/// Where the key sits at the first matching index, `find_idx` points
/// there.
proof fn lemma_find_idx_unique(s: Seq<(Seq<u8>, int)>, k: Seq<u8>, i: int)
    requires
        0 <= i < s.len(),
        s[i].0 == k,
        forall|j: int| 0 <= j < i ==> s[j].0 != k,
    ensures
        crate::wallet::find_idx(s, k) == i,
    decreases i,
{
    if i > 0 {
        assert(forall|j: int| 0 <= j < s.drop_first().len() ==> s.drop_first()[j] == s[j + 1]);
        lemma_find_idx_unique(s.drop_first(), k, i - 1);
    }
}

proof fn lemma_add_bundle_at(s: Seq<(Seq<u8>, int)>, k: Seq<u8>, amt: int, i: int)
    requires
        0 <= i < s.len(),
        s[i].0 == k,
        forall|j: int| 0 <= j < i ==> s[j].0 != k,
    ensures
        crate::wallet::add_bundle(s, k, amt) == s.update(i, (k, s[i].1 + amt)),
{
    lemma_find_idx_unique(s, k, i);
}

proof fn lemma_add_bundle_absent(s: Seq<(Seq<u8>, int)>, k: Seq<u8>, amt: int)
    requires
        forall|j: int| 0 <= j < s.len() ==> (#[trigger] s[j]).0 != k,
    ensures
        crate::wallet::add_bundle(s, k, amt) == s.push((k, amt)),
{
    crate::wallet::lemma_find_idx_props(s, k);
}

/// The working set after the fees of `table`, each split in two parts
/// that sum to it, are taken from two payers; the first payer pays the
/// larger half of an odd fee.
pub open spec fn split2_spec(
    forkw: Seq<(Seq<u8>, WalletV)>,
    ws: Seq<(Seq<u8>, WalletV)>,
    table: Seq<(Seq<u8>, int)>,
    payer1: Seq<u8>,
    payer2: Seq<u8>,
) -> Result<Seq<(Seq<u8>, WalletV)>, Error>
    decreases table.len(),
{
    if table.len() == 0 {
        Ok(ws)
    } else {
        let fee = table[0].1;
        match pay_one_spec(forkw, ws, payer1, table[0].0, fee - fee / 2) {
            Err(e) => Err(e),
            Ok(ws1) => match pay_one_spec(forkw, ws1, payer2, table[0].0, fee / 2) {
                Err(e) => Err(e),
                Ok(ws2) => split2_spec(forkw, ws2, table.drop_first(), payer1, payer2),
            },
        }
    }
}

/// Whether the split collection stays within machine bounds.
pub open spec fn split2_fits(
    forkw: Seq<(Seq<u8>, WalletV)>,
    ws: Seq<(Seq<u8>, WalletV)>,
    table: Seq<(Seq<u8>, int)>,
    payer1: Seq<u8>,
    payer2: Seq<u8>,
) -> bool
    decreases table.len(),
{
    if table.len() == 0 {
        true
    } else {
        let fee = table[0].1;
        let h1 = fee - fee / 2;
        let h2 = fee / 2;
        let pw1 = ws_wallet(forkw, ws, payer1);
        &&& (pw1.balance >= h1 ==> ws_wallet(
            forkw,
            supdate(ws, payer1, WalletV { balance: pw1.balance - h1, ..pw1 }),
            table[0].0,
        ).balance + h1 <= u64::MAX)
        &&& (match pay_one_spec(forkw, ws, payer1, table[0].0, h1) {
            Err(_) => true,
            Ok(ws1) => {
                let pw2 = ws_wallet(forkw, ws1, payer2);
                &&& (pw2.balance >= h2 ==> ws_wallet(
                    forkw,
                    supdate(ws1, payer2, WalletV { balance: pw2.balance - h2, ..pw2 }),
                    table[0].0,
                ).balance + h2 <= u64::MAX)
                &&& (match pay_one_spec(forkw, ws1, payer2, table[0].0, h2) {
                    Err(_) => true,
                    Ok(ws2) => split2_fits(forkw, ws2, table.drop_first(), payer1, payer2),
                })
            },
        })
    }
}


/// Collecting depends on the stored wallets only through lookups: two
/// stores that agree key by key collect alike.
pub proof fn lemma_collect_equiv(
    wa: Seq<(Seq<u8>, WalletV)>,
    wb: Seq<(Seq<u8>, WalletV)>,
    ws: Seq<(Seq<u8>, WalletV)>,
    table: Seq<(Seq<u8>, int)>,
    payer: Seq<u8>,
)
    requires
        forall|k: Seq<u8>| #[trigger] kfind(wa, k) == kfind(wb, k),
    ensures
        collect_spec(wa, ws, table, payer) == collect_spec(wb, ws, table, payer),
        collect_fits(wa, ws, table, payer) == collect_fits(wb, ws, table, payer),
    decreases table.len(),
{
    if table.len() > 0 {
        let creator = table[0].0;
        let fee = table[0].1;
        assert(ws_wallet(wa, ws, payer) == ws_wallet(wb, ws, payer));
        let pw = ws_wallet(wa, ws, payer);
        if pw.balance >= fee {
            let ws1 = supdate(ws, payer, WalletV { balance: pw.balance - fee, ..pw });
            assert(ws_wallet(wa, ws1, creator) == ws_wallet(wb, ws1, creator));
            let cw = ws_wallet(wa, ws1, creator);
            let ws2 = supdate(ws1, creator, WalletV { balance: cw.balance + fee, ..cw });
            lemma_collect_equiv(wa, wb, ws2, table.drop_first(), payer);
        }
    }
}

/// The split collection likewise depends on the stored wallets only
/// through lookups.
pub proof fn lemma_split2_equiv(
    wa: Seq<(Seq<u8>, WalletV)>,
    wb: Seq<(Seq<u8>, WalletV)>,
    ws: Seq<(Seq<u8>, WalletV)>,
    table: Seq<(Seq<u8>, int)>,
    payer1: Seq<u8>,
    payer2: Seq<u8>,
)
    requires
        forall|k: Seq<u8>| #[trigger] kfind(wa, k) == kfind(wb, k),
    ensures
        split2_spec(wa, ws, table, payer1, payer2) == split2_spec(wb, ws, table, payer1, payer2),
        split2_fits(wa, ws, table, payer1, payer2) == split2_fits(wb, ws, table, payer1, payer2),
    decreases table.len(),
{
    if table.len() > 0 {
        let fee = table[0].1;
        let h1 = fee - fee / 2;
        let h2 = fee / 2;
        assert(ws_wallet(wa, ws, payer1) == ws_wallet(wb, ws, payer1));
        let pw1 = ws_wallet(wa, ws, payer1);
        if pw1.balance >= h1 {
            let ws1 = supdate(ws, payer1, WalletV { balance: pw1.balance - h1, ..pw1 });
            assert(ws_wallet(wa, ws1, table[0].0) == ws_wallet(wb, ws1, table[0].0));
            let cw1 = ws_wallet(wa, ws1, table[0].0);
            let wsx = supdate(ws1, table[0].0, WalletV { balance: cw1.balance + h1, ..cw1 });
            assert(ws_wallet(wa, wsx, payer2) == ws_wallet(wb, wsx, payer2));
            let pw2 = ws_wallet(wa, wsx, payer2);
            if pw2.balance >= h2 {
                let ws2 = supdate(wsx, payer2, WalletV { balance: pw2.balance - h2, ..pw2 });
                assert(ws_wallet(wa, ws2, table[0].0) == ws_wallet(wb, ws2, table[0].0));
                let cw2 = ws_wallet(wa, ws2, table[0].0);
                let wsy = supdate(ws2, table[0].0, WalletV { balance: cw2.balance + h2, ..cw2 });
                lemma_split2_equiv(wa, wb, wsy, table.drop_first(), payer1, payer2);
            }
        }
    }
}

/// The royalty table likewise depends on the registry only through
/// lookups.
pub proof fn lemma_trade_fees_equiv(
    ra: Seq<(Seq<u8>, (Seq<u8>, int, ((int, int, int), (int, int, int), (int, int, int))))>,
    rb: Seq<(Seq<u8>, (Seq<u8>, int, ((int, int, int), (int, int, int), (int, int, int))))>,
    ts: Seq<(Seq<u8>, int, int)>,
    acc: Seq<(Seq<u8>, int)>,
)
    requires
        forall|k: Seq<u8>| #[trigger] kfind(ra, k) == kfind(rb, k),
    ensures
        trade_fees_spec(ra, ts, acc) == trade_fees_spec(rb, ts, acc),
        trade_fees_fits(ra, ts, acc) == trade_fees_fits(rb, ts, acc),
    decreases ts.len(),
{
    if ts.len() > 0 {
        assert(kfind(ra, ts[0].0) == kfind(rb, ts[0].0));
        match kfind(ra, ts[0].0) {
            None => {},
            Some(info) => {
                let total = ts[0].1 * ts[0].2;
                let fee = info.2.0.0 + total * info.2.0.1 / info.2.0.2;
                lemma_trade_fees_equiv(
                    ra,
                    rb,
                    ts.drop_first(),
                    crate::wallet::add_bundle(acc, info.0, fee),
                );
            },
        }
    }
}

} // verus!
