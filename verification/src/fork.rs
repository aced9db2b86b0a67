//! The transactional view a block's transactions run against: wallets by
//! public key, the asset registry by asset identifier, and the result of
//! every executed transaction by its hash. A wallet absent from the
//! store reads as a zero-balance, empty wallet; transaction results are
//! written once per hash.

use vstd::prelude::*;

use crate::assets::{AssetId, AssetInfo};
use crate::crypto::{HashDigest, PublicKey};
use crate::error::Error;
use crate::wallet::{Wallet, WalletV};

verus! {

/// The first value keyed `k` in an association list, front to back.
pub open spec fn kfind<V>(s: Seq<(Seq<u8>, V)>, k: Seq<u8>) -> Option<V>
    decreases s.len(),
{
    if s.len() == 0 {
        None
    } else if s[0].0 == k {
        Some(s[0].1)
    } else {
        kfind(s.drop_first(), k)
    }
}

/// Where the first matching index is known, `kfind` reads it.
pub proof fn lemma_kfind_at<V>(s: Seq<(Seq<u8>, V)>, k: Seq<u8>, i: int)
    requires
        0 <= i < s.len(),
        s[i].0 == k,
        forall|j: int| 0 <= j < i ==> s[j].0 != k,
    ensures
        kfind(s, k) == Some(s[i].1),
    decreases i,
{
    if i > 0 {
        assert(forall|j: int| 0 <= j < s.drop_first().len() ==> s.drop_first()[j] == s[j + 1]);
        lemma_kfind_at(s.drop_first(), k, i - 1);
    }
}

/// Where no index matches, `kfind` finds nothing.
pub proof fn lemma_kfind_absent<V>(s: Seq<(Seq<u8>, V)>, k: Seq<u8>)
    requires
        forall|j: int| 0 <= j < s.len() ==> (#[trigger] s[j]).0 != k,
    ensures
        kfind(s, k) == None::<V>,
    decreases s.len(),
{
    if s.len() > 0 {
        assert(forall|j: int| 0 <= j < s.drop_first().len() ==> s.drop_first()[j] == s[j + 1]);
        lemma_kfind_absent(s.drop_first(), k);
    }
}

/// Overwriting the first matching entry changes that key's value and no
/// other key's.
pub proof fn lemma_kfind_update<V>(s: Seq<(Seq<u8>, V)>, k: Seq<u8>, v: V, i: int)
    requires
        0 <= i < s.len(),
        s[i].0 == k,
        forall|j: int| 0 <= j < i ==> s[j].0 != k,
    ensures
        kfind(s.update(i, (k, v)), k) == Some(v),
        forall|k2: Seq<u8>| k2 != k ==> kfind(s.update(i, (k, v)), k2) == kfind(s, k2),
    decreases i,
{
    let s2 = s.update(i, (k, v));
    lemma_kfind_at(s2, k, i);
    assert forall|k2: Seq<u8>| k2 != k implies kfind(s2, k2) == kfind(s, k2) by {
        lemma_kfind_frame(s, k, v, i, k2);
    }
}

proof fn lemma_kfind_frame<V>(s: Seq<(Seq<u8>, V)>, k: Seq<u8>, v: V, i: int, k2: Seq<u8>)
    requires
        0 <= i < s.len(),
        s[i].0 == k,
        k2 != k,
    ensures
        kfind(s.update(i, (k, v)), k2) == kfind(s, k2),
    decreases s.len(),
{
    let s2 = s.update(i, (k, v));
    if i == 0 {
        assert(s2[0].0 == k);
        assert(s[0].0 == k);
        assert(s2.drop_first() =~= s.drop_first());
    } else {
        assert(s2[0] == s[0]);
        if s[0].0 == k2 {
        } else {
            assert(s2.drop_first() =~= s.drop_first().update(i - 1, (k, v)));
            lemma_kfind_frame(s.drop_first(), k, v, i - 1, k2);
        }
    }
}

/// Appending a key that was absent gives it a value and changes no
/// other key's.
pub proof fn lemma_kfind_push<V>(s: Seq<(Seq<u8>, V)>, k: Seq<u8>, v: V)
    requires
        forall|j: int| 0 <= j < s.len() ==> (#[trigger] s[j]).0 != k,
    ensures
        kfind(s.push((k, v)), k) == Some(v),
        forall|k2: Seq<u8>| k2 != k ==> kfind(s.push((k, v)), k2) == kfind(s, k2),
    decreases s.len(),
{
    let s2 = s.push((k, v));
    assert(s2[s.len() as int].0 == k);
    assert(forall|j: int| 0 <= j < s.len() ==> s2[j] == s[j]);
    lemma_kfind_at(s2, k, s.len() as int);
    assert forall|k2: Seq<u8>| k2 != k implies kfind(s2, k2) == kfind(s, k2) by {
        lemma_kfind_push_frame(s, k, v, k2);
    }
}

proof fn lemma_kfind_push_frame<V>(s: Seq<(Seq<u8>, V)>, k: Seq<u8>, v: V, k2: Seq<u8>)
    requires
        k2 != k,
    ensures
        kfind(s.push((k, v)), k2) == kfind(s, k2),
    decreases s.len(),
{
    let s2 = s.push((k, v));
    if s.len() == 0 {
        assert(s2[0] == (k, v));
        assert(s2.drop_first() =~= Seq::<(Seq<u8>, V)>::empty());
        assert(kfind(s2, k2) == kfind(s2.drop_first(), k2));
        assert(kfind(s2.drop_first(), k2) == None::<V>);
        assert(kfind(s, k2) == None::<V>);
    } else {
        assert(s2[0] == s[0]);
        if s[0].0 == k2 {
        } else {
            assert(s2.drop_first() =~= s.drop_first().push((k, v)));
            lemma_kfind_push_frame(s.drop_first(), k, v, k2);
        }
    }
}

/// The wallet stored under `k`, or a zero-balance empty wallet.
pub open spec fn stored_wallet(w: Seq<(Seq<u8>, WalletV)>, k: Seq<u8>) -> WalletV {
    match kfind(w, k) {
        Some(x) => x,
        None => WalletV { balance: 0, assets: Seq::empty() },
    }
}

/// The ghost view of a fork.
pub struct ForkV {
    pub wallets: Seq<(Seq<u8>, WalletV)>,
    pub assets: Seq<(Seq<u8>, (Seq<u8>, int, ((int, int, int), (int, int, int), (int, int, int))))>,
    pub statuses: Seq<(Seq<u8>, Result<(), Error>)>,
}

/// The entries of the wallet store, keys and wallet views in order.
pub open spec fn wentries(s: Seq<(PublicKey, Wallet)>) -> Seq<(Seq<u8>, WalletV)> {
    Seq::new(s.len(), |i: int| (s[i].0@, s[i].1@))
}

/// The entries of the asset registry, keys and record views in order.
pub open spec fn aentries(s: Seq<(AssetId, AssetInfo)>) -> Seq<
    (Seq<u8>, (Seq<u8>, int, ((int, int, int), (int, int, int), (int, int, int)))),
> {
    Seq::new(s.len(), |i: int| (s[i].0@, s[i].1@))
}

/// The entries of the result ledger, hashes and outcomes in order.
pub open spec fn sentries(s: Seq<(HashDigest, Result<(), Error>)>) -> Seq<
    (Seq<u8>, Result<(), Error>),
> {
    Seq::new(s.len(), |i: int| (s[i].0@, s[i].1))
}

/// A transactional view of the ledger state: wallets, the asset
/// registry, and the per-transaction result ledger.
#[derive(Debug)]
pub struct Fork {
    pub wallets: Vec<(PublicKey, Wallet)>,
    pub assets: Vec<(AssetId, AssetInfo)>,
    pub statuses: Vec<(HashDigest, Result<(), Error>)>,
}

impl View for Fork {
    type V = ForkV;

    open spec fn view(&self) -> ForkV {
        ForkV {
            wallets: wentries(self.wallets@),
            assets: aentries(self.assets@),
            statuses: sentries(self.statuses@),
        }
    }
}

impl Fork {
    /// An empty view: no wallets, no assets, no results.
    pub fn new() -> (r: Fork)
        ensures
            r@.wallets.len() == 0,
            r@.assets.len() == 0,
            r@.statuses.len() == 0,
    {
        Fork { wallets: Vec::new(), assets: Vec::new(), statuses: Vec::new() }
    }

    /// The wallet stored under `pk`, or a zero-balance empty wallet when
    /// none is: a fetch never fails.
    pub fn fetch_wallet(&self, pk: &PublicKey) -> (r: Wallet)
        ensures
            r@ == stored_wallet(self@.wallets, pk@),
    {
        let ghost entries = self@.wallets;
        let mut i: usize = 0;
        while i < self.wallets.len()
            invariant
                i <= self.wallets@.len(),
                entries == wentries(self.wallets@),
                entries.len() == self.wallets@.len(),
                forall|j: int| 0 <= j < i ==> (#[trigger] entries[j]).0 != pk@,
            decreases self.wallets@.len() - i,
        {
            if self.wallets[i].0.same_as(pk) {
                proof {
                    lemma_kfind_at(entries, pk@, i as int);
                }
                return self.wallets[i].1.duplicate();
            }
            i += 1;
        }
        proof {
            lemma_kfind_absent(entries, pk@);
        }
        let w = Wallet::new_empty();
        proof {
            assert(w@ =~= stored_wallet(self@.wallets, pk@));
        }
        w
    }

    /// Stores `w` under `pk`, overwriting unconditionally; every other
    /// wallet, the registry and the results stay as they were.
    pub fn store_wallet(&mut self, pk: &PublicKey, w: Wallet)
        ensures
            kfind(final(self)@.wallets, pk@) == Some(w@),
            forall|k2: Seq<u8>|
                k2 != pk@ ==> kfind(final(self)@.wallets, k2) == kfind(old(self)@.wallets, k2),
            final(self)@.assets == old(self)@.assets,
            final(self)@.statuses == old(self)@.statuses,
    {
        let ghost entries = self@.wallets;
        let ghost wv = w@;
        let mut i: usize = 0;
        while i < self.wallets.len()
            invariant
                i <= self.wallets@.len(),
                self.wallets@ == old(self).wallets@,
                self.assets@ == old(self).assets@,
                self.statuses@ == old(self).statuses@,
                wv == w@,
                entries == wentries(self.wallets@),
                entries.len() == self.wallets@.len(),
                forall|j: int| 0 <= j < i ==> (#[trigger] entries[j]).0 != pk@,
            decreases self.wallets@.len() - i,
        {
            if self.wallets[i].0.same_as(pk) {
                self.wallets.set(i, (pk.duplicate(), w));
                proof {
                    assert(wentries(self.wallets@) =~= entries.update(i as int, (pk@, wv)));
                    lemma_kfind_update(entries, pk@, wv, i as int);
                }
                return ;
            }
            i += 1;
        }
        self.wallets.push((pk.duplicate(), w));
        proof {
            assert(wentries(self.wallets@) =~= entries.push((pk@, wv)));
            lemma_kfind_push(entries, pk@, wv);
        }
    }

    /// The registry record of asset `id`, when there is one.
    pub fn fetch_asset(&self, id: &AssetId) -> (r: Option<AssetInfo>)
        ensures
            (match kfind(self@.assets, id@) {
                Some(info) => (r matches Some(got) && got@ == info),
                None => r is None,
            }),
    {
        let ghost entries = self@.assets;
        let mut i: usize = 0;
        while i < self.assets.len()
            invariant
                i <= self.assets@.len(),
                entries == aentries(self.assets@),
                entries.len() == self.assets@.len(),
                forall|j: int| 0 <= j < i ==> (#[trigger] entries[j]).0 != id@,
            decreases self.assets@.len() - i,
        {
            if self.assets[i].0.same_as(id) {
                proof {
                    lemma_kfind_at(entries, id@, i as int);
                }
                return Some(self.assets[i].1.duplicate());
            }
            i += 1;
        }
        proof {
            lemma_kfind_absent(entries, id@);
        }
        None
    }

    /// Stores `info` under asset `id`, overwriting unconditionally;
    /// every other record, the wallets and the results stay as they
    /// were.
    pub fn store_asset(&mut self, id: &AssetId, info: AssetInfo)
        ensures
            kfind(final(self)@.assets, id@) == Some(info@),
            forall|k2: Seq<u8>|
                k2 != id@ ==> kfind(final(self)@.assets, k2) == kfind(old(self)@.assets, k2),
            final(self)@.wallets == old(self)@.wallets,
            final(self)@.statuses == old(self)@.statuses,
    {
        let ghost entries = self@.assets;
        let ghost iv = info@;
        let mut i: usize = 0;
        while i < self.assets.len()
            invariant
                i <= self.assets@.len(),
                self.wallets@ == old(self).wallets@,
                self.assets@ == old(self).assets@,
                self.statuses@ == old(self).statuses@,
                iv == info@,
                entries == aentries(self.assets@),
                entries.len() == self.assets@.len(),
                forall|j: int| 0 <= j < i ==> (#[trigger] entries[j]).0 != id@,
            decreases self.assets@.len() - i,
        {
            if self.assets[i].0.same_as(id) {
                self.assets.set(i, (id.duplicate(), info));
                proof {
                    assert(aentries(self.assets@) =~= entries.update(i as int, (id@, iv)));
                    lemma_kfind_update(entries, id@, iv, i as int);
                }
                return ;
            }
            i += 1;
        }
        self.assets.push((id.duplicate(), info));
        proof {
            assert(aentries(self.assets@) =~= entries.push((id@, iv)));
            lemma_kfind_push(entries, id@, iv);
        }
    }

    /// The recorded result of the transaction with hash `hash`, when one
    /// was recorded.
    pub fn get_status(&self, hash: &HashDigest) -> (r: Option<Result<(), Error>>)
        ensures
            r == kfind(self@.statuses, hash@),
    {
        let ghost entries = self@.statuses;
        let mut i: usize = 0;
        while i < self.statuses.len()
            invariant
                i <= self.statuses@.len(),
                entries == sentries(self.statuses@),
                entries.len() == self.statuses@.len(),
                forall|j: int| 0 <= j < i ==> (#[trigger] entries[j]).0 != hash@,
            decreases self.statuses@.len() - i,
        {
            if self.statuses[i].0.same_as(hash) {
                proof {
                    lemma_kfind_at(entries, hash@, i as int);
                }
                return Some(self.statuses[i].1);
            }
            i += 1;
        }
        proof {
            lemma_kfind_absent(entries, hash@);
        }
        None
    }

    /// Records the outcome of the transaction with hash `hash`; every
    /// other entry, the wallets and the registry stay as they were.
    /// Each hash is recorded once: re-execution of a committed hash is
    /// outside this ledger's scope.
    pub fn store_status(&mut self, hash: &HashDigest, result: Result<(), Error>)
        ensures
            kfind(final(self)@.statuses, hash@) == Some(result),
            forall|k2: Seq<u8>|
                k2 != hash@ ==> kfind(final(self)@.statuses, k2) == kfind(old(self)@.statuses, k2),
            final(self)@.wallets == old(self)@.wallets,
            final(self)@.assets == old(self)@.assets,
    {
        let ghost entries = self@.statuses;
        let ghost res0 = result;
        let mut i: usize = 0;
        while i < self.statuses.len()
            invariant
                i <= self.statuses@.len(),
                self.wallets@ == old(self).wallets@,
                self.assets@ == old(self).assets@,
                self.statuses@ == old(self).statuses@,
                res0 == result,
                entries == sentries(self.statuses@),
                entries.len() == self.statuses@.len(),
                forall|j: int| 0 <= j < i ==> (#[trigger] entries[j]).0 != hash@,
            decreases self.statuses@.len() - i,
        {
            if self.statuses[i].0.same_as(hash) {
                self.statuses.set(i, (hash.duplicate(), result));
                proof {
                    assert(sentries(self.statuses@) =~= entries.update(i as int, (hash@, result)));
                    lemma_kfind_update(entries, hash@, result, i as int);
                }
                return ;
            }
            i += 1;
        }
        self.statuses.push((hash.duplicate(), result));
        proof {
            assert(sentries(self.statuses@) =~= entries.push((hash@, result)));
            lemma_kfind_push(entries, hash@, result);
        }
    }
}


/// The association list with `k` set to `v`: the first entry keyed `k`
/// is overwritten, or a new entry appended.
pub open spec fn assoc_set<V>(s: Seq<(Seq<u8>, V)>, k: Seq<u8>, v: V) -> Seq<(Seq<u8>, V)>
    decreases s.len(),
{
    if s.len() == 0 {
        seq![(k, v)]
    } else if s[0].0 == k {
        seq![(k, v)] + s.drop_first()
    } else {
        seq![s[0]] + assoc_set(s.drop_first(), k, v)
    }
}

/// `assoc_set` sets its key and leaves every other key alone.
pub proof fn lemma_assoc_set<V>(s: Seq<(Seq<u8>, V)>, k: Seq<u8>, v: V)
    ensures
        kfind(assoc_set(s, k, v), k) == Some(v),
        forall|k2: Seq<u8>| k2 != k ==> kfind(assoc_set(s, k, v), k2) == kfind(s, k2),
    decreases s.len(),
{
    let s2 = assoc_set(s, k, v);
    if s.len() == 0 {
        assert(s2[0] == (k, v));
        assert(s2.drop_first() =~= Seq::<(Seq<u8>, V)>::empty());
        assert forall|k2: Seq<u8>| k2 != k implies kfind(s2, k2) == kfind(s, k2) by {
            assert(kfind(s2, k2) == kfind(s2.drop_first(), k2));
        }
    } else if s[0].0 == k {
        assert(s2[0] == (k, v));
        assert(s2.drop_first() =~= s.drop_first());
        assert forall|k2: Seq<u8>| k2 != k implies kfind(s2, k2) == kfind(s, k2) by {
            assert(kfind(s2, k2) == kfind(s2.drop_first(), k2));
            assert(kfind(s, k2) == kfind(s.drop_first(), k2));
        }
    } else {
        lemma_assoc_set(s.drop_first(), k, v);
        assert(s2[0] == s[0]);
        assert(s2.drop_first() =~= assoc_set(s.drop_first(), k, v));
        assert forall|k2: Seq<u8>| k2 != k implies kfind(s2, k2) == kfind(s, k2) by {
            if s[0].0 != k2 {
                assert(kfind(s2, k2) == kfind(assoc_set(s.drop_first(), k, v), k2));
                assert(kfind(s, k2) == kfind(s.drop_first(), k2));
            }
        }
    }
}

/// Where the first matching index is known, setting equals updating.
pub proof fn lemma_assoc_set_at<V>(s: Seq<(Seq<u8>, V)>, k: Seq<u8>, v: V, i: int)
    requires
        0 <= i < s.len(),
        s[i].0 == k,
        forall|j: int| 0 <= j < i ==> s[j].0 != k,
    ensures
        assoc_set(s, k, v) == s.update(i, (k, v)),
    decreases i,
{
    if i == 0 {
        assert(assoc_set(s, k, v) =~= s.update(0, (k, v)));
    } else {
        assert(forall|j: int| 0 <= j < s.drop_first().len() ==> s.drop_first()[j] == s[j + 1]);
        lemma_assoc_set_at(s.drop_first(), k, v, i - 1);
        assert(assoc_set(s, k, v) =~= s.update(i, (k, v)));
    }
}

/// Where the key is absent, setting equals appending.
pub proof fn lemma_assoc_set_absent<V>(s: Seq<(Seq<u8>, V)>, k: Seq<u8>, v: V)
    requires
        forall|j: int| 0 <= j < s.len() ==> (#[trigger] s[j]).0 != k,
    ensures
        assoc_set(s, k, v) == s.push((k, v)),
    decreases s.len(),
{
    if s.len() == 0 {
        assert(assoc_set(s, k, v) =~= s.push((k, v)));
    } else {
        assert(forall|j: int| 0 <= j < s.drop_first().len() ==> s.drop_first()[j] == s[j + 1]);
        lemma_assoc_set_absent(s.drop_first(), k, v);
        assert(assoc_set(s, k, v) =~= s.push((k, v)));
    }
}

/// One committed entry folds into the running map of committed keys.
pub proof fn lemma_kfind_take_fold<V>(entries: Seq<(Seq<u8>, V)>, i: int, k: Seq<u8>)
    requires
        0 <= i < entries.len(),
    ensures
        kfind(entries.take(i + 1), k) == (if kfind(entries.take(i), k) is Some {
            kfind(entries.take(i), k)
        } else if k == entries[i].0 {
            Some(entries[i].1)
        } else {
            None::<V>
        }),
    decreases i,
{
    let s1 = entries.take(i + 1);
    let s0 = entries.take(i);
    if i == 0 {
        assert(s0 =~= Seq::<(Seq<u8>, V)>::empty());
        assert(s1[0] == entries[0]);
        assert(s1.drop_first() =~= Seq::<(Seq<u8>, V)>::empty());
    } else {
        assert(s1[0] == entries[0]);
        assert(s0[0] == entries[0]);
        if entries[0].0 == k {
        } else {
            assert(s1.drop_first() =~= entries.drop_first().take(i));
            assert(s0.drop_first() =~= entries.drop_first().take(i - 1));
            assert(entries.drop_first()[i - 1] == entries[i]);
            lemma_kfind_take_fold(entries.drop_first(), i - 1, k);
        }
    }
}

/// A registry record as a working set sees it: its own entry, else the
/// one stored in the registry.
pub open spec fn ws_info(
    rega: Seq<(Seq<u8>, (Seq<u8>, int, ((int, int, int), (int, int, int), (int, int, int))))>,
    ws: Seq<(Seq<u8>, (Seq<u8>, int, ((int, int, int), (int, int, int), (int, int, int))))>,
    k: Seq<u8>,
) -> Option<(Seq<u8>, int, ((int, int, int), (int, int, int), (int, int, int)))> {
    match kfind(ws, k) {
        Some(info) => Some(info),
        None => kfind(rega, k),
    }
}

/// A working set of registry records read and modified while one
/// transaction settles, persisted in one go on success.
#[derive(Debug)]
pub struct InfoSet {
    pub entries: Vec<(AssetId, AssetInfo)>,
}

impl View for InfoSet {
    type V = Seq<(Seq<u8>, (Seq<u8>, int, ((int, int, int), (int, int, int), (int, int, int))))>;

    open spec fn view(&self) -> Seq<
        (Seq<u8>, (Seq<u8>, int, ((int, int, int), (int, int, int), (int, int, int)))),
    > {
        aentries(self.entries@)
    }
}

impl InfoSet {
    /// Whether no key repeats in the set.
    pub open spec fn wf(&self) -> bool {
        forall|i: int, j: int| 0 <= i < j < self@.len() ==> self@[i].0 != self@[j].0
    }

    /// An empty working set.
    pub fn new() -> (r: InfoSet)
        ensures
            r@.len() == 0,
            r.wf(),
    {
        InfoSet { entries: Vec::new() }
    }

    /// The record of `id` as this set sees it: its own entry, else the
    /// stored one, else nothing.
    pub fn info_of(&self, fork: &Fork, id: &AssetId) -> (r: Option<AssetInfo>)
        ensures
            (match ws_info(fork@.assets, self@, id@) {
                Some(info) => (r matches Some(got) && got@ == info),
                None => r is None,
            }),
    {
        let ghost entries = self@;
        let mut i: usize = 0;
        while i < self.entries.len()
            invariant
                i <= self.entries@.len(),
                entries == self@,
                entries.len() == self.entries@.len(),
                forall|j: int| 0 <= j < i ==> (#[trigger] entries[j]).0 != id@,
            decreases self.entries@.len() - i,
        {
            if self.entries[i].0.same_as(id) {
                proof {
                    lemma_kfind_at(entries, id@, i as int);
                }
                return Some(self.entries[i].1.duplicate());
            }
            i += 1;
        }
        proof {
            lemma_kfind_absent(entries, id@);
        }
        fork.fetch_asset(id)
    }

    /// Sets the record of `id` in this set.
    pub fn put(&mut self, id: &AssetId, info: AssetInfo)
        requires
            old(self).wf(),
        ensures
            final(self)@ == assoc_set(old(self)@, id@, info@),
            final(self).wf(),
    {
        let ghost entries = self@;
        let ghost iv = info@;
        let mut i: usize = 0;
        while i < self.entries.len()
            invariant
                i <= self.entries@.len(),
                self.entries@ == old(self).entries@,
                iv == info@,
                entries == self@,
                entries.len() == self.entries@.len(),
                forall|a: int, b: int| 0 <= a < b < entries.len() ==> entries[a].0 != entries[b].0,
                forall|j: int| 0 <= j < i ==> (#[trigger] entries[j]).0 != id@,
            decreases self.entries@.len() - i,
        {
            if self.entries[i].0.same_as(id) {
                self.entries.set(i, (id.duplicate(), info));
                proof {
                    lemma_assoc_set_at(entries, id@, iv, i as int);
                    assert(aentries(self.entries@) =~= entries.update(i as int, (id@, iv)));
                    let ne = entries.update(i as int, (id@, iv));
                    assert forall|a: int, b: int|
                        0 <= a < b < ne.len() implies ne[a].0 != ne[b].0 by {
                        assert(entries[i as int].0 == id@);
                        if a != i && b != i {
                            assert(ne[a] == entries[a]);
                            assert(ne[b] == entries[b]);
                        }
                    }
                }
                return ;
            }
            i += 1;
        }
        self.entries.push((id.duplicate(), info));
        proof {
            lemma_assoc_set_absent(entries, id@, iv);
            assert(aentries(self.entries@) =~= entries.push((id@, iv)));
        }
    }

    /// Writes every record of this set into the registry.
    pub fn commit(self, fork: &mut Fork)
        requires
            self.wf(),
        ensures
            forall|k: Seq<u8>|
                kfind(final(fork)@.assets, k) == (match kfind(self@, k) {
                    Some(info) => Some(info),
                    None => kfind(old(fork)@.assets, k),
                }),
            final(fork)@.wallets == old(fork)@.wallets,
            final(fork)@.statuses == old(fork)@.statuses,
    {
        let ghost entries = self@;
        let rest = self.entries;
        let mut idx: usize = 0;
        proof {
            assert(entries.take(0) =~= Seq::<
                (Seq<u8>, (Seq<u8>, int, ((int, int, int), (int, int, int), (int, int, int)))),
            >::empty());
        }
        while idx < rest.len()
            invariant
                idx <= rest@.len(),
                entries == aentries(rest@),
                entries.len() == rest@.len(),
                forall|i: int, j: int| 0 <= i < j < entries.len() ==> entries[i].0 != entries[j].0,
                fork@.wallets == old(fork)@.wallets,
                fork@.statuses == old(fork)@.statuses,
                forall|k: Seq<u8>|
                    kfind(fork@.assets, k) == (match kfind(entries.take(idx as int), k) {
                        Some(info) => Some(info),
                        None => kfind(old(fork)@.assets, k),
                    }),
            decreases rest@.len() - idx,
        {
            let id = rest[idx].0.duplicate();
            let info = rest[idx].1.duplicate();
            proof {
                assert(entries[idx as int] == (rest@[idx as int].0@, rest@[idx as int].1@));
            }
            fork.store_asset(&id, info);
            proof {
                assert forall|k: Seq<u8>| #![auto] true implies kfind(fork@.assets, k) == (
                match kfind(entries.take(idx + 1 as int), k) {
                    Some(info2) => Some(info2),
                    None => kfind(old(fork)@.assets, k),
                }) by {
                    lemma_kfind_take_fold(entries, idx as int, k);
                    if k == entries[idx as int].0 {
                        assert(forall|j: int|
                            0 <= j < idx ==> (#[trigger] entries.take(idx as int)[j]).0 != k);
                        lemma_kfind_absent(entries.take(idx as int), k);
                    }
                }
            }
            idx += 1;
        }
        proof {
            assert(entries.take(entries.len() as int) =~= entries);
        }
    }
}

} // verus!
