//! Wallets and the primitive ledger moves: coins between two wallets,
//! and asset bundles between two wallets, the latter all-or-nothing
//! across a whole batch.

use vstd::prelude::*;

use crate::assets::AssetBundle;
use crate::error::Error;

verus! {

/// The ghost view of a wallet: its balance and its asset holdings, each
/// an identifier with an amount.
#[verifier::ext_equal]
pub struct WalletV {
    pub balance: int,
    pub assets: Seq<(Seq<u8>, int)>,
}

/// The views of a bundle list, in order.
pub open spec fn bviews(s: Seq<AssetBundle>) -> Seq<(Seq<u8>, int)> {
    Seq::new(s.len(), |i: int| s[i]@)
}

/// A wallet: a coin balance and the asset bundles it holds. A wallet
/// absent from the store is a zero-balance, empty wallet.
#[derive(Debug)]
pub struct Wallet {
    pub balance: u64,
    pub assets: Vec<AssetBundle>,
}

impl View for Wallet {
    type V = WalletV;

    open spec fn view(&self) -> WalletV {
        WalletV { balance: self.balance as int, assets: bviews(self.assets@) }
    }
}

/// Appending one bundle appends its view.
pub proof fn lemma_bviews_push(s: Seq<AssetBundle>, a: AssetBundle)
    ensures
        bviews(s.push(a)) == bviews(s).push(a@),
{
    assert forall|j: int| 0 <= j < s.len() + 1 implies bviews(s.push(a))[j] == bviews(s).push(
        a@,
    )[j] by {
        if j < s.len() {
            assert(s.push(a)[j] == s[j]);
        } else {
            assert(s.push(a)[j] == a);
        }
    }
    assert(bviews(s.push(a)) =~= bviews(s).push(a@));
}

/// The first index at which `s` holds `id`, or a negative value when it
/// does not.
pub open spec fn find_idx(s: Seq<(Seq<u8>, int)>, id: Seq<u8>) -> int
    decreases s.len(),
{
    if s.len() == 0 {
        -1
    } else if s[0].0 == id {
        0
    } else {
        let r = find_idx(s.drop_first(), id);
        if r < 0 {
            -1
        } else {
            r + 1
        }
    }
}

/// Where `find_idx` points, the identifier matches.
pub proof fn lemma_find_idx_props(s: Seq<(Seq<u8>, int)>, id: Seq<u8>)
    ensures
        find_idx(s, id) >= 0 ==> 0 <= find_idx(s, id) < s.len() && s[find_idx(s, id)].0 == id,
        find_idx(s, id) < 0 ==> forall|j: int| 0 <= j < s.len() ==> s[j].0 != id,
    decreases s.len(),
{
    if s.len() > 0 && s[0].0 != id {
        lemma_find_idx_props(s.drop_first(), id);
        if find_idx(s, id) < 0 {
            assert forall|j: int| 0 <= j < s.len() implies s[j].0 != id by {
                if j > 0 {
                    assert(s.drop_first()[j - 1] == s[j]);
                }
            }
        }
    }
}

/// How much of asset `id` the holdings `s` carry; zero when absent.
pub open spec fn amount_of(s: Seq<(Seq<u8>, int)>, id: Seq<u8>) -> int {
    let i = find_idx(s, id);
    if i < 0 {
        0
    } else {
        s[i].1
    }
}

/// The holdings after taking `amt` of asset `id` out: the entry shrinks,
/// and disappears when it reaches zero. Absence is an asset-not-found
/// error; a short entry is an asset-amount error.
pub open spec fn sub_bundle(s: Seq<(Seq<u8>, int)>, id: Seq<u8>, amt: int) -> Result<
    Seq<(Seq<u8>, int)>,
    Error,
> {
    let i = find_idx(s, id);
    if i < 0 {
        Err(Error::AssetNotFound)
    } else if s[i].1 < amt {
        Err(Error::InsufficientAssetAmount)
    } else if s[i].1 == amt {
        Ok(s.remove(i))
    } else {
        Ok(s.update(i, (id, s[i].1 - amt)))
    }
}

/// The holdings after adding `amt` of asset `id`: an existing entry
/// grows, a missing one is appended.
pub open spec fn add_bundle(s: Seq<(Seq<u8>, int)>, id: Seq<u8>, amt: int) -> Seq<(Seq<u8>, int)> {
    let i = find_idx(s, id);
    if i < 0 {
        s.push((id, amt))
    } else {
        s.update(i, (id, s[i].1 + amt))
    }
}

/// The pair of holdings after moving the bundles `bs` from `f` to `t`,
/// one after another; the first failing bundle decides the error.
pub open spec fn move_all(
    f: Seq<(Seq<u8>, int)>,
    t: Seq<(Seq<u8>, int)>,
    bs: Seq<(Seq<u8>, int)>,
) -> Result<(Seq<(Seq<u8>, int)>, Seq<(Seq<u8>, int)>), Error>
    decreases bs.len(),
{
    if bs.len() == 0 {
        Ok((f, t))
    } else {
        match sub_bundle(f, bs[0].0, bs[0].1) {
            Err(e) => Err(e),
            Ok(f2) => move_all(f2, add_bundle(t, bs[0].0, bs[0].1), bs.drop_first()),
        }
    }
}

/// Whether moving `bs` from `f` to `t` keeps every receiving amount
/// within machine bounds, step by step.
pub open spec fn move_fits(
    f: Seq<(Seq<u8>, int)>,
    t: Seq<(Seq<u8>, int)>,
    bs: Seq<(Seq<u8>, int)>,
) -> bool
    decreases bs.len(),
{
    if bs.len() == 0 {
        true
    } else {
        amount_of(t, bs[0].0) + bs[0].1 <= u64::MAX && (match sub_bundle(f, bs[0].0, bs[0].1) {
            Err(e) => true,
            Ok(f2) => move_fits(f2, add_bundle(t, bs[0].0, bs[0].1), bs.drop_first()),
        })
    }
}

impl Wallet {
    /// Whether the wallet is well formed: every identifier has its exact
    /// length and no identifier repeats.
    pub open spec fn wf(&self) -> bool {
        &&& forall|i: int|
            0 <= i < self.assets@.len() ==> (#[trigger] self.assets@[i]).wf()
        &&& forall|i: int, j: int|
            0 <= i < j < self.assets@.len() ==> self.assets@[i].id@ != self.assets@[j].id@
    }

    /// A wallet with nothing in it.
    pub fn new_empty() -> (r: Wallet)
        ensures
            r@.balance == 0,
            r@.assets.len() == 0,
            r.wf(),
    {
        Wallet { balance: 0, assets: Vec::new() }
    }

    /// Builds a wallet from a balance and holdings.
    pub fn new(balance: u64, assets: Vec<AssetBundle>) -> (r: Wallet)
        ensures
            r.balance == balance,
            r.assets@ == assets@,
    {
        Wallet { balance, assets }
    }

    /// The coin balance.
    pub fn balance(&self) -> (r: u64)
        ensures
            r == self.balance,
    {
        self.balance
    }

    /// An owned copy of the wallet.
    pub fn duplicate(&self) -> (r: Self)
        ensures
            r@.balance == self@.balance,
            r@.assets == self@.assets,
    {
        Wallet { balance: self.balance, assets: dup_bundles(&self.assets) }
    }
}

/// Moves `amount` coins from one wallet to another. When the source
/// balance is short, nothing changes and the move fails with an
/// insufficient-funds error; otherwise the source is debited and the
/// destination credited by exactly `amount`.
pub fn move_coins(from: &mut Wallet, to: &mut Wallet, amount: u64) -> (r: Result<(), Error>)
    requires
        old(to).balance + amount <= u64::MAX,
    ensures
        old(from).balance < amount ==> r == Err::<(), Error>(Error::InsufficientFunds)
            && *final(from) == *old(from) && *final(to) == *old(to),
        old(from).balance >= amount ==> r == Ok::<(), Error>(())
            && final(from).balance == old(from).balance - amount
            && final(to).balance == old(to).balance + amount
            && final(from).assets == old(from).assets
            && final(to).assets == old(to).assets,
{
    if from.balance < amount {
        return Err(Error::InsufficientFunds);
    }
    from.balance = from.balance - amount;
    to.balance = to.balance + amount;
    Ok(())
}

/// The index of `id` among `assets`, executable form.
fn find_asset(assets: &Vec<AssetBundle>, id: &crate::assets::AssetId) -> (r: Option<usize>)
    ensures
        (r matches Some(i) ==> 0 <= i < assets@.len() && find_idx(
            bviews(assets@),
            id@,
        ) == i as int),
        r is None ==> find_idx(bviews(assets@), id@) < 0,
{
    let ghost s = bviews(assets@);
    let mut i: usize = 0;
    proof {
        assert(s.skip(0) =~= s);
    }
    while i < assets.len()
        invariant
            i <= assets@.len(),
            s == bviews(assets@),
            find_idx(s.skip(i as int), id@) >= 0 ==> find_idx(s, id@) == find_idx(
                s.skip(i as int),
                id@,
            ) + i as int,
            find_idx(s.skip(i as int), id@) < 0 ==> find_idx(s, id@) < 0,
        decreases assets@.len() - i,
    {
        proof {
            assert(s.skip(i as int)[0] == s[i as int]);
            assert(s.skip(i as int).drop_first() =~= s.skip(i + 1 as int));
            assert(s[i as int] == assets@[i as int]@);
        }
        if assets[i].id.same_as(id) {
            proof {
                assert(find_idx(s.skip(i as int), id@) == 0);
            }
            return Some(i);
        }
        i += 1;
    }
    proof {
        assert(s.skip(s.len() as int) =~= Seq::<(Seq<u8>, int)>::empty());
    }
    None
}

/// Takes `amt` of asset `id` out of `assets`, as `sub_bundle` says; on
/// an error nothing changes.
fn sub_bundle_exec(assets: &mut Vec<AssetBundle>, id: &crate::assets::AssetId, amt: u64) -> (r:
    Result<(), Error>)
    ensures
        (match sub_bundle(bviews(old(assets)@), id@, amt as int) {
            Ok(s2) => r == Ok::<(), Error>(()) && bviews(final(assets)@)
                == s2,
            Err(e) => r == Err::<(), Error>(e) && final(assets)@ == old(assets)@,
        }),
{
    let ghost s = bviews(assets@);
    match find_asset(assets, id) {
        None => Err(Error::AssetNotFound),
        Some(i) => {
            proof {
                lemma_find_idx_props(s, id@);
                assert(s[i as int] == assets@[i as int]@);
            }
            let have = assets[i].amount;
            if have < amt {
                Err(Error::InsufficientAssetAmount)
            } else if have == amt {
                assets.remove(i);
                proof {
                    assert(bviews(assets@) =~= s.remove(i as int));
                }
                Ok(())
            } else {
                let new_bundle = AssetBundle::new(id.duplicate(), have - amt);
                assets.set(i, new_bundle);
                proof {
                    assert(s[i as int].0 == id@);
                    assert(bviews(assets@) =~= s.update(
                        i as int,
                        (id@, s[i as int].1 - amt),
                    ));
                }
                Ok(())
            }
        },
    }
}

/// Adds `amt` of asset `id` to `assets`, as `add_bundle` says.
fn add_bundle_exec(assets: &mut Vec<AssetBundle>, id: &crate::assets::AssetId, amt: u64)
    requires
        amount_of(bviews(old(assets)@), id@) + amt <= u64::MAX,
    ensures
        bviews(final(assets)@) == add_bundle(
            bviews(old(assets)@),
            id@,
            amt as int,
        ),
{
    let ghost s = bviews(assets@);
    match find_asset(assets, id) {
        None => {
            assets.push(AssetBundle::new(id.duplicate(), amt));
            proof {
                assert(bviews(assets@) =~= s.push((id@, amt as int)));
            }
        },
        Some(i) => {
            let have = assets[i].amount;
            proof {
                lemma_find_idx_props(s, id@);
                assert(s[i as int] == assets@[i as int]@);
                assert(s[i as int].0 == id@);
                assert(amount_of(s, id@) == s[i as int].1);
            }
            let new_bundle = AssetBundle::new(id.duplicate(), have + amt);
            assets.set(i, new_bundle);
            proof {
                assert(bviews(assets@) =~= s.update(
                    i as int,
                    (id@, s[i as int].1 + amt),
                ));
            }
        },
    }
}

/// Moves the bundles `bundles` from holdings `f` to holdings `t`, one
/// after another, handing back the new holdings, or the first failing
/// bundle's error with nothing moved.
fn move_all_exec(f: &Vec<AssetBundle>, t: &Vec<AssetBundle>, bundles: &Vec<AssetBundle>) -> (r:
    Result<(Vec<AssetBundle>, Vec<AssetBundle>), Error>)
    requires
        move_fits(bviews(f@), bviews(t@), bviews(bundles@)),
    ensures
        (match move_all(bviews(f@), bviews(t@), bviews(bundles@)) {
            Ok(pair) => (r matches Ok(p) && bviews(p.0@) == pair.0 && bviews(p.1@) == pair.1),
            Err(e) => r == Err::<(Vec<AssetBundle>, Vec<AssetBundle>), Error>(e),
        }),
{
    let ghost bs = bviews(bundles@);
    let ghost f0 = bviews(f@);
    let ghost t0 = bviews(t@);
    let mut f_work = dup_bundles(f);
    let mut t_work = dup_bundles(t);
    let mut i: usize = 0;
    proof {
        assert(bs.skip(0) =~= bs);
    }
    while i < bundles.len()
        invariant
            i <= bundles@.len(),
            bs == bviews(bundles@),
            f0 == bviews(f@),
            t0 == bviews(t@),
            bs.len() == bundles@.len(),
            move_all(f0, t0, bs) == move_all(
                bviews(f_work@),
                bviews(t_work@),
                bs.skip(i as int),
            ),
            move_fits(bviews(f_work@), bviews(t_work@), bs.skip(i as int)),
        decreases bundles@.len() - i,
    {
        proof {
            assert(bs.skip(i as int)[0] == bs[i as int]);
            assert(bs.skip(i as int).drop_first() =~= bs.skip(i + 1 as int));
            assert(bs[i as int] == bundles@[i as int]@);
        }
        let b = &bundles[i];
        let step = sub_bundle_exec(&mut f_work, &b.id, b.amount);
        match step {
            Err(e) => {
                proof {
                    assert(move_all(f0, t0, bs) == Err::<
                        (Seq<(Seq<u8>, int)>, Seq<(Seq<u8>, int)>),
                        Error,
                    >(e));
                }
                return Err(e);
            },
            Ok(()) => {},
        }
        add_bundle_exec(&mut t_work, &b.id, b.amount);
        i += 1;
    }
    proof {
        assert(bs.skip(bs.len() as int) =~= Seq::<(Seq<u8>, int)>::empty());
    }
    Ok((f_work, t_work))
}

/// Moves the bundles `assets` from one wallet to another, all or
/// nothing: when any bundle is absent or short in the source, neither
/// wallet changes and the first failing bundle's error is returned;
/// otherwise every bundle leaves the source and lands in the
/// destination, and both balances stay as they were.
pub fn move_assets(from: &mut Wallet, to: &mut Wallet, assets: &Vec<AssetBundle>) -> (r: Result<
    (),
    Error,
>)
    requires
        move_fits(old(from)@.assets, old(to)@.assets, bviews(assets@)),
    ensures
        (match move_all(old(from)@.assets, old(to)@.assets, bviews(assets@)) {
            Ok(pair) => r == Ok::<(), Error>(()) && final(from)@.assets == pair.0
                && final(to)@.assets == pair.1,
            Err(e) => r == Err::<(), Error>(e) && final(from)@.assets == old(from)@.assets
                && final(to)@.assets == old(to)@.assets,
        }),
        final(from).balance == old(from).balance,
        final(to).balance == old(to).balance,
{
    match move_all_exec(&from.assets, &to.assets, assets) {
        Err(e) => Err(e),
        Ok(pair) => {
            let (f2, t2) = pair;
            from.assets = f2;
            to.assets = t2;
            Ok(())
        },
    }
}

/// An owned copy of a bundle list.
pub fn dup_bundles(v: &Vec<AssetBundle>) -> (r: Vec<AssetBundle>)
    ensures
        bviews(r@) == bviews(v@),
{
    let ghost m = bviews(v@);
    let mut out: Vec<AssetBundle> = Vec::new();
    let mut i: usize = 0;
    while i < v.len()
        invariant
            i <= v@.len(),
            m == bviews(v@),
            m.len() == v@.len(),
            out@.len() == i,
            bviews(out@) == m.take(i as int),
        decreases v@.len() - i,
    {
        let ghost prev = out@;
        let bundle = v[i].duplicate();
        let ghost bv = bundle@;
        proof {
            assert(bv == m[i as int]);
        }
        out.push(bundle);
        proof {
            assert(out@.len() == i + 1);
            assert(out@[i as int]@ == bv);
            assert forall|j: int| 0 <= j < out@.len() implies bviews(out@)[j] == m.take(
                i + 1 as int,
            )[j] by {
                if j < i as int {
                    assert(bviews(prev)[j] == m.take(i as int)[j]);
                    assert(out@[j] == prev[j]);
                } else {
                    assert(bviews(out@)[j] == bv);
                }
            }
            assert(bviews(out@) =~= m.take(i + 1 as int));
        }
        i += 1;
    }
    proof {
        assert(m.take(m.len() as int) =~= m);
    }
    out
}


/// The holdings after taking each bundle of `bs` out of `f`, one after
/// another; the first failing bundle decides the error.
pub open spec fn remove_all(
    f: Seq<(Seq<u8>, int)>,
    bs: Seq<(Seq<u8>, int)>,
) -> Result<Seq<(Seq<u8>, int)>, Error>
    decreases bs.len(),
{
    if bs.len() == 0 {
        Ok(f)
    } else {
        match sub_bundle(f, bs[0].0, bs[0].1) {
            Err(e) => Err(e),
            Ok(f2) => remove_all(f2, bs.drop_first()),
        }
    }
}

impl Wallet {
    /// Removes the bundles `assets` from this wallet, all or nothing:
    /// when any bundle is absent or short, nothing changes and the
    /// first failing bundle's error is returned.
    pub fn remove_assets(&mut self, assets: &Vec<AssetBundle>) -> (r: Result<(), Error>)
        ensures
            (match remove_all(old(self)@.assets, bviews(assets@)) {
                Ok(f2) => r == Ok::<(), Error>(()) && final(self)@.assets == f2,
                Err(e) => r == Err::<(), Error>(e) && final(self)@.assets == old(self)@.assets,
            }),
            final(self).balance == old(self).balance,
    {
        let ghost bs = bviews(assets@);
        let ghost f0 = bviews(self.assets@);
        let mut work = dup_bundles(&self.assets);
        let mut i: usize = 0;
        proof {
            assert(bs.skip(0) =~= bs);
        }
        while i < assets.len()
            invariant
                i <= assets@.len(),
                bs == bviews(assets@),
                f0 == old(self)@.assets,
                self.assets@ == old(self).assets@,
                self.balance == old(self).balance,
                bs.len() == assets@.len(),
                remove_all(f0, bs) == remove_all(bviews(work@), bs.skip(i as int)),
            decreases assets@.len() - i,
        {
            proof {
                assert(bs.skip(i as int)[0] == bs[i as int]);
                assert(bs.skip(i as int).drop_first() =~= bs.skip(i + 1 as int));
                assert(bs[i as int] == assets@[i as int]@);
            }
            let b = &assets[i];
            let step = sub_bundle_exec(&mut work, &b.id, b.amount);
            match step {
                Err(e) => {
                    proof {
                        assert(remove_all(f0, bs) == Err::<Seq<(Seq<u8>, int)>, Error>(e));
                    }
                    return Err(e);
                },
                Ok(()) => {},
            }
            i += 1;
        }
        proof {
            assert(bs.skip(bs.len() as int) =~= Seq::<(Seq<u8>, int)>::empty());
        }
        self.assets = work;
        Ok(())
    }
}

} // verus!
