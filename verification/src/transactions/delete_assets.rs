//! The `delete_assets` transaction: the owner pays the flat fee, the
//! registry's outstanding amounts shrink, and the owner's bundles are
//! removed — the registry record stays present even at zero. The
//! registry and wallet changes are all-or-nothing after the fee.

use vstd::prelude::*;
use vstd::utf8::encode_utf8;

use crate::assets::{AssetBundle, AssetInfo};
use crate::bytesutil::le16;
use crate::crypto::{HashDigest, PublicKey, SIGNATURE_LENGTH, Signature, spec_zero_sig};
use crate::encoding::{kinds_of, views_of, EncodingError, FieldKind, FieldV, FieldValue};
use crate::error::Error;
use crate::fork::{assoc_set, kfind, stored_wallet, ws_info, Fork, InfoSet};
use crate::messages::{decode_message_body, encode_unsigned, spec_decode_body, spec_msg_unsigned,
    RawMessage, HEADER_LENGTH, PROTOCOL_MAJOR_VERSION, TEST_NETWORK_ID};
use crate::transactions::components::{Configuration, DELETE_ASSETS_ID, SERVICE_ID};
use crate::wallet::{bviews, move_coins, remove_all, Wallet, WalletV};
use crate::wire::{bundles_bytes, bytes_to_string, decode_bundles, encode_bundles, parse_bundles};

verus! {

/// The field values of a delete: owner key, bundles, seed.
pub open spec fn delete_values(pub_key: Seq<u8>, assets: Seq<(Seq<u8>, int)>, seed: u64) -> Seq<
    FieldV,
> {
    seq![FieldV::Key(pub_key), FieldV::Segment(bundles_bytes(assets)), FieldV::U64(seed)]
}

/// The field layout of a delete.
pub open spec fn delete_layout() -> Seq<FieldKind> {
    seq![FieldKind::Key, FieldKind::Segment, FieldKind::Unsigned64]
}

/// The delete layout, executable form.
pub fn delete_layout_exec() -> (r: Vec<FieldKind>)
    ensures
        r@ == delete_layout(),
{
    let mut v: Vec<FieldKind> = Vec::new();
    v.push(FieldKind::Key);
    v.push(FieldKind::Segment);
    v.push(FieldKind::Unsigned64);
    proof {
        assert(v@ =~= delete_layout());
    }
    v
}

/// The fixed part of the delete layout is 48 bytes.
pub proof fn lemma_delete_layout_total()
    ensures
        crate::encoding::fixed_total(delete_layout()) == 48,
{
    let k0 = delete_layout();
    let k1 = seq![FieldKind::Segment, FieldKind::Unsigned64];
    let k2 = seq![FieldKind::Unsigned64];
    let k3 = Seq::<FieldKind>::empty();
    assert(k0.drop_first() =~= k1);
    assert(k1.drop_first() =~= k2);
    assert(k2.drop_first() =~= k3);
    assert(crate::encoding::fixed_total(k3) == 0);
    assert(crate::encoding::fixed_total(k2) == 8);
    assert(crate::encoding::fixed_total(k1) == 16);
    assert(crate::encoding::fixed_total(k0) == 48);
}

/// Whether a raw buffer decodes as a delete: the header names the kind,
/// every field checks out and the bundle list parses.
pub open spec fn delete_decode_ok(raw: Seq<u8>) -> bool {
    &&& raw.len() >= HEADER_LENGTH + SIGNATURE_LENGTH
    &&& le16(raw, 2) == DELETE_ASSETS_ID
    &&& le16(raw, 4) == SERVICE_ID
    &&& match spec_decode_body(raw, delete_layout()) {
        Ok(vt) => (vt[1] matches FieldV::Segment(b) && parse_bundles(b) is Some),
        Err(_) => false,
    }
}

/// A `delete_assets` transaction.
#[derive(Debug, Clone, PartialEq)]
pub struct DeleteAssets {
    pub pub_key: PublicKey,
    pub assets: Vec<AssetBundle>,
    pub seed: u64,
    pub signature: Signature,
}

/// The registry working set after taking each bundle's amount out of
/// its record, one after another: a missing record is an
/// asset-not-found error, a short one an asset-amount error; a record
/// that reaches zero stays, with zero outstanding.
pub open spec fn delete_infos(
    rega: Seq<(Seq<u8>, (Seq<u8>, int, ((int, int, int), (int, int, int), (int, int, int))))>,
    ws: Seq<(Seq<u8>, (Seq<u8>, int, ((int, int, int), (int, int, int), (int, int, int))))>,
    bs: Seq<(Seq<u8>, int)>,
) -> Result<
    Seq<(Seq<u8>, (Seq<u8>, int, ((int, int, int), (int, int, int), (int, int, int))))>,
    Error,
>
    decreases bs.len(),
{
    if bs.len() == 0 {
        Ok(ws)
    } else {
        match ws_info(rega, ws, bs[0].0) {
            None => Err(Error::AssetNotFound),
            Some(info) => if info.1 < bs[0].1 {
                Err(Error::InsufficientAssetAmount)
            } else {
                delete_infos(
                    rega,
                    assoc_set(ws, bs[0].0, (info.0, info.1 - bs[0].1, info.2)),
                    bs.drop_first(),
                )
            },
        }
    }
}

/// How a delete leaves the stores: nothing moves when the owner cannot
/// pay the fee; the fee alone moves when any bundle's registry record
/// is missing or short, or the owner's own holdings are; fee, registry
/// amounts and owner holdings all change when every check passes. A
/// delete whose owner is the treasury itself is charged nothing.
/// Third-party wallets and unrelated registry records never change.
pub open spec fn delete_post(
    owner: Seq<u8>,
    genesis: Seq<u8>,
    fee: int,
    bs: Seq<(Seq<u8>, int)>,
    w0: Seq<(Seq<u8>, WalletV)>,
    w1: Seq<(Seq<u8>, WalletV)>,
    a0: Seq<(Seq<u8>, (Seq<u8>, int, ((int, int, int), (int, int, int), (int, int, int))))>,
    a1: Seq<(Seq<u8>, (Seq<u8>, int, ((int, int, int), (int, int, int), (int, int, int))))>,
    r: Result<(), Error>,
) -> bool {
    let o0 = stored_wallet(w0, owner);
    let g0 = stored_wallet(w0, genesis);
    let fee_eff: int = if owner == genesis {
        0
    } else {
        fee
    };
    let wframe = forall|k: Seq<u8>|
        k != owner && k != genesis ==> kfind(w1, k) == kfind(w0, k);
    let fee_done = (owner == genesis || kfind(w1, genesis) == Some(
        WalletV { balance: g0.balance + fee_eff, ..g0 },
    )) && wframe;
    if o0.balance < fee_eff {
        r == Err::<(), Error>(Error::InsufficientFunds) && w1 == w0 && a1 == a0
    } else {
        let empty_ws = Seq::<
            (Seq<u8>, (Seq<u8>, int, ((int, int, int), (int, int, int), (int, int, int)))),
        >::empty();
        match delete_infos(a0, empty_ws, bs) {
            Err(e) => {
                &&& r == Err::<(), Error>(e)
                &&& fee_done
                &&& kfind(w1, owner) == Some(WalletV { balance: o0.balance - fee_eff, ..o0 })
                &&& a1 == a0
            },
            Ok(ws) => match remove_all(o0.assets, bs) {
                Err(e) => {
                    &&& r == Err::<(), Error>(e)
                    &&& fee_done
                    &&& kfind(w1, owner) == Some(WalletV { balance: o0.balance - fee_eff, ..o0 })
                    &&& a1 == a0
                },
                Ok(f2) => {
                    &&& r == Ok::<(), Error>(())
                    &&& fee_done
                    &&& kfind(w1, owner) == Some(
                        WalletV { balance: o0.balance - fee_eff, assets: f2 },
                    )
                    &&& forall|k: Seq<u8>|
                        kfind(a1, k) == (match kfind(ws, k) {
                            Some(info) => Some(info),
                            None => kfind(a0, k),
                        })
                },
            },
        }
    }
}

impl DeleteAssets {
    /// The ghost field values of this delete.
    pub open spec fn spec_values(&self) -> Seq<FieldV> {
        delete_values(self.pub_key@, bviews(self.assets@), self.seed)
    }

    /// The unsigned bytes of this delete's message.
    pub open spec fn spec_unsigned(&self) -> Seq<u8> {
        spec_msg_unsigned(
            TEST_NETWORK_ID,
            PROTOCOL_MAJOR_VERSION,
            DELETE_ASSETS_ID,
            SERVICE_ID,
            self.spec_values(),
        )
    }

    /// Whether the delete's parts are well formed.
    pub open spec fn wf(&self) -> bool {
        &&& self.pub_key.wf()
        &&& self.signature.wf()
        &&& forall|i: int| 0 <= i < self.assets@.len() ==> (#[trigger] self.assets@[i]).wf()
    }

    /// Whether the encoded message fits the wire's offsets.
    pub open spec fn fits(&self) -> bool {
        HEADER_LENGTH + crate::encoding::fixed_total(kinds_of(self.spec_values()))
            + crate::encoding::seg_total(self.spec_values()) + SIGNATURE_LENGTH <= u32::MAX
    }

    /// The executable field values of this delete.
    pub fn field_values(&self) -> (r: Vec<FieldValue>)
        ensures
            views_of(r@) == self.spec_values(),
    {
        let mut v: Vec<FieldValue> = Vec::new();
        v.push(FieldValue::Key(self.pub_key.duplicate()));
        v.push(FieldValue::Segment(encode_bundles(&self.assets)));
        v.push(FieldValue::U64(self.seed));
        proof {
            assert(views_of(v@) =~= self.spec_values());
        }
        v
    }

    /// Builds a delete; its message signature slot starts zeroed for
    /// the embedding to fill.
    pub fn new(pub_key: &PublicKey, assets: Vec<AssetBundle>, seed: u64) -> (r:
        DeleteAssets)
        requires
            pub_key.wf(),
            forall|i: int| 0 <= i < assets@.len() ==> (#[trigger] assets@[i]).wf(),
            HEADER_LENGTH + crate::encoding::fixed_total(
                kinds_of(delete_values(pub_key@, bviews(assets@), seed)),
            ) + crate::encoding::seg_total(delete_values(pub_key@, bviews(assets@), seed))
                + SIGNATURE_LENGTH <= u32::MAX,
        ensures
            r.pub_key@ == pub_key@,
            bviews(r.assets@) == bviews(assets@),
            r.seed == seed,
            r.signature@ == spec_zero_sig(),
            r.wf(),
    {
        let tx = DeleteAssets {
            pub_key: pub_key.duplicate(),
            assets,
            seed,
            signature: Signature::zero(),
        };
        tx
    }

    /// The signed raw message of this delete.
    pub fn to_raw(&self) -> (r: RawMessage)
        requires
            self.wf(),
            self.fits(),
        ensures
            r@ == self.spec_unsigned() + self.signature@,
    {
        let vals = self.field_values();
        let mut bytes = encode_unsigned(
            TEST_NETWORK_ID,
            PROTOCOL_MAJOR_VERSION,
            DELETE_ASSETS_ID,
            SERVICE_ID,
            &vals,
        );
        crate::bytesutil::append_bytes(&mut bytes, &self.signature.0.bytes);
        RawMessage::from_vec(bytes)
    }

    /// The hash that keys this delete's recorded result.
    pub fn hash(&self) -> (r: HashDigest)
        requires
            self.wf(),
            self.fits(),
        ensures
            r@ == crate::bytesutil::spec_digest32(self.spec_unsigned() + self.signature@),
            r.wf(),
    {
        let raw = self.to_raw();
        crate::crypto::digest32(&raw.0.raw)
    }


    /// The flat fee owed by the responsible party: the owner, unless the
    /// owner is the treasury itself.
    pub fn calculate_fees(&self, cfg: &Configuration) -> (r: Vec<(PublicKey, u64)>)
        ensures
            cfg.genesis_key@ != self.pub_key@ ==> r@.len() == 1 && r@[0].0@ == self.pub_key@
                && r@[0].1 == cfg.delete_assets_fee,
            cfg.genesis_key@ == self.pub_key@ ==> r@.len() == 0,
    {
        let mut table: Vec<(PublicKey, u64)> = Vec::new();
        if !cfg.genesis_key.same_as(&self.pub_key) {
            table.push((self.pub_key.duplicate(), cfg.delete_assets_fee));
        }
        table
    }

    /// Executes the delete against the fork and records the outcome
    /// under the transaction's hash.
    pub fn execute(&self, fork: &mut Fork, cfg: &Configuration) -> (r: Result<(), Error>)
        requires
            self.wf(),
            self.fits(),
            cfg.wf(),
            self.pub_key@ != cfg.genesis_key@ ==> stored_wallet(
                old(fork)@.wallets,
                cfg.genesis_key@,
            ).balance + cfg.delete_assets_fee <= u64::MAX,
        ensures
            delete_post(
                self.pub_key@,
                cfg.genesis_key@,
                cfg.delete_assets_fee as int,
                bviews(self.assets@),
                old(fork)@.wallets,
                final(fork)@.wallets,
                old(fork)@.assets,
                final(fork)@.assets,
                r,
            ),
            kfind(final(fork)@.statuses, crate::bytesutil::spec_digest32(self.spec_unsigned() + self.signature@))
                == Some(r),
            forall|k: Seq<u8>|
                k != crate::bytesutil::spec_digest32(self.spec_unsigned() + self.signature@) ==> kfind(
                    final(fork)@.statuses,
                    k,
                ) == kfind(old(fork)@.statuses, k),
    {
        let r = self.process(fork, cfg);
        let h = self.hash();
        fork.store_status(&h, r);
        r
    }

    /// The state transition of the delete: collect the flat fee from the
    /// owner, check and shrink every named registry record, remove the
    /// bundles from the owner, then commit registry and wallet together.
    pub fn process(&self, fork: &mut Fork, cfg: &Configuration) -> (r: Result<(), Error>)
        requires
            self.wf(),
            cfg.wf(),
            self.pub_key@ != cfg.genesis_key@ ==> stored_wallet(
                old(fork)@.wallets,
                cfg.genesis_key@,
            ).balance + cfg.delete_assets_fee <= u64::MAX,
        ensures
            delete_post(
                self.pub_key@,
                cfg.genesis_key@,
                cfg.delete_assets_fee as int,
                bviews(self.assets@),
                old(fork)@.wallets,
                final(fork)@.wallets,
                old(fork)@.assets,
                final(fork)@.assets,
                r,
            ),
            final(fork)@.statuses == old(fork)@.statuses,
    {
        let ghost w0 = old(fork)@.wallets;
        let ghost a0 = old(fork)@.assets;
        let ghost o0 = stored_wallet(w0, self.pub_key@);
        let ghost g0 = stored_wallet(w0, cfg.genesis_key@);
        let ghost bs = bviews(self.assets@);
        let fee: u64 = if cfg.genesis_key.same_as(&self.pub_key) {
            0
        } else {
            cfg.delete_assets_fee
        };
        let mut genesis = fork.fetch_wallet(&cfg.genesis_key);
        let mut owner = fork.fetch_wallet(&self.pub_key);
        match move_coins(&mut owner, &mut genesis, fee) {
            Err(e) => {
                return Err(e);
            },
            Ok(()) => {},
        }
        fork.store_wallet(&cfg.genesis_key, genesis);
        fork.store_wallet(&self.pub_key, owner.duplicate());
        proof {
            if self.pub_key@ == cfg.genesis_key@ {
                assert(o0 == g0);
            }
            assert(kfind(fork@.wallets, cfg.genesis_key@) == Some(
                WalletV { balance: g0.balance + fee, ..g0 },
            ));
            assert(kfind(fork@.wallets, self.pub_key@) == Some(
                WalletV { balance: o0.balance - fee, ..o0 },
            ));
            assert(bs.skip(0) =~= bs);
        }
        let mut infos = InfoSet::new();
        let ghost empty_ws = infos@;
        let mut i: usize = 0;
        while i < self.assets.len()
            invariant
                i <= self.assets@.len(),
                bs == bviews(self.assets@),
                bs.len() == self.assets@.len(),
                infos.wf(),
                a0 == old(fork)@.assets,
                w0 == old(fork)@.wallets,
                o0 == stored_wallet(w0, self.pub_key@),
                g0 == stored_wallet(w0, cfg.genesis_key@),
                o0.balance >= fee,
                fee as int == (if self.pub_key@ == cfg.genesis_key@ {
                    0int
                } else {
                    cfg.delete_assets_fee as int
                }),
                empty_ws == Seq::<
                    (
                        Seq<u8>,
                        (Seq<u8>, int, ((int, int, int), (int, int, int), (int, int, int))),
                    ),
                >::empty(),
                fork@.assets == a0,
                fork@.statuses == old(fork)@.statuses,
                kfind(fork@.wallets, cfg.genesis_key@) == Some(
                    WalletV { balance: g0.balance + fee, ..g0 },
                ),
                kfind(fork@.wallets, self.pub_key@) == Some(
                    WalletV { balance: o0.balance - fee, ..o0 },
                ),
                forall|k: Seq<u8>|
                    k != self.pub_key@ && k != cfg.genesis_key@ ==> kfind(fork@.wallets, k)
                        == kfind(w0, k),
                delete_infos(a0, empty_ws, bs) == delete_infos(a0, infos@, bs.skip(i as int)),
            decreases self.assets@.len() - i,
        {
            proof {
                assert(bs.skip(i as int)[0] == bs[i as int]);
                assert(bs.skip(i as int).drop_first() =~= bs.skip(i + 1 as int));
                assert(bs[i as int] == self.assets@[i as int]@);
            }
            let b = &self.assets[i];
            let info = match infos.info_of(fork, &b.id) {
                Some(info) => info,
                None => {
                    return Err(Error::AssetNotFound);
                },
            };
            let shrunk = match info.decrease(b.amount) {
                Ok(s) => s,
                Err(e) => {
                    return Err(e);
                },
            };
            infos.put(&b.id, shrunk);
            i += 1;
        }
        proof {
            assert(bs.skip(bs.len() as int) =~= Seq::<(Seq<u8>, int)>::empty());
        }
        let ghost final_ws = infos@;
        match owner.remove_assets(&self.assets) {
            Err(e) => {
                return Err(e);
            },
            Ok(()) => {},
        }
        fork.store_wallet(&self.pub_key, owner);
        infos.commit(fork);
        proof {
            if self.pub_key@ != cfg.genesis_key@ {
                assert(kfind(fork@.wallets, cfg.genesis_key@) == Some(
                    WalletV { balance: g0.balance + fee, ..g0 },
                ));
            }
        }
        Ok(())
    }

    /// Parses a delete out of a raw message, validating the header,
    /// every field and the bundle list before anything is used.
    pub fn from_raw(raw: &RawMessage) -> (r: Result<DeleteAssets, EncodingError>)
        ensures
            r matches Ok(tx) ==> raw@.len() >= HEADER_LENGTH + SIGNATURE_LENGTH && le16(raw@, 2)
                == DELETE_ASSETS_ID && le16(raw@, 4) == SERVICE_ID && (spec_decode_body(
                raw@,
                delete_layout(),
            ) matches Ok(vt) && vt.len() == 3 && vt[0] == FieldV::Key(tx.pub_key@) && (vt[1] matches
            FieldV::Segment(b) && parse_bundles(b) == Some(bviews(tx.assets@))) && vt[2]
                == FieldV::U64(tx.seed)) && tx.signature@ == raw@.subrange(
                raw@.len() - SIGNATURE_LENGTH,
                raw@.len() as int,
            ) && tx.wf(),
            (r is Ok) == delete_decode_ok(raw@),
    {
        if raw.0.raw.len() < HEADER_LENGTH + SIGNATURE_LENGTH {
            return Err(
                EncodingError::UnexpectedlyShortRawMessage {
                    position: 0,
                    size: raw.0.raw.len() as u32,
                },
            );
        }
        let mtype = raw.0.message_type();
        if mtype != DELETE_ASSETS_ID {
            return Err(EncodingError::IncorrectMessageType { message_type: mtype });
        }
        let sid = raw.0.service_id();
        if sid != SERVICE_ID {
            return Err(EncodingError::IncorrectServiceId { service_id: sid });
        }
        let kinds = delete_layout_exec();
        proof {
            lemma_delete_layout_total();
        }
        let mut vals = match decode_message_body(raw, &kinds) {
            Ok(v) => v,
            Err(e) => {
                return Err(e);
            },
        };
        let ghost vt = views_of(vals@);
        proof {
            crate::encoding::lemma_dec_shape(
                raw@,
                delete_layout(),
                HEADER_LENGTH as int,
                HEADER_LENGTH + crate::encoding::fixed_total(delete_layout()),
                raw@.len() - SIGNATURE_LENGTH,
            );
            assert(vt.len() == 3);
            assert(vals@.len() == 3);
            assert(forall|i: int| 0 <= i < 3 ==> (#[trigger] vt[i]) == vals@[i]@);
            assert(forall|i: int|
                0 <= i < 3 ==> (#[trigger] vt[i]).kind() == delete_layout()[i] && vt[i].wf());
        }
        let v2 = vals.remove(2);
        let v1 = vals.remove(1);
        let v0 = vals.remove(0);
        proof {
            assert(v0@ == vt[0] && v1@ == vt[1] && v2@ == vt[2]);
        }
        let pub_key = v0.into_key().unwrap();
        let assets_bytes = v1.into_segment().unwrap();
        let seed = v2.into_u64().unwrap();
        let assets = match decode_bundles(&assets_bytes) {
            Ok(a) => a,
            Err(e) => {
                return Err(e);
            },
        };
        let signature = raw.0.signature();
        Ok(DeleteAssets { pub_key, assets, seed, signature })
    }
}


impl DeleteAssets {
    /// Attaches the message's own signature, once the embedding has
    /// signed the bytes `to_raw` lays out before the trailing
    /// signature; every other part stays as it was.
    pub fn set_signature(&mut self, signature: &Signature)
        requires
            signature.wf(),
        ensures
            final(self).signature@ == signature@,
            final(self).signature.wf(),
            final(self).pub_key == old(self).pub_key,
            final(self).assets == old(self).assets,
            final(self).seed == old(self).seed,
    {
        self.signature = signature.duplicate();
    }
}

} // verus!
