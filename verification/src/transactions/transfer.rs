//! The plain transfer: the sender pays the flat transfer fee to the
//! treasury, moves coins to the recipient, then moves asset bundles; a
//! fee once collected stays collected, whatever later steps do.

use vstd::prelude::*;
use vstd::string::{StrSliceExecFns, StringExecFns, StringSliceAdditionalSpecFns};
use vstd::utf8::{encode_utf8, valid_utf8};

use crate::assets::AssetBundle;
use crate::bytesutil::le16;
use crate::crypto::{HashDigest, PublicKey, SIGNATURE_LENGTH, Signature, spec_zero_sig};
use crate::encoding::{kinds_of, views_of, EncodingError, FieldKind, FieldV, FieldValue};
use crate::error::Error;
use crate::fork::{kfind, stored_wallet, Fork};
use crate::messages::{decode_message_body, encode_unsigned, spec_decode_body,
    spec_msg_unsigned, RawMessage, HEADER_LENGTH, PROTOCOL_MAJOR_VERSION, TEST_NETWORK_ID};
use crate::transactions::components::{Configuration, SERVICE_ID, TRANSFER_ID};
use crate::wallet::{bviews, move_all, move_assets, move_coins, move_fits, Wallet, WalletV};
use crate::wire::{bundles_bytes, decode_bundles, encode_bundles, parse_bundles, bytes_to_string};

verus! {

/// The field values of a transfer: sender, recipient, amount, bundles,
/// seed, memo.
pub open spec fn transfer_values(
    from: Seq<u8>,
    to: Seq<u8>,
    amount: u64,
    assets: Seq<(Seq<u8>, int)>,
    seed: u64,
    data_info: Seq<char>,
) -> Seq<FieldV> {
    seq![
        FieldV::Key(from),
        FieldV::Key(to),
        FieldV::U64(amount),
        FieldV::Segment(bundles_bytes(assets)),
        FieldV::U64(seed),
        FieldV::Segment(encode_utf8(data_info)),
    ]
}

/// The field layout of a transfer.
pub open spec fn transfer_layout() -> Seq<FieldKind> {
    seq![
        FieldKind::Key,
        FieldKind::Key,
        FieldKind::Unsigned64,
        FieldKind::Segment,
        FieldKind::Unsigned64,
        FieldKind::Segment,
    ]
}

/// The transfer layout, executable form.
pub fn transfer_layout_exec() -> (r: Vec<FieldKind>)
    ensures
        r@ == transfer_layout(),
{
    let mut v: Vec<FieldKind> = Vec::new();
    v.push(FieldKind::Key);
    v.push(FieldKind::Key);
    v.push(FieldKind::Unsigned64);
    v.push(FieldKind::Segment);
    v.push(FieldKind::Unsigned64);
    v.push(FieldKind::Segment);
    proof {
        assert(v@ =~= transfer_layout());
    }
    v
}

/// The fixed part of the transfer layout is 96 bytes.
pub proof fn lemma_transfer_layout_total()
    ensures
        crate::encoding::fixed_total(transfer_layout()) == 96,
{
    let k0 = transfer_layout();
    let k1 = seq![
        FieldKind::Key,
        FieldKind::Unsigned64,
        FieldKind::Segment,
        FieldKind::Unsigned64,
        FieldKind::Segment,
    ];
    let k2 = seq![FieldKind::Unsigned64, FieldKind::Segment, FieldKind::Unsigned64, FieldKind::Segment];
    let k3 = seq![FieldKind::Segment, FieldKind::Unsigned64, FieldKind::Segment];
    let k4 = seq![FieldKind::Unsigned64, FieldKind::Segment];
    let k5 = seq![FieldKind::Segment];
    let k6 = Seq::<FieldKind>::empty();
    assert(k0.drop_first() =~= k1);
    assert(k1.drop_first() =~= k2);
    assert(k2.drop_first() =~= k3);
    assert(k3.drop_first() =~= k4);
    assert(k4.drop_first() =~= k5);
    assert(k5.drop_first() =~= k6);
    assert(crate::encoding::fixed_total(k6) == 0);
    assert(crate::encoding::fixed_total(k5) == 8);
    assert(crate::encoding::fixed_total(k4) == 16);
    assert(crate::encoding::fixed_total(k3) == 24);
    assert(crate::encoding::fixed_total(k2) == 32);
    assert(crate::encoding::fixed_total(k1) == 64);
    assert(crate::encoding::fixed_total(k0) == 96);
}

/// Whether a raw buffer decodes as a transfer: the header names the
/// kind, every field checks out, the bundle list parses and the memo is
/// valid text.
pub open spec fn transfer_decode_ok(raw: Seq<u8>) -> bool {
    &&& raw.len() >= HEADER_LENGTH + SIGNATURE_LENGTH
    &&& le16(raw, 2) == TRANSFER_ID
    &&& le16(raw, 4) == SERVICE_ID
    &&& match spec_decode_body(raw, transfer_layout()) {
        Ok(vt) => {
            &&& (vt[3] matches FieldV::Segment(b) && parse_bundles(b) is Some)
            &&& (vt[5] matches FieldV::Segment(d) && valid_utf8(d))
        },
        Err(_) => false,
    }
}

/// A `transfer` transaction.
#[derive(Debug, Clone, PartialEq)]
pub struct Transfer {
    pub from: PublicKey,
    pub to: PublicKey,
    pub amount: u64,
    pub assets: Vec<AssetBundle>,
    pub seed: u64,
    pub data_info: String,
    pub signature: Signature,
}

impl Transfer {
    /// The ghost field values of this transfer.
    pub open spec fn spec_values(&self) -> Seq<FieldV> {
        transfer_values(
            self.from@,
            self.to@,
            self.amount,
            bviews(self.assets@),
            self.seed,
            self.data_info@,
        )
    }

    /// The unsigned bytes of this transfer's message.
    pub open spec fn spec_unsigned(&self) -> Seq<u8> {
        spec_msg_unsigned(
            TEST_NETWORK_ID,
            PROTOCOL_MAJOR_VERSION,
            TRANSFER_ID,
            SERVICE_ID,
            self.spec_values(),
        )
    }

    /// Whether the transfer's parts are well formed.
    pub open spec fn wf(&self) -> bool {
        &&& self.from.wf()
        &&& self.to.wf()
        &&& self.signature.wf()
        &&& forall|i: int| 0 <= i < self.assets@.len() ==> (#[trigger] self.assets@[i]).wf()
    }

    /// Whether the encoded message fits the wire's offsets.
    pub open spec fn fits(&self) -> bool {
        HEADER_LENGTH + crate::encoding::fixed_total(kinds_of(self.spec_values()))
            + crate::encoding::seg_total(self.spec_values()) + SIGNATURE_LENGTH <= u32::MAX
    }

    /// The executable field values of this transfer.
    pub fn field_values(&self) -> (r: Vec<FieldValue>)
        ensures
            views_of(r@) == self.spec_values(),
    {
        let mut v: Vec<FieldValue> = Vec::new();
        v.push(FieldValue::Key(self.from.duplicate()));
        v.push(FieldValue::Key(self.to.duplicate()));
        v.push(FieldValue::U64(self.amount));
        v.push(FieldValue::Segment(encode_bundles(&self.assets)));
        v.push(FieldValue::U64(self.seed));
        v.push(FieldValue::Segment(self.data_info.as_str().as_bytes_vec()));
        proof {
            assert(views_of(v@) =~= self.spec_values());
        }
        v
    }

    /// Builds a transfer; its message signature slot starts zeroed
    /// for the embedding to fill.
    pub fn new(
        from: &PublicKey,
        to: &PublicKey,
        amount: u64,
        assets: Vec<AssetBundle>,
        seed: u64,
        data_info: &str,
    ) -> (r: Transfer)
        requires
            from.wf(),
            to.wf(),
            forall|i: int| 0 <= i < assets@.len() ==> (#[trigger] assets@[i]).wf(),
            HEADER_LENGTH + crate::encoding::fixed_total(
                kinds_of(transfer_values(from@, to@, amount, bviews(assets@), seed, data_info@)),
            ) + crate::encoding::seg_total(
                transfer_values(from@, to@, amount, bviews(assets@), seed, data_info@),
            ) + SIGNATURE_LENGTH <= u32::MAX,
        ensures
            r.from@ == from@,
            r.to@ == to@,
            r.amount == amount,
            bviews(r.assets@) == bviews(assets@),
            r.seed == seed,
            r.data_info@ == data_info@,
            r.signature@ == spec_zero_sig(),
            r.wf(),
    {
        let tx = Transfer {
            from: from.duplicate(),
            to: to.duplicate(),
            amount,
            assets,
            seed,
            data_info: String::from_str(data_info),
            signature: Signature::zero(),
        };
        tx
    }

    /// The signed raw message of this transfer.
    pub fn to_raw(&self) -> (r: RawMessage)
        requires
            self.wf(),
            self.fits(),
        ensures
            r@ == self.spec_unsigned() + self.signature@,
    {
        let vals = self.field_values();
        let mut bytes = encode_unsigned(
            TEST_NETWORK_ID,
            PROTOCOL_MAJOR_VERSION,
            TRANSFER_ID,
            SERVICE_ID,
            &vals,
        );
        crate::bytesutil::append_bytes(&mut bytes, &self.signature.0.bytes);
        RawMessage::from_vec(bytes)
    }

    /// The hash that keys this transfer's recorded result.
    pub fn hash(&self) -> (r: HashDigest)
        requires
            self.wf(),
            self.fits(),
        ensures
            r@ == crate::bytesutil::spec_digest32(self.spec_unsigned() + self.signature@),
            r.wf(),
    {
        let raw = self.to_raw();
        crate::crypto::digest32(&raw.0.raw)
    }

    /// Structural check: the parties differ. Signature verification is
    /// the embedding's, over the bytes `to_raw` lays out.
    pub fn verify(&self) -> (r: bool)
        ensures
            r == (self.from@ != self.to@),
    {
        !self.from.same_as(&self.to)
    }

    /// Executes the transfer against the fork and records the outcome
    /// under the transaction's hash.
    pub fn execute(&self, fork: &mut Fork, cfg: &Configuration) -> (r: Result<(), Error>)
        requires
            self.wf(),
            self.fits(),
            cfg.wf(),
            self.from@ != self.to@,
            self.from@ != cfg.genesis_key@,
            self.to@ != cfg.genesis_key@,
            stored_wallet(old(fork)@.wallets, cfg.genesis_key@).balance + cfg.transfer_fee
                <= u64::MAX,
            stored_wallet(old(fork)@.wallets, self.to@).balance + self.amount <= u64::MAX,
            move_fits(
                stored_wallet(old(fork)@.wallets, self.from@).assets,
                stored_wallet(old(fork)@.wallets, self.to@).assets,
                bviews(self.assets@),
            ),
        ensures
            transfer_post(
                self.from@,
                self.to@,
                cfg.genesis_key@,
                cfg.transfer_fee as int,
                self.amount as int,
                bviews(self.assets@),
                old(fork)@.wallets,
                final(fork)@.wallets,
                r,
            ),
            kfind(final(fork)@.statuses, crate::bytesutil::spec_digest32(self.spec_unsigned() + self.signature@))
                == Some(r),
            forall|k: Seq<u8>|
                k != crate::bytesutil::spec_digest32(self.spec_unsigned() + self.signature@) ==> kfind(
                    final(fork)@.statuses,
                    k,
                ) == kfind(old(fork)@.statuses, k),
            final(fork)@.assets == old(fork)@.assets,
    {
        let r = self.process(fork, cfg);
        let h = self.hash();
        fork.store_status(&h, r);
        r
    }

    /// The state transition of the transfer: collect the flat fee from
    /// the sender, move the amount, move the bundles; each stage commits
    /// before the next may fail. Sender, recipient and treasury must be
    /// pairwise distinct because the wallet store is last-write-wins:
    /// with aliased parties the final store would silently drop one of
    /// the working copies, so such a transfer is not given a meaning
    /// here.
    pub fn process(&self, fork: &mut Fork, cfg: &Configuration) -> (r: Result<(), Error>)
        requires
            self.wf(),
            cfg.wf(),
            self.from@ != self.to@,
            self.from@ != cfg.genesis_key@,
            self.to@ != cfg.genesis_key@,
            stored_wallet(old(fork)@.wallets, cfg.genesis_key@).balance + cfg.transfer_fee
                <= u64::MAX,
            stored_wallet(old(fork)@.wallets, self.to@).balance + self.amount <= u64::MAX,
            move_fits(
                stored_wallet(old(fork)@.wallets, self.from@).assets,
                stored_wallet(old(fork)@.wallets, self.to@).assets,
                bviews(self.assets@),
            ),
        ensures
            transfer_post(
                self.from@,
                self.to@,
                cfg.genesis_key@,
                cfg.transfer_fee as int,
                self.amount as int,
                bviews(self.assets@),
                old(fork)@.wallets,
                final(fork)@.wallets,
                r,
            ),
            final(fork)@.assets == old(fork)@.assets,
            final(fork)@.statuses == old(fork)@.statuses,
    {
        let ghost w0 = old(fork)@.wallets;
        let ghost s0 = stored_wallet(w0, self.from@);
        let ghost g0 = stored_wallet(w0, cfg.genesis_key@);
        let ghost t0 = stored_wallet(w0, self.to@);
        let fee = cfg.transfer_fee;
        let mut genesis = fork.fetch_wallet(&cfg.genesis_key);
        let mut sender = fork.fetch_wallet(&self.from);
        match move_coins(&mut sender, &mut genesis, fee) {
            Err(e) => {
                return Err(e);
            },
            Ok(()) => {},
        }
        fork.store_wallet(&cfg.genesis_key, genesis);
        fork.store_wallet(&self.from, sender);
        proof {
            assert(kfind(fork@.wallets, cfg.genesis_key@) == Some(
                WalletV { balance: g0.balance + fee, ..g0 },
            ));
            assert(kfind(fork@.wallets, self.from@) == Some(
                WalletV { balance: s0.balance - fee, ..s0 },
            ));
            assert(kfind(fork@.wallets, self.to@) == kfind(w0, self.to@));
            assert(forall|k: Seq<u8>|
                k != self.from@ && k != self.to@ && k != cfg.genesis_key@ ==> kfind(
                    fork@.wallets,
                    k,
                ) == kfind(w0, k));
        }
        let ghost wa = fork@.wallets;
        let mut sender2 = fork.fetch_wallet(&self.from);
        let mut recipient = fork.fetch_wallet(&self.to);
        proof {
            assert(sender2@ == WalletV { balance: s0.balance - fee, ..s0 });
            assert(recipient@ == t0);
        }
        match move_coins(&mut sender2, &mut recipient, self.amount) {
            Err(e) => {
                return Err(e);
            },
            Ok(()) => {},
        }
        fork.store_wallet(&self.from, sender2);
        fork.store_wallet(&self.to, recipient);
        proof {
            assert(kfind(fork@.wallets, cfg.genesis_key@) == Some(
                WalletV { balance: g0.balance + fee, ..g0 },
            ));
            assert(kfind(fork@.wallets, self.from@) == Some(
                WalletV { balance: s0.balance - fee - self.amount, assets: s0.assets },
            ));
            assert(kfind(fork@.wallets, self.to@) == Some(
                WalletV { balance: t0.balance + self.amount, assets: t0.assets },
            ));
            assert(forall|k: Seq<u8>|
                k != self.from@ && k != self.to@ && k != cfg.genesis_key@ ==> kfind(
                    fork@.wallets,
                    k,
                ) == kfind(w0, k));
        }
        let mut sender3 = fork.fetch_wallet(&self.from);
        let mut recipient3 = fork.fetch_wallet(&self.to);
        proof {
            assert(sender3@.assets == s0.assets);
            assert(recipient3@.assets == t0.assets);
        }
        match move_assets(&mut sender3, &mut recipient3, &self.assets) {
            Err(e) => {
                return Err(e);
            },
            Ok(()) => {},
        }
        fork.store_wallet(&self.from, sender3);
        fork.store_wallet(&self.to, recipient3);
        proof {
            assert(kfind(fork@.wallets, cfg.genesis_key@) == Some(
                WalletV { balance: g0.balance + fee, ..g0 },
            ));
            assert(forall|k: Seq<u8>|
                k != self.from@ && k != self.to@ && k != cfg.genesis_key@ ==> kfind(
                    fork@.wallets,
                    k,
                ) == kfind(w0, k));
        }
        Ok(())
    }

    /// Parses a transfer out of a raw message, validating the header,
    /// every field, the bundle list and the memo text before anything
    /// is used.
    pub fn from_raw(raw: &RawMessage) -> (r: Result<Transfer, EncodingError>)
        ensures
            r matches Ok(tx) ==> raw@.len() >= HEADER_LENGTH + SIGNATURE_LENGTH && le16(raw@, 2)
                == TRANSFER_ID && le16(raw@, 4) == SERVICE_ID && (spec_decode_body(
                raw@,
                transfer_layout(),
            ) matches Ok(vt) && vt.len() == 6 && vt[0] == FieldV::Key(tx.from@) && vt[1]
                == FieldV::Key(tx.to@) && vt[2] == FieldV::U64(tx.amount) && (vt[3] matches
            FieldV::Segment(b) && parse_bundles(b) == Some(bviews(tx.assets@))) && vt[4]
                == FieldV::U64(tx.seed) && (vt[5] matches FieldV::Segment(d) && encode_utf8(
                tx.data_info@,
            ) == d)) && tx.signature@ == raw@.subrange(
                raw@.len() - SIGNATURE_LENGTH,
                raw@.len() as int,
            ) && tx.wf(),
            (r is Ok) == transfer_decode_ok(raw@),
    {
        if raw.0.raw.len() < HEADER_LENGTH + SIGNATURE_LENGTH {
            return Err(
                EncodingError::UnexpectedlyShortRawMessage {
                    position: 0,
                    size: raw.0.raw.len() as u32,
                },
            );
        }
        let mtype = raw.0.message_type();
        if mtype != TRANSFER_ID {
            return Err(EncodingError::IncorrectMessageType { message_type: mtype });
        }
        let sid = raw.0.service_id();
        if sid != SERVICE_ID {
            return Err(EncodingError::IncorrectServiceId { service_id: sid });
        }
        let kinds = transfer_layout_exec();
        proof {
            lemma_transfer_layout_total();
        }
        let mut vals = match decode_message_body(raw, &kinds) {
            Ok(v) => v,
            Err(e) => {
                return Err(e);
            },
        };
        let ghost vt = views_of(vals@);
        proof {
            crate::encoding::lemma_dec_shape(
                raw@,
                transfer_layout(),
                HEADER_LENGTH as int,
                HEADER_LENGTH + crate::encoding::fixed_total(transfer_layout()),
                raw@.len() - SIGNATURE_LENGTH,
            );
            assert(vt.len() == 6);
            assert(vals@.len() == 6);
            assert(forall|i: int| 0 <= i < 6 ==> (#[trigger] vt[i]) == vals@[i]@);
            assert(forall|i: int|
                0 <= i < 6 ==> (#[trigger] vt[i]).kind() == transfer_layout()[i] && vt[i].wf());
        }
        let v5 = vals.remove(5);
        let v4 = vals.remove(4);
        let v3 = vals.remove(3);
        let v2 = vals.remove(2);
        let v1 = vals.remove(1);
        let v0 = vals.remove(0);
        proof {
            assert(v0@ == vt[0] && v1@ == vt[1] && v2@ == vt[2] && v3@ == vt[3] && v4@ == vt[4]
                && v5@ == vt[5]);
        }
        let from = v0.into_key().unwrap();
        let to = v1.into_key().unwrap();
        let amount = v2.into_u64().unwrap();
        let assets_bytes = v3.into_segment().unwrap();
        let seed = v4.into_u64().unwrap();
        let data_bytes = v5.into_segment().unwrap();
        let assets = match decode_bundles(&assets_bytes) {
            Ok(a) => a,
            Err(e) => {
                return Err(e);
            },
        };
        let data_info = match bytes_to_string(&data_bytes) {
            Some(s) => s,
            None => {
                return Err(EncodingError::Utf8 { position: 0 });
            },
        };
        let signature = raw.0.signature();
        Ok(Transfer { from, to, amount, assets, seed, data_info, signature })
    }
}

/// How a transfer leaves the wallet store: nothing moves when the
/// sender cannot pay the fee; the fee alone moves when the sender
/// cannot cover the amount on top of it; fee and amount move when the
/// bundles cannot all move; everything moves when every stage goes
/// through. Wallets of third parties never change.
pub open spec fn transfer_post(
    from: Seq<u8>,
    to: Seq<u8>,
    genesis: Seq<u8>,
    fee: int,
    amount: int,
    bs: Seq<(Seq<u8>, int)>,
    w0: Seq<(Seq<u8>, WalletV)>,
    w1: Seq<(Seq<u8>, WalletV)>,
    r: Result<(), Error>,
) -> bool {
    let s0 = stored_wallet(w0, from);
    let g0 = stored_wallet(w0, genesis);
    let t0 = stored_wallet(w0, to);
    let frame = forall|k: Seq<u8>|
        k != from && k != to && k != genesis ==> kfind(w1, k) == kfind(w0, k);
    if s0.balance < fee {
        r == Err::<(), Error>(Error::InsufficientFunds) && w1 == w0
    } else if s0.balance - fee < amount {
        &&& r == Err::<(), Error>(Error::InsufficientFunds)
        &&& kfind(w1, genesis) == Some(WalletV { balance: g0.balance + fee, ..g0 })
        &&& kfind(w1, from) == Some(WalletV { balance: s0.balance - fee, ..s0 })
        &&& kfind(w1, to) == kfind(w0, to)
        &&& frame
    } else {
        match move_all(s0.assets, t0.assets, bs) {
            Err(e) => {
                &&& r == Err::<(), Error>(e)
                &&& kfind(w1, genesis) == Some(WalletV { balance: g0.balance + fee, ..g0 })
                &&& kfind(w1, from) == Some(
                    WalletV { balance: s0.balance - fee - amount, assets: s0.assets },
                )
                &&& kfind(w1, to) == Some(
                    WalletV { balance: t0.balance + amount, assets: t0.assets },
                )
                &&& frame
            },
            Ok(pair) => {
                &&& r == Ok::<(), Error>(())
                &&& kfind(w1, genesis) == Some(WalletV { balance: g0.balance + fee, ..g0 })
                &&& kfind(w1, from) == Some(
                    WalletV { balance: s0.balance - fee - amount, assets: pair.0 },
                )
                &&& kfind(w1, to) == Some(
                    WalletV { balance: t0.balance + amount, assets: pair.1 },
                )
                &&& frame
            },
        }
    }
}


impl Transfer {
    /// Attaches the message's own signature, once the embedding has
    /// signed the bytes `to_raw` lays out before the trailing
    /// signature; every other part stays as it was.
    pub fn set_signature(&mut self, signature: &Signature)
        requires
            signature.wf(),
        ensures
            final(self).signature@ == signature@,
            final(self).signature.wf(),
            final(self).from == old(self).from,
            final(self).to == old(self).to,
            final(self).amount == old(self).amount,
            final(self).assets == old(self).assets,
            final(self).seed == old(self).seed,
            final(self).data_info == old(self).data_info,
    {
        self.signature = signature.duplicate();
    }
}

} // verus!
