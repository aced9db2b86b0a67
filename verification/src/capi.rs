//! Thin wrappers that carry a transaction's parts across an embedding
//! boundary before the transaction itself is assembled.

use vstd::prelude::*;
use vstd::string::{StrSliceExecFns, StringExecFns, StringSliceAdditionalSpecFns};

use crate::crypto::{Signature, SIGNATURE_LENGTH};
use crate::messages::{spec_plain, HEADER_LENGTH};
use crate::transactions::exchange::{exchange_values, Exchange, ExchangeOffer};

verus! {

/// An exchange collected piece by piece: the offer, the seed, the
/// sender's signature over the offer, and the memo, waiting to become
/// an `Exchange` message.
#[derive(Debug)]
pub struct ExchangeWrapper {
    pub offer: ExchangeOffer,
    pub seed: u64,
    pub signature: Signature,
    pub data_info: String,
}

impl ExchangeWrapper {
    /// Collects the parts of an exchange.
    pub fn new(offer: ExchangeOffer, seed: u64, signature: &Signature, data_info: &str) -> (r:
        ExchangeWrapper)
        ensures
            r.offer == offer,
            r.seed == seed,
            r.signature@ == signature@,
            r.data_info@ == data_info@,
    {
        ExchangeWrapper {
            offer,
            seed,
            signature: signature.duplicate(),
            data_info: String::from_str(data_info),
        }
    }

    /// Assembles the collected parts into an `Exchange` message; the
    /// message signature slot starts zeroed for the embedding to fill.
    pub fn unwrap(&self) -> (r: Exchange)
        requires
            self.offer.wf(),
            self.offer.fits(),
            self.signature.wf(),
            HEADER_LENGTH + crate::encoding::fixed_total(
                crate::encoding::kinds_of(
                    exchange_values(
                        self.offer.spec_bytes(),
                        self.seed,
                        self.signature@,
                        self.data_info@,
                    ),
                ),
            ) + crate::encoding::seg_total(
                exchange_values(
                    self.offer.spec_bytes(),
                    self.seed,
                    self.signature@,
                    self.data_info@,
                ),
            ) + SIGNATURE_LENGTH <= u32::MAX,
        ensures
            r.offer.spec_bytes() == self.offer.spec_bytes(),
            r.seed == self.seed,
            r.sender_signature@ == self.signature@,
            r.data_info@ == self.data_info@,
            r.signature@ == crate::crypto::spec_zero_sig(),
    {
        let offer = ExchangeOffer::new(
            &self.offer.sender,
            crate::wallet::dup_bundles(&self.offer.sender_assets),
            self.offer.sender_value,
            &self.offer.recipient,
            crate::wallet::dup_bundles(&self.offer.recipient_assets),
            self.offer.fee_strategy,
        );
        proof {
            assert forall|i: int|
                0 <= i < offer.sender_assets@.len() implies (
            #[trigger] offer.sender_assets@[i]).wf() by {
                assert(crate::wallet::bviews(offer.sender_assets@)[i] == crate::wallet::bviews(
                    self.offer.sender_assets@,
                )[i]);
            }
            assert forall|i: int|
                0 <= i < offer.recipient_assets@.len() implies (
            #[trigger] offer.recipient_assets@[i]).wf() by {
                assert(crate::wallet::bviews(offer.recipient_assets@)[i]
                    == crate::wallet::bviews(self.offer.recipient_assets@)[i]);
            }
            assert(offer.spec_values() == self.offer.spec_values());
        }
        Exchange::new(offer, self.seed, &self.signature, self.data_info.as_str())
    }
}

} // verus!
