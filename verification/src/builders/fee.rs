//! A fluent builder for an asset's per-kind fee schedule. All three
//! fees must be set before the schedule can be built.

use vstd::prelude::*;

use crate::assets::{Fee, Fees, Fraction};

verus! {

/// An in-progress fee schedule.
#[derive(Debug)]
pub struct Builder {
    pub trade: Option<Fee>,
    pub exchange: Option<Fee>,
    pub transfer: Option<Fee>,
}

impl Builder {
    /// Starts with no fee set.
    pub fn new() -> (r: Builder)
        ensures
            r.trade is None,
            r.exchange is None,
            r.transfer is None,
    {
        Builder { trade: None, exchange: None, transfer: None }
    }

    /// Sets the trade fee.
    pub fn trade(self, fixed: u64, fraction: Fraction) -> (r: Builder)
        ensures
            (r.trade matches Some(f) && f.fixed == fixed && f.fraction == fraction),
            r.exchange == self.exchange,
            r.transfer == self.transfer,
    {
        Builder { trade: Some(Fee::new(fixed, fraction)), ..self }
    }

    /// Sets the exchange fee.
    pub fn exchange(self, fixed: u64, fraction: Fraction) -> (r: Builder)
        ensures
            (r.exchange matches Some(f) && f.fixed == fixed && f.fraction == fraction),
            r.trade == self.trade,
            r.transfer == self.transfer,
    {
        Builder { exchange: Some(Fee::new(fixed, fraction)), ..self }
    }

    /// Sets the transfer fee.
    pub fn transfer(self, fixed: u64, fraction: Fraction) -> (r: Builder)
        ensures
            (r.transfer matches Some(f) && f.fixed == fixed && f.fraction == fraction),
            r.trade == self.trade,
            r.exchange == self.exchange,
    {
        Builder { transfer: Some(Fee::new(fixed, fraction)), ..self }
    }

    /// Builds the schedule; every fee must have been set.
    pub fn build(self) -> (r: Fees)
        requires
            self.trade is Some,
            self.exchange is Some,
            self.transfer is Some,
        ensures
            Some(r.trade) == self.trade,
            Some(r.exchange) == self.exchange,
            Some(r.transfer) == self.transfer,
    {
        Fees::new(self.trade.unwrap(), self.exchange.unwrap(), self.transfer.unwrap())
    }
}

} // verus!
