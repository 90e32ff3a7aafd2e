use vstd::prelude::*;

verus! {

/// The lowest fee rate handed to the engine, in satoshis per 1000 weight units.
pub const FEE_FLOOR: u64 = 253;

/// How soon a transaction should confirm.
#[derive(Clone, Copy, Debug, PartialEq, Eq, Structural)]
pub enum ConfirmationTarget {
    Background,
    Normal,
    HighPriority,
}

/// The three fee-rate estimates, each refreshed on its own.
pub struct FeeEstimator {
    pub background_est: u64,
    pub normal_est: u64,
    pub high_prio_est: u64,
}

impl FeeEstimator {
    pub open spec fn estimate(&self, target: ConfirmationTarget) -> u64 {
        match target {
            ConfirmationTarget::Background => self.background_est,
            ConfirmationTarget::Normal => self.normal_est,
            ConfirmationTarget::HighPriority => self.high_prio_est,
        }
    }

    /// No estimate yet: every target answers with the floor.
    pub fn new() -> (r: FeeEstimator)
        ensures
            r.background_est == 0 && r.normal_est == 0 && r.high_prio_est == 0,
    {
        FeeEstimator { background_est: 0, normal_est: 0, high_prio_est: 0 }
    }

    /// The rate for `target`, never below `FEE_FLOOR`.
    pub fn get_est_sat_per_1000_weight(&self, target: ConfirmationTarget) -> (r: u64)
        ensures
            r == if self.estimate(target) > FEE_FLOOR { self.estimate(target) } else { FEE_FLOOR },
    {
        let est = match target {
            ConfirmationTarget::Background => self.background_est,
            ConfirmationTarget::Normal => self.normal_est,
            ConfirmationTarget::HighPriority => self.high_prio_est,
        };
        if est > FEE_FLOOR { est } else { FEE_FLOOR }
    }

    /// Records a new estimate for one target, leaving the other two as they were.
    pub fn update(&mut self, target: ConfirmationTarget, sat_per_1000_weight: u64)
        ensures
            final(self).estimate(target) == sat_per_1000_weight,
            forall|t: ConfirmationTarget| t != target ==> final(self).estimate(t) == old(self).estimate(t),
    {
        match target {
            ConfirmationTarget::Background => self.background_est = sat_per_1000_weight,
            ConfirmationTarget::Normal => self.normal_est = sat_per_1000_weight,
            ConfirmationTarget::HighPriority => self.high_prio_est = sat_per_1000_weight,
        }
    }
}

/// The `estimatesmartfee` parameters for a target: the confirmation window in blocks and
/// the (quoted) estimate mode.
pub open spec fn fee_query(target: ConfirmationTarget) -> (u64, Seq<char>) {
    match target {
        ConfirmationTarget::HighPriority => (6, "\"CONSERVATIVE\""@),
        ConfirmationTarget::Normal => (18, "\"ECONOMICAL\""@),
        ConfirmationTarget::Background => (144, "\"ECONOMICAL\""@),
    }
}

pub fn fee_query_params(target: ConfirmationTarget) -> (r: (u64, &'static str))
    ensures
        (r.0, r.1@) == fee_query(target),
{
    match target {
        ConfirmationTarget::HighPriority => (6, "\"CONSERVATIVE\""),
        ConfirmationTarget::Normal => (18, "\"ECONOMICAL\""),
        ConfirmationTarget::Background => (144, "\"ECONOMICAL\""),
    }
}

/// A daemon fee rate in satoshis per 1000 virtual bytes, scaled as the engine's estimates
/// are kept: divided by 250, plus a margin of 3.
pub fn fee_from_sat_per_kvb(sat_per_kvb: u64) -> (r: u64)
    ensures
        r == sat_per_kvb / 250 + 3,
{
    sat_per_kvb / 250 + 3
}

} // verus!
