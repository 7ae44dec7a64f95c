//! The running totals kept for each creator.

use vstd::prelude::*;
use crate::address::Address;
use crate::error::TipError;

verus! {

/// What the statistics of one creator say, as plain mathematical values.
#[verifier::ext_equal]
pub struct CreatorStatsView {
    pub creator: Seq<char>,
    pub total_received: i128,
    pub tip_count: u64,
    pub last_tip_timestamp: u64,
}

impl CreatorStatsView {
    /// The statistics of a creator who has received nothing.
    pub open spec fn empty(creator: Seq<char>) -> CreatorStatsView {
        CreatorStatsView { creator, total_received: 0, tip_count: 0, last_tip_timestamp: 0 }
    }

    /// Whether one more tip of `amount` keeps the total and the count in range.
    pub open spec fn can_record(self, amount: i128) -> bool {
        &&& i128::MIN <= self.total_received + amount <= i128::MAX
        &&& self.tip_count < u64::MAX
    }

    /// The statistics after one more tip of `amount` at `timestamp`.
    pub open spec fn recorded(self, amount: i128, timestamp: u64) -> CreatorStatsView {
        CreatorStatsView {
            creator: self.creator,
            total_received: (self.total_received + amount) as i128,
            tip_count: (self.tip_count + 1) as u64,
            last_tip_timestamp: timestamp,
        }
    }
}

/// Running totals of the tips that one creator has received.
#[derive(Debug)]
pub struct CreatorStats {
    pub creator: Address,
    pub total_received: i128,
    pub tip_count: u64,
    pub last_tip_timestamp: u64,
}

impl View for CreatorStats {
    type V = CreatorStatsView;

    open spec fn view(&self) -> CreatorStatsView {
        CreatorStatsView {
            creator: self.creator@,
            total_received: self.total_received,
            tip_count: self.tip_count,
            last_tip_timestamp: self.last_tip_timestamp,
        }
    }
}

impl CreatorStats {
    /// The statistics of a creator who has received nothing yet.
    pub fn new(creator: Address) -> (r: CreatorStats)
        ensures
            r@ == CreatorStatsView::empty(creator@),
            r.creator == creator,
    {
        CreatorStats { creator, total_received: 0, tip_count: 0, last_tip_timestamp: 0 }
    }

    /// Counts one more tip of `amount` received at `timestamp`.
    ///
    /// The total grows by `amount`, the count by one, and `timestamp` replaces
    /// the time of the last tip whatever that was. When the total or the
    /// count would leave its range nothing is changed.
    pub fn record_tip(&mut self, amount: i128, timestamp: u64) -> (r: Result<(), TipError>)
        ensures
            old(self)@.can_record(amount) ==> r.is_ok() && final(self)@ == old(self)@.recorded(
                amount,
                timestamp,
            ) && final(self).creator == old(self).creator,
            !old(self)@.can_record(amount) ==> r == Err::<(), TipError>(TipError::Overflow)
                && *final(self) == *old(self),
    {
        let total = match self.total_received.checked_add(amount) {
            Some(total) => total,
            None => { return Err(TipError::Overflow); },
        };
        let count = match self.tip_count.checked_add(1) {
            Some(count) => count,
            None => { return Err(TipError::Overflow); },
        };
        self.total_received = total;
        self.tip_count = count;
        self.last_tip_timestamp = timestamp;
        Ok(())
    }
}

impl Clone for CreatorStats {
    fn clone(&self) -> (r: CreatorStats)
        ensures
            r == *self,
    {
        CreatorStats {
            creator: self.creator.clone(),
            total_received: self.total_received,
            tip_count: self.tip_count,
            last_tip_timestamp: self.last_tip_timestamp,
        }
    }
}

impl PartialEq for CreatorStats {
    fn eq(&self, other: &CreatorStats) -> (r: bool) {
        self.creator == other.creator && self.total_received == other.total_received
            && self.tip_count == other.tip_count && self.last_tip_timestamp
            == other.last_tip_timestamp
    }
}

impl Eq for CreatorStats {

}

impl vstd::std_specs::cmp::PartialEqSpecImpl for CreatorStats {
    open spec fn obeys_eq_spec() -> bool {
        true
    }

    open spec fn eq_spec(&self, other: &CreatorStats) -> bool {
        self@ == other@
    }
}

} // verus!
