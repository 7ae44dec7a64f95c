//! Sending a tip, as a step on the parts of a ledger that it touches.

use vstd::prelude::*;
use crate::error::TipError;
use crate::stats::{CreatorStats, CreatorStatsView};
use crate::window::{push_recent, window_after};

verus! {

/// The identifier that follows `counter`, or `None` when `counter` is the
/// last one that 64 bits can hold.
pub fn next_id(counter: u64) -> (r: Option<u64>)
    ensures
        counter < u64::MAX ==> r == Some((counter + 1) as u64),
        counter == u64::MAX ==> r.is_none(),
{
    counter.checked_add(1)
}

/// Why a submission is refused, if it is.
///
/// Authorization is looked at first, then the amount, and only then whether
/// the counter and the recipient's totals have room.
pub open spec fn submission_error(
    authorized: bool,
    amount: i128,
    counter: u64,
    stats: CreatorStatsView,
) -> Option<TipError> {
    if !authorized {
        Some(TipError::Unauthorized)
    } else if amount <= 0 {
        Some(TipError::InvalidAmount)
    } else if counter == u64::MAX || !stats.can_record(amount) {
        Some(TipError::Overflow)
    } else {
        None
    }
}

/// Says whether a submission is accepted, and if not, why. Nothing is
/// changed either way.
pub fn check_submission(
    authorized: bool,
    amount: i128,
    counter: u64,
    stats: &CreatorStats,
) -> (r: Result<(), TipError>)
    ensures
        match submission_error(authorized, amount, counter, stats@) {
            Some(e) => r == Err::<(), TipError>(e),
            None => r.is_ok(),
        },
{
    if !authorized {
        return Err(TipError::Unauthorized);
    }
    if amount <= 0 {
        return Err(TipError::InvalidAmount);
    }
    if next_id(counter).is_none() {
        return Err(TipError::Overflow);
    }
    if stats.total_received.checked_add(amount).is_none() || stats.tip_count == u64::MAX {
        return Err(TipError::Overflow);
    }
    Ok(())
}

/// Applies one submission to the parts of a ledger that it touches.
///
/// `counter` is the number of tips issued so far, `creator_tips` and `stats`
/// are the recipient's index and statistics, and `recent` is the window of
/// recent tips. `authorized` says whether the sender proved control of the
/// address that the tip comes from, and `timestamp` is the time of the
/// submission.
///
/// A refused submission changes nothing. An accepted one returns the
/// identifier of the new record, which is `counter + 1` and becomes the new
/// counter, appends it to the index and to the window, and counts the tip
/// in the statistics.
pub fn submit(
    authorized: bool,
    amount: i128,
    timestamp: u64,
    counter: u64,
    creator_tips: &mut Vec<u64>,
    stats: &mut CreatorStats,
    recent: &mut Vec<u64>,
) -> (r: Result<u64, TipError>)
    ensures
        match submission_error(authorized, amount, counter, old(stats)@) {
            Some(e) => {
                &&& r == Err::<u64, TipError>(e)
                &&& *final(creator_tips) == *old(creator_tips)
                &&& *final(stats) == *old(stats)
                &&& *final(recent) == *old(recent)
            },
            None => {
                &&& r == Ok::<u64, TipError>((counter + 1) as u64)
                &&& final(creator_tips)@ == old(creator_tips)@.push((counter + 1) as u64)
                &&& final(stats)@ == old(stats)@.recorded(amount, timestamp)
                &&& final(stats).creator == old(stats).creator
                &&& final(recent)@ == window_after(old(recent)@, (counter + 1) as u64)
            },
        },
{
    match check_submission(authorized, amount, counter, stats) {
        Ok(()) => {},
        Err(e) => { return Err(e); },
    }
    let id = counter + 1;
    let recorded = stats.record_tip(amount, timestamp);
    assert(recorded.is_ok());
    creator_tips.push(id);
    push_recent(recent, id);
    Ok(id)
}

} // verus!
