//! The history of a tip ledger: the sequence of all its records in the
//! order in which they were written. Everything that can be asked of a
//! ledger is a function of that sequence, and those functions are defined
//! here.

use vstd::prelude::*;
use crate::error::TipError;
use crate::page::present;
use crate::stats::CreatorStatsView;
use crate::tip::TipView;

verus! {

/// Whether the record at each position carries the position's number,
/// counting from one.
pub open spec fn well_numbered(log: Seq<TipView>) -> bool {
    forall|i: int| 0 <= i < log.len() ==> (#[trigger] log[i]).id == i + 1
}

/// The records whose recipient is `creator`, oldest first.
pub open spec fn received_by(log: Seq<TipView>, creator: Seq<char>) -> Seq<TipView> {
    log.filter(|t: TipView| t.to == creator)
}

/// The identifiers of `tips`, one for one.
pub open spec fn tip_ids(tips: Seq<TipView>) -> Seq<u64> {
    tips.map_values(|t: TipView| t.id)
}

/// The sum of the amounts of `tips`.
pub open spec fn sum_amounts(tips: Seq<TipView>) -> int
    decreases tips.len(),
{
    if tips.len() == 0 {
        0
    } else {
        sum_amounts(tips.drop_last()) + tips.last().amount
    }
}

/// The sum of all amounts sent to `creator`.
pub open spec fn total_received(log: Seq<TipView>, creator: Seq<char>) -> int {
    sum_amounts(received_by(log, creator))
}

/// The time of the latest record sent to `creator`, or zero if there is none.
pub open spec fn last_tip_time(log: Seq<TipView>, creator: Seq<char>) -> u64 {
    let received = received_by(log, creator);
    if received.len() == 0 {
        0
    } else {
        received.last().timestamp
    }
}

/// Whether `stats` are the statistics of `creator` in `log`: the exact sum,
/// the exact count, and the time of the latest record.
pub open spec fn stats_match(
    stats: CreatorStatsView,
    log: Seq<TipView>,
    creator: Seq<char>,
) -> bool {
    &&& stats.creator == creator
    &&& stats.total_received == total_received(log, creator)
    &&& stats.tip_count == received_by(log, creator).len()
    &&& stats.last_tip_timestamp == last_tip_time(log, creator)
}

/// Whether `log` is a history that a ledger can have: it fits the identifier
/// range, its records are numbered one, two, three and so on, every amount is
/// positive, and every creator's total fits 128 signed bits.
pub open spec fn valid_log(log: Seq<TipView>) -> bool {
    &&& log.len() <= u64::MAX
    &&& well_numbered(log)
    &&& forall|i: int| 0 <= i < log.len() ==> (#[trigger] log[i]).amount > 0
    &&& forall|creator: Seq<char>| #[trigger] total_received(log, creator) <= i128::MAX
}

/// The record stored under `id`, if there is one: records are stored in the
/// order of their identifiers, which count from one.
pub open spec fn record_of(log: Seq<TipView>, id: u64) -> Option<TipView> {
    if 1 <= id <= log.len() {
        Some(log[id - 1])
    } else {
        None
    }
}

/// The records stored under `ids`, in the order of `ids`; an identifier
/// under which nothing is stored contributes nothing.
pub open spec fn records_of(log: Seq<TipView>, ids: Seq<u64>) -> Seq<TipView> {
    present(ids.map_values(|id: u64| record_of(log, id)))
}

/// Why a ledger with history `log` refuses a tip of `amount` to `to`, if it
/// does.
///
/// Authorization is looked at first, then the amount, and only then whether
/// there is room: another identifier, and a total for `to` that still fits
/// 128 signed bits.
pub open spec fn send_error(
    log: Seq<TipView>,
    authorized: bool,
    to: Seq<char>,
    amount: i128,
) -> Option<TipError> {
    if !authorized {
        Some(TipError::Unauthorized)
    } else if amount <= 0 {
        Some(TipError::InvalidAmount)
    } else if log.len() >= u64::MAX || total_received(log, to) + amount > i128::MAX {
        Some(TipError::Overflow)
    } else {
        None
    }
}

/// The record that an accepted tip adds to the history `log`: it carries
/// the identifier that follows the latest one.
pub open spec fn next_record(
    log: Seq<TipView>,
    from: Seq<char>,
    to: Seq<char>,
    amount: i128,
    message: Seq<char>,
    timestamp: u64,
) -> TipView {
    TipView { id: (log.len() + 1) as u64, from, to, amount, message, timestamp }
}

/// Appending a record extends what its recipient received and leaves what
/// every other creator received as it was.
pub proof fn lemma_received_after_push(log: Seq<TipView>, tip: TipView, creator: Seq<char>)
    ensures
        received_by(log.push(tip), creator) == if tip.to == creator {
            received_by(log, creator).push(tip)
        } else {
            received_by(log, creator)
        },
        total_received(log.push(tip), creator) == if tip.to == creator {
            total_received(log, creator) + tip.amount
        } else {
            total_received(log, creator)
        },
{
    log.lemma_filter_push(tip, |t: TipView| t.to == creator);
    if tip.to == creator {
        assert(received_by(log, creator).push(tip).drop_last() =~= received_by(log, creator));
    }
}

/// Nobody has received anything in the empty history.
pub proof fn lemma_received_empty(creator: Seq<char>)
    ensures
        received_by(Seq::<TipView>::empty(), creator) == Seq::<TipView>::empty(),
        total_received(Seq::<TipView>::empty(), creator) == 0,
{
    reveal(Seq::filter);
}

/// Each record that `creator` received stands in the history, at the position
/// that its identifier names, and is addressed to `creator`.
pub proof fn lemma_received_is_recorded(log: Seq<TipView>, creator: Seq<char>, k: int)
    requires
        well_numbered(log),
        0 <= k < received_by(log, creator).len(),
    ensures
        received_by(log, creator)[k].to == creator,
        record_of(log, received_by(log, creator)[k].id) == Some(received_by(log, creator)[k]),
{
    let pred = |t: TipView| t.to == creator;
    let tip = received_by(log, creator)[k];
    log.lemma_filter_pred(pred, k);
    assert(log.filter(pred).contains(tip));
    log.lemma_filter_contains_rev(pred, tip);
    let i = choose|i: int| 0 <= i < log.len() && log[i] == tip;
    assert(log[i].id == i + 1);
}

/// A creator to whom no record is addressed has received nothing.
pub proof fn lemma_received_none(log: Seq<TipView>, creator: Seq<char>)
    requires
        forall|i: int| 0 <= i < log.len() ==> (#[trigger] log[i]).to != creator,
    ensures
        received_by(log, creator) == Seq::<TipView>::empty(),
        total_received(log, creator) == 0,
{
    let pred = |t: TipView| t.to == creator;
    if log.filter(pred).len() > 0 {
        let tip = log.filter(pred)[0];
        log.lemma_filter_pred(pred, 0);
        assert(log.filter(pred).contains(tip));
        log.lemma_filter_contains_rev(pred, tip);
    }
    assert(log.filter(pred) =~= Seq::<TipView>::empty());
}

} // verus!
