//! What holds of every ledger, stated over its history and proved.

use vstd::prelude::*;
use crate::address::Address;
use crate::error::TipError;
use crate::history::{
    last_tip_time, lemma_received_after_push, lemma_received_is_recorded, next_record,
    received_by, record_of, records_of, send_error, stats_match, sum_amounts, tip_ids,
    total_received, valid_log, well_numbered,
};
use crate::ledger::TipStar;
use crate::page::{
    latest, lemma_present_all, page, page_end, page_size, page_start, MAX_PAGE_SIZE,
};
use crate::stats::{CreatorStats, CreatorStatsView};
use crate::submit::submission_error;
use crate::tip::{tip_views, Tip, TipView};
use crate::window::{lemma_window_after_push, recent_window, window_after, MAX_RECENT_TIPS};

verus! {

/// What one accepted tip says, before the ledger has numbered it.
pub struct Submission {
    pub from: Seq<char>,
    pub to: Seq<char>,
    pub amount: i128,
    pub message: Seq<char>,
    pub timestamp: u64,
}

/// The history of a ledger that was empty and then accepted the tips
/// `sent`, one after another.
pub open spec fn history_of(sent: Seq<Submission>) -> Seq<TipView>
    decreases sent.len(),
{
    if sent.len() == 0 {
        Seq::empty()
    } else {
        let earlier = history_of(sent.drop_last());
        let tip = sent.last();
        earlier.push(
            next_record(earlier, tip.from, tip.to, tip.amount, tip.message, tip.timestamp),
        )
    }
}

/// Accepted tips are numbered one, two, three and so on in the order in
/// which they were sent: the history holds one record for each, and the tip
/// sent at position `k`, counting from zero, got the identifier `k + 1`.
pub proof fn lemma_ids_count_up(sent: Seq<Submission>, k: int)
    requires
        sent.len() <= u64::MAX,
        0 <= k < sent.len(),
    ensures
        history_of(sent).len() == sent.len(),
        history_of(sent.take(k)).len() == k,
        history_of(sent)[k] == next_record(
            history_of(sent.take(k)),
            sent[k].from,
            sent[k].to,
            sent[k].amount,
            sent[k].message,
            sent[k].timestamp,
        ),
        history_of(sent)[k].id == k + 1,
    decreases sent.len(),
{
    let earlier = sent.drop_last();
    lemma_history_len(sent);
    lemma_history_len(earlier);
    lemma_history_len(sent.take(k));
    if k < sent.len() - 1 {
        lemma_ids_count_up(earlier, k);
        assert(earlier.take(k) =~= sent.take(k));
    } else {
        assert(sent.take(k) =~= earlier);
    }
}

/// The history holds one record for each accepted tip.
pub proof fn lemma_history_len(sent: Seq<Submission>)
    ensures
        history_of(sent).len() == sent.len(),
    decreases sent.len(),
{
    if sent.len() > 0 {
        lemma_history_len(sent.drop_last());
    }
}

/// No identifier occurs twice in a history, and none is skipped: the record
/// at position `i` carries `i + 1`.
pub proof fn lemma_ids_unique(log: Seq<TipView>, i: int, j: int)
    requires
        well_numbered(log),
        0 <= i < log.len(),
        0 <= j < log.len(),
    ensures
        log[i].id == i + 1,
        i != j ==> log[i].id != log[j].id,
{
}

/// Statistics that were exact stay exact when their creator's next tip is
/// counted: the new total is the sum over the longer history, the new count
/// its number of records, and the new time that of its latest record.
pub proof fn lemma_stats_follow_history(stats: CreatorStatsView, log: Seq<TipView>, tip: TipView)
    requires
        stats_match(stats, log, tip.to),
        stats.can_record(tip.amount),
    ensures
        stats_match(stats.recorded(tip.amount, tip.timestamp), log.push(tip), tip.to),
{
    lemma_received_after_push(log, tip, tip.to);
}

/// The statistics of every other creator are untouched by a tip.
pub proof fn lemma_stats_of_others(
    stats: CreatorStatsView,
    log: Seq<TipView>,
    tip: TipView,
    creator: Seq<char>,
)
    requires
        stats_match(stats, log, creator),
        tip.to != creator,
    ensures
        stats_match(stats, log.push(tip), creator),
        tip_ids(received_by(log.push(tip), creator)) == tip_ids(received_by(log, creator)),
{
    lemma_received_after_push(log, tip, creator);
}

/// A ledger kept in parts refuses what the whole ledger refuses: when the
/// counter is the length of the history and the statistics are those of the
/// recipient, the step and the ledger give the same verdict.
pub proof fn lemma_step_refuses_alike(
    log: Seq<TipView>,
    stats: CreatorStatsView,
    authorized: bool,
    to: Seq<char>,
    amount: i128,
)
    requires
        valid_log(log),
        stats_match(stats, log, to),
    ensures
        submission_error(authorized, amount, log.len() as u64, stats) == send_error(
            log,
            authorized,
            to,
            amount,
        ),
{
    lemma_total_not_negative(log, to);
}

/// A ledger kept in parts follows its history: after an accepted tip the
/// longer history is valid again, the recipient's index has grown by the new
/// identifier, the recipient's statistics are exact, and the window has
/// moved by one.
pub proof fn lemma_step_follows_history(
    log: Seq<TipView>,
    stats: CreatorStatsView,
    tip: TipView,
)
    requires
        valid_log(log),
        stats_match(stats, log, tip.to),
        send_error(log, true, tip.to, tip.amount).is_none(),
        tip.id == log.len() + 1,
    ensures
        valid_log(log.push(tip)),
        stats.can_record(tip.amount),
        stats_match(stats.recorded(tip.amount, tip.timestamp), log.push(tip), tip.to),
        tip_ids(received_by(log.push(tip), tip.to)) == tip_ids(received_by(log, tip.to)).push(
            tip.id,
        ),
        recent_window(log.push(tip)) == window_after(recent_window(log), tip.id),
{
    lemma_step_refuses_alike(log, stats, true, tip.to, tip.amount);
    lemma_stats_follow_history(stats, log, tip);
    lemma_window_after_push(log, tip);
    assert forall|creator: Seq<char>| #[trigger]
        total_received(log.push(tip), creator) <= i128::MAX by {
        lemma_received_after_push(log, tip, creator);
    }
    lemma_received_after_push(log, tip, tip.to);
    assert(tip_ids(received_by(log, tip.to).push(tip)) =~= tip_ids(received_by(log, tip.to)).push(
        tip.id,
    ));
}

/// When the clock does not run backwards, the time of a creator's latest
/// tip does not either.
pub proof fn lemma_last_tip_time_grows(log: Seq<TipView>, tip: TipView, creator: Seq<char>)
    requires
        tip.timestamp >= last_tip_time(log, tip.to),
    ensures
        last_tip_time(log.push(tip), creator) >= last_tip_time(log, creator),
        last_tip_time(log.push(tip), tip.to) == tip.timestamp,
{
    lemma_received_after_push(log, tip, creator);
    lemma_received_after_push(log, tip, tip.to);
}

/// The window never holds more than `MAX_RECENT_TIPS` identifiers: it holds
/// as many as there are records, up to that bound.
pub proof fn lemma_window_bounded(log: Seq<TipView>)
    ensures
        recent_window(log).len() <= MAX_RECENT_TIPS,
        recent_window(log).len() == if log.len() > MAX_RECENT_TIPS {
            MAX_RECENT_TIPS as int
        } else {
            log.len() as int
        },
{
}

/// The window holds the identifiers of the latest records, oldest first,
/// and they are consecutive up to the latest identifier.
pub proof fn lemma_window_is_latest(log: Seq<TipView>, i: int)
    requires
        well_numbered(log),
        0 <= i < recent_window(log).len(),
    ensures
        recent_window(log)[i] == log[log.len() - recent_window(log).len() + i].id,
        recent_window(log)[i] == log.len() - recent_window(log).len() + i + 1,
{
}

/// The latest entries come newest first: the entry at position `i` of the
/// answer is the one `i` places before the end.
pub proof fn lemma_latest_newest_first<T>(
    items: Seq<T>,
    limit: Option<u32>,
    default_limit: u32,
    i: int,
)
    requires
        0 <= i < latest(items, limit, default_limit).len(),
    ensures
        latest(items, limit, default_limit)[i] == items[items.len() - 1 - i],
{
}

/// The latest entries are as many as asked for, but never more than
/// `MAX_PAGE_SIZE` and never more than there are.
pub proof fn lemma_latest_bounded<T>(items: Seq<T>, limit: Option<u32>, default_limit: u32)
    ensures
        latest(items, limit, default_limit).len() <= MAX_PAGE_SIZE,
        latest(items, limit, default_limit).len() == if items.len() > page_size(
            limit,
            default_limit,
        ) {
            page_size(limit, default_limit)
        } else {
            items.len() as int
        },
{
}

/// A page that starts at or after the end is empty.
pub proof fn lemma_page_past_end<T>(
    items: Seq<T>,
    limit: Option<u32>,
    default_limit: u32,
    offset: u32,
)
    requires
        offset >= items.len(),
    ensures
        page(items, limit, default_limit, Some(offset)) == Seq::<T>::empty(),
{
    assert(page(items, limit, default_limit, Some(offset)) =~= Seq::<T>::empty());
}

/// A limit above `MAX_PAGE_SIZE` asks for the same page as `MAX_PAGE_SIZE`.
pub proof fn lemma_page_limit_capped<T>(
    items: Seq<T>,
    limit: u32,
    default_limit: u32,
    offset: Option<u32>,
)
    requires
        limit > MAX_PAGE_SIZE,
    ensures
        page(items, Some(limit), default_limit, offset) == page(
            items,
            Some(MAX_PAGE_SIZE),
            default_limit,
            offset,
        ),
        latest(items, Some(limit), default_limit) == latest(
            items,
            Some(MAX_PAGE_SIZE),
            default_limit,
        ),
{
}

/// A page never holds more than `MAX_PAGE_SIZE` entries.
pub proof fn lemma_page_bounded<T>(
    items: Seq<T>,
    limit: Option<u32>,
    default_limit: u32,
    offset: Option<u32>,
)
    ensures
        page(items, limit, default_limit, offset).len() <= MAX_PAGE_SIZE,
        page(items, limit, default_limit, offset).len() <= items.len(),
{
}

/// Looking up the identifiers of records that stand in the history, each
/// under its own identifier, gives those records back.
proof fn lemma_records_of_ids(log: Seq<TipView>, items: Seq<TipView>)
    requires
        forall|k: int|
            0 <= k < items.len() ==> record_of(log, (#[trigger] items[k]).id) == Some(items[k]),
    ensures
        records_of(log, tip_ids(items)) == items,
{
    let found = tip_ids(items).map_values(|id: u64| record_of(log, id));
    assert forall|k: int| 0 <= k < found.len() implies #[trigger] found[k] == Some(items[k]) by {
        assert(found[k] == record_of(log, items[k].id));
    }
    lemma_present_all(found, items);
}

/// Resolving a page of a creator's index gives the same page of the
/// creator's records.
pub proof fn lemma_page_records(
    log: Seq<TipView>,
    creator: Seq<char>,
    limit: Option<u32>,
    default_limit: u32,
    offset: Option<u32>,
)
    requires
        well_numbered(log),
    ensures
        records_of(log, page(tip_ids(received_by(log, creator)), limit, default_limit, offset))
            == page(received_by(log, creator), limit, default_limit, offset),
{
    let received = received_by(log, creator);
    let items = page(received, limit, default_limit, offset);
    let start = page_start(received.len() as int, offset);
    let end = page_end(received.len() as int, start, page_size(limit, default_limit));
    assert forall|k: int| 0 <= k < items.len() implies record_of(log, (#[trigger] items[k]).id)
        == Some(items[k]) by {
        let j = start + (end - start - 1 - k);
        assert(items[k] == received[j]);
        lemma_received_is_recorded(log, creator, j);
    }
    lemma_records_of_ids(log, items);
    assert(tip_ids(items) =~= page(tip_ids(received), limit, default_limit, offset));
}

/// Resolving the latest entries of the window gives the latest records of
/// the history.
pub proof fn lemma_latest_records(log: Seq<TipView>, limit: Option<u32>, default_limit: u32)
    requires
        well_numbered(log),
    ensures
        records_of(log, latest(recent_window(log), limit, default_limit)) == latest(
            log,
            limit,
            default_limit,
        ),
{
    let items = latest(log, limit, default_limit);
    assert forall|k: int| 0 <= k < items.len() implies record_of(log, (#[trigger] items[k]).id)
        == Some(items[k]) by {
        let j = log.len() - 1 - k;
        assert(items[k] == log[j]);
    }
    lemma_records_of_ids(log, items);
    assert(tip_ids(items) =~= latest(recent_window(log), limit, default_limit));
}

/// A creator's index grows with time: of two tips that a creator received,
/// the later one has the larger identifier, so none occurs twice.
pub proof fn lemma_index_increasing(log: Seq<TipView>, creator: Seq<char>, i: int, j: int)
    requires
        well_numbered(log),
        0 <= i < j < received_by(log, creator).len(),
    ensures
        received_by(log, creator)[i].id < received_by(log, creator)[j].id,
    decreases log.len(),
{
    let earlier = log.drop_last();
    assert(log =~= earlier.push(log.last()));
    lemma_received_after_push(earlier, log.last(), creator);
    if j < received_by(earlier, creator).len() {
        lemma_index_increasing(earlier, creator, i, j);
    } else {
        lemma_received_is_recorded(earlier, creator, i);
    }
}

/// No creator's total is negative.
pub proof fn lemma_total_not_negative(log: Seq<TipView>, creator: Seq<char>)
    requires
        valid_log(log),
    ensures
        0 <= total_received(log, creator) <= i128::MAX,
{
    let received = received_by(log, creator);
    assert forall|k: int| 0 <= k < received.len() implies (#[trigger] received[k]).amount
        > 0 by {
        lemma_received_is_recorded(log, creator, k);
    }
    lemma_sum_not_negative(received);
}

/// The sum of positive amounts is not negative.
proof fn lemma_sum_not_negative(tips: Seq<TipView>)
    requires
        forall|i: int| 0 <= i < tips.len() ==> (#[trigger] tips[i]).amount > 0,
    ensures
        sum_amounts(tips) >= 0,
    decreases tips.len(),
{
    if tips.len() > 0 {
        lemma_sum_not_negative(tips.drop_last());
    }
}

/// Asking twice for the same tip gives the same answer.
pub proof fn lemma_get_tip_repeats(
    ledger: &TipStar,
    tip_id: u64,
    first: Result<Tip, TipError>,
    second: Result<Tip, TipError>,
)
    requires
        ledger.wf(),
        call_ensures(TipStar::get_tip, (ledger, tip_id), first),
        call_ensures(TipStar::get_tip, (ledger, tip_id), second),
    ensures
        match (first, second) {
            (Ok(a), Ok(b)) => a@ == b@,
            (Err(a), Err(b)) => a == b,
            _ => false,
        },
{
}

/// Asking twice for the same creator's statistics gives the same answer.
pub proof fn lemma_get_creator_stats_repeats(
    ledger: &TipStar,
    creator: Address,
    first: CreatorStats,
    second: CreatorStats,
)
    requires
        ledger.wf(),
        call_ensures(TipStar::get_creator_stats, (ledger, creator), first),
        call_ensures(TipStar::get_creator_stats, (ledger, creator), second),
    ensures
        first@ == second@,
{
}

/// Asking twice for the same page of a creator's tips gives the same
/// answer.
pub proof fn lemma_get_creator_tips_repeats(
    ledger: &TipStar,
    creator: Address,
    limit: Option<u32>,
    offset: Option<u32>,
    first: Vec<Tip>,
    second: Vec<Tip>,
)
    requires
        ledger.wf(),
        call_ensures(TipStar::get_creator_tips, (ledger, creator, limit, offset), first),
        call_ensures(TipStar::get_creator_tips, (ledger, creator, limit, offset), second),
    ensures
        tip_views(first@) == tip_views(second@),
{
}

/// Asking twice for the recent tips gives the same answer.
pub proof fn lemma_get_recent_tips_repeats(
    ledger: &TipStar,
    limit: Option<u32>,
    first: Vec<Tip>,
    second: Vec<Tip>,
)
    requires
        ledger.wf(),
        call_ensures(TipStar::get_recent_tips, (ledger, limit), first),
        call_ensures(TipStar::get_recent_tips, (ledger, limit), second),
    ensures
        tip_views(first@) == tip_views(second@),
{
}

/// Asking twice for the number of tips gives the same answer.
pub proof fn lemma_get_total_tip_count_repeats(ledger: &TipStar, first: u64, second: u64)
    requires
        ledger.wf(),
        call_ensures(TipStar::get_total_tip_count, (ledger,), first),
        call_ensures(TipStar::get_total_tip_count, (ledger,), second),
    ensures
        first == second,
{
}

} // verus!
