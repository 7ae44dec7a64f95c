//! The window of recent tips: the latest identifiers, oldest first, never
//! more than a fixed number of them.

use vstd::prelude::*;
use crate::history::tip_ids;
use crate::tip::TipView;

verus! {

/// The most identifiers that the window of recent tips keeps.
pub const MAX_RECENT_TIPS: u32 = 100;

/// The last `MAX_RECENT_TIPS` entries of `window`, or all of it if it holds
/// no more than that.
pub open spec fn trimmed(window: Seq<u64>) -> Seq<u64> {
    if window.len() > MAX_RECENT_TIPS {
        window.subrange(window.len() - MAX_RECENT_TIPS, window.len() as int)
    } else {
        window
    }
}

/// The window after `id` has entered it: `id` stands last, and the oldest
/// entries have left so that no more than `MAX_RECENT_TIPS` remain.
pub open spec fn window_after(window: Seq<u64>, id: u64) -> Seq<u64> {
    trimmed(window.push(id))
}

/// The window of a ledger with history `log`: the identifiers of its last
/// `MAX_RECENT_TIPS` records, oldest first.
pub open spec fn recent_window(log: Seq<TipView>) -> Seq<u64> {
    let start = if log.len() > MAX_RECENT_TIPS {
        log.len() - MAX_RECENT_TIPS
    } else {
        0
    };
    tip_ids(log.subrange(start, log.len() as int))
}

/// Appends `id` to `window` and drops from its head what exceeds
/// `MAX_RECENT_TIPS` entries. The entries that stay keep their order.
pub fn push_recent(window: &mut Vec<u64>, id: u64)
    ensures
        final(window)@ == window_after(old(window)@, id),
{
    window.push(id);
    let len = window.len();
    if len > MAX_RECENT_TIPS as usize {
        let start = len - MAX_RECENT_TIPS as usize;
        let mut kept: Vec<u64> = Vec::new();
        let mut i: usize = start;
        while i < len
            invariant
                start <= i <= len,
                len == window.len(),
                kept@ == window@.subrange(start as int, i as int),
            decreases len - i,
        {
            kept.push(window[i]);
            i = i + 1;
            assert(kept@ =~= window@.subrange(start as int, i as int));
        }
        *window = kept;
    }
}

/// Writing one more record moves the window by that record's identifier.
pub proof fn lemma_window_after_push(log: Seq<TipView>, tip: TipView)
    ensures
        recent_window(log.push(tip)) == window_after(recent_window(log), tip.id),
{
    assert(recent_window(log.push(tip)) =~= window_after(recent_window(log), tip.id));
}

} // verus!
