//! The ledger as one value held in memory.

use vstd::prelude::*;
use crate::address::Address;
use crate::error::TipError;
use crate::history::{
    lemma_received_empty, lemma_received_none, next_record, received_by, record_of, records_of,
    send_error, stats_match, tip_ids, total_received, valid_log,
};
use crate::laws::{
    lemma_latest_records, lemma_page_records, lemma_stats_of_others, lemma_step_follows_history,
    lemma_step_refuses_alike,
};
use crate::page::{
    collect_present, latest, latest_ids, page, paginate, present, DEFAULT_CREATOR_PAGE,
    DEFAULT_RECENT_PAGE, MAX_PAGE_SIZE,
};
use crate::stats::CreatorStats;
use crate::submit::{check_submission, submit};
use crate::tip::{tip_views, Tip, TipView};
use crate::window::recent_window;

verus! {

/// What a ledger keeps for one creator: the running statistics and the
/// identifiers of the tips received, oldest first.
struct CreatorEntry {
    stats: CreatorStats,
    tip_ids: Vec<u64>,
}

/// Whether `entries` holds an entry for `creator`.
spec fn has_entry(entries: Seq<CreatorEntry>, creator: Seq<char>) -> bool {
    exists|i: int| 0 <= i < entries.len() && (#[trigger] entries[i]).stats.creator@ == creator
}

/// Whether `entry` says of its creator what `log` says.
spec fn entry_matches(entry: CreatorEntry, log: Seq<TipView>) -> bool {
    &&& stats_match(entry.stats@, log, entry.stats.creator@)
    &&& entry.tip_ids@ == tip_ids(received_by(log, entry.stats.creator@))
}

/// The view of a record that may be absent.
spec fn optional_view(found: Option<Tip>) -> Option<TipView> {
    match found {
        Some(tip) => Some(tip@),
        None => None,
    }
}

/// Dropping the absent entries and taking views can be done in either order.
proof fn lemma_present_views(found: Seq<Option<Tip>>, views: Seq<Option<TipView>>)
    requires
        found.len() == views.len(),
        forall|k: int| 0 <= k < found.len() ==> optional_view(#[trigger] found[k]) == views[k],
    ensures
        tip_views(present(found)) == present(views),
    decreases found.len(),
{
    if found.len() > 0 {
        lemma_present_views(found.drop_last(), views.drop_last());
        assert(optional_view(found.last()) == views.last());
        match found.last() {
            Some(tip) => {
                assert(tip_views(present(found.drop_last()).push(tip)) =~= tip_views(
                    present(found.drop_last()),
                ).push(tip@));
            },
            None => {},
        }
    } else {
        assert(tip_views(present(found)) =~= Seq::<TipView>::empty());
    }
}

/// A tip ledger: every tip ever sent, the tips and running totals of each
/// creator, and a window of the most recent tips.
///
/// The ledger only grows. Its view is its history, the sequence of all
/// records in the order in which they were written; every answer it gives is
/// a function of that history.
pub struct TipStar {
    counter: u64,
    tips: Vec<Tip>,
    creators: Vec<CreatorEntry>,
    recent: Vec<u64>,
}

impl View for TipStar {
    type V = Seq<TipView>;

    closed spec fn view(&self) -> Seq<TipView> {
        tip_views(self.tips@)
    }
}

impl TipStar {
    /// Whether the parts of the ledger agree with its history: the counter
    /// is the number of records, each creator's statistics and index say
    /// what the history says, and the window holds the latest identifiers.
    pub closed spec fn wf(&self) -> bool {
        &&& self.counter == self.tips.len()
        &&& valid_log(self@)
        &&& self.recent@ == recent_window(self@)
        &&& forall|i: int|
            0 <= i < self.creators.len() ==> entry_matches(#[trigger] self.creators[i], self@)
        &&& forall|i: int, j: int|
            0 <= i < self.creators.len() && 0 <= j < self.creators.len() && i != j ==> (
            #[trigger] self.creators[i]).stats.creator@ != (#[trigger] self.creators[j]).stats.creator@
        &&& forall|k: int|
            0 <= k < self@.len() ==> has_entry(self.creators@, (#[trigger] self@[k]).to)
    }

    /// The history of a well-formed ledger is one that `valid_log` accepts.
    pub proof fn lemma_history_is_valid(self)
        requires
            self.wf(),
        ensures
            valid_log(self@),
    {
    }

    /// A ledger in which nothing has been written.
    pub fn new() -> (r: TipStar)
        ensures
            r.wf(),
            r@ == Seq::<TipView>::empty(),
    {
        let r = TipStar { counter: 0, tips: Vec::new(), creators: Vec::new(), recent: Vec::new() };
        proof {
            assert(r@ =~= Seq::<TipView>::empty());
            assert forall|creator: Seq<char>| #[trigger]
                total_received(r@, creator) <= i128::MAX by {
                lemma_received_empty(creator);
            }
            assert(recent_window(r@) =~= Seq::<u64>::empty());
        }
        r
    }

    /// The number of tips written so far, which is also the identifier of
    /// the latest one.
    pub fn get_total_tip_count(&self) -> (r: u64)
        requires
            self.wf(),
        ensures
            r == self@.len(),
    {
        self.counter
    }

    /// The record stored under `id`, if there is one.
    fn lookup(&self, id: u64) -> (r: Option<&Tip>)
        requires
            self.wf(),
        ensures
            match r {
                Some(tip) => record_of(self@, id) == Some(tip@),
                None => record_of(self@, id).is_none(),
            },
    {
        if 1 <= id && id <= self.counter {
            Some(&self.tips[(id - 1) as usize])
        } else {
            None
        }
    }

    /// The tip stored under `tip_id`, or `NotFound` when the ledger has not
    /// issued that identifier.
    pub fn get_tip(&self, tip_id: u64) -> (r: Result<Tip, TipError>)
        requires
            self.wf(),
        ensures
            match r {
                Ok(tip) => 1 <= tip_id <= self@.len() && tip@ == self@[tip_id - 1] && tip.id
                    == tip_id,
                Err(e) => e == TipError::NotFound && !(1 <= tip_id <= self@.len()),
            },
    {
        match self.lookup(tip_id) {
            Some(tip) => Ok(tip.clone()),
            None => Err(TipError::NotFound),
        }
    }

    /// The position of the entry kept for `creator`, if there is one.
    fn find_creator(&self, creator: &Address) -> (r: Option<usize>)
        ensures
            match r {
                Some(i) => i < self.creators.len() && self.creators[i as int].stats.creator@
                    == creator@,
                None => !has_entry(self.creators@, creator@),
            },
    {
        let mut i: usize = 0;
        while i < self.creators.len()
            invariant
                i <= self.creators.len(),
                forall|k: int| 0 <= k < i ==> (#[trigger] self.creators[k]).stats.creator@
                    != creator@,
            decreases self.creators.len() - i,
        {
            if self.creators[i].stats.creator == *creator {
                return Some(i);
            }
            i = i + 1;
        }
        None
    }

    /// The records stored under `ids`, in the order of `ids`. An identifier
    /// under which nothing is stored is passed over.
    fn resolve(&self, ids: &Vec<u64>) -> (r: Vec<Tip>)
        requires
            self.wf(),
        ensures
            tip_views(r@) == records_of(self@, ids@),
    {
        let mut found: Vec<Option<Tip>> = Vec::new();
        let mut i: usize = 0;
        while i < ids.len()
            invariant
                self.wf(),
                i <= ids.len(),
                found.len() == i,
                forall|k: int|
                    0 <= k < i ==> optional_view(#[trigger] found[k]) == record_of(self@, ids[k]),
            decreases ids.len() - i,
        {
            let entry = match self.lookup(ids[i]) {
                Some(tip) => Some(tip.clone()),
                None => None,
            };
            found.push(entry);
            i = i + 1;
        }
        proof {
            lemma_present_views(found@, ids@.map_values(|id: u64| record_of(self@, id)));
        }
        collect_present(found)
    }

    /// The running totals of `creator`: the sum and the number of the tips
    /// received and the time of the latest one. For a creator who has
    /// received nothing all three are zero.
    pub fn get_creator_stats(&self, creator: Address) -> (r: CreatorStats)
        requires
            self.wf(),
        ensures
            stats_match(r@, self@, creator@),
    {
        match self.find_creator(&creator) {
            Some(i) => self.creators[i].stats.clone(),
            None => {
                proof {
                    lemma_received_none(self@, creator@);
                }
                CreatorStats::new(creator)
            },
        }
    }

    /// One page of the tips that `creator` has received, the later ones
    /// first.
    ///
    /// The page starts `offset` tips after the creator's first (`offset`
    /// defaults to zero) and holds up to `limit` tips (`limit` defaults to
    /// `DEFAULT_CREATOR_PAGE` and counts as `MAX_PAGE_SIZE` when it is
    /// larger).
    pub fn get_creator_tips(
        &self,
        creator: Address,
        limit: Option<u32>,
        offset: Option<u32>,
    ) -> (r: Vec<Tip>)
        requires
            self.wf(),
        ensures
            tip_views(r@) == page(
                received_by(self@, creator@),
                limit,
                DEFAULT_CREATOR_PAGE,
                offset,
            ),
            r.len() <= MAX_PAGE_SIZE,
    {
        let ids = match self.find_creator(&creator) {
            Some(i) => paginate(&self.creators[i].tip_ids, limit, DEFAULT_CREATOR_PAGE, offset),
            None => {
                proof {
                    lemma_received_none(self@, creator@);
                }
                Vec::new()
            },
        };
        proof {
            assert(ids@ =~= page(
                tip_ids(received_by(self@, creator@)),
                limit,
                DEFAULT_CREATOR_PAGE,
                offset,
            ));
            lemma_page_records(self@, creator@, limit, DEFAULT_CREATOR_PAGE, offset);
        }
        let tips = self.resolve(&ids);
        assert(tip_views(tips@).len() == tips.len());
        tips
    }

    /// The latest tips of the whole ledger, the later ones first: up to
    /// `limit` of them (`limit` defaults to `DEFAULT_RECENT_PAGE` and counts
    /// as `MAX_PAGE_SIZE` when it is larger).
    pub fn get_recent_tips(&self, limit: Option<u32>) -> (r: Vec<Tip>)
        requires
            self.wf(),
        ensures
            tip_views(r@) == latest(self@, limit, DEFAULT_RECENT_PAGE),
            r.len() <= MAX_PAGE_SIZE,
    {
        let ids = latest_ids(&self.recent, limit, DEFAULT_RECENT_PAGE);
        proof {
            lemma_latest_records(self@, limit, DEFAULT_RECENT_PAGE);
        }
        let tips = self.resolve(&ids);
        assert(tip_views(tips@).len() == tips.len());
        tips
    }

    /// Writes one tip of `amount` from `from` to `to`, with `message`, at
    /// `timestamp`, and returns its identifier.
    ///
    /// `authorized` says whether the sender has proved control of `from`.
    /// Without that proof, or with an amount that is not positive, the tip is
    /// refused; so it is when the identifiers or the range of the creator's
    /// total are used up. A refused tip leaves the history as it was.
    ///
    /// An accepted tip gets the identifier that follows the latest one, and
    /// its record is appended to the history.
    pub fn send_tip(
        &mut self,
        from: Address,
        to: Address,
        amount: i128,
        message: String,
        authorized: bool,
        timestamp: u64,
    ) -> (r: Result<u64, TipError>)
        requires
            old(self).wf(),
        ensures
            final(self).wf(),
            match send_error(old(self)@, authorized, to@, amount) {
                Some(e) => r == Err::<u64, TipError>(e) && *final(self) == *old(self),
                None => {
                    &&& r == Ok::<u64, TipError>((old(self)@.len() + 1) as u64)
                    &&& final(self)@ == old(self)@.push(
                        next_record(old(self)@, from@, to@, amount, message@, timestamp),
                    )
                },
            },
    {
        let ghost log = self@;
        let ghost recipient = to@;
        let position = self.find_creator(&to);
        let verdict = match position {
            Some(i) => {
                assert(entry_matches(self.creators[i as int], log));
                proof {
                    lemma_step_refuses_alike(
                        log,
                        self.creators[i as int].stats@,
                        authorized,
                        recipient,
                        amount,
                    );
                }
                check_submission(authorized, amount, self.counter, &self.creators[i].stats)
            },
            None => {
                let fresh = CreatorStats::new(to.clone());
                proof {
                    lemma_received_none(log, recipient);
                    lemma_step_refuses_alike(log, fresh@, authorized, recipient, amount);
                }
                check_submission(authorized, amount, self.counter, &fresh)
            },
        };
        match verdict {
            Ok(()) => {},
            Err(e) => { return Err(e); },
        }
        let mut entry = match position {
            Some(i) => self.creators.remove(i),
            None => {
                let fresh = CreatorEntry {
                    stats: CreatorStats::new(to.clone()),
                    tip_ids: Vec::new(),
                };
                proof {
                    assert(fresh.tip_ids@ =~= tip_ids(received_by(log, recipient)));
                }
                fresh
            },
        };
        let ghost before = entry;
        let submitted = submit(
            authorized,
            amount,
            timestamp,
            self.counter,
            &mut entry.tip_ids,
            &mut entry.stats,
            &mut self.recent,
        );
        assert(submitted.is_ok());
        match submitted {
            Err(e) => Err(e),
            Ok(id) => {
                let tip = Tip { id, from, to, amount, message, timestamp };
                let ghost written = tip@;
                self.tips.push(tip);
                self.counter = id;
                match position {
                    Some(i) => {
                        self.creators.insert(i, entry);
                        assert(self.creators@ =~= old(self).creators@.update(i as int, entry));
                    },
                    None => {
                        self.creators.push(entry);
                    },
                }
                proof {
                    assert(self@ =~= log.push(written));
                    lemma_step_follows_history(log, before.stats@, written);
                    assert forall|i: int| 0 <= i < self.creators.len() implies entry_matches(
                        #[trigger] self.creators[i],
                        self@,
                    ) by {
                        if self.creators[i] != entry {
                            assert(self.creators[i] == old(self).creators[i]);
                            lemma_stats_of_others(
                                self.creators[i].stats@,
                                log,
                                written,
                                self.creators[i].stats.creator@,
                            );
                        }
                    }
                    assert forall|k: int| 0 <= k < self@.len() implies has_entry(
                        self.creators@,
                        (#[trigger] self@[k]).to,
                    ) by {
                        let holder = if k < log.len() {
                            choose|w: int|
                                0 <= w < old(self).creators.len() && (
                                #[trigger] old(self).creators[w]).stats.creator@ == log[k].to
                        } else {
                            match position {
                                Some(i) => i as int,
                                None => self.creators.len() - 1,
                            }
                        };
                        assert(has_entry(old(self).creators@, log[k].to) || k == log.len());
                        assert(self.creators[holder].stats.creator@ == self@[k].to);
                    }
                }
                Ok(id)
            },
        }
    }
}

} // verus!
