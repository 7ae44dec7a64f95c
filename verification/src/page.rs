//! Pages: which entries of a list a reader gets to see, and in what order.

use vstd::prelude::*;

verus! {

/// The most entries that one page holds, whatever limit is asked for.
pub const MAX_PAGE_SIZE: u32 = 100;

/// The size of a page of one creator's tips when no limit is given.
pub const DEFAULT_CREATOR_PAGE: u32 = 50;

/// The size of a page of recent tips when no limit is given.
pub const DEFAULT_RECENT_PAGE: u32 = 20;

/// The size of the page asked for: `limit`, or `default_limit` when none is
/// given, and never more than `MAX_PAGE_SIZE`.
pub open spec fn page_size(limit: Option<u32>, default_limit: u32) -> int {
    let asked = match limit {
        Some(asked) => asked,
        None => default_limit,
    };
    if asked > MAX_PAGE_SIZE {
        MAX_PAGE_SIZE as int
    } else {
        asked as int
    }
}

/// Where a page starts in a sequence of `len` entries: at `offset`, or at
/// zero when none is given, and never beyond the end.
pub open spec fn page_start(len: int, offset: Option<u32>) -> int {
    let skipped = match offset {
        Some(skipped) => skipped as int,
        None => 0,
    };
    if skipped > len {
        len
    } else {
        skipped
    }
}

/// Where the page that starts at `start` ends: `size` entries further, and
/// never beyond the end.
pub open spec fn page_end(len: int, start: int, size: int) -> int {
    if start + size > len {
        len
    } else {
        start + size
    }
}

/// The page of `items` that `limit` and `offset` ask for: the entries from
/// the start of the page up to its end, the later ones first.
pub open spec fn page<T>(
    items: Seq<T>,
    limit: Option<u32>,
    default_limit: u32,
    offset: Option<u32>,
) -> Seq<T> {
    let start = page_start(items.len() as int, offset);
    let end = page_end(items.len() as int, start, page_size(limit, default_limit));
    items.subrange(start, end).reverse()
}

/// The last entries of `items`, as many as `limit` asks for, the later ones
/// first.
pub open spec fn latest<T>(items: Seq<T>, limit: Option<u32>, default_limit: u32) -> Seq<T> {
    let size = page_size(limit, default_limit);
    let start = if items.len() > size {
        items.len() - size
    } else {
        0
    };
    items.subrange(start, items.len() as int).reverse()
}

/// What is left of `found` when the absent entries are dropped.
pub open spec fn present<T>(found: Seq<Option<T>>) -> Seq<T>
    decreases found.len(),
{
    if found.len() == 0 {
        Seq::empty()
    } else {
        match found.last() {
            Some(item) => present(found.drop_last()).push(item),
            None => present(found.drop_last()),
        }
    }
}

/// The entries of `ids` from `start` up to `end`, the later ones first.
fn reversed_range(ids: &Vec<u64>, start: usize, end: usize) -> (r: Vec<u64>)
    requires
        start <= end <= ids.len(),
    ensures
        r@ == ids@.subrange(start as int, end as int).reverse(),
{
    let mut out: Vec<u64> = Vec::new();
    let mut i: usize = end;
    while i > start
        invariant
            start <= i <= end <= ids.len(),
            out.len() == end - i,
            forall|k: int| 0 <= k < out.len() ==> out[k] == ids[end - 1 - k],
        decreases i,
    {
        i = i - 1;
        out.push(ids[i]);
    }
    assert(out@ =~= ids@.subrange(start as int, end as int).reverse());
    out
}

/// The size of the page asked for, as `page_size` defines it.
fn clamp_limit(limit: Option<u32>, default_limit: u32) -> (r: usize)
    ensures
        r == page_size(limit, default_limit),
{
    let asked = match limit {
        Some(asked) => asked,
        None => default_limit,
    };
    if asked > MAX_PAGE_SIZE {
        MAX_PAGE_SIZE as usize
    } else {
        asked as usize
    }
}

/// One page of `ids`, the later identifiers first.
///
/// The page starts `offset` entries into `ids` (at the end of `ids` if that
/// is nearer) and holds `limit` entries, or `default_limit` when no limit is
/// given, but never more than `MAX_PAGE_SIZE` and never more than are left.
pub fn paginate(
    ids: &Vec<u64>,
    limit: Option<u32>,
    default_limit: u32,
    offset: Option<u32>,
) -> (r: Vec<u64>)
    ensures
        r@ == page(ids@, limit, default_limit, offset),
{
    let size = clamp_limit(limit, default_limit);
    let len = ids.len();
    let skipped = match offset {
        Some(skipped) => skipped as usize,
        None => 0,
    };
    let start = if skipped > len {
        len
    } else {
        skipped
    };
    let end = if len - start < size {
        len
    } else {
        start + size
    };
    reversed_range(ids, start, end)
}

/// The last identifiers of `ids`, the later ones first: `limit` of them, or
/// `default_limit` when no limit is given, but never more than
/// `MAX_PAGE_SIZE` and never more than there are.
pub fn latest_ids(ids: &Vec<u64>, limit: Option<u32>, default_limit: u32) -> (r: Vec<u64>)
    ensures
        r@ == latest(ids@, limit, default_limit),
{
    let size = clamp_limit(limit, default_limit);
    let len = ids.len();
    let start = if len > size {
        len - size
    } else {
        0
    };
    reversed_range(ids, start, len)
}

/// Keeps the entries of `found` that are there, in their order, and drops
/// the absent ones without complaint.
pub fn collect_present<T>(found: Vec<Option<T>>) -> (r: Vec<T>)
    ensures
        r@ == present(found@),
{
    let ghost all = found@;
    let mut out: Vec<T> = Vec::new();
    for entry in it: found
        invariant
            it.seq() == all,
            out@ == present(all.take(it.index() as int)),
    {
        proof {
            assert(all.take(it.index() + 1).drop_last() =~= all.take(it.index() as int));
        }
        match entry {
            Some(item) => {
                out.push(item);
            },
            None => {},
        }
    }
    proof {
        assert(all.take(all.len() as int) =~= all);
    }
    out
}

/// When nothing is absent, dropping the absent entries keeps every entry.
pub proof fn lemma_present_all<T>(found: Seq<Option<T>>, items: Seq<T>)
    requires
        found.len() == items.len(),
        forall|i: int| 0 <= i < found.len() ==> #[trigger] found[i] == Some(items[i]),
    ensures
        present(found) == items,
    decreases found.len(),
{
    if found.len() > 0 {
        lemma_present_all(found.drop_last(), items.drop_last());
        assert(items.drop_last().push(items.last()) =~= items);
    } else {
        assert(items =~= Seq::<T>::empty());
    }
}

} // verus!
