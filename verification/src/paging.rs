//! The cursor and paging rules that every digest listing shares.
//!
//! A listing starts from its candidates: the rows that match its filter, in
//! the order of their row ids, each reduced to its row id and its digest. The
//! cursor then bounds them, a listing of calls or recipients keeps the
//! highest row per digest, the direction orders them, and the limit cuts
//! them.

use crate::filters::{lemma_filter_keeps_order, lemma_filter_members, lemma_filter_step};
use crate::views::{lemma_take_all, lemma_take_step, lemma_views_push, views, Text};
use vstd::prelude::*;

verus! {

/// A candidate of a listing: a row id with the digest found in that row.
#[derive(Debug, PartialEq, Eq)]
pub struct PageEntry {
    pub id: i64,
    pub digest: String,
}

/// The mathematical value of a [`PageEntry`].
pub struct PageEntryView {
    pub id: i64,
    pub digest: Text,
}

impl View for PageEntry {
    type V = PageEntryView;

    open spec fn view(&self) -> PageEntryView {
        PageEntryView { id: self.id, digest: self.digest@ }
    }
}

impl Clone for PageEntry {
    fn clone(&self) -> (copy: Self)
        ensures
            copy@ == self@,
    {
        PageEntry { id: self.id, digest: self.digest.clone() }
    }
}

/// Whether the cursor lets a row id through: with no cursor every id, going
/// down the ids up to the cursor, going up the ids from the cursor on. The
/// cursor's own id is let through.
pub open spec fn cursor_admits(cursor: Option<i64>, descending: bool, id: i64) -> bool {
    match cursor {
        None => true,
        Some(start) => if descending {
            id <= start
        } else {
            id >= start
        },
    }
}

/// The candidates that the cursor lets through.
pub open spec fn admitted(
    candidates: Seq<PageEntryView>,
    cursor: Option<i64>,
    descending: bool,
) -> Seq<PageEntryView> {
    match cursor {
        None => candidates,
        Some(_) => candidates.filter(|e: PageEntryView| cursor_admits(cursor, descending, e.id)),
    }
}

/// Whether no entry with the digest of `entry` has a higher row id.
pub open spec fn is_latest(entries: Seq<PageEntryView>, entry: PageEntryView) -> bool {
    forall|j: int|
        0 <= j < entries.len() && (#[trigger] entries[j]).digest == entry.digest ==> entries[j].id
            <= entry.id
}

/// One entry per digest: the one with the highest row id.
pub open spec fn latest_per_digest(entries: Seq<PageEntryView>) -> Seq<PageEntryView> {
    entries.filter(|e: PageEntryView| is_latest(entries, e))
}

/// The entries in the direction asked for.
pub open spec fn ordered(entries: Seq<PageEntryView>, descending: bool) -> Seq<PageEntryView> {
    if descending {
        entries.reverse()
    } else {
        entries
    }
}

/// The first `limit` entries, or all of them where there are fewer.
pub open spec fn limited<T>(entries: Seq<T>, limit: nat) -> Seq<T> {
    if limit < entries.len() {
        entries.take(limit as int)
    } else {
        entries
    }
}

/// Everything a listing would return with no limit, in the order it would
/// return it.
pub open spec fn arranged(
    candidates: Seq<PageEntryView>,
    per_digest: bool,
    cursor: Option<i64>,
    descending: bool,
) -> Seq<PageEntryView> {
    let bounded = admitted(candidates, cursor, descending);
    ordered(
        if per_digest {
            latest_per_digest(bounded)
        } else {
            bounded
        },
        descending,
    )
}

/// The entries of one page.
pub open spec fn page_entries(
    candidates: Seq<PageEntryView>,
    per_digest: bool,
    cursor: Option<i64>,
    limit: nat,
    descending: bool,
) -> Seq<PageEntryView> {
    limited(arranged(candidates, per_digest, cursor, descending), limit)
}

/// The digests of the entries, in their order.
pub open spec fn digests_of(entries: Seq<PageEntryView>) -> Seq<Text> {
    entries.map_values(|e: PageEntryView| e.digest)
}

/// The digests of one page.
pub open spec fn page(
    candidates: Seq<PageEntryView>,
    per_digest: bool,
    cursor: Option<i64>,
    limit: nat,
    descending: bool,
) -> Seq<Text> {
    digests_of(page_entries(candidates, per_digest, cursor, limit, descending))
}

/// Row ids grow strictly along the sequence.
pub open spec fn ascending(entries: Seq<PageEntryView>) -> bool {
    forall|i: int, j: int|
        0 <= i < j < entries.len() ==> (#[trigger] entries[i]).id < (#[trigger] entries[j]).id
}

/// Row ids fall strictly along the sequence.
pub open spec fn descending_ids(entries: Seq<PageEntryView>) -> bool {
    forall|i: int, j: int|
        0 <= i < j < entries.len() ==> (#[trigger] entries[i]).id > (#[trigger] entries[j]).id
}

/// A filter keeps the order of row ids.
pub proof fn lemma_filter_ascending(s: Seq<PageEntryView>, pred: spec_fn(PageEntryView) -> bool)
    requires
        ascending(s),
    ensures
        ascending(s.filter(pred)),
{
    let key = |e: PageEntryView| e.id as int;
    assert forall|i: int, j: int| 0 <= i < j < s.len() implies key(#[trigger] s[i]) < key(
        #[trigger] s[j],
    ) by {
        assert(s[i].id < s[j].id);
    }
    lemma_filter_keeps_order(s, pred, key);
    let kept = s.filter(pred);
    assert forall|i: int, j: int| 0 <= i < j < kept.len() implies (#[trigger] kept[i]).id < (
    #[trigger] kept[j]).id by {
        assert(key(kept[i]) < key(kept[j]));
    }
}

/// An element of an ascending sequence that no element lies below is its
/// first one.
pub proof fn lemma_ascending_first(entries: Seq<PageEntryView>, entry: PageEntryView)
    requires
        ascending(entries),
        entries.contains(entry),
        forall|i: int| 0 <= i < entries.len() ==> (#[trigger] entries[i]).id >= entry.id,
    ensures
        entries.len() > 0,
        entries[0] == entry,
{
    let i = choose|i: int| 0 <= i < entries.len() && entries[i] == entry;
    if i > 0 {
        assert(entries[0].id < entries[i].id);
    }
}

/// An element of an ascending sequence that no element lies above is its
/// last one.
pub proof fn lemma_ascending_last(entries: Seq<PageEntryView>, entry: PageEntryView)
    requires
        ascending(entries),
        entries.contains(entry),
        forall|i: int| 0 <= i < entries.len() ==> (#[trigger] entries[i]).id <= entry.id,
    ensures
        entries.len() > 0,
        entries.last() == entry,
{
    let i = choose|i: int| 0 <= i < entries.len() && entries[i] == entry;
    if i < entries.len() - 1 {
        assert(entries[i].id < entries[entries.len() - 1].id);
    }
}

/// With ascending candidates a listing comes out in the order of its
/// direction, and each of its entries is a candidate that the cursor lets
/// through.
pub proof fn lemma_arranged_in_order(
    candidates: Seq<PageEntryView>,
    per_digest: bool,
    cursor: Option<i64>,
    descending: bool,
)
    requires
        ascending(candidates),
    ensures
        descending ==> descending_ids(arranged(candidates, per_digest, cursor, descending)),
        !descending ==> ascending(arranged(candidates, per_digest, cursor, descending)),
        forall|i: int|
            0 <= i < arranged(candidates, per_digest, cursor, descending).len() ==> {
                let e = #[trigger] arranged(candidates, per_digest, cursor, descending)[i];
                candidates.contains(e) && cursor_admits(cursor, descending, e.id)
            },
{
    let within = |e: PageEntryView| cursor_admits(cursor, descending, e.id);
    let bounded = admitted(candidates, cursor, descending);
    let latest = |e: PageEntryView| is_latest(bounded, e);
    let chosen = if per_digest {
        latest_per_digest(bounded)
    } else {
        bounded
    };
    lemma_filter_ascending(candidates, within);
    lemma_filter_members(candidates, within);
    lemma_filter_ascending(bounded, latest);
    lemma_filter_members(bounded, latest);
    assert(ascending(chosen));
    assert forall|i: int| 0 <= i < chosen.len() implies candidates.contains(#[trigger] chosen[i])
        && cursor_admits(cursor, descending, chosen[i].id) by {
        assert(chosen.contains(chosen[i]));
        if per_digest {
            assert(bounded.contains(chosen[i]));
        }
    }
    let out = arranged(candidates, per_digest, cursor, descending);
    if descending {
        assert forall|i: int, j: int| 0 <= i < j < out.len() implies (#[trigger] out[i]).id > (
        #[trigger] out[j]).id by {
            assert(out[i] == chosen[chosen.len() - 1 - i]);
            assert(out[j] == chosen[chosen.len() - 1 - j]);
        }
        assert forall|i: int| 0 <= i < out.len() implies candidates.contains(#[trigger] out[i])
            && cursor_admits(cursor, descending, out[i].id) by {
            assert(out[i] == chosen[chosen.len() - 1 - i]);
        }
    }
}

/// Listing upwards and listing downwards from no cursor, with a limit that
/// covers every match, give the same digests in opposite orders.
pub proof fn lemma_directions_mirror(
    candidates: Seq<PageEntryView>,
    per_digest: bool,
    limit: nat,
)
    requires
        limit >= arranged(candidates, per_digest, None, false).len(),
    ensures
        page(candidates, per_digest, None, limit, true) == page(
            candidates,
            per_digest,
            None,
            limit,
            false,
        ).reverse(),
{
    let up = arranged(candidates, per_digest, None, false);
    let down = arranged(candidates, per_digest, None, true);
    assert(down == up.reverse());
    assert(down.len() == up.len());
    assert(digests_of(down) =~= digests_of(up).reverse());
}

/// A listing that starts at the row id of an entry it returned before, in the
/// same direction, returns that entry first: the cursor's own row is
/// included.
pub proof fn lemma_cursor_resumes(
    candidates: Seq<PageEntryView>,
    per_digest: bool,
    cursor: Option<i64>,
    limit: nat,
    descending: bool,
    k: int,
    next_limit: nat,
)
    requires
        ascending(candidates),
        0 <= k < page_entries(candidates, per_digest, cursor, limit, descending).len(),
        next_limit > 0,
    ensures
        ({
            let returned = page_entries(candidates, per_digest, cursor, limit, descending)[k];
            let next = page_entries(
                candidates,
                per_digest,
                Some(returned.id),
                next_limit,
                descending,
            );
            next.len() > 0 && next[0] == returned
        }),
{
    let within = |e: PageEntryView| cursor_admits(cursor, descending, e.id);
    let bounded = admitted(candidates, cursor, descending);
    let latest = |e: PageEntryView| is_latest(bounded, e);
    let chosen = if per_digest {
        latest_per_digest(bounded)
    } else {
        bounded
    };
    let all = arranged(candidates, per_digest, cursor, descending);
    let returned = page_entries(candidates, per_digest, cursor, limit, descending)[k];
    assert(returned == all[k]);
    lemma_filter_members(candidates, within);
    lemma_filter_members(bounded, latest);
    // The entry was chosen, so it is a candidate within the old cursor.
    assert(chosen.contains(returned)) by {
        if descending {
            assert(all[k] == chosen[chosen.len() - 1 - k]);
        } else {
            assert(all[k] == chosen[k]);
        }
    }
    assert(bounded.contains(returned));
    assert(candidates.contains(returned));
    assert(cursor_admits(cursor, descending, returned.id));

    let next_cursor = Some(returned.id);
    let next_within = |e: PageEntryView| cursor_admits(next_cursor, descending, e.id);
    let next_bounded = admitted(candidates, next_cursor, descending);
    let next_latest = |e: PageEntryView| is_latest(next_bounded, e);
    let next_chosen = if per_digest {
        latest_per_digest(next_bounded)
    } else {
        next_bounded
    };
    lemma_filter_members(candidates, next_within);
    lemma_filter_members(next_bounded, next_latest);
    lemma_filter_ascending(candidates, next_within);
    lemma_filter_ascending(next_bounded, next_latest);
    assert(next_bounded.contains(returned));
    if per_digest {
        assert(is_latest(next_bounded, returned)) by {
            assert forall|j: int|
                0 <= j < next_bounded.len() && (#[trigger] next_bounded[j]).digest
                    == returned.digest implies next_bounded[j].id <= returned.id by {
                let other = next_bounded[j];
                assert(next_bounded.contains(other));
                assert(candidates.contains(other) && next_within(other));
                if !descending {
                    assert(within(other));
                    assert(bounded.contains(other));
                    let h = choose|h: int| 0 <= h < bounded.len() && bounded[h] == other;
                    assert(is_latest(bounded, returned));
                    assert(bounded[h].digest == returned.digest);
                }
            }
        }
    }
    assert(next_chosen.contains(returned));
    assert forall|i: int| 0 <= i < next_chosen.len() implies next_within(
        #[trigger] next_chosen[i],
    ) by {
        assert(next_chosen.contains(next_chosen[i]));
        if per_digest {
            assert(next_bounded.contains(next_chosen[i]));
        }
    }
    if descending {
        lemma_ascending_last(next_chosen, returned);
    } else {
        lemma_ascending_first(next_chosen, returned);
    }
}

// ---------------------------------------------------------------------------
// Executable paging
// ---------------------------------------------------------------------------

/// Whether the cursor lets a row id through.
pub fn admits(cursor: Option<i64>, descending: bool, id: i64) -> (through: bool)
    ensures
        through == cursor_admits(cursor, descending, id),
{
    match cursor {
        None => true,
        Some(start) => if descending {
            id <= start
        } else {
            id >= start
        },
    }
}

/// The candidates that the cursor lets through.
pub fn bound(candidates: &Vec<PageEntry>, cursor: Option<i64>, descending: bool) -> (out: Vec<
    PageEntry,
>)
    ensures
        views(out@) == admitted(views(candidates@), cursor, descending),
{
    let ghost all = views(candidates@);
    let ghost within = |e: PageEntryView| cursor_admits(cursor, descending, e.id);
    let mut out: Vec<PageEntry> = Vec::new();
    let mut i: usize = 0;
    proof {
        reveal(Seq::filter);
        assert(all.take(0).filter(within) =~= Seq::<PageEntryView>::empty());
        assert(views(out@) =~= Seq::<PageEntryView>::empty());
    }
    while i < candidates.len()
        invariant
            i <= candidates.len(),
            all == views(candidates@),
            within == |e: PageEntryView| cursor_admits(cursor, descending, e.id),
            views(out@) == if cursor is None {
                all.take(i as int)
            } else {
                all.take(i as int).filter(within)
            },
        decreases candidates.len() - i,
    {
        let ghost earlier = out@;
        proof {
            lemma_filter_step(all, within, i as int);
            lemma_take_step(all, i as int);
        }
        if admits(cursor, descending, candidates[i].id) {
            let copy = candidates[i].clone();
            out.push(copy);
            proof {
                lemma_views_push(earlier, copy);
            }
        }
        i = i + 1;
    }
    proof {
        lemma_take_all(all);
    }
    out
}

/// Whether no entry with the digest of the entry at `position` has a higher
/// row id.
pub fn latest_at(entries: &Vec<PageEntry>, position: usize) -> (latest: bool)
    requires
        position < entries.len(),
    ensures
        latest == is_latest(views(entries@), views(entries@)[position as int]),
{
    let ghost all = views(entries@);
    let mut j: usize = 0;
    while j < entries.len()
        invariant
            j <= entries.len(),
            position < entries.len(),
            all == views(entries@),
            forall|h: int|
                0 <= h < j && (#[trigger] all[h]).digest == all[position as int].digest
                    ==> all[h].id <= all[position as int].id,
        decreases entries.len() - j,
    {
        if entries[j].id > entries[position].id && entries[j].digest == entries[position].digest {
            assert(all[j as int].digest == all[position as int].digest);
            return false;
        }
        j = j + 1;
    }
    true
}

/// One entry per digest: the one with the highest row id.
pub fn keep_latest(entries: &Vec<PageEntry>) -> (out: Vec<PageEntry>)
    ensures
        views(out@) == latest_per_digest(views(entries@)),
{
    let ghost all = views(entries@);
    let ghost latest = |e: PageEntryView| is_latest(all, e);
    let mut out: Vec<PageEntry> = Vec::new();
    let mut i: usize = 0;
    proof {
        reveal(Seq::filter);
        assert(all.take(0).filter(latest) =~= Seq::<PageEntryView>::empty());
        assert(views(out@) =~= Seq::<PageEntryView>::empty());
    }
    while i < entries.len()
        invariant
            i <= entries.len(),
            all == views(entries@),
            latest == |e: PageEntryView| is_latest(all, e),
            views(out@) == all.take(i as int).filter(latest),
        decreases entries.len() - i,
    {
        let ghost earlier = out@;
        proof {
            lemma_filter_step(all, latest, i as int);
        }
        if latest_at(entries, i) {
            let copy = entries[i].clone();
            out.push(copy);
            proof {
                lemma_views_push(earlier, copy);
            }
        }
        i = i + 1;
    }
    proof {
        lemma_take_all(all);
    }
    out
}

/// The digests of the first `limit` entries in the direction asked for.
pub fn cut(entries: &Vec<PageEntry>, limit: usize, descending: bool) -> (out: Vec<String>)
    ensures
        views(out@) == digests_of(limited(ordered(views(entries@), descending), limit as nat)),
        out.len() <= limit,
{
    let ghost all = ordered(views(entries@), descending);
    let count: usize = if limit < entries.len() {
        limit
    } else {
        entries.len()
    };
    let mut out: Vec<String> = Vec::new();
    let mut i: usize = 0;
    while i < count
        invariant
            i <= count <= entries.len(),
            all == ordered(views(entries@), descending),
            all.len() == entries.len(),
            out.len() == i,
            forall|h: int| 0 <= h < i ==> (#[trigger] views(out@)[h]) == all[h].digest,
        decreases count - i,
    {
        let ghost earlier = out@;
        let position: usize = if descending {
            entries.len() - 1 - i
        } else {
            i
        };
        let digest = entries[position].digest.clone();
        assert(digest@ == all[i as int].digest);
        out.push(digest);
        proof {
            lemma_views_push(earlier, digest);
            assert forall|h: int| 0 <= h < i + 1 implies (#[trigger] views(out@)[h])
                == all[h].digest by {
                if h < i {
                    assert(views(earlier)[h] == all[h].digest);
                }
            }
        }
        i = i + 1;
    }
    assert(views(out@) =~= digests_of(limited(all, limit as nat)));
    out
}

/// One page of digests: of the candidates that the cursor lets through, one
/// per digest where asked, in the direction asked for, at most `limit`.
pub fn page_of(
    candidates: &Vec<PageEntry>,
    per_digest: bool,
    cursor: Option<i64>,
    limit: usize,
    descending: bool,
) -> (digests: Vec<String>)
    ensures
        views(digests@) == page(views(candidates@), per_digest, cursor, limit as nat, descending),
        digests.len() <= limit,
{
    let bounded = bound(candidates, cursor, descending);
    if per_digest {
        let chosen = keep_latest(&bounded);
        cut(&chosen, limit, descending)
    } else {
        cut(&bounded, limit, descending)
    }
}

/// The cursor as a bound on row ids.
#[derive(Clone, Copy, Debug, PartialEq, Eq, Structural)]
pub enum CursorBound {
    /// Every row id is within the bound.
    Unbounded,
    /// The row ids up to this one, itself included.
    AtMost(i64),
    /// The row ids from this one on, itself included.
    AtLeast(i64),
}

impl CursorBound {
    /// Whether the row id is within the bound.
    pub open spec fn holds(self, id: i64) -> bool {
        match self {
            CursorBound::Unbounded => true,
            CursorBound::AtMost(top) => id <= top,
            CursorBound::AtLeast(bottom) => id >= bottom,
        }
    }
}

/// The bound that the cursor puts on row ids in the given direction.
pub fn cursor_bound(cursor: Option<i64>, descending: bool) -> (bound: CursorBound)
    ensures
        bound == match cursor {
            None => CursorBound::Unbounded,
            Some(start) => if descending {
                CursorBound::AtMost(start)
            } else {
                CursorBound::AtLeast(start)
            },
        },
        forall|id: i64| bound.holds(id) == cursor_admits(cursor, descending, id),
{
    match cursor {
        None => CursorBound::Unbounded,
        Some(start) => if descending {
            CursorBound::AtMost(start)
        } else {
            CursorBound::AtLeast(start)
        },
    }
}

} // verus!
