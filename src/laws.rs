//! What holds of every store and of every feed read from it.

use vstd::prelude::*;
use crate::data::ResourceKind;
use crate::error::SyncError;
use crate::feed::{
    FeedEntryView, changes_after, lemma_changes_after_zero, lemma_entry_surfaces,
    lemma_watermark_resumable, page_of, resume_point, strictly_increasing,
};
use crate::replica::{empty_replica, replay, replica_of};
use crate::store::{SyncStore, tombstone_for, upsert_for};

verus! {

/// Sync versions are unique system-wide and strictly increase in log order,
/// across every resource kind and tombstones alike; none exceeds the clock,
/// so the next mutation's version, one above the clock, exceeds them all.
pub proof fn lemma_versions_monotonic(s: &SyncStore)
    requires
        s.wf(),
    ensures
        strictly_increasing(s.log()),
        forall|i: int, j: int|
            0 <= i < s.log().len() && 0 <= j < s.log().len() && i != j
                ==> #[trigger] s.log()[i].stamp() != #[trigger] s.log()[j].stamp(),
        forall|i: int| 0 <= i < s.log().len() ==> 0 < #[trigger] s.log()[i].stamp() <= s.clock_last(),
{
    assert forall|i: int, j: int|
        0 <= i < s.log().len() && 0 <= j < s.log().len() && i != j
            implies #[trigger] s.log()[i].stamp() != #[trigger] s.log()[j].stamp() by {
        if i < j {
            assert(s.log()[i].stamp() < s.log()[j].stamp());
        } else {
            assert(s.log()[j].stamp() < s.log()[i].stamp());
        }
    }
}

/// The feed from watermark zero, with a page large enough, is the whole log:
/// one entry per mutation that succeeded, in mutation order.
pub proof fn lemma_feed_complete(s: &SyncStore, limit: nat)
    requires
        s.wf(),
        limit >= s.log().len(),
    ensures
        page_of(s.log(), 0, limit) == s.log(),
{
    lemma_changes_after_zero(s.log());
}

/// A tombstoned resource is never live again, so every later update or
/// delete of it is refused with `NotFound`; no new version of it follows its
/// tombstone in the log; and every feed read from a watermark below the
/// tombstone's version holds the tombstone.
pub proof fn lemma_tombstone_permanent(s: &SyncStore, i: int, kind: ResourceKind, id: i32, watermark: u64)
    requires
        s.wf(),
        0 <= i < s.log().len(),
        tombstone_for(s.log()[i], kind, id),
    ensures
        !s.is_live(kind, id),
        s.change_refusal(kind, id, false) == Some(SyncError::NotFound),
        s.change_refusal(kind, id, true) == Some(SyncError::NotFound),
        forall|j: int| i < j < s.log().len() ==> !#[trigger] upsert_for(s.log()[j], kind, id),
        watermark < s.log()[i].stamp() ==> changes_after(s.log(), watermark).contains(s.log()[i]),
{
    if watermark < s.log()[i].stamp() {
        lemma_entry_surfaces(s.log(), watermark, i);
    }
}

/// Paging through the feed of a store loses and repeats nothing: a page from
/// `watermark`, then everything after the page's next watermark, is exactly
/// everything after `watermark`, in order.
pub proof fn lemma_feed_resumable(s: &SyncStore, watermark: u64, limit: nat)
    requires
        s.wf(),
    ensures
        page_of(s.log(), watermark, limit) + changes_after(
            s.log(),
            resume_point(page_of(s.log(), watermark, limit), watermark),
        ) == changes_after(s.log(), watermark),
{
    lemma_watermark_resumable(s.log(), watermark, limit);
}

/// A client that applies the whole feed, from watermark zero and in order,
/// to an empty replica holds exactly the store's live resources: each at its
/// current version, and nothing deleted.
pub proof fn lemma_feed_converges(s: &SyncStore, limit: nat)
    requires
        s.wf(),
        limit >= s.log().len(),
    ensures
        replay(empty_replica(), page_of(s.log(), 0, limit)) == replica_of(s.live()),
{
    lemma_changes_after_zero(s.log());
}

} // verus!
