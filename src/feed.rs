//! Feed entries, the change feed over a log of them, and the laws of paging
//! through it by watermark.

use vstd::prelude::*;
use crate::data::{ContentBlock, Deletion, Note, NoteView, Notebook, ResourceKind};

verus! {

/// A resource of any kind, carried whole.
#[derive(Clone, Debug)]
pub enum Resource {
    Notebook(Notebook),
    Note(Note),
    ContentBlock(ContentBlock),
}

/// One unit of the change feed: a new version of a resource, or a tombstone.
#[derive(Clone, Debug)]
pub enum FeedEntry {
    Upsert(Resource),
    Tombstone(Deletion),
}

/// A resource as a mathematical value.
pub enum ResourceView {
    Notebook(Notebook),
    Note(NoteView),
    ContentBlock(ContentBlock),
}

/// A feed entry as a mathematical value.
pub enum FeedEntryView {
    Upsert(ResourceView),
    Tombstone(Deletion),
}

impl View for Resource {
    type V = ResourceView;

    open spec fn view(&self) -> ResourceView {
        match self {
            Resource::Notebook(b) => ResourceView::Notebook(*b),
            Resource::Note(n) => ResourceView::Note(n@),
            Resource::ContentBlock(c) => ResourceView::ContentBlock(*c),
        }
    }
}

impl View for FeedEntry {
    type V = FeedEntryView;

    open spec fn view(&self) -> FeedEntryView {
        match self {
            FeedEntry::Upsert(r) => FeedEntryView::Upsert(r@),
            FeedEntry::Tombstone(d) => FeedEntryView::Tombstone(*d),
        }
    }
}

impl ResourceView {
    pub open spec fn kind(self) -> ResourceKind {
        match self {
            ResourceView::Notebook(_) => ResourceKind::Notebook,
            ResourceView::Note(_) => ResourceKind::Note,
            ResourceView::ContentBlock(_) => ResourceKind::ContentBlock,
        }
    }

    pub open spec fn id(self) -> i32 {
        match self {
            ResourceView::Notebook(b) => b.id,
            ResourceView::Note(n) => n.id,
            ResourceView::ContentBlock(c) => c.id,
        }
    }

    pub open spec fn stamp(self) -> u64 {
        match self {
            ResourceView::Notebook(b) => b.system_updated_at,
            ResourceView::Note(n) => n.system_updated_at,
            ResourceView::ContentBlock(c) => c.system_updated_at,
        }
    }
}

impl FeedEntryView {
    /// The sync version at which the entry was written.
    pub open spec fn stamp(self) -> u64 {
        match self {
            FeedEntryView::Upsert(r) => r.stamp(),
            FeedEntryView::Tombstone(d) => d.system_updated_at,
        }
    }

    pub open spec fn kind(self) -> ResourceKind {
        match self {
            FeedEntryView::Upsert(r) => r.kind(),
            FeedEntryView::Tombstone(d) => d.type_,
        }
    }

    /// The id of the resource that the entry is about.
    pub open spec fn resource_id(self) -> i32 {
        match self {
            FeedEntryView::Upsert(r) => r.id(),
            FeedEntryView::Tombstone(d) => d.resource_id,
        }
    }
}

impl Resource {
    pub fn copy(&self) -> (r: Resource)
        ensures
            r@ == self@,
    {
        match self {
            Resource::Notebook(b) => Resource::Notebook(b.copy()),
            Resource::Note(n) => Resource::Note(n.copy()),
            Resource::ContentBlock(c) => Resource::ContentBlock(c.copy()),
        }
    }

    pub fn kind(&self) -> (r: ResourceKind)
        ensures
            r == self@.kind(),
    {
        match self {
            Resource::Notebook(_) => ResourceKind::Notebook,
            Resource::Note(_) => ResourceKind::Note,
            Resource::ContentBlock(_) => ResourceKind::ContentBlock,
        }
    }

    pub fn id(&self) -> (r: i32)
        ensures
            r == self@.id(),
    {
        match self {
            Resource::Notebook(b) => b.id,
            Resource::Note(n) => n.id,
            Resource::ContentBlock(c) => c.id,
        }
    }
}

impl FeedEntry {
    pub fn copy(&self) -> (r: FeedEntry)
        ensures
            r@ == self@,
    {
        match self {
            FeedEntry::Upsert(r) => FeedEntry::Upsert(r.copy()),
            FeedEntry::Tombstone(d) => FeedEntry::Tombstone(*d),
        }
    }

    pub fn stamp(&self) -> (r: u64)
        ensures
            r == self@.stamp(),
    {
        match self {
            FeedEntry::Upsert(Resource::Notebook(b)) => b.system_updated_at,
            FeedEntry::Upsert(Resource::Note(n)) => n.system_updated_at,
            FeedEntry::Upsert(Resource::ContentBlock(c)) => c.system_updated_at,
            FeedEntry::Tombstone(d) => d.system_updated_at,
        }
    }
}

/// The stamps of `log` strictly increase along it.
pub open spec fn strictly_increasing(log: Seq<FeedEntryView>) -> bool {
    forall|i: int, j: int| 0 <= i < j < log.len() ==> #[trigger] log[i].stamp() < #[trigger] log[j].stamp()
}

/// The entries of `log` whose stamp is above `watermark`, in log order.
pub open spec fn changes_after(log: Seq<FeedEntryView>, watermark: u64) -> Seq<FeedEntryView>
    decreases log.len(),
{
    if log.len() == 0 {
        Seq::empty()
    } else {
        let rest = changes_after(log.drop_last(), watermark);
        if log.last().stamp() > watermark {
            rest.push(log.last())
        } else {
            rest
        }
    }
}

/// At most `limit` of the changes after `watermark`: the earliest ones.
pub open spec fn page_of(log: Seq<FeedEntryView>, watermark: u64, limit: nat) -> Seq<FeedEntryView> {
    let all = changes_after(log, watermark);
    if all.len() <= limit {
        all
    } else {
        all.take(limit as int)
    }
}

/// The watermark to resume from after `entries`: the last one's stamp, or
/// `watermark` itself where there are none.
pub open spec fn resume_point(entries: Seq<FeedEntryView>, watermark: u64) -> u64 {
    if entries.len() == 0 {
        watermark
    } else {
        entries.last().stamp()
    }
}

/// One page of the change feed and the watermark to ask from next.
pub struct ChangePage {
    pub entries: Vec<FeedEntry>,
    pub next_watermark: u64,
}

/// The values of a list of feed entries.
pub open spec fn entries_view(entries: Seq<FeedEntry>) -> Seq<FeedEntryView> {
    entries.map_values(|e: FeedEntry| e@)
}

/// Reads one page of the change feed out of `log`: the earliest `limit`
/// entries with a stamp above `watermark`, and where to resume.
pub fn read_page(log: &Vec<FeedEntry>, watermark: u64, limit: usize) -> (r: ChangePage)
    ensures
        entries_view(r.entries@) == page_of(entries_view(log@), watermark, limit as nat),
        r.next_watermark == resume_point(entries_view(r.entries@), watermark),
{
    let ghost whole = entries_view(log@);
    let mut out: Vec<FeedEntry> = Vec::new();
    let mut i: usize = 0;
    while i < log.len()
        invariant
            i <= log@.len(),
            whole == entries_view(log@),
            entries_view(out@) == page_of(whole.take(i as int), watermark, limit as nat),
        decreases log@.len() - i,
    {
        let ghost before = whole.take(i as int);
        let ghost a = changes_after(before, watermark);
        let ghost x = log@[i as int]@;
        let ghost old_out = entries_view(out@);
        assert(whole.take(i as int + 1).drop_last() =~= before);
        assert(whole.take(i as int + 1).last() == x);
        if log[i].stamp() > watermark {
            assert(changes_after(whole.take(i as int + 1), watermark) == a.push(x));
            if out.len() < limit {
                let e = log[i].copy();
                out.push(e);
                assert(entries_view(out@) =~= old_out.push(x));
            } else {
                assert(a.push(x).take(limit as int) =~= a.take(limit as int));
                assert(a.len() == limit ==> a.take(limit as int) =~= a);
            }
        } else {
            assert(changes_after(whole.take(i as int + 1), watermark) == a);
        }
        i = i + 1;
    }
    assert(whole.take(log@.len() as int) =~= whole);
    let next_watermark = if out.len() == 0 {
        watermark
    } else {
        let last = out.len() - 1;
        out[last].stamp()
    };
    ChangePage { entries: out, next_watermark }
}

/// The changes after a watermark keep the log's order, lie above the
/// watermark, and lie no later than the log's last entry.
pub proof fn lemma_changes_after_ordered(log: Seq<FeedEntryView>, watermark: u64)
    requires
        strictly_increasing(log),
    ensures
        strictly_increasing(changes_after(log, watermark)),
        changes_after(log, watermark).len() <= log.len(),
        forall|k: int|
            0 <= k < changes_after(log, watermark).len() ==> {
                &&& #[trigger] changes_after(log, watermark)[k].stamp() > watermark
                &&& changes_after(log, watermark)[k].stamp() <= log.last().stamp()
            },
    decreases log.len(),
{
    if log.len() > 0 {
        let prev = log.drop_last();
        lemma_changes_after_ordered(prev, watermark);
        if prev.len() > 0 {
            assert(prev.last().stamp() < log.last().stamp());
        }
    }
}

/// Nothing lies after a watermark that no entry's stamp exceeds.
proof fn lemma_nothing_after(log: Seq<FeedEntryView>, watermark: u64)
    requires
        forall|i: int| 0 <= i < log.len() ==> #[trigger] log[i].stamp() <= watermark,
    ensures
        changes_after(log, watermark) == Seq::<FeedEntryView>::empty(),
    decreases log.len(),
{
    if log.len() > 0 {
        lemma_nothing_after(log.drop_last(), watermark);
    }
}

/// Filtering by a lower watermark first changes nothing.
proof fn lemma_changes_after_nested(log: Seq<FeedEntryView>, low: u64, high: u64)
    requires
        low <= high,
    ensures
        changes_after(changes_after(log, low), high) == changes_after(log, high),
    decreases log.len(),
{
    if log.len() > 0 {
        let prev = log.drop_last();
        lemma_changes_after_nested(prev, low, high);
        let rest = changes_after(prev, low);
        if log.last().stamp() > low {
            assert(rest.push(log.last()).drop_last() =~= rest);
        }
    }
}

/// In an ordered sequence, what lies after the stamp of its `k`-th entry is
/// exactly what follows that entry.
proof fn lemma_changes_after_entry(entries: Seq<FeedEntryView>, k: int)
    requires
        strictly_increasing(entries),
        0 < k <= entries.len(),
    ensures
        changes_after(entries, entries[k - 1].stamp()) == entries.skip(k),
    decreases entries.len(),
{
    let prev = entries.drop_last();
    let v = entries[k - 1].stamp();
    if k == entries.len() {
        assert forall|i: int| 0 <= i < prev.len() implies #[trigger] prev[i].stamp() <= v by {
            assert(entries[i] == prev[i]);
        }
        lemma_nothing_after(prev, v);
        assert(entries.skip(k) =~= Seq::<FeedEntryView>::empty());
    } else {
        assert(prev[k - 1] == entries[k - 1]);
        lemma_changes_after_entry(prev, k);
        assert(entries.last().stamp() > v);
        assert(prev.skip(k).push(entries.last()) =~= entries.skip(k));
    }
}

/// Paging resumes without loss or repetition: one page from `watermark`
/// followed by everything after the page's resume point is everything after
/// `watermark`, in the same order.
pub proof fn lemma_watermark_resumable(log: Seq<FeedEntryView>, watermark: u64, limit: nat)
    requires
        strictly_increasing(log),
    ensures
        page_of(log, watermark, limit) + changes_after(
            log,
            resume_point(page_of(log, watermark, limit), watermark),
        ) == changes_after(log, watermark),
{
    let all = changes_after(log, watermark);
    let page = page_of(log, watermark, limit);
    lemma_changes_after_ordered(log, watermark);
    let k = page.len() as int;
    assert(page =~= all.take(k));
    if k == 0 {
        assert(page + all =~= all);
    } else {
        let next = resume_point(page, watermark);
        assert(next == all[k - 1].stamp());
        lemma_changes_after_nested(log, watermark, next);
        lemma_changes_after_entry(all, k);
        assert(all.take(k) + all.skip(k) =~= all);
    }
}

/// Every entry above a watermark is among the changes after it.
pub proof fn lemma_entry_surfaces(log: Seq<FeedEntryView>, watermark: u64, i: int)
    requires
        0 <= i < log.len(),
        log[i].stamp() > watermark,
    ensures
        changes_after(log, watermark).contains(log[i]),
    decreases log.len(),
{
    let prev = log.drop_last();
    if i == log.len() - 1 {
        let rest = changes_after(prev, watermark);
        assert(rest.push(log[i])[rest.len() as int] == log[i]);
    } else {
        assert(prev[i] == log[i]);
        lemma_entry_surfaces(prev, watermark, i);
        let rest = changes_after(prev, watermark);
        let j = choose|j: int| 0 <= j < rest.len() && rest[j] == log[i];
        if log.last().stamp() > watermark {
            assert(rest.push(log.last())[j] == log[i]);
        }
    }
}

/// From watermark zero the feed holds the whole log, where every stamp is
/// above zero.
pub proof fn lemma_changes_after_zero(log: Seq<FeedEntryView>)
    requires
        forall|i: int| 0 <= i < log.len() ==> #[trigger] log[i].stamp() > 0,
    ensures
        changes_after(log, 0) == log,
    decreases log.len(),
{
    if log.len() > 0 {
        let prev = log.drop_last();
        assert forall|i: int| 0 <= i < prev.len() implies #[trigger] prev[i].stamp() > 0 by {
            assert(prev[i] == log[i]);
        }
        lemma_changes_after_zero(prev);
        assert(prev.push(log.last()) =~= log);
    }
}

} // verus!
