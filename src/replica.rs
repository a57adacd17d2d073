//! A client's local copy of the resources, rebuilt by applying feed entries.

use vstd::prelude::*;
use std::collections::HashMap;
use crate::data::{ContentBlock, Deletion, Note, NoteView, Notebook, ResourceKind};
use crate::feed::{FeedEntry, FeedEntryView, Resource, ResourceView};

verus! {

broadcast use vstd::std_specs::hash::group_hash_axioms;

/// The resources a client holds, by kind and id.
pub struct ReplicaView {
    pub notebooks: Map<i32, Notebook>,
    pub notes: Map<i32, NoteView>,
    pub blocks: Map<i32, ContentBlock>,
}

/// The replica after applying `e`: an upsert stores the version it carries
/// under its id, a tombstone drops the resource it names.
pub open spec fn apply_entry(r: ReplicaView, e: FeedEntryView) -> ReplicaView {
    match e {
        FeedEntryView::Upsert(ResourceView::Notebook(b)) => ReplicaView {
            notebooks: r.notebooks.insert(b.id, b),
            notes: r.notes,
            blocks: r.blocks,
        },
        FeedEntryView::Upsert(ResourceView::Note(n)) => ReplicaView {
            notebooks: r.notebooks,
            notes: r.notes.insert(n.id, n),
            blocks: r.blocks,
        },
        FeedEntryView::Upsert(ResourceView::ContentBlock(c)) => ReplicaView {
            notebooks: r.notebooks,
            notes: r.notes,
            blocks: r.blocks.insert(c.id, c),
        },
        FeedEntryView::Tombstone(d) => match d.type_ {
            ResourceKind::Notebook => ReplicaView {
                notebooks: r.notebooks.remove(d.resource_id),
                notes: r.notes,
                blocks: r.blocks,
            },
            ResourceKind::Note => ReplicaView {
                notebooks: r.notebooks,
                notes: r.notes.remove(d.resource_id),
                blocks: r.blocks,
            },
            ResourceKind::ContentBlock => ReplicaView {
                notebooks: r.notebooks,
                notes: r.notes,
                blocks: r.blocks.remove(d.resource_id),
            },
        },
    }
}

/// Applying the same entry twice leaves a replica as applying it once does.
pub proof fn lemma_replay_idempotent(r: ReplicaView, e: FeedEntryView)
    ensures
        apply_entry(apply_entry(r, e), e) == apply_entry(r, e),
{
    let once = apply_entry(r, e);
    let twice = apply_entry(once, e);
    assert(twice.notebooks =~= once.notebooks);
    assert(twice.notes =~= once.notes);
    assert(twice.blocks =~= once.blocks);
}

/// A replica that holds nothing.
pub open spec fn empty_replica() -> ReplicaView {
    ReplicaView { notebooks: Map::empty(), notes: Map::empty(), blocks: Map::empty() }
}

/// `r` after applying every entry of `log` in order.
pub open spec fn replay(r: ReplicaView, log: Seq<FeedEntryView>) -> ReplicaView
    decreases log.len(),
{
    if log.len() == 0 {
        r
    } else {
        apply_entry(replay(r, log.drop_last()), log.last())
    }
}

/// The replica that holds exactly the resources `live`.
pub open spec fn replica_of(live: Seq<ResourceView>) -> ReplicaView
    decreases live.len(),
{
    if live.len() == 0 {
        empty_replica()
    } else {
        apply_entry(replica_of(live.drop_last()), FeedEntryView::Upsert(live.last()))
    }
}

/// Whether `r` holds the resource `id` of `kind`.
pub open spec fn replica_has(r: ReplicaView, kind: ResourceKind, id: i32) -> bool {
    match kind {
        ResourceKind::Notebook => r.notebooks.contains_key(id),
        ResourceKind::Note => r.notes.contains_key(id),
        ResourceKind::ContentBlock => r.blocks.contains_key(id),
    }
}

/// No two of `live` share a kind and an id.
pub open spec fn keys_unique(live: Seq<ResourceView>) -> bool {
    forall|i: int, j: int|
        #![trigger live[i], live[j]]
        0 <= i < live.len() && 0 <= j < live.len() && i != j
            ==> !(live[i].kind() == live[j].kind() && live[i].id() == live[j].id())
}

proof fn lemma_upserts_commute(r: ReplicaView, a: ResourceView, b: ResourceView)
    requires
        !(a.kind() == b.kind() && a.id() == b.id()),
    ensures
        apply_entry(apply_entry(r, FeedEntryView::Upsert(a)), FeedEntryView::Upsert(b))
            == apply_entry(apply_entry(r, FeedEntryView::Upsert(b)), FeedEntryView::Upsert(a)),
{
    let x = apply_entry(apply_entry(r, FeedEntryView::Upsert(a)), FeedEntryView::Upsert(b));
    let y = apply_entry(apply_entry(r, FeedEntryView::Upsert(b)), FeedEntryView::Upsert(a));
    assert(x.notebooks =~= y.notebooks);
    assert(x.notes =~= y.notes);
    assert(x.blocks =~= y.blocks);
}

proof fn lemma_upsert_replaced(r: ReplicaView, a: ResourceView, b: ResourceView)
    requires
        a.kind() == b.kind() && a.id() == b.id(),
    ensures
        apply_entry(apply_entry(r, FeedEntryView::Upsert(a)), FeedEntryView::Upsert(b))
            == apply_entry(r, FeedEntryView::Upsert(b)),
{
    let x = apply_entry(apply_entry(r, FeedEntryView::Upsert(a)), FeedEntryView::Upsert(b));
    let y = apply_entry(r, FeedEntryView::Upsert(b));
    assert(x.notebooks =~= y.notebooks);
    assert(x.notes =~= y.notes);
    assert(x.blocks =~= y.blocks);
}

proof fn lemma_upsert_tombstone_commute(r: ReplicaView, a: ResourceView, d: Deletion)
    requires
        !(a.kind() == d.type_ && a.id() == d.resource_id),
    ensures
        apply_entry(apply_entry(r, FeedEntryView::Upsert(a)), FeedEntryView::Tombstone(d))
            == apply_entry(apply_entry(r, FeedEntryView::Tombstone(d)), FeedEntryView::Upsert(a)),
{
    let x = apply_entry(apply_entry(r, FeedEntryView::Upsert(a)), FeedEntryView::Tombstone(d));
    let y = apply_entry(apply_entry(r, FeedEntryView::Tombstone(d)), FeedEntryView::Upsert(a));
    assert(x.notebooks =~= y.notebooks);
    assert(x.notes =~= y.notes);
    assert(x.blocks =~= y.blocks);
}

proof fn lemma_tombstone_after_upsert(r: ReplicaView, a: ResourceView, d: Deletion)
    requires
        a.kind() == d.type_ && a.id() == d.resource_id,
        !replica_has(r, d.type_, d.resource_id),
    ensures
        apply_entry(apply_entry(r, FeedEntryView::Upsert(a)), FeedEntryView::Tombstone(d)) == r,
{
    let x = apply_entry(apply_entry(r, FeedEntryView::Upsert(a)), FeedEntryView::Tombstone(d));
    assert(x.notebooks =~= r.notebooks);
    assert(x.notes =~= r.notes);
    assert(x.blocks =~= r.blocks);
}

/// The replica of `live` holds a resource exactly where `live` does.
proof fn lemma_replica_of_has(live: Seq<ResourceView>, kind: ResourceKind, id: i32)
    ensures
        replica_has(replica_of(live), kind, id) <==> exists|i: int|
            #![trigger live[i]]
            0 <= i < live.len() && live[i].kind() == kind && live[i].id() == id,
    decreases live.len(),
{
    if live.len() > 0 {
        let prev = live.drop_last();
        lemma_replica_of_has(prev, kind, id);
        if exists|i: int| #![trigger prev[i]] 0 <= i < prev.len() && prev[i].kind() == kind && prev[i].id() == id {
            let i = choose|i: int| #![trigger prev[i]] 0 <= i < prev.len() && prev[i].kind() == kind && prev[i].id() == id;
            assert(live[i] == prev[i]);
        }
        if exists|i: int| #![trigger live[i]] 0 <= i < live.len() && live[i].kind() == kind && live[i].id() == id {
            let i = choose|i: int| #![trigger live[i]] 0 <= i < live.len() && live[i].kind() == kind && live[i].id() == id;
            if i < prev.len() {
                assert(prev[i] == live[i]);
            }
        }
    }
}

/// Putting a new version in place of the resource at `idx` is an upsert of
/// that version.
pub proof fn lemma_replica_of_update(live: Seq<ResourceView>, idx: int, res: ResourceView)
    requires
        keys_unique(live),
        0 <= idx < live.len(),
        live[idx].kind() == res.kind() && live[idx].id() == res.id(),
    ensures
        replica_of(live.update(idx, res)) == apply_entry(replica_of(live), FeedEntryView::Upsert(res)),
    decreases live.len(),
{
    let prev = live.drop_last();
    let next = live.update(idx, res);
    if idx == live.len() - 1 {
        assert(next.drop_last() =~= prev);
        lemma_upsert_replaced(replica_of(prev), live.last(), res);
    } else {
        assert(next.drop_last() =~= prev.update(idx, res));
        assert(keys_unique(prev)) by {
            assert forall|i: int, j: int|
                #![trigger prev[i], prev[j]]
                0 <= i < prev.len() && 0 <= j < prev.len() && i != j
                implies !(prev[i].kind() == prev[j].kind() && prev[i].id() == prev[j].id()) by {
                assert(prev[i] == live[i] && prev[j] == live[j]);
            }
        }
        assert(prev[idx] == live[idx]);
        lemma_replica_of_update(prev, idx, res);
        assert(live[idx] == live[idx] && live[live.len() - 1] == live.last());
        lemma_upserts_commute(replica_of(prev), res, live.last());
    }
}

/// Removing the resource at `idx` is applying its tombstone.
pub proof fn lemma_replica_of_remove(live: Seq<ResourceView>, idx: int, d: Deletion)
    requires
        keys_unique(live),
        0 <= idx < live.len(),
        live[idx].kind() == d.type_ && live[idx].id() == d.resource_id,
    ensures
        replica_of(live.remove(idx)) == apply_entry(replica_of(live), FeedEntryView::Tombstone(d)),
    decreases live.len(),
{
    let prev = live.drop_last();
    let next = live.remove(idx);
    assert(keys_unique(prev)) by {
        assert forall|i: int, j: int|
            #![trigger prev[i], prev[j]]
            0 <= i < prev.len() && 0 <= j < prev.len() && i != j
            implies !(prev[i].kind() == prev[j].kind() && prev[i].id() == prev[j].id()) by {
            assert(prev[i] == live[i] && prev[j] == live[j]);
        }
    }
    if idx == live.len() - 1 {
        assert(next =~= prev);
        lemma_replica_of_has(prev, d.type_, d.resource_id);
        if replica_has(replica_of(prev), d.type_, d.resource_id) {
            let i = choose|i: int| #![trigger prev[i]] 0 <= i < prev.len() && prev[i].kind() == d.type_ && prev[i].id() == d.resource_id;
            assert(live[i] == prev[i] && live[idx] == live.last());
        }
        lemma_tombstone_after_upsert(replica_of(prev), live.last(), d);
    } else {
        assert(next.drop_last() =~= prev.remove(idx));
        assert(next.last() == live.last());
        assert(prev[idx] == live[idx]);
        lemma_replica_of_remove(prev, idx, d);
        assert(live[idx] == live[idx] && live[live.len() - 1] == live.last());
        lemma_upsert_tombstone_commute(replica_of(prev), live.last(), d);
    }
}

/// A client's local copy of the resources.
pub struct Replica {
    notebooks: HashMap<i32, Notebook>,
    notes: HashMap<i32, Note>,
    blocks: HashMap<i32, ContentBlock>,
}

impl View for Replica {
    type V = ReplicaView;

    closed spec fn view(&self) -> ReplicaView {
        ReplicaView {
            notebooks: self.notebooks@,
            notes: self.notes@.map_values(|n: Note| n@),
            blocks: self.blocks@,
        }
    }
}

impl Replica {
    /// A replica that holds nothing.
    pub fn new() -> (r: Replica)
        ensures
            r@.notebooks == Map::<i32, Notebook>::empty(),
            r@.notes == Map::<i32, NoteView>::empty(),
            r@.blocks == Map::<i32, ContentBlock>::empty(),
    {
        let r = Replica { notebooks: HashMap::new(), notes: HashMap::new(), blocks: HashMap::new() };
        assert(r@.notes =~= Map::<i32, NoteView>::empty());
        r
    }

    /// Applies one feed entry.
    pub fn apply(&mut self, e: &FeedEntry)
        ensures
            final(self)@ == apply_entry(old(self)@, e@),
    {
        let ghost before = self@;
        match e {
            FeedEntry::Upsert(Resource::Notebook(b)) => {
                self.notebooks.insert(b.id, b.copy());
            },
            FeedEntry::Upsert(Resource::Note(n)) => {
                let c = n.copy();
                self.notes.insert(n.id, c);
                assert(self@.notes =~= before.notes.insert(n.id, n@));
            },
            FeedEntry::Upsert(Resource::ContentBlock(c)) => {
                self.blocks.insert(c.id, c.copy());
            },
            FeedEntry::Tombstone(d) => match d.type_ {
                ResourceKind::Notebook => {
                    self.notebooks.remove(&d.resource_id);
                },
                ResourceKind::Note => {
                    self.notes.remove(&d.resource_id);
                    assert(self@.notes =~= before.notes.remove(d.resource_id));
                },
                ResourceKind::ContentBlock => {
                    self.blocks.remove(&d.resource_id);
                },
            },
        }
        assert(self@.notebooks =~= apply_entry(before, e@).notebooks);
        assert(self@.blocks =~= apply_entry(before, e@).blocks);
    }

    /// Whether the replica holds the resource `id` of `kind`.
    pub fn contains(&self, kind: ResourceKind, id: i32) -> (r: bool)
        ensures
            r == self.contains_spec(kind, id),
    {
        match kind {
            ResourceKind::Notebook => self.notebooks.contains_key(&id),
            ResourceKind::Note => self.notes.contains_key(&id),
            ResourceKind::ContentBlock => self.blocks.contains_key(&id),
        }
    }

    /// The version of the resource `id` of `kind` that the replica holds.
    pub fn get(&self, kind: ResourceKind, id: i32) -> (r: Option<Resource>)
        ensures
            r is Some == self.contains_spec(kind, id),
            r matches Some(res) ==> res@.kind() == kind && res@ == match kind {
                ResourceKind::Notebook => ResourceView::Notebook(self@.notebooks[id]),
                ResourceKind::Note => ResourceView::Note(self@.notes[id]),
                ResourceKind::ContentBlock => ResourceView::ContentBlock(self@.blocks[id]),
            },
    {
        match kind {
            ResourceKind::Notebook => match self.notebooks.get(&id) {
                Some(b) => Some(Resource::Notebook(b.copy())),
                None => None,
            },
            ResourceKind::Note => match self.notes.get(&id) {
                Some(n) => Some(Resource::Note(n.copy())),
                None => None,
            },
            ResourceKind::ContentBlock => match self.blocks.get(&id) {
                Some(c) => Some(Resource::ContentBlock(c.copy())),
                None => None,
            },
        }
    }

    /// Whether the replica holds the resource `id` of `kind`.
    pub open spec fn contains_spec(&self, kind: ResourceKind, id: i32) -> bool {
        match kind {
            ResourceKind::Notebook => self@.notebooks.contains_key(id),
            ResourceKind::Note => self@.notes.contains_key(id),
            ResourceKind::ContentBlock => self@.blocks.contains_key(id),
        }
    }
}

} // verus!
