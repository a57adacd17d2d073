//! The sync store: the mutation log over every resource kind, the live
//! resources, the tombstones, and the change feed read from the log.

use vstd::prelude::*;
use crate::clock::VersionClock;
use crate::data::{
    Content, ContentBlock, ContentBlockUpdate, Deletion, NewContentBlock, NewNote, NewNotebook,
    Note, NoteUpdate, NoteView, Notebook, NotebookUpdate, ResourceKind, tags_view,
};
use crate::error::SyncError;
use crate::replica::{
    empty_replica, keys_unique, lemma_replica_of_remove, lemma_replica_of_update, replay, replica_of,
};
use crate::feed::{
    ChangePage, FeedEntry, FeedEntryView, Resource, ResourceView, entries_view,
    page_of, read_page, resume_point, strictly_increasing,
};

verus! {

/// Holds every resource kind's live records, a log of every mutation in the
/// order of its sync version, and the clock that issues those versions.
///
/// Every mutation either fails and changes nothing, or issues exactly one
/// version and appends exactly one entry with that version to the log.
#[derive(Debug)]
pub struct SyncStore {
    clock: VersionClock,
    log: Vec<FeedEntry>,
    live: Vec<Resource>,
    next_notebook_id: i32,
    next_note_id: i32,
    next_block_id: i32,
    next_deletion_id: i32,
    check_references: bool,
}

/// Whether an entry is a tombstone for the resource `id` of `kind`.
pub open spec fn tombstone_for(e: FeedEntryView, kind: ResourceKind, id: i32) -> bool {
    e is Tombstone && e.kind() == kind && e.resource_id() == id
}

/// Whether an entry is a new version of the resource `id` of `kind`.
pub open spec fn upsert_for(e: FeedEntryView, kind: ResourceKind, id: i32) -> bool {
    e is Upsert && e.kind() == kind && e.resource_id() == id
}

/// What a code block must name: its language.
pub open spec fn content_valid(c: Content) -> bool {
    match c {
        Content::Text { .. } => true,
        Content::Code { language, .. } => language@.len() > 0,
    }
}

/// Whether `parent`, where there is one, is a live resource of `store`.
pub open spec fn parent_ok(store: &SyncStore, parent: Option<(ResourceKind, i32)>) -> bool {
    match parent {
        Some((k, id)) => store.is_live(k, id),
        None => true,
    }
}

/// Whether `c` is a valid content body.
pub fn content_is_valid(c: &Content) -> (r: bool)
    ensures
        r == content_valid(*c),
{
    match c {
        Content::Text { .. } => true,
        Content::Code { language, .. } => !language.as_str().is_empty(),
    }
}

impl SyncStore {
    /// Every mutation so far, in the order of its sync version.
    pub closed spec fn log(&self) -> Seq<FeedEntryView> {
        entries_view(self.log@)
    }

    /// The current version of every live resource.
    pub closed spec fn live(&self) -> Seq<ResourceView> {
        self.live@.map_values(|r: Resource| r@)
    }

    /// The last sync version that the store's clock issued.
    pub closed spec fn clock_last(&self) -> u64 {
        self.clock.last_issued()
    }

    /// The id that the next resource of `kind` will get.
    pub closed spec fn next_id(&self, kind: ResourceKind) -> i32 {
        match kind {
            ResourceKind::Notebook => self.next_notebook_id,
            ResourceKind::Note => self.next_note_id,
            ResourceKind::ContentBlock => self.next_block_id,
        }
    }

    /// The id that the next tombstone record will get.
    pub closed spec fn next_deletion_id(&self) -> i32 {
        self.next_deletion_id
    }

    /// Whether creating a note or block checks that its parent is live.
    pub closed spec fn checks_references(&self) -> bool {
        self.check_references
    }

    /// Whether the resource `id` of `kind` is live.
    pub open spec fn is_live(&self, kind: ResourceKind, id: i32) -> bool {
        exists|i: int| #![trigger self.live()[i]] 0 <= i < self.live().len() && self.live()[i].kind() == kind && self.live()[i].id() == id
    }

    /// Whether the log holds a tombstone for the resource `id` of `kind`.
    pub open spec fn is_tombstoned(&self, kind: ResourceKind, id: i32) -> bool {
        exists|i: int| 0 <= i < self.log().len() && #[trigger] tombstone_for(self.log()[i], kind, id)
    }

    /// The store's invariant.
    pub open spec fn wf(&self) -> bool {
        &&& strictly_increasing(self.log())
        &&& forall|i: int|
            0 <= i < self.log().len() ==> 0 < #[trigger] self.log()[i].stamp() <= self.clock_last()
        &&& keys_unique(self.live())
        &&& replay(empty_replica(), self.log()) == replica_of(self.live())
        &&& forall|i: int|
            0 <= i < self.live().len() ==> #[trigger] self.live()[i].id() < self.next_id(
                self.live()[i].kind(),
            )
        &&& forall|i: int|
            0 <= i < self.log().len() ==> #[trigger] self.log()[i].resource_id() < self.next_id(
                self.log()[i].kind(),
            )
        &&& forall|i: int, k: ResourceKind, id: i32|
            0 <= i < self.log().len() && #[trigger] tombstone_for(self.log()[i], k, id)
                ==> !self.is_live(k, id)
        &&& forall|i: int, j: int, k: ResourceKind, id: i32|
            0 <= i < j < self.log().len() && #[trigger] tombstone_for(self.log()[i], k, id)
                ==> !#[trigger] upsert_for(self.log()[j], k, id)
        &&& 1 <= self.next_id(ResourceKind::Notebook)
        &&& 1 <= self.next_id(ResourceKind::Note)
        &&& 1 <= self.next_id(ResourceKind::ContentBlock)
        &&& 1 <= self.next_deletion_id()
    }

    /// An empty store whose first version is 1. With `check_references` a
    /// note or block can be created only in a live parent.
    pub fn new(check_references: bool) -> (r: SyncStore)
        ensures
            r.wf(),
            r.log() == Seq::<FeedEntryView>::empty(),
            r.live() == Seq::<ResourceView>::empty(),
            r.clock_last() == 0,
            r.checks_references() == check_references,
            forall|k: ResourceKind| r.next_id(k) == 1,
            r.next_deletion_id() == 1,
    {
        SyncStore::with_clock(VersionClock::new(), check_references)
    }

    /// An empty store that takes its versions from `clock`.
    pub fn with_clock(clock: VersionClock, check_references: bool) -> (r: SyncStore)
        ensures
            r.wf(),
            r.log() == Seq::<FeedEntryView>::empty(),
            r.live() == Seq::<ResourceView>::empty(),
            r.clock_last() == clock.last_issued(),
            r.checks_references() == check_references,
            forall|k: ResourceKind| r.next_id(k) == 1,
            r.next_deletion_id() == 1,
    {
        let r = SyncStore {
            clock,
            log: Vec::new(),
            live: Vec::new(),
            next_notebook_id: 1,
            next_note_id: 1,
            next_block_id: 1,
            next_deletion_id: 1,
            check_references,
        };
        assert(r.log() =~= Seq::<FeedEntryView>::empty());
        assert(r.live() =~= Seq::<ResourceView>::empty());
        r
    }

    /// Where in `live()` the resource `id` of `kind` stands, if it is live.
    pub open spec fn live_index(&self, kind: ResourceKind, id: i32) -> int {
        choose|i: int| #![trigger self.live()[i]] 0 <= i < self.live().len() && self.live()[i].kind() == kind && self.live()[i].id() == id
    }

    /// The current version of the live resource `id` of `kind`.
    pub open spec fn live_version(&self, kind: ResourceKind, id: i32) -> ResourceView {
        self.live()[self.live_index(kind, id)]
    }

    /// Why a create of `kind` would be refused, if it would: a payload that
    /// is not `valid`, a parent that is not live where references are
    /// checked, no id left, no version left; in that order.
    pub open spec fn create_refusal(&self, kind: ResourceKind, valid: bool, parent_live: bool) -> Option<SyncError> {
        if !valid {
            Some(SyncError::ValidationError)
        } else if self.checks_references() && !parent_live {
            Some(SyncError::ForeignKeyUnresolved)
        } else if self.next_id(kind) == i32::MAX {
            Some(SyncError::IdsExhausted)
        } else if self.clock_last() == u64::MAX {
            Some(SyncError::ClockUnavailable)
        } else {
            None
        }
    }

    /// Why an update or delete of the resource `id` of `kind` would be
    /// refused, if it would.
    pub open spec fn change_refusal(&self, kind: ResourceKind, id: i32, deleting: bool) -> Option<SyncError> {
        if !self.is_live(kind, id) {
            Some(SyncError::NotFound)
        } else if deleting && self.next_deletion_id() == i32::MAX {
            Some(SyncError::IdsExhausted)
        } else if self.clock_last() == u64::MAX {
            Some(SyncError::ClockUnavailable)
        } else {
            None
        }
    }

    /// The store's settings are those of `before`.
    pub open spec fn keeps_settings(&self, before: &SyncStore) -> bool {
        self.checks_references() == before.checks_references()
    }

    /// `self` is `before` with `res` created: its new version logged and live.
    pub open spec fn records_create(&self, before: &SyncStore, res: ResourceView) -> bool {
        &&& self.log() == before.log().push(FeedEntryView::Upsert(res))
        &&& self.live() == before.live().push(res)
        &&& self.clock_last() == res.stamp()
        &&& self.next_id(res.kind()) == before.next_id(res.kind()) + 1
        &&& forall|k: ResourceKind| k != res.kind() ==> self.next_id(k) == before.next_id(k)
        &&& self.next_deletion_id() == before.next_deletion_id()
        &&& self.keeps_settings(before)
    }

    /// `self` is `before` with the live resource of `res`'s kind and id
    /// replaced by `res`, and `res` logged.
    pub open spec fn records_update(&self, before: &SyncStore, res: ResourceView) -> bool {
        &&& self.log() == before.log().push(FeedEntryView::Upsert(res))
        &&& self.live() == before.live().update(before.live_index(res.kind(), res.id()), res)
        &&& self.clock_last() == res.stamp()
        &&& forall|k: ResourceKind| self.next_id(k) == before.next_id(k)
        &&& self.next_deletion_id() == before.next_deletion_id()
        &&& self.keeps_settings(before)
    }

    /// `self` is `before` with the resource that `d` names no longer live,
    /// and `d` logged.
    pub open spec fn records_delete(&self, before: &SyncStore, d: Deletion) -> bool {
        &&& self.log() == before.log().push(FeedEntryView::Tombstone(d))
        &&& self.live() == before.live().remove(before.live_index(d.type_, d.resource_id))
        &&& self.clock_last() == d.system_updated_at
        &&& forall|k: ResourceKind| self.next_id(k) == before.next_id(k)
        &&& self.next_deletion_id() == before.next_deletion_id() + 1
        &&& self.keeps_settings(before)
    }

    /// Finds the live resource `id` of `kind`.
    fn find_live(&self, kind: ResourceKind, id: i32) -> (r: Option<usize>)
        requires
            self.wf(),
        ensures
            r is None <==> !self.is_live(kind, id),
            r matches Some(i) ==> i == self.live_index(kind, id) && i < self.live().len(),
    {
        let mut i: usize = 0;
        while i < self.live.len()
            invariant
                self.wf(),
                i <= self.live@.len(),
                forall|j: int| #![trigger self.live()[j]] 0 <= j < i ==> !(self.live()[j].kind() == kind && self.live()[j].id() == id),
            decreases self.live@.len() - i,
        {
            let k = self.live[i].kind();
            if k == kind && self.live[i].id() == id {
                assert(self.live()[i as int] == self.live@[i as int]@);
                assert(self.is_live(kind, id));
                let ghost c = self.live_index(kind, id);
                assert(c == i) by {
                    if c != i {
                        assert(self.live()[c] == self.live()[c]);
                        assert(self.live()[i as int] == self.live()[i as int]);
                    }
                }
                return Some(i);
            }
            assert(self.live()[i as int] == self.live@[i as int]@);
            i = i + 1;
        }
        None
    }

    /// Issues the next sync version for a mutation.
    fn issue(&mut self) -> (r: Result<u64, SyncError>)
        requires
            old(self).wf(),
        ensures
            final(self).wf(),
            old(self).clock_last() < u64::MAX <==> r is Ok,
            r matches Err(e) ==> e == SyncError::ClockUnavailable && *final(self) == *old(self),
            r matches Ok(v) ==> {
                &&& v == old(self).clock_last() + 1
                &&& final(self).clock_last() == v
                &&& final(self).log() == old(self).log()
                &&& final(self).live() == old(self).live()
                &&& forall|k: ResourceKind| final(self).next_id(k) == old(self).next_id(k)
                &&& final(self).next_deletion_id() == old(self).next_deletion_id()
                &&& final(self).keeps_settings(old(self))
                &&& forall|i: int| 0 <= i < final(self).log().len() ==> #[trigger] final(self).log()[i].stamp() < v
            },
    {
        self.clock.next()
    }

    /// Adds the freshly-stamped `res` of a create to the live records and logs
    /// it.
    fn append_created(&mut self, res: Resource)
        requires
            old(self).wf(),
            res@.id() == old(self).next_id(res@.kind()),
            old(self).next_id(res@.kind()) < i32::MAX,
            res@.stamp() == old(self).clock_last(),
            0 < res@.stamp(),
            forall|i: int| 0 <= i < old(self).log().len() ==> #[trigger] old(self).log()[i].stamp() < res@.stamp(),
        ensures
            final(self).wf(),
            final(self).records_create(old(self), res@),
    {
        let ghost before = *self;
        let ghost rv = res@;
        let kind = res.kind();
        self.live.push(res.copy());
        self.log.push(FeedEntry::Upsert(res));
        match kind {
            ResourceKind::Notebook => self.next_notebook_id = self.next_notebook_id + 1,
            ResourceKind::Note => self.next_note_id = self.next_note_id + 1,
            ResourceKind::ContentBlock => self.next_block_id = self.next_block_id + 1,
        }
        assert(self.log() =~= before.log().push(FeedEntryView::Upsert(rv)));
        assert(self.live() =~= before.live().push(rv));
        assert(self.log().drop_last() =~= before.log());
        assert(self.live().drop_last() =~= before.live());
        assert forall|i: int, k: ResourceKind, id: i32|
            0 <= i < self.log().len() && #[trigger] tombstone_for(self.log()[i], k, id)
            implies !self.is_live(k, id) by {
            assert(i < before.log().len());
            assert(!before.is_live(k, id));
            assert(id < before.next_id(k));
            if self.is_live(k, id) {
                let j = choose|j: int| #![trigger self.live()[j]] 0 <= j < self.live().len() && self.live()[j].kind() == k && self.live()[j].id() == id;
                assert(j < before.live().len() ==> before.live()[j] == self.live()[j]);
            }
        }
        assert forall|i: int, j: int, k: ResourceKind, id: i32|
            0 <= i < j < self.log().len() && #[trigger] tombstone_for(self.log()[i], k, id)
            implies !#[trigger] upsert_for(self.log()[j], k, id) by {
            assert(self.log()[i] == before.log()[i]);
            assert(id < before.next_id(k));
            if j < before.log().len() {
                assert(self.log()[j] == before.log()[j]);
            }
        }
    }

    /// Checks the refusals of a create that do not depend on its payload.
    fn check_create(&self, kind: ResourceKind, parent: Option<(ResourceKind, i32)>) -> (r: Result<(), SyncError>)
        requires
            self.wf(),
        ensures
            r is Err <==> self.create_refusal(kind, true, parent_ok(self, parent)) is Some,
            r matches Err(e) ==> self.create_refusal(kind, true, parent_ok(self, parent)) == Some(e),
    {
        if self.check_references {
            if let Some((pk, pid)) = parent {
                if self.find_live(pk, pid).is_none() {
                    return Err(SyncError::ForeignKeyUnresolved);
                }
            }
        }
        if self.next_id_of(kind) == i32::MAX {
            return Err(SyncError::IdsExhausted);
        }
        if self.clock.last() == u64::MAX {
            return Err(SyncError::ClockUnavailable);
        }
        Ok(())
    }

    fn next_id_of(&self, kind: ResourceKind) -> (r: i32)
        ensures
            r == self.next_id(kind),
    {
        match kind {
            ResourceKind::Notebook => self.next_notebook_id,
            ResourceKind::Note => self.next_note_id,
            ResourceKind::ContentBlock => self.next_block_id,
        }
    }

    /// Creates a notebook from `payload`. Its name must not be empty.
    pub fn create_notebook(&mut self, payload: NewNotebook) -> (r: Result<Notebook, SyncError>)
        requires
            old(self).wf(),
        ensures
            final(self).wf(),
            r is Err <==> old(self).create_refusal(ResourceKind::Notebook, payload.name@.len() > 0, true) is Some,
            r matches Err(e) ==> old(self).create_refusal(ResourceKind::Notebook, payload.name@.len() > 0, true) == Some(e)
                && *final(self) == *old(self),
            r matches Ok(b) ==> b == (Notebook {
                id: old(self).next_id(ResourceKind::Notebook),
                name: payload.name,
                created_at: payload.created_at,
                system_updated_at: (old(self).clock_last() + 1) as u64,
            }) && final(self).records_create(old(self), ResourceView::Notebook(b)),
    {
        if payload.name.as_str().is_empty() {
            return Err(SyncError::ValidationError);
        }
        self.check_create(ResourceKind::Notebook, None)?;
        let stamp = self.issue()?;
        let b = Notebook {
            id: self.next_notebook_id,
            name: payload.name,
            created_at: payload.created_at,
            system_updated_at: stamp,
        };
        self.append_created(Resource::Notebook(b.copy()));
        Ok(b)
    }

    /// Creates a note from `payload`. Its title must not be empty; where
    /// references are checked, its notebook must be live.
    pub fn create_note(&mut self, payload: NewNote) -> (r: Result<Note, SyncError>)
        requires
            old(self).wf(),
        ensures
            final(self).wf(),
            r is Err <==> old(self).create_refusal(
                ResourceKind::Note,
                payload.title@.len() > 0,
                old(self).is_live(ResourceKind::Notebook, payload.notebook_id),
            ) is Some,
            r matches Err(e) ==> old(self).create_refusal(
                ResourceKind::Note,
                payload.title@.len() > 0,
                old(self).is_live(ResourceKind::Notebook, payload.notebook_id),
            ) == Some(e) && *final(self) == *old(self),
            r matches Ok(n) ==> n@ == (NoteView {
                id: old(self).next_id(ResourceKind::Note),
                title: payload.title,
                tags: tags_view(payload.tags@),
                notebook_id: payload.notebook_id,
                created_at: payload.created_at,
                updated_at: payload.created_at,
                system_updated_at: (old(self).clock_last() + 1) as u64,
            }) && final(self).records_create(old(self), ResourceView::Note(n@)),
    {
        if payload.title.as_str().is_empty() {
            return Err(SyncError::ValidationError);
        }
        self.check_create(ResourceKind::Note, Some((ResourceKind::Notebook, payload.notebook_id)))?;
        let stamp = self.issue()?;
        let n = Note {
            id: self.next_note_id,
            title: payload.title,
            tags: payload.tags,
            notebook_id: payload.notebook_id,
            created_at: payload.created_at,
            updated_at: payload.created_at,
            system_updated_at: stamp,
        };
        self.append_created(Resource::Note(n.copy()));
        Ok(n)
    }

    /// Creates a content block from `payload`. A code block must name its
    /// language; where references are checked, its note must be live.
    pub fn create_content_block(&mut self, payload: NewContentBlock) -> (r: Result<ContentBlock, SyncError>)
        requires
            old(self).wf(),
        ensures
            final(self).wf(),
            r is Err <==> old(self).create_refusal(
                ResourceKind::ContentBlock,
                content_valid(payload.content),
                old(self).is_live(ResourceKind::Note, payload.note_id),
            ) is Some,
            r matches Err(e) ==> old(self).create_refusal(
                ResourceKind::ContentBlock,
                content_valid(payload.content),
                old(self).is_live(ResourceKind::Note, payload.note_id),
            ) == Some(e) && *final(self) == *old(self),
            r matches Ok(c) ==> c == (ContentBlock {
                id: old(self).next_id(ResourceKind::ContentBlock),
                content: payload.content,
                system_updated_at: (old(self).clock_last() + 1) as u64,
                created_at: payload.created_at,
                updated_at: payload.created_at,
                note_id: payload.note_id,
            }) && final(self).records_create(old(self), ResourceView::ContentBlock(c)),
    {
        if !content_is_valid(&payload.content) {
            return Err(SyncError::ValidationError);
        }
        self.check_create(ResourceKind::ContentBlock, Some((ResourceKind::Note, payload.note_id)))?;
        let stamp = self.issue()?;
        let c = ContentBlock {
            id: self.next_block_id,
            content: payload.content,
            system_updated_at: stamp,
            created_at: payload.created_at,
            updated_at: payload.created_at,
            note_id: payload.note_id,
        };
        self.append_created(Resource::ContentBlock(c.copy()));
        Ok(c)
    }

    /// Replaces the live record at `idx` with its freshly-stamped new version
    /// `res`, and logs it.
    fn append_updated(&mut self, idx: usize, res: Resource)
        requires
            old(self).wf(),
            idx < old(self).live().len(),
            idx == old(self).live_index(res@.kind(), res@.id()),
            old(self).live()[idx as int].kind() == res@.kind(),
            old(self).live()[idx as int].id() == res@.id(),
            res@.stamp() == old(self).clock_last(),
            0 < res@.stamp(),
            forall|i: int| 0 <= i < old(self).log().len() ==> #[trigger] old(self).log()[i].stamp() < res@.stamp(),
        ensures
            final(self).wf(),
            final(self).records_update(old(self), res@),
    {
        let ghost before = *self;
        let ghost rv = res@;
        self.live.set(idx, res.copy());
        self.log.push(FeedEntry::Upsert(res));
        assert(self.log() =~= before.log().push(FeedEntryView::Upsert(rv)));
        assert(self.live() =~= before.live().update(idx as int, rv));
        assert(self.log().drop_last() =~= before.log());
        proof { lemma_replica_of_update(before.live(), idx as int, rv); }
        assert(before.is_live(rv.kind(), rv.id()));
        assert forall|i: int, k: ResourceKind, id: i32|
            0 <= i < self.log().len() && #[trigger] tombstone_for(self.log()[i], k, id)
            implies !self.is_live(k, id) by {
            assert(i < before.log().len());
            assert(!before.is_live(k, id));
            if self.is_live(k, id) {
                let j = choose|j: int| #![trigger self.live()[j]] 0 <= j < self.live().len() && self.live()[j].kind() == k && self.live()[j].id() == id;
                if j != idx {
                    assert(before.live()[j] == self.live()[j]);
                }
            }
        }
        assert forall|i: int, j: int, k: ResourceKind, id: i32|
            0 <= i < j < self.log().len() && #[trigger] tombstone_for(self.log()[i], k, id)
            implies !#[trigger] upsert_for(self.log()[j], k, id) by {
            assert(self.log()[i] == before.log()[i]);
            if j < before.log().len() {
                assert(self.log()[j] == before.log()[j]);
            }
        }
        assert forall|i: int, j: int|
            #![trigger self.live()[i], self.live()[j]]
            0 <= i < self.live().len() && 0 <= j < self.live().len() && i != j
            implies !(self.live()[i].kind() == self.live()[j].kind() && self.live()[i].id() == self.live()[j].id()) by {
            assert(before.live()[i] == before.live()[i]);
            assert(before.live()[j] == before.live()[j]);
        }
    }

    /// Removes the live record at `idx`, whose resource `d` retires, and logs
    /// the tombstone `d`.
    fn append_deleted(&mut self, idx: usize, d: Deletion)
        requires
            old(self).wf(),
            idx < old(self).live().len(),
            idx == old(self).live_index(d.type_, d.resource_id),
            old(self).live()[idx as int].kind() == d.type_,
            old(self).live()[idx as int].id() == d.resource_id,
            d.id == old(self).next_deletion_id(),
            old(self).next_deletion_id() < i32::MAX,
            d.system_updated_at == old(self).clock_last(),
            0 < d.system_updated_at,
            forall|i: int| 0 <= i < old(self).log().len() ==> #[trigger] old(self).log()[i].stamp() < d.system_updated_at,
        ensures
            final(self).wf(),
            final(self).records_delete(old(self), d),
    {
        let ghost before = *self;
        let _ = self.live.remove(idx);
        self.log.push(FeedEntry::Tombstone(d));
        self.next_deletion_id = self.next_deletion_id + 1;
        assert(self.log() =~= before.log().push(FeedEntryView::Tombstone(d)));
        assert(self.live() =~= before.live().remove(idx as int));
        assert(self.log().drop_last() =~= before.log());
        proof { lemma_replica_of_remove(before.live(), idx as int, d); }
        assert forall|i: int| 0 <= i < self.live().len() implies
            #[trigger] self.live()[i] == before.live()[if i < idx { i } else { i + 1 }] by {}
        assert forall|i: int, k: ResourceKind, id: i32|
            0 <= i < self.log().len() && #[trigger] tombstone_for(self.log()[i], k, id)
            implies !self.is_live(k, id) by {
            if self.is_live(k, id) {
                let j = choose|j: int| #![trigger self.live()[j]] 0 <= j < self.live().len() && self.live()[j].kind() == k && self.live()[j].id() == id;
                let oj = if j < idx { j } else { j + 1 };
                assert(before.live()[oj] == self.live()[j]);
                if i < before.log().len() {
                    assert(before.is_live(k, id));
                } else {
                    assert(before.live()[idx as int] == before.live()[idx as int]);
                }
            }
        }
        assert forall|i: int, j: int, k: ResourceKind, id: i32|
            0 <= i < j < self.log().len() && #[trigger] tombstone_for(self.log()[i], k, id)
            implies !#[trigger] upsert_for(self.log()[j], k, id) by {
            assert(self.log()[i] == before.log()[i]);
            if j < before.log().len() {
                assert(self.log()[j] == before.log()[j]);
            }
        }
        assert forall|i: int, j: int|
            #![trigger self.live()[i], self.live()[j]]
            0 <= i < self.live().len() && 0 <= j < self.live().len() && i != j
            implies !(self.live()[i].kind() == self.live()[j].kind() && self.live()[i].id() == self.live()[j].id()) by {
            let oi = if i < idx { i } else { i + 1 };
            let oj = if j < idx { j } else { j + 1 };
            assert(before.live()[oi] == self.live()[i]);
            assert(before.live()[oj] == self.live()[j]);
        }
        assert forall|i: int| 0 <= i < self.live().len() implies
            #[trigger] self.live()[i].id() < self.next_id(self.live()[i].kind()) by {
            let oi = if i < idx { i } else { i + 1 };
            assert(before.live()[oi] == self.live()[i]);
        }
    }

    /// Renames the live notebook `id`, giving it a new version.
    pub fn update_notebook(&mut self, id: i32, payload: NotebookUpdate) -> (r: Result<Notebook, SyncError>)
        requires
            old(self).wf(),
        ensures
            final(self).wf(),
            r is Err <==> old(self).change_refusal(ResourceKind::Notebook, id, false) is Some,
            r matches Err(e) ==> old(self).change_refusal(ResourceKind::Notebook, id, false) == Some(e)
                && *final(self) == *old(self),
            r matches Ok(b) ==> old(self).live_version(ResourceKind::Notebook, id) matches ResourceView::Notebook(prev)
                && b == (Notebook {
                id,
                name: payload.name,
                created_at: prev.created_at,
                system_updated_at: (old(self).clock_last() + 1) as u64,
            }) && final(self).records_update(old(self), ResourceView::Notebook(b)),
    {
        let idx = match self.find_live(ResourceKind::Notebook, id) {
            Some(i) => i,
            None => return Err(SyncError::NotFound),
        };
        assert(self.live()[idx as int] == self.live@[idx as int]@);
        let created_at = match &self.live[idx] {
            Resource::Notebook(prev) => prev.created_at,
            _ => return Err(SyncError::NotFound),
        };
        let stamp = self.issue()?;
        let b = Notebook { id, name: payload.name, created_at, system_updated_at: stamp };
        self.append_updated(idx, Resource::Notebook(b.copy()));
        Ok(b)
    }

    /// Retitles and retags the live note `id`, giving it a new version; its
    /// notebook stays.
    pub fn update_note(&mut self, id: i32, payload: NoteUpdate) -> (r: Result<Note, SyncError>)
        requires
            old(self).wf(),
        ensures
            final(self).wf(),
            r is Err <==> old(self).change_refusal(ResourceKind::Note, id, false) is Some,
            r matches Err(e) ==> old(self).change_refusal(ResourceKind::Note, id, false) == Some(e)
                && *final(self) == *old(self),
            r matches Ok(n) ==> old(self).live_version(ResourceKind::Note, id) matches ResourceView::Note(prev)
                && n@ == (NoteView {
                id,
                title: payload.title,
                tags: tags_view(payload.tags@),
                notebook_id: prev.notebook_id,
                created_at: prev.created_at,
                updated_at: payload.updated_at,
                system_updated_at: (old(self).clock_last() + 1) as u64,
            }) && final(self).records_update(old(self), ResourceView::Note(n@)),
    {
        let idx = match self.find_live(ResourceKind::Note, id) {
            Some(i) => i,
            None => return Err(SyncError::NotFound),
        };
        assert(self.live()[idx as int] == self.live@[idx as int]@);
        let (notebook_id, created_at) = match &self.live[idx] {
            Resource::Note(prev) => (prev.notebook_id, prev.created_at),
            _ => return Err(SyncError::NotFound),
        };
        let stamp = self.issue()?;
        let n = Note {
            id,
            title: payload.title,
            tags: payload.tags,
            notebook_id,
            created_at,
            updated_at: payload.updated_at,
            system_updated_at: stamp,
        };
        self.append_updated(idx, Resource::Note(n.copy()));
        Ok(n)
    }

    /// Replaces the content of the live block `id`, giving it a new version;
    /// its note stays.
    pub fn update_content_block(&mut self, id: i32, payload: ContentBlockUpdate) -> (r: Result<ContentBlock, SyncError>)
        requires
            old(self).wf(),
        ensures
            final(self).wf(),
            r is Err <==> old(self).change_refusal(ResourceKind::ContentBlock, id, false) is Some,
            r matches Err(e) ==> old(self).change_refusal(ResourceKind::ContentBlock, id, false) == Some(e)
                && *final(self) == *old(self),
            r matches Ok(c) ==> old(self).live_version(ResourceKind::ContentBlock, id) matches ResourceView::ContentBlock(prev)
                && c == (ContentBlock {
                id,
                content: payload.content,
                system_updated_at: (old(self).clock_last() + 1) as u64,
                created_at: prev.created_at,
                updated_at: payload.updated_at,
                note_id: prev.note_id,
            }) && final(self).records_update(old(self), ResourceView::ContentBlock(c)),
    {
        let idx = match self.find_live(ResourceKind::ContentBlock, id) {
            Some(i) => i,
            None => return Err(SyncError::NotFound),
        };
        assert(self.live()[idx as int] == self.live@[idx as int]@);
        let (note_id, created_at) = match &self.live[idx] {
            Resource::ContentBlock(prev) => (prev.note_id, prev.created_at),
            _ => return Err(SyncError::NotFound),
        };
        let stamp = self.issue()?;
        let c = ContentBlock {
            id,
            content: payload.content,
            system_updated_at: stamp,
            created_at,
            updated_at: payload.updated_at,
            note_id,
        };
        self.append_updated(idx, Resource::ContentBlock(c.copy()));
        Ok(c)
    }

    /// Deletes the live resource `id` of `kind`: it stops being live and a
    /// tombstone for it is logged. Children of a deleted notebook or note are
    /// left as they are.
    pub fn delete(&mut self, kind: ResourceKind, id: i32) -> (r: Result<Deletion, SyncError>)
        requires
            old(self).wf(),
        ensures
            final(self).wf(),
            r is Err <==> old(self).change_refusal(kind, id, true) is Some,
            r matches Err(e) ==> old(self).change_refusal(kind, id, true) == Some(e)
                && *final(self) == *old(self),
            r matches Ok(d) ==> d == (Deletion {
                id: old(self).next_deletion_id(),
                type_: kind,
                resource_id: id,
                system_updated_at: (old(self).clock_last() + 1) as u64,
            }) && final(self).records_delete(old(self), d),
    {
        let idx = match self.find_live(kind, id) {
            Some(i) => i,
            None => return Err(SyncError::NotFound),
        };
        if self.next_deletion_id == i32::MAX {
            return Err(SyncError::IdsExhausted);
        }
        let stamp = self.issue()?;
        let d = Deletion { id: self.next_deletion_id, type_: kind, resource_id: id, system_updated_at: stamp };
        self.append_deleted(idx, d);
        Ok(d)
    }

    /// One page of the change feed: the earliest `limit` entries with a
    /// version above `watermark`, in version order, and the watermark to ask
    /// from next (the last entry's version, or `watermark` where none came).
    pub fn changes_since(&self, watermark: u64, limit: usize) -> (r: ChangePage)
        requires
            self.wf(),
        ensures
            entries_view(r.entries@) == page_of(self.log(), watermark, limit as nat),
            r.next_watermark == resume_point(entries_view(r.entries@), watermark),
    {
        read_page(&self.log, watermark, limit)
    }

    /// The current version of the resource `id` of `kind`, where it is live.
    pub fn current(&self, kind: ResourceKind, id: i32) -> (r: Option<Resource>)
        requires
            self.wf(),
        ensures
            r is Some <==> self.is_live(kind, id),
            r matches Some(res) ==> res@ == self.live_version(kind, id),
    {
        match self.find_live(kind, id) {
            Some(i) => {
                assert(self.live()[i as int] == self.live@[i as int]@);
                Some(self.live[i].copy())
            },
            None => None,
        }
    }

    /// The last sync version issued.
    pub fn last_version(&self) -> (r: u64)
        ensures
            r == self.clock_last(),
    {
        self.clock.last()
    }

    /// How many entries the log holds: one per mutation that succeeded.
    pub fn log_len(&self) -> (r: usize)
        ensures
            r == self.log().len(),
    {
        self.log.len()
    }
}

} // verus!
