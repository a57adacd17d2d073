use notex_server::clock::VersionClock;
use notex_server::data::{
    Content, ContentBlockUpdate, NewContentBlock, NewNote, NewNotebook, NoteUpdate,
    NotebookUpdate, ResourceKind, Timestamp, TypeIdentifiable,
};
use notex_server::error::SyncError;
use notex_server::feed::{FeedEntry, Resource};
use notex_server::replica::Replica;
use notex_server::store::SyncStore;

fn at(millis: i64) -> Timestamp {
    Timestamp { millis }
}

fn new_notebook(name: &str) -> NewNotebook {
    NewNotebook { name: name.to_string(), created_at: at(1_000) }
}

fn new_note(title: &str, notebook_id: i32) -> NewNote {
    NewNote {
        title: title.to_string(),
        tags: vec!["a".to_string(), "a".to_string()],
        created_at: at(2_000),
        notebook_id,
    }
}

fn text_block(text: &str, note_id: i32) -> NewContentBlock {
    NewContentBlock { content: Content::Text { text: text.to_string() }, created_at: at(3_000), note_id }
}

fn stamps(entries: &[FeedEntry]) -> Vec<u64> {
    entries.iter().map(|e| e.stamp()).collect()
}

/// Builds the worked example: a notebook, a note in it, a block in the note,
/// then the note deleted.
fn example_store() -> (SyncStore, i32) {
    let mut s = SyncStore::new(true);
    let b = s.create_notebook(new_notebook("Work")).unwrap();
    assert_eq!(b.system_updated_at, 1);
    let n = s.create_note(new_note("Plan", b.id)).unwrap();
    assert_eq!(n.system_updated_at, 2);
    let c = s.create_content_block(text_block("hi", n.id)).unwrap();
    assert_eq!(c.system_updated_at, 3);
    let d = s.delete(ResourceKind::Note, n.id).unwrap();
    assert_eq!(d.system_updated_at, 4);
    assert_eq!(d.type_, ResourceKind::Note);
    assert_eq!(d.resource_id, n.id);
    (s, n.id)
}

#[test]
fn worked_example_feed() {
    let (s, note_id) = example_store();
    let all = s.changes_since(0, usize::MAX);
    assert_eq!(stamps(&all.entries), vec![1, 2, 3, 4]);
    assert_eq!(all.next_watermark, 4);
    match &all.entries[0] {
        FeedEntry::Upsert(Resource::Notebook(b)) => assert_eq!(b.name, "Work"),
        other => panic!("unexpected first entry {:?}", other),
    }
    match &all.entries[1] {
        FeedEntry::Upsert(Resource::Note(n)) => assert_eq!(n.title, "Plan"),
        other => panic!("unexpected second entry {:?}", other),
    }
    match &all.entries[2] {
        FeedEntry::Upsert(Resource::ContentBlock(c)) => match &c.content {
            Content::Text { text } => assert_eq!(text, "hi"),
            other => panic!("unexpected content {:?}", other),
        },
        other => panic!("unexpected third entry {:?}", other),
    }
    match &all.entries[3] {
        FeedEntry::Tombstone(d) => {
            assert_eq!(d.type_.name(), "Note");
            assert_eq!(d.resource_id, note_id);
        }
        other => panic!("unexpected fourth entry {:?}", other),
    }
    let later = s.changes_since(2, usize::MAX);
    assert_eq!(stamps(&later.entries), vec![3, 4]);
    assert_eq!(later.next_watermark, 4);
}

#[test]
fn versions_strictly_increase_across_kinds() {
    let mut s = SyncStore::new(false);
    let b = s.create_notebook(new_notebook("A")).unwrap();
    let n = s.create_note(new_note("T", b.id)).unwrap();
    let b2 = s.update_notebook(b.id, NotebookUpdate { name: "B".to_string() }).unwrap();
    let n2 = s
        .update_note(n.id, NoteUpdate { title: "U".to_string(), tags: vec![], updated_at: at(9) })
        .unwrap();
    let d = s.delete(ResourceKind::Notebook, b.id).unwrap();
    let seen = vec![
        b.system_updated_at,
        n.system_updated_at,
        b2.system_updated_at,
        n2.system_updated_at,
        d.system_updated_at,
    ];
    assert_eq!(seen, vec![1, 2, 3, 4, 5]);
    assert_eq!(stamps(&s.changes_since(0, usize::MAX).entries), seen);
    assert_eq!(s.last_version(), 5);
}

#[test]
fn full_feed_has_one_entry_per_mutation() {
    let mut s = SyncStore::new(false);
    let b = s.create_notebook(new_notebook("A")).unwrap();
    s.update_notebook(b.id, NotebookUpdate { name: "B".to_string() }).unwrap();
    s.update_notebook(b.id, NotebookUpdate { name: "C".to_string() }).unwrap();
    assert_eq!(s.update_notebook(99, NotebookUpdate { name: "D".to_string() }).unwrap_err(), SyncError::NotFound);
    let all = s.changes_since(0, usize::MAX);
    assert_eq!(all.entries.len(), 3);
    assert_eq!(s.log_len(), 3);
    let names: Vec<String> = all
        .entries
        .iter()
        .map(|e| match e {
            FeedEntry::Upsert(Resource::Notebook(b)) => b.name.clone(),
            other => panic!("unexpected entry {:?}", other),
        })
        .collect();
    assert_eq!(names, vec!["A".to_string(), "B".to_string(), "C".to_string()]);
}

#[test]
fn replaying_an_entry_twice_changes_nothing() {
    let (s, note_id) = example_store();
    let all = s.changes_since(0, usize::MAX);
    let mut once = Replica::new();
    let mut twice = Replica::new();
    for e in &all.entries {
        once.apply(e);
        twice.apply(e);
        twice.apply(e);
    }
    for (kind, id) in [(ResourceKind::Notebook, 1), (ResourceKind::Note, note_id), (ResourceKind::ContentBlock, 1)] {
        assert_eq!(once.contains(kind, id), twice.contains(kind, id));
    }
    assert!(once.contains(ResourceKind::Notebook, 1));
    assert!(!once.contains(ResourceKind::Note, note_id));
    assert!(once.contains(ResourceKind::ContentBlock, 1));
    match twice.get(ResourceKind::Notebook, 1) {
        Some(Resource::Notebook(b)) => assert_eq!(b.name, "Work"),
        other => panic!("unexpected replica record {:?}", other),
    }
}

#[test]
fn deleted_resource_stays_retired() {
    let mut s = SyncStore::new(true);
    let b = s.create_notebook(new_notebook("Work")).unwrap();
    let n = s.create_note(new_note("Plan", b.id)).unwrap();
    let before = s.last_version();
    s.delete(ResourceKind::Note, n.id).unwrap();
    let update = NoteUpdate { title: "Again".to_string(), tags: vec![], updated_at: at(5) };
    assert_eq!(s.update_note(n.id, update).unwrap_err(), SyncError::NotFound);
    assert_eq!(s.delete(ResourceKind::Note, n.id).unwrap_err(), SyncError::NotFound);
    assert!(s.current(ResourceKind::Note, n.id).is_none());
    assert!(s.current(ResourceKind::Notebook, b.id).is_some());
    let feed = s.changes_since(before, usize::MAX);
    assert_eq!(feed.entries.len(), 1);
    match &feed.entries[0] {
        FeedEntry::Tombstone(d) => {
            assert_eq!(d.type_, ResourceKind::Note);
            assert_eq!(d.resource_id, n.id);
        }
        other => panic!("unexpected entry {:?}", other),
    }
    // A failed mutation issues no version.
    assert_eq!(s.last_version(), before + 1);
}

#[test]
fn paging_resumes_where_it_stopped() {
    let (mut s, _) = example_store();
    let b = s.create_notebook(new_notebook("Home")).unwrap();
    s.update_notebook(b.id, NotebookUpdate { name: "House".to_string() }).unwrap();
    let whole = stamps(&s.changes_since(1, usize::MAX).entries);
    let mut collected = Vec::new();
    let mut watermark = 1;
    loop {
        let page = s.changes_since(watermark, 2);
        assert!(page.entries.len() <= 2);
        if page.entries.is_empty() {
            assert_eq!(page.next_watermark, watermark);
            break;
        }
        collected.extend(stamps(&page.entries));
        watermark = page.next_watermark;
    }
    assert_eq!(collected, whole);
    assert_eq!(whole, vec![2, 3, 4, 5, 6]);
    let first = s.changes_since(1, 2);
    let rest = s.changes_since(first.next_watermark, usize::MAX);
    let mut joined = stamps(&first.entries);
    joined.extend(stamps(&rest.entries));
    assert_eq!(joined, whole);
}

#[test]
fn watermark_ahead_of_server_is_idle() {
    let (s, _) = example_store();
    let page = s.changes_since(10, 5);
    assert!(page.entries.is_empty());
    assert_eq!(page.next_watermark, 10);
    let none = s.changes_since(0, 0);
    assert!(none.entries.is_empty());
    assert_eq!(none.next_watermark, 0);
}

#[test]
fn empty_store_has_empty_feed() {
    let s = SyncStore::new(false);
    let page = s.changes_since(0, usize::MAX);
    assert!(page.entries.is_empty());
    assert_eq!(page.next_watermark, 0);
    assert_eq!(s.last_version(), 0);
}

#[test]
fn empty_names_are_rejected() {
    let mut s = SyncStore::new(false);
    assert_eq!(s.create_notebook(new_notebook("")).unwrap_err(), SyncError::ValidationError);
    assert_eq!(s.create_note(new_note("", 1)).unwrap_err(), SyncError::ValidationError);
    let code = NewContentBlock {
        content: Content::Code { language: String::new(), code: "x".to_string() },
        created_at: at(0),
        note_id: 1,
    };
    assert_eq!(s.create_content_block(code).unwrap_err(), SyncError::ValidationError);
    assert_eq!(s.log_len(), 0);
    assert_eq!(s.last_version(), 0);
}

#[test]
fn dangling_parent_is_refused_only_when_checked() {
    let mut checked = SyncStore::new(true);
    assert_eq!(checked.create_note(new_note("T", 7)).unwrap_err(), SyncError::ForeignKeyUnresolved);
    assert_eq!(checked.create_content_block(text_block("x", 7)).unwrap_err(), SyncError::ForeignKeyUnresolved);
    let mut loose = SyncStore::new(false);
    let n = loose.create_note(new_note("T", 7)).unwrap();
    assert_eq!(n.notebook_id, 7);
    assert_eq!(n.id, 1);
    assert_eq!(n.updated_at, n.created_at);
}

#[test]
fn exhausted_clock_refuses_writes() {
    let mut s = SyncStore::with_clock(VersionClock::starting_after(u64::MAX), false);
    assert_eq!(s.create_notebook(new_notebook("A")).unwrap_err(), SyncError::ClockUnavailable);
    assert_eq!(s.log_len(), 0);
    let mut near = SyncStore::with_clock(VersionClock::starting_after(u64::MAX - 1), false);
    let b = near.create_notebook(new_notebook("A")).unwrap();
    assert_eq!(b.system_updated_at, u64::MAX);
    assert_eq!(
        near.update_notebook(b.id, NotebookUpdate { name: "B".to_string() }).unwrap_err(),
        SyncError::ClockUnavailable
    );
    assert_eq!(near.delete(ResourceKind::Notebook, b.id).unwrap_err(), SyncError::ClockUnavailable);
}

#[test]
fn clock_counts_up_from_its_start() {
    let mut c = VersionClock::new();
    assert_eq!(c.next(), Ok(1));
    assert_eq!(c.next(), Ok(2));
    assert_eq!(c.last(), 2);
    let mut d = VersionClock::starting_after(41);
    assert_eq!(d.next(), Ok(42));
    let mut full = VersionClock::starting_after(u64::MAX);
    assert_eq!(full.next(), Err(SyncError::ClockUnavailable));
    assert_eq!(full.last(), u64::MAX);
}

#[test]
fn updates_keep_immutable_fields() {
    let mut s = SyncStore::new(false);
    let b = s.create_notebook(new_notebook("A")).unwrap();
    let n = s.create_note(new_note("T", b.id)).unwrap();
    let n2 = s
        .update_note(n.id, NoteUpdate { title: "U".to_string(), tags: vec!["x".to_string()], updated_at: at(7_000) })
        .unwrap();
    assert_eq!(n2.id, n.id);
    assert_eq!(n2.notebook_id, b.id);
    assert_eq!(n2.created_at, at(2_000));
    assert_eq!(n2.updated_at, at(7_000));
    assert_eq!(n2.tags, vec!["x".to_string()]);
    assert_eq!(n2.title, "U");
    let c = s.create_content_block(text_block("hi", n.id)).unwrap();
    let c2 = s
        .update_content_block(
            c.id,
            ContentBlockUpdate {
                content: Content::Code { language: "rust".to_string(), code: "fn f() {}".to_string() },
                updated_at: at(8_000),
            },
        )
        .unwrap();
    assert_eq!(c2.note_id, n.id);
    assert_eq!(c2.created_at, at(3_000));
    assert_eq!(c2.system_updated_at, 5);
    match s.current(ResourceKind::ContentBlock, c.id) {
        Some(Resource::ContentBlock(cur)) => assert_eq!(cur.system_updated_at, 5),
        other => panic!("unexpected current record {:?}", other),
    }
    assert_eq!(
        s.update_content_block(c.id + 1, ContentBlockUpdate { content: Content::Text { text: String::new() }, updated_at: at(0) })
            .unwrap_err(),
        SyncError::NotFound
    );
}

#[test]
fn ids_are_assigned_per_kind() {
    let mut s = SyncStore::new(false);
    let a = s.create_notebook(new_notebook("A")).unwrap();
    let b = s.create_notebook(new_notebook("B")).unwrap();
    let n = s.create_note(new_note("T", a.id)).unwrap();
    assert_eq!((a.id, b.id, n.id), (1, 2, 1));
    let d1 = s.delete(ResourceKind::Notebook, a.id).unwrap();
    let d2 = s.delete(ResourceKind::Note, n.id).unwrap();
    assert_eq!((d1.id, d2.id), (1, 2));
    let c = s.create_notebook(new_notebook("C")).unwrap();
    assert_eq!(c.id, 3);
}

#[test]
fn kinds_name_themselves() {
    let mut s = SyncStore::new(false);
    let b = s.create_notebook(new_notebook("A")).unwrap();
    let n = s.create_note(new_note("T", b.id)).unwrap();
    let c = s.create_content_block(text_block("x", n.id)).unwrap();
    assert_eq!(b.kind_name(), "Notebook");
    assert_eq!(n.kind_name(), "Note");
    assert_eq!(c.kind_name(), "ContentBlock");
    assert_eq!(ResourceKind::ContentBlock.name(), "ContentBlock");
    assert_eq!(ResourceKind::Notebook.name(), "Notebook");
}

#[test]
fn replaying_the_feed_rebuilds_live_state() {
    let mut s = SyncStore::new(false);
    let a = s.create_notebook(new_notebook("A")).unwrap();
    let b = s.create_notebook(new_notebook("B")).unwrap();
    let n = s.create_note(new_note("T", a.id)).unwrap();
    s.update_notebook(b.id, NotebookUpdate { name: "B2".to_string() }).unwrap();
    s.update_note(n.id, NoteUpdate { title: "T2".to_string(), tags: vec![], updated_at: at(4) }).unwrap();
    s.delete(ResourceKind::Notebook, a.id).unwrap();
    let mut replica = Replica::new();
    let mut watermark = 0;
    loop {
        let page = s.changes_since(watermark, 1);
        if page.entries.is_empty() {
            break;
        }
        for e in &page.entries {
            replica.apply(e);
        }
        watermark = page.next_watermark;
    }
    assert_eq!(watermark, s.last_version());
    for (kind, id) in [(ResourceKind::Notebook, a.id), (ResourceKind::Notebook, b.id), (ResourceKind::Note, n.id)] {
        assert_eq!(replica.contains(kind, id), s.current(kind, id).is_some());
    }
    match (replica.get(ResourceKind::Notebook, b.id), s.current(ResourceKind::Notebook, b.id)) {
        (Some(Resource::Notebook(r)), Some(Resource::Notebook(c))) => {
            assert_eq!(r.name, "B2");
            assert_eq!(r.name, c.name);
            assert_eq!(r.system_updated_at, c.system_updated_at);
        }
        other => panic!("unexpected records {:?}", other),
    }
    match replica.get(ResourceKind::Note, n.id) {
        Some(Resource::Note(r)) => {
            assert_eq!(r.title, "T2");
            assert!(r.tags.is_empty());
            assert_eq!(r.system_updated_at, 5);
        }
        other => panic!("unexpected record {:?}", other),
    }
}
