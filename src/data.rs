//! Resources, their create and update payloads, and the kinds that label them.

use vstd::prelude::*;

verus! {

/// A user-facing point in time: milliseconds since the Unix epoch, in UTC.
#[derive(Clone, Copy, Debug, PartialEq, Eq, Structural)]
pub struct Timestamp {
    pub millis: i64,
}

/// The closed set of resource kinds that the change feed can carry.
#[derive(Clone, Copy, Debug, PartialEq, Eq, Structural)]
pub enum ResourceKind {
    Notebook,
    Note,
    ContentBlock,
}

impl ResourceKind {
    /// The label of the kind, as it is written on the wire.
    pub open spec fn spec_name(self) -> Seq<char> {
        match self {
            ResourceKind::Notebook => "Notebook"@,
            ResourceKind::Note => "Note"@,
            ResourceKind::ContentBlock => "ContentBlock"@,
        }
    }

    pub fn name(&self) -> (r: &'static str)
        ensures
            r@ == self.spec_name(),
    {
        match self {
            ResourceKind::Notebook => "Notebook",
            ResourceKind::Note => "Note",
            ResourceKind::ContentBlock => "ContentBlock",
        }
    }
}

/// A resource that can tell which kind it is.
pub trait TypeIdentifiable {
    spec fn resource_kind(&self) -> ResourceKind;

    fn kind_name(&self) -> (r: &'static str)
        ensures
            r@ == self.resource_kind().spec_name(),
    ;
}

/// A tag on a note. A note's tags form a list: order is kept, duplicates allowed.
pub type Tag = String;

/// A container for notes.
#[derive(Clone, Debug)]
pub struct Notebook {
    pub id: i32,
    pub name: String,
    pub created_at: Timestamp,
    pub system_updated_at: u64,
}

/// What a client sends to create a notebook.
#[derive(Clone, Debug)]
pub struct NewNotebook {
    pub name: String,
    pub created_at: Timestamp,
}

/// The mutable fields of a notebook.
#[derive(Clone, Debug)]
pub struct NotebookUpdate {
    pub name: String,
}

/// A note, held in a notebook that it refers to by id.
#[derive(Clone, Debug)]
pub struct Note {
    pub id: i32,
    pub title: String,
    pub tags: Vec<Tag>,
    pub notebook_id: i32,
    pub created_at: Timestamp,
    pub updated_at: Timestamp,
    pub system_updated_at: u64,
}

/// A note as a mathematical value: its tags become character sequences.
pub struct NoteView {
    pub id: i32,
    pub title: String,
    pub tags: Seq<Seq<char>>,
    pub notebook_id: i32,
    pub created_at: Timestamp,
    pub updated_at: Timestamp,
    pub system_updated_at: u64,
}

/// What a client sends to create a note.
#[derive(Clone, Debug)]
pub struct NewNote {
    pub title: String,
    pub tags: Vec<Tag>,
    pub created_at: Timestamp,
    pub notebook_id: i32,
}

/// The mutable fields of a note; its notebook is fixed at creation.
#[derive(Clone, Debug)]
pub struct NoteUpdate {
    pub title: String,
    pub tags: Vec<Tag>,
    pub updated_at: Timestamp,
}

/// The body of a content block.
#[derive(Clone, Debug)]
pub enum Content {
    Text { text: String },
    Code { language: String, code: String },
}

/// A block of content inside a note.
#[derive(Clone, Debug)]
pub struct ContentBlock {
    pub id: i32,
    pub content: Content,
    pub system_updated_at: u64,
    pub created_at: Timestamp,
    pub updated_at: Timestamp,
    pub note_id: i32,
}

/// What a client sends to create a content block.
#[derive(Clone, Debug)]
pub struct NewContentBlock {
    pub content: Content,
    pub created_at: Timestamp,
    pub note_id: i32,
}

/// The mutable fields of a content block; its note is fixed at creation.
#[derive(Clone, Debug)]
pub struct ContentBlockUpdate {
    pub content: Content,
    pub updated_at: Timestamp,
}

/// A tombstone: the record that a resource of kind `type_` was deleted.
#[derive(Clone, Copy, Debug, PartialEq, Eq, Structural)]
pub struct Deletion {
    pub id: i32,
    pub type_: ResourceKind,
    pub resource_id: i32,
    pub system_updated_at: u64,
}

/// Copies a list of tags.
pub fn copy_tags(tags: &Vec<Tag>) -> (r: Vec<Tag>)
    ensures
        tags_view(r@) == tags_view(tags@),
{
    let r = tags.clone();
    assert(r@ =~= tags@);
    r
}

/// The character sequences of a list of tags.
pub open spec fn tags_view(tags: Seq<Tag>) -> Seq<Seq<char>> {
    tags.map_values(|t: Tag| t@)
}

impl View for Note {
    type V = NoteView;

    open spec fn view(&self) -> NoteView {
        NoteView {
            id: self.id,
            title: self.title,
            tags: tags_view(self.tags@),
            notebook_id: self.notebook_id,
            created_at: self.created_at,
            updated_at: self.updated_at,
            system_updated_at: self.system_updated_at,
        }
    }
}

impl Notebook {
    pub fn copy(&self) -> (r: Notebook)
        ensures
            r == *self,
    {
        Notebook {
            id: self.id,
            name: self.name.clone(),
            created_at: self.created_at,
            system_updated_at: self.system_updated_at,
        }
    }
}

impl Note {
    pub fn copy(&self) -> (r: Note)
        ensures
            r@ == self@,
    {
        Note {
            id: self.id,
            title: self.title.clone(),
            tags: copy_tags(&self.tags),
            notebook_id: self.notebook_id,
            created_at: self.created_at,
            updated_at: self.updated_at,
            system_updated_at: self.system_updated_at,
        }
    }
}

impl Content {
    pub fn copy(&self) -> (r: Content)
        ensures
            r == *self,
    {
        match self {
            Content::Text { text } => Content::Text { text: text.clone() },
            Content::Code { language, code } => Content::Code {
                language: language.clone(),
                code: code.clone(),
            },
        }
    }
}

impl ContentBlock {
    pub fn copy(&self) -> (r: ContentBlock)
        ensures
            r == *self,
    {
        ContentBlock {
            id: self.id,
            content: self.content.copy(),
            system_updated_at: self.system_updated_at,
            created_at: self.created_at,
            updated_at: self.updated_at,
            note_id: self.note_id,
        }
    }
}

impl TypeIdentifiable for Notebook {
    open spec fn resource_kind(&self) -> ResourceKind {
        ResourceKind::Notebook
    }

    fn kind_name(&self) -> &'static str {
        "Notebook"
    }
}

impl TypeIdentifiable for Note {
    open spec fn resource_kind(&self) -> ResourceKind {
        ResourceKind::Note
    }

    fn kind_name(&self) -> &'static str {
        "Note"
    }
}

impl TypeIdentifiable for ContentBlock {
    open spec fn resource_kind(&self) -> ResourceKind {
        ResourceKind::ContentBlock
    }

    fn kind_name(&self) -> &'static str {
        "ContentBlock"
    }
}

} // verus!
