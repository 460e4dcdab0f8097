//! The board's data model: resources, tags, spaces, epics, stories, cards and columns.

use vstd::prelude::*;
use crate::ids::{is_uuid_v4_text, new_id};

verus! {

/// The optional reference `o` names the id `id`.
pub open spec fn id_is(o: Option<String>, id: Seq<char>) -> bool {
    o matches Some(s) && s@ == id
}

/// Whether the optional reference `o` names the id `id`.
pub fn refers_to(o: &Option<String>, id: &String) -> (r: bool)
    ensures
        r == id_is(*o, id@),
{
    match o {
        Some(s) => *s == *id,
        None => false,
    }
}

/// What a resource attached to a card, story or epic is.
#[derive(Clone, Copy, Debug, PartialEq, Eq, Structural)]
pub enum ResourceKind {
    Link,
    Note,
    Doc,
}

impl ResourceKind {
    /// The label shown next to a resource.
    pub fn label(&self) -> (r: &'static str)
        ensures
            r@ == match *self {
                ResourceKind::Link => "Link"@,
                ResourceKind::Note => "Note"@,
                ResourceKind::Doc => "Doc"@,
            },
    {
        match self {
            ResourceKind::Link => "Link",
            ResourceKind::Note => "Note",
            ResourceKind::Doc => "Doc",
        }
    }

    /// The icon shown in front of a resource.
    pub fn icon(&self) -> (r: &'static str)
        ensures
            r@ == match *self {
                ResourceKind::Link => "🔗"@,
                ResourceKind::Note => "📝"@,
                ResourceKind::Doc => "📄"@,
            },
    {
        match self {
            ResourceKind::Link => "🔗",
            ResourceKind::Note => "📝",
            ResourceKind::Doc => "📄",
        }
    }

    /// Reads a kind from its label; anything but `"Note"` and `"Doc"` is a link.
    pub fn from_str(s: &str) -> (k: ResourceKind)
        ensures
            k == (if s@ == "Note"@ {
                ResourceKind::Note
            } else if s@ == "Doc"@ {
                ResourceKind::Doc
            } else {
                ResourceKind::Link
            }),
    {
        if crate::text::same_text(s, "Note") {
            ResourceKind::Note
        } else if crate::text::same_text(s, "Doc") {
            ResourceKind::Doc
        } else {
            ResourceKind::Link
        }
    }
}

/// A link, note or document attached to a card, story or epic.
#[derive(Clone, Debug, PartialEq)]
pub struct Resource {
    pub id: String,
    pub title: String,
    pub url: String,
    pub kind: ResourceKind,
    pub notes: String,
}

impl Resource {
    /// A resource with the given id and contents.
    pub fn with_id(id: String, title: &str, url: &str, kind: ResourceKind, notes: &str) -> (r: Resource)
        ensures
            r.id == id,
            r.title@ == title@,
            r.url@ == url@,
            r.kind == kind,
            r.notes@ == notes@,
    {
        Resource {
            id,
            title: String::from_str(title),
            url: String::from_str(url),
            kind,
            notes: String::from_str(notes),
        }
    }

    /// A new resource under a fresh identifier.
    pub fn new(title: &str, url: &str, kind: ResourceKind, notes: &str) -> (r: Resource)
        ensures
            is_uuid_v4_text(r.id@),
            r.title@ == title@,
            r.url@ == url@,
            r.kind == kind,
            r.notes@ == notes@,
    {
        Resource::with_id(new_id(), title, url, kind, notes)
    }
}

/// A tag that cards refer to by `id`.
#[derive(Clone, Debug, PartialEq)]
pub struct TagDef {
    pub id: String,
    pub name: String,
    pub color: String,
}

/// The inline style of a tag badge in the colour `c`.
pub open spec fn badge_style_text(c: Seq<char>) -> Seq<char> {
    "background:"@ + c + "28;color:"@ + c + ";border:1px solid "@ + c
        + "55;padding:2px 8px;border-radius:5px;font-size:0.72rem;font-weight:600;"@
}

impl TagDef {
    /// A tag with the given id, name and colour.
    pub fn new(id: &str, name: &str, color: &str) -> (t: TagDef)
        ensures
            t.id@ == id@,
            t.name@ == name@,
            t.color@ == color@,
    {
        TagDef { id: String::from_str(id), name: String::from_str(name), color: String::from_str(color) }
    }

    /// The inline style of this tag's badge.
    pub fn badge_style(&self) -> (s: String)
        ensures
            s@ == badge_style_text(self.color@),
    {
        let c = self.color.as_str();
        let mut s = String::from_str("background:");
        s.append(c);
        s.append("28;color:");
        s.append(c);
        s.append(";border:1px solid ");
        s.append(c);
        s.append("55;padding:2px 8px;border-radius:5px;font-size:0.72rem;font-weight:600;");
        s
    }
}

/// A space that groups epics.
#[derive(Clone, Debug, PartialEq)]
pub struct Space {
    pub id: String,
    pub name: String,
    pub color: String,
    pub desc: String,
}

/// A checklist item of a card.
#[derive(Clone, Debug, PartialEq)]
pub struct Subtask {
    pub id: String,
    pub title: String,
    pub done: bool,
    pub resources: Vec<Resource>,
}

/// A story, grouped under the epic `epic_id`.
#[derive(Clone, Debug, PartialEq)]
pub struct Story {
    pub id: String,
    pub epic_id: String,
    pub title: String,
    pub direct_logged_secs: u64,
    pub resources: Vec<Resource>,
}

/// An epic. The estimate is a 32-bit float in hours; the board never
/// computes with it, so it is carried as its IEEE-754 bit pattern
/// (`f32::to_bits`), from which `f32::from_bits` gives the hours back.
#[derive(Clone, Debug, PartialEq)]
pub struct Epic {
    pub id: String,
    pub title: String,
    pub desc: String,
    pub color: String,
    pub deadline: String,
    pub estimated_hours_bits: u32,
    pub direct_logged_secs: u64,
    pub resources: Vec<Resource>,
    pub space_id: Option<String>,
}

/// A card (task) on the board.
#[derive(Clone, Debug, PartialEq)]
pub struct Card {
    pub id: String,
    pub title: String,
    pub desc: String,
    pub tag: String,
    pub epic_id: Option<String>,
    pub story_id: Option<String>,
    pub subtasks: Vec<Subtask>,
    pub logged_secs: u64,
    pub resources: Vec<Resource>,
}

/// `c` is a card just created with these contents: no subtasks, no logged
/// time, no resources.
pub open spec fn is_fresh_card(
    c: Card,
    title: Seq<char>,
    desc: Seq<char>,
    tag: Seq<char>,
    epic_id: Option<String>,
    story_id: Option<String>,
) -> bool {
    &&& c.title@ == title
    &&& c.desc@ == desc
    &&& c.tag@ == tag
    &&& c.epic_id == epic_id
    &&& c.story_id == story_id
    &&& c.subtasks@.len() == 0
    &&& c.logged_secs == 0
    &&& c.resources@.len() == 0
}

impl Card {
    /// A new card with the given id and contents.
    pub fn with_id(
        id: String,
        title: &str,
        desc: &str,
        tag: &str,
        epic_id: Option<String>,
        story_id: Option<String>,
    ) -> (c: Card)
        ensures
            c.id == id,
            is_fresh_card(c, title@, desc@, tag@, epic_id, story_id),
    {
        Card {
            id,
            title: String::from_str(title),
            desc: String::from_str(desc),
            tag: String::from_str(tag),
            epic_id,
            story_id,
            subtasks: Vec::new(),
            logged_secs: 0,
            resources: Vec::new(),
        }
    }

    /// A new card under a fresh identifier, in no epic and no story.
    pub fn new(title: &str, desc: &str, tag: &str) -> (c: Card)
        ensures
            is_uuid_v4_text(c.id@),
            is_fresh_card(c, title@, desc@, tag@, None, None),
    {
        Card::with_id(new_id(), title, desc, tag, None, None)
    }

    /// A new card under a fresh identifier, linked to the given epic and story.
    pub fn new_full(
        title: &str,
        desc: &str,
        tag: &str,
        epic_id: Option<String>,
        story_id: Option<String>,
    ) -> (c: Card)
        ensures
            is_uuid_v4_text(c.id@),
            is_fresh_card(c, title@, desc@, tag@, epic_id, story_id),
    {
        Card::with_id(new_id(), title, desc, tag, epic_id, story_id)
    }
}

/// A column of the board and the cards in it, top to bottom.
#[derive(Clone, Debug, PartialEq)]
pub struct Column {
    pub id: String,
    pub title: String,
    pub cards: Vec<Card>,
}

/// A board entity that time or a resource can be attached to, by id.
#[derive(Clone, Debug, PartialEq)]
pub enum Entity {
    Card(String),
    Story(String),
    Epic(String),
}

} // verus!
