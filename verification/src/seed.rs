//! What a new board holds, and the state that is saved between sessions.

use vstd::prelude::*;
use crate::ids::is_uuid_v4_text;
use crate::model::{is_fresh_card, Card, Column, Epic, Space, Story, TagDef};
use crate::nav::{default_nav, is_default_nav};

verus! {

/// `v` are the tags of a new board: feature, bug, task and design.
pub open spec fn is_initial_tags(v: Seq<TagDef>) -> bool {
    &&& v.len() == 4
    &&& v[0].id@ == "feature"@ && v[0].name@ == "Feature"@ && v[0].color@ == "#3b82f6"@
    &&& v[1].id@ == "bug"@ && v[1].name@ == "Bug"@ && v[1].color@ == "#ef4444"@
    &&& v[2].id@ == "task"@ && v[2].name@ == "Task"@ && v[2].color@ == "#22c55e"@
    &&& v[3].id@ == "design"@ && v[3].name@ == "Design"@ && v[3].color@ == "#a855f7"@
}

/// The tags of a new board: feature, bug, task and design.
pub fn initial_tags() -> (r: Vec<TagDef>)
    ensures
        is_initial_tags(r@),
{
    let mut r = Vec::new();
    r.push(TagDef::new("feature", "Feature", "#3b82f6"));
    r.push(TagDef::new("bug", "Bug", "#ef4444"));
    r.push(TagDef::new("task", "Task", "#22c55e"));
    r.push(TagDef::new("design", "Design", "#a855f7"));
    r
}

/// `v` are the spaces of a new board: one, Engineering.
pub open spec fn is_initial_spaces(v: Seq<Space>) -> bool {
    &&& v.len() == 1
    &&& v[0].id@ == "space-1"@
    &&& v[0].name@ == "Engineering"@
    &&& v[0].color@ == "#6366f1"@
    &&& v[0].desc@ == "Core platform engineering work"@
}

/// The spaces of a new board: one, Engineering.
pub fn initial_spaces() -> (r: Vec<Space>)
    ensures
        is_initial_spaces(r@),
{
    let mut r = Vec::new();
    r.push(
        Space {
            id: String::from_str("space-1"),
            name: String::from_str("Engineering"),
            color: String::from_str("#6366f1"),
            desc: String::from_str("Core platform engineering work"),
        },
    );
    r
}

/// `c` is a new sample card with this title, description and tag.
pub open spec fn is_sample_card(c: Card, title: Seq<char>, desc: Seq<char>, tag: Seq<char>) -> bool {
    is_uuid_v4_text(c.id@) && is_fresh_card(c, title, desc, tag, None, None)
}

fn column(id: &str, title: &str, cards: Vec<Card>) -> (c: Column)
    ensures
        c.id@ == id@,
        c.title@ == title@,
        c.cards == cards,
{
    Column { id: String::from_str(id), title: String::from_str(title), cards }
}

/// `v` are the columns of a new board: To Do, In Progress, Review and Done,
/// with sample cards under fresh ids.
pub open spec fn is_initial_columns(v: Seq<Column>) -> bool {
    &&& v.len() == 4
    &&& v[0].id@ == "todo"@ && v[0].title@ == "To Do"@
    &&& v[1].id@ == "in-progress"@ && v[1].title@ == "In Progress"@
    &&& v[2].id@ == "review"@ && v[2].title@ == "Review"@
    &&& v[3].id@ == "done"@ && v[3].title@ == "Done"@
    &&& v[0].cards@.len() == 3
    &&& is_sample_card(
        v[0].cards@[0],
        "Design system tokens"@,
        "Define color / spacing tokens for the design system."@,
        "design"@,
    )
    &&& is_sample_card(
        v[0].cards@[1],
        "Auth flow"@,
        "Implement OAuth2 login + refresh token rotation."@,
        "feature"@,
    )
    &&& is_sample_card(
        v[0].cards@[2],
        "Fix nav overflow bug"@,
        "Mobile nav overflows viewport at <375px."@,
        "bug"@,
    )
    &&& v[1].cards@.len() == 1
    &&& is_sample_card(
        v[1].cards@[0],
        "Kanban WASM POC"@,
        "Rust + Leptos kanban that compiles to WebAssembly."@,
        "task"@,
    )
    &&& v[2].cards@.len() == 1
    &&& is_sample_card(
        v[2].cards@[0],
        "API rate limiting"@,
        "Add sliding-window rate limiter to REST endpoints."@,
        "feature"@,
    )
    &&& v[3].cards@.len() == 1
    &&& is_sample_card(
        v[3].cards@[0],
        "Repo setup"@,
        "Init monorepo, CI pipeline, branch protection rules."@,
        "task"@,
    )
}

/// The columns of a new board, with sample cards under fresh ids.
pub fn initial_columns() -> (r: Vec<Column>)
    ensures
        is_initial_columns(r@),
{
    let mut todo = Vec::new();
    todo.push(Card::new("Design system tokens", "Define color / spacing tokens for the design system.", "design"));
    todo.push(Card::new("Auth flow", "Implement OAuth2 login + refresh token rotation.", "feature"));
    todo.push(Card::new("Fix nav overflow bug", "Mobile nav overflows viewport at <375px.", "bug"));
    let mut in_progress = Vec::new();
    in_progress.push(Card::new("Kanban WASM POC", "Rust + Leptos kanban that compiles to WebAssembly.", "task"));
    let mut review = Vec::new();
    review.push(Card::new("API rate limiting", "Add sliding-window rate limiter to REST endpoints.", "feature"));
    let mut done = Vec::new();
    done.push(Card::new("Repo setup", "Init monorepo, CI pipeline, branch protection rules.", "task"));
    let mut r = Vec::new();
    r.push(column("todo", "To Do", todo));
    r.push(column("in-progress", "In Progress", in_progress));
    r.push(column("review", "Review", review));
    r.push(column("done", "Done", done));
    r
}

/// `e` is a sample epic with these contents, nothing logged, no resources,
/// in the space `space-1`.
pub open spec fn is_sample_epic(
    e: Epic,
    id: Seq<char>,
    title: Seq<char>,
    desc: Seq<char>,
    color: Seq<char>,
    deadline: Seq<char>,
    estimated_hours_bits: u32,
) -> bool {
    &&& e.id@ == id
    &&& e.title@ == title
    &&& e.desc@ == desc
    &&& e.color@ == color
    &&& e.deadline@ == deadline
    &&& e.estimated_hours_bits == estimated_hours_bits
    &&& e.direct_logged_secs == 0
    &&& e.resources@.len() == 0
    &&& e.space_id matches Some(s) && s@ == "space-1"@
}

/// `v` are the epics of a new board: Platform v2 (120 hours) and Design
/// System (40 hours). The estimates are the bit patterns of the floats 120.0
/// and 40.0.
pub open spec fn is_initial_epics(v: Seq<Epic>) -> bool {
    &&& v.len() == 2
    &&& is_sample_epic(
        v[0],
        "epic-1"@,
        "Platform v2"@,
        "Full platform rewrite"@,
        "#6366f1"@,
        "2026-06-30"@,
        0x42f0_0000,
    )
    &&& is_sample_epic(
        v[1],
        "epic-2"@,
        "Design System"@,
        "Component library and tokens"@,
        "#f59e0b"@,
        "2026-04-15"@,
        0x4220_0000,
    )
}

/// The epics of a new board.
pub fn initial_epics() -> (r: Vec<Epic>)
    ensures
        is_initial_epics(r@),
{
    let mut r = Vec::new();
    r.push(
        Epic {
            id: String::from_str("epic-1"),
            title: String::from_str("Platform v2"),
            desc: String::from_str("Full platform rewrite"),
            color: String::from_str("#6366f1"),
            deadline: String::from_str("2026-06-30"),
            estimated_hours_bits: 0x42f0_0000,
            direct_logged_secs: 0,
            resources: Vec::new(),
            space_id: Some(String::from_str("space-1")),
        },
    );
    r.push(
        Epic {
            id: String::from_str("epic-2"),
            title: String::from_str("Design System"),
            desc: String::from_str("Component library and tokens"),
            color: String::from_str("#f59e0b"),
            deadline: String::from_str("2026-04-15"),
            estimated_hours_bits: 0x4220_0000,
            direct_logged_secs: 0,
            resources: Vec::new(),
            space_id: Some(String::from_str("space-1")),
        },
    );
    r
}

/// `s` is the state of a new board.
pub open spec fn is_initial_state(s: SavedState) -> bool {
    &&& is_initial_columns(s.columns@)
    &&& is_initial_epics(s.epics@)
    &&& s.stories@.len() == 0
    &&& is_initial_tags(s.tags@)
    &&& is_initial_spaces(s.spaces@)
    &&& is_default_nav(s.nav_items@)
}

/// Everything of a board that is kept between sessions.
#[derive(Clone, Debug, PartialEq)]
pub struct SavedState {
    pub columns: Vec<Column>,
    pub epics: Vec<Epic>,
    pub stories: Vec<Story>,
    pub tags: Vec<TagDef>,
    pub spaces: Vec<Space>,
    pub nav_items: Vec<(String, String)>,
}

impl SavedState {
    /// The state of a new board: the sample columns, epics, tags and space,
    /// no stories, and the default tabs.
    pub fn initial() -> (s: SavedState)
        ensures
            is_initial_state(s),
    {
        SavedState {
            columns: initial_columns(),
            epics: initial_epics(),
            stories: Vec::new(),
            tags: initial_tags(),
            spaces: initial_spaces(),
            nav_items: default_nav(),
        }
    }

    /// The state a session starts from: what was saved, or a new board.
    pub fn restore(saved: Option<SavedState>) -> (s: SavedState)
        ensures
            saved matches Some(v) ==> s == v,
            saved is None ==> is_initial_state(s),
    {
        match saved {
            Some(v) => v,
            None => SavedState::initial(),
        }
    }
}

} // verus!
