use kanban_wasm::model::{Card, Entity, Resource, ResourceKind, TagDef};
use kanban_wasm::seed::{initial_columns, initial_epics, initial_spaces, initial_tags, SavedState};
use kanban_wasm::nav::default_nav;

fn is_uuid_v4(s: &str) -> bool {
    let b: Vec<char> = s.chars().collect();
    if b.len() != 36 {
        return false;
    }
    for (i, c) in b.iter().enumerate() {
        if i == 8 || i == 13 || i == 18 || i == 23 {
            if *c != '-' {
                return false;
            }
        } else if !(c.is_ascii_digit() || ('a'..='f').contains(c)) {
            return false;
        }
    }
    b[14] == '4' && "89ab".contains(b[19])
}

#[test]
fn resource_kind_labels_and_icons() {
    assert_eq!(ResourceKind::Link.label(), "Link");
    assert_eq!(ResourceKind::Note.label(), "Note");
    assert_eq!(ResourceKind::Doc.label(), "Doc");
    assert_eq!(ResourceKind::Link.icon(), "🔗");
    assert_eq!(ResourceKind::Note.icon(), "📝");
    assert_eq!(ResourceKind::Doc.icon(), "📄");
}

#[test]
fn resource_kind_from_label() {
    assert_eq!(ResourceKind::from_str("Note"), ResourceKind::Note);
    assert_eq!(ResourceKind::from_str("Doc"), ResourceKind::Doc);
    assert_eq!(ResourceKind::from_str("Link"), ResourceKind::Link);
    assert_eq!(ResourceKind::from_str("note"), ResourceKind::Link);
    assert_eq!(ResourceKind::from_str(""), ResourceKind::Link);
    assert_eq!(ResourceKind::from_str("Docs"), ResourceKind::Link);
}

#[test]
fn resource_new_gets_fresh_uuid() {
    let a = Resource::new("Spec", "https://example.com", ResourceKind::Doc, "read me");
    let b = Resource::new("Spec", "https://example.com", ResourceKind::Doc, "read me");
    assert!(is_uuid_v4(&a.id));
    assert!(is_uuid_v4(&b.id));
    assert_ne!(a.id, b.id);
    assert_eq!(a.title, "Spec");
    assert_eq!(a.url, "https://example.com");
    assert_eq!(a.kind, ResourceKind::Doc);
    assert_eq!(a.notes, "read me");
}

#[test]
fn resource_with_id_keeps_everything() {
    let r = Resource::with_id("r-1".to_string(), "T", "U", ResourceKind::Note, "N");
    assert_eq!(
        r,
        Resource {
            id: "r-1".to_string(),
            title: "T".to_string(),
            url: "U".to_string(),
            kind: ResourceKind::Note,
            notes: "N".to_string()
        }
    );
}

#[test]
fn tag_badge_style_uses_color_three_times() {
    let t = TagDef::new("bug", "Bug", "#ef4444");
    assert_eq!(t.id, "bug");
    assert_eq!(t.name, "Bug");
    assert_eq!(
        t.badge_style(),
        "background:#ef444428;color:#ef4444;border:1px solid #ef444455;padding:2px 8px;border-radius:5px;font-size:0.72rem;font-weight:600;"
    );
}

#[test]
fn card_new_is_empty_and_unlinked() {
    let c = Card::new("Title", "Desc", "bug");
    assert!(is_uuid_v4(&c.id));
    assert_eq!(c.title, "Title");
    assert_eq!(c.desc, "Desc");
    assert_eq!(c.tag, "bug");
    assert_eq!(c.epic_id, None);
    assert_eq!(c.story_id, None);
    assert!(c.subtasks.is_empty());
    assert_eq!(c.logged_secs, 0);
    assert!(c.resources.is_empty());
}

#[test]
fn card_new_full_links_epic_and_story() {
    let c = Card::new_full("T", "D", "task", Some("epic-1".to_string()), Some("s-1".to_string()));
    assert!(is_uuid_v4(&c.id));
    assert_eq!(c.epic_id.as_deref(), Some("epic-1"));
    assert_eq!(c.story_id.as_deref(), Some("s-1"));
    assert_eq!(c.logged_secs, 0);
    let d = Card::with_id("c-9".to_string(), "T", "D", "task", None, None);
    assert_eq!(d.id, "c-9");
}

#[test]
fn initial_board_contents() {
    let tags = initial_tags();
    let ids: Vec<&str> = tags.iter().map(|t| t.id.as_str()).collect();
    assert_eq!(ids, vec!["feature", "bug", "task", "design"]);
    assert_eq!(tags[0].color, "#3b82f6");
    assert_eq!(tags[3].name, "Design");

    let spaces = initial_spaces();
    assert_eq!(spaces.len(), 1);
    assert_eq!(spaces[0].id, "space-1");
    assert_eq!(spaces[0].name, "Engineering");

    let cols = initial_columns();
    let ids: Vec<&str> = cols.iter().map(|c| c.id.as_str()).collect();
    assert_eq!(ids, vec!["todo", "in-progress", "review", "done"]);
    let titles: Vec<&str> = cols.iter().map(|c| c.title.as_str()).collect();
    assert_eq!(titles, vec!["To Do", "In Progress", "Review", "Done"]);
    assert_eq!(cols[0].cards.len(), 3);
    assert_eq!(cols[0].cards[2].title, "Fix nav overflow bug");
    assert_eq!(cols[0].cards[2].tag, "bug");
    assert_eq!(cols[3].cards[0].title, "Repo setup");
    assert!(cols.iter().all(|c| c.cards.iter().all(|k| is_uuid_v4(&k.id))));

    let epics = initial_epics();
    assert_eq!(epics.len(), 2);
    assert_eq!(epics[0].id, "epic-1");
    assert_eq!(f32::from_bits(epics[0].estimated_hours_bits), 120.0);
    assert_eq!(f32::from_bits(epics[1].estimated_hours_bits), 40.0);
    assert_eq!(epics[1].deadline, "2026-04-15");
    assert_eq!(epics[1].space_id.as_deref(), Some("space-1"));

    let nav = default_nav();
    assert_eq!(
        nav,
        vec![
            ("Board".to_string(), "board".to_string()),
            ("Dashboard".to_string(), "dashboard".to_string()),
            ("Resources".to_string(), "resources".to_string()),
        ]
    );
}

#[test]
fn restore_prefers_saved_state() {
    let fresh = SavedState::restore(None);
    assert_eq!(fresh.columns.len(), 4);
    assert!(fresh.stories.is_empty());
    let mut saved = SavedState::initial();
    saved.tags.clear();
    let restored = SavedState::restore(Some(saved.clone()));
    assert_eq!(restored, saved);
}

#[test]
fn entity_variants_compare() {
    assert_ne!(Entity::Card("x".to_string()), Entity::Story("x".to_string()));
}
