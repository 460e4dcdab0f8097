use kanban_wasm::model::{Card, Column, Entity, Epic, Resource, ResourceKind, Space, Story, TagDef};
use kanban_wasm::planning::{
    add_epic, add_epic_with_id, add_space, add_space_with_id, add_story, add_story_with_id, add_tag, attach_resource,
    delete_epic, delete_space, delete_story, delete_tag, log_second, tag_id_for,
};

fn card(id: &str, epic: Option<&str>, story: Option<&str>) -> Card {
    Card::with_id(id.to_string(), id, "", "task", epic.map(|s| s.to_string()), story.map(|s| s.to_string()))
}

fn epic(id: &str, space: Option<&str>) -> Epic {
    Epic {
        id: id.to_string(),
        title: id.to_string(),
        desc: String::new(),
        color: "#fff".to_string(),
        deadline: "2026-05-01".to_string(),
        estimated_hours_bits: 8.0f32.to_bits(),
        direct_logged_secs: 0,
        resources: vec![],
        space_id: space.map(|s| s.to_string()),
    }
}

fn story(id: &str, epic: &str) -> Story {
    Story { id: id.to_string(), epic_id: epic.to_string(), title: id.to_string(), direct_logged_secs: 0, resources: vec![] }
}

fn card_ids(cols: &[Column]) -> Vec<Vec<String>> {
    cols.iter().map(|c| c.cards.iter().map(|k| k.id.clone()).collect()).collect()
}

fn sample() -> (Vec<Column>, Vec<Story>, Vec<Epic>) {
    let cols = vec![
        Column {
            id: "todo".to_string(),
            title: "To Do".to_string(),
            cards: vec![card("c1", Some("e1"), None), card("c2", None, Some("s1")), card("c3", None, None)],
        },
        Column {
            id: "done".to_string(),
            title: "Done".to_string(),
            cards: vec![card("c4", Some("e2"), Some("s2")), card("c5", Some("e1"), Some("s1"))],
        },
    ];
    let stories = vec![story("s1", "e1"), story("s2", "e2")];
    let epics = vec![epic("e1", Some("sp")), epic("e2", None)];
    (cols, stories, epics)
}

#[test]
fn delete_epic_cascades_to_stories_and_cards() {
    let (mut cols, mut stories, mut epics) = sample();
    delete_epic(&mut cols, &mut stories, &mut epics, &"e1".to_string());
    assert_eq!(card_ids(&cols), vec![vec!["c3".to_string()], vec!["c4".to_string()]]);
    assert_eq!(stories.len(), 1);
    assert_eq!(stories[0].id, "s2");
    assert_eq!(epics.len(), 1);
    assert_eq!(epics[0].id, "e2");
}

#[test]
fn delete_missing_epic_keeps_everything() {
    let (mut cols, mut stories, mut epics) = sample();
    delete_epic(&mut cols, &mut stories, &mut epics, &"nope".to_string());
    let (c0, s0, e0) = sample();
    assert_eq!(cols, c0);
    assert_eq!(stories, s0);
    assert_eq!(epics, e0);
}

#[test]
fn delete_story_takes_its_cards() {
    let (mut cols, mut stories, _) = sample();
    delete_story(&mut cols, &mut stories, &"s1".to_string());
    assert_eq!(card_ids(&cols), vec![vec!["c1".to_string(), "c3".to_string()], vec!["c4".to_string()]]);
    assert_eq!(stories.len(), 1);
    assert_eq!(stories[0].id, "s2");
}

#[test]
fn delete_space_unassigns_epics() {
    let (_, _, mut epics) = sample();
    let mut spaces = vec![
        Space { id: "sp".to_string(), name: "S".to_string(), color: "#000".to_string(), desc: String::new() },
        Space { id: "other".to_string(), name: "O".to_string(), color: "#111".to_string(), desc: String::new() },
    ];
    delete_space(&mut epics, &mut spaces, &"sp".to_string());
    assert_eq!(epics.len(), 2);
    assert_eq!(epics[0].space_id, None);
    assert_eq!(epics[0].id, "e1");
    assert_eq!(spaces.len(), 1);
    assert_eq!(spaces[0].id, "other");
}

#[test]
fn add_space_and_epic_and_story() {
    let mut spaces = vec![];
    add_space_with_id(&mut spaces, "s".to_string(), "N".to_string(), "#1".to_string(), "D".to_string());
    add_space(&mut spaces, "M".to_string(), "#2".to_string(), "E".to_string());
    assert_eq!(spaces[0], Space { id: "s".to_string(), name: "N".to_string(), color: "#1".to_string(), desc: "D".to_string() });
    assert_eq!(spaces[1].name, "M");
    assert_eq!(spaces[1].id.len(), 36);

    let mut epics = vec![];
    add_epic_with_id(&mut epics, "e".to_string(), "T".to_string(), "D".to_string(), "#c".to_string(), "2026-01-01".to_string(), 2.5f32.to_bits(), None);
    add_epic(&mut epics, "T2".to_string(), "D2".to_string(), "#d".to_string(), "".to_string(), 1.0f32.to_bits(), Some("s".to_string()));
    assert_eq!(epics[0].id, "e");
    assert_eq!(f32::from_bits(epics[0].estimated_hours_bits), 2.5);
    assert_eq!(epics[1].title, "T2");
    assert_eq!(epics[1].space_id.as_deref(), Some("s"));
    assert_eq!(epics[1].direct_logged_secs, 0);

    let mut stories = vec![];
    add_story_with_id(&mut stories, "st".to_string(), "e".to_string(), "Story".to_string());
    add_story(&mut stories, "e".to_string(), "Other".to_string());
    assert_eq!(stories[0].id, "st");
    assert_eq!(stories[1].epic_id, "e");
    assert_eq!(stories[1].title, "Other");
    assert!(stories[1].resources.is_empty());
}

#[test]
fn tag_ids_from_names() {
    assert_eq!(tag_id_for("Tech Debt"), "tech-debt");
    assert_eq!(tag_id_for("UX"), "ux");
    assert_eq!(tag_id_for("  A B  "), "--a-b--");
    assert_eq!(tag_id_for("Ärger Straße"), "ärger-straße");
}

#[test]
fn add_tag_is_idempotent_by_id() {
    let mut tags = vec![TagDef::new("bug", "Bug", "#f00")];
    add_tag(&mut tags, "Tech Debt", "#0f0");
    assert_eq!(tags.len(), 2);
    assert_eq!(tags[1], TagDef::new("tech-debt", "Tech Debt", "#0f0"));
    add_tag(&mut tags, "TECH debt", "#00f");
    assert_eq!(tags.len(), 2);
    add_tag(&mut tags, "BUG", "#123");
    assert_eq!(tags.len(), 2);
    delete_tag(&mut tags, &"bug".to_string());
    assert_eq!(tags, vec![TagDef::new("tech-debt", "Tech Debt", "#0f0")]);
}

#[test]
fn attach_resource_to_each_kind() {
    let (mut cols, mut stories, mut epics) = sample();
    let r = Resource::with_id("r".to_string(), "T", "U", ResourceKind::Link, "");
    attach_resource(&Entity::Card("c5".to_string()), r.clone(), &mut cols, &mut stories, &mut epics);
    assert_eq!(cols[1].cards[1].resources, vec![r.clone()]);
    attach_resource(&Entity::Story("s2".to_string()), r.clone(), &mut cols, &mut stories, &mut epics);
    assert_eq!(stories[1].resources, vec![r.clone()]);
    attach_resource(&Entity::Epic("e1".to_string()), r.clone(), &mut cols, &mut stories, &mut epics);
    assert_eq!(epics[0].resources, vec![r.clone()]);
    let before = (cols.clone(), stories.clone(), epics.clone());
    attach_resource(&Entity::Epic("missing".to_string()), r, &mut cols, &mut stories, &mut epics);
    assert_eq!((cols, stories, epics), before);
}

#[test]
fn log_second_on_each_kind() {
    let (mut cols, mut stories, mut epics) = sample();
    log_second(&Entity::Card("c4".to_string()), &mut cols, &mut stories, &mut epics);
    log_second(&Entity::Card("c4".to_string()), &mut cols, &mut stories, &mut epics);
    assert_eq!(cols[1].cards[0].logged_secs, 2);
    log_second(&Entity::Story("s1".to_string()), &mut cols, &mut stories, &mut epics);
    assert_eq!(stories[0].direct_logged_secs, 1);
    log_second(&Entity::Epic("e2".to_string()), &mut cols, &mut stories, &mut epics);
    assert_eq!(epics[1].direct_logged_secs, 1);
    assert_eq!(epics[0].direct_logged_secs, 0);
    log_second(&Entity::Card("ghost".to_string()), &mut cols, &mut stories, &mut epics);
    assert_eq!(cols.iter().map(|c| c.cards.iter().map(|k| k.logged_secs).sum::<u64>()).sum::<u64>(), 2);
}
