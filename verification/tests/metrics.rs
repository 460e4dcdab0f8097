use kanban_wasm::metrics::{
    epic_progress, epic_secs_by_id, epic_secs_by_id_checked, story_secs_by_id_checked, epic_total_checked, epic_total_secs, fmt_clock, fmt_duration, progress_percent,
    story_progress, story_secs_by_id, story_total_checked, story_total_secs, tag_card_count, task_total_secs,
    total_card_count,
};
use kanban_wasm::model::{Card, Column, Epic, Story};
use kanban_wasm::views::{epics_in_space, space_total_checked, space_total_secs};

fn card(id: &str, epic: Option<&str>, story: Option<&str>, secs: u64, tag: &str) -> Card {
    let mut c = Card::with_id(id.to_string(), id, "", tag, epic.map(|s| s.to_string()), story.map(|s| s.to_string()));
    c.logged_secs = secs;
    c
}

fn epic(id: &str, direct: u64, space: Option<&str>) -> Epic {
    Epic {
        id: id.to_string(),
        title: id.to_string(),
        desc: String::new(),
        color: "#abc".to_string(),
        deadline: String::new(),
        estimated_hours_bits: 0,
        direct_logged_secs: direct,
        resources: vec![],
        space_id: space.map(|s| s.to_string()),
    }
}

fn story(id: &str, epic: &str, direct: u64) -> Story {
    Story { id: id.to_string(), epic_id: epic.to_string(), title: id.to_string(), direct_logged_secs: direct, resources: vec![] }
}

fn board() -> Vec<Column> {
    vec![
        Column {
            id: "todo".to_string(),
            title: "To Do".to_string(),
            cards: vec![
                card("a", Some("e1"), Some("s1"), 10, "bug"),
                card("b", Some("e1"), None, 20, "task"),
                card("c", None, Some("s2"), 40, "bug"),
            ],
        },
        Column {
            id: "done".to_string(),
            title: "Done".to_string(),
            cards: vec![card("d", Some("e1"), Some("s1"), 100, "bug"), card("e", Some("e1"), None, 1000, "task")],
        },
    ]
}

#[test]
fn task_and_story_totals() {
    let cols = board();
    assert_eq!(task_total_secs(&cols[0].cards[1]), 20);
    let s1 = story("s1", "e1", 5);
    assert_eq!(story_total_secs(&s1, &cols), 115);
    assert_eq!(story_total_checked(&s1, &cols), Some(115));
    let s2 = story("s2", "e1", 0);
    assert_eq!(story_total_secs(&s2, &cols), 40);
}

#[test]
fn epic_total_counts_direct_stories_and_loose_cards() {
    let cols = board();
    let stories = vec![story("s1", "e1", 5), story("s2", "e1", 1), story("s3", "e2", 7)];
    let e1 = epic("e1", 3, None);
    // 3 direct + (5 + 10 + 100) + (1 + 40) + loose 20 + 1000
    assert_eq!(epic_total_secs(&e1, &stories, &cols), 1179);
    assert_eq!(epic_total_checked(&e1, &stories, &cols), Some(1179));
    let e2 = epic("e2", 0, None);
    assert_eq!(epic_total_secs(&e2, &stories, &cols), 7);
}

#[test]
fn totals_by_id() {
    let cols = board();
    let stories = vec![story("s1", "e1", 5)];
    let epics = vec![epic("e1", 3, None)];
    assert_eq!(story_secs_by_id(&stories, &cols, &"s1".to_string()), 115);
    assert_eq!(story_secs_by_id(&stories, &cols, &"zz".to_string()), 0);
    assert_eq!(epic_secs_by_id(&epics, &stories, &cols, &"e1".to_string()), 3 + 115 + 1020);
    assert_eq!(epic_secs_by_id(&epics, &stories, &cols, &"zz".to_string()), 0);
    assert_eq!(story_secs_by_id_checked(&stories, &cols, &"s1".to_string()), Some(115));
    assert_eq!(story_secs_by_id_checked(&stories, &cols, &"zz".to_string()), Some(0));
    assert_eq!(epic_secs_by_id_checked(&epics, &stories, &cols, &"e1".to_string()), Some(3 + 115 + 1020));
    assert_eq!(epic_secs_by_id_checked(&epics, &stories, &cols, &"zz".to_string()), Some(0));
}

#[test]
fn by_id_totals_report_overflow() {
    let cols = vec![Column {
        id: "x".to_string(),
        title: "X".to_string(),
        cards: vec![card("a", Some("e"), Some("s"), u64::MAX, "t"), card("b", Some("e"), Some("s"), 1, "t")],
    }];
    let stories = vec![story("s", "e", 0)];
    let epics = vec![epic("e", 0, None)];
    assert_eq!(story_secs_by_id_checked(&stories, &cols, &"s".to_string()), None);
    assert_eq!(epic_secs_by_id_checked(&epics, &stories, &cols, &"e".to_string()), None);
    assert_eq!(story_secs_by_id_checked(&stories, &cols, &"other".to_string()), Some(0));
}

#[test]
fn totals_do_not_depend_on_where_cards_sit() {
    let cols = board();
    let stories = vec![story("s1", "e1", 5), story("s2", "e1", 1)];
    let e1 = epic("e1", 3, None);
    let mut moved = board();
    let d = moved[1].cards.remove(0);
    moved[0].cards.insert(0, d);
    moved.reverse();
    for s in &stories {
        assert_eq!(story_total_secs(s, &moved), story_total_secs(s, &cols));
    }
    assert_eq!(epic_total_secs(&e1, &stories, &moved), epic_total_secs(&e1, &stories, &cols));
    assert_eq!(epic_total_secs(&e1, &stories, &moved), 1179);
}

#[test]
fn overflowing_totals_are_reported() {
    let cols = vec![Column {
        id: "x".to_string(),
        title: "X".to_string(),
        cards: vec![card("a", None, Some("s"), u64::MAX, "t"), card("b", None, Some("s"), 1, "t")],
    }];
    assert_eq!(story_total_checked(&story("s", "e", 0), &cols), None);
    assert_eq!(story_total_checked(&story("s", "e", 1), &vec![]), Some(1));
    let big = epic("e", u64::MAX, None);
    assert_eq!(epic_total_checked(&big, &vec![story("s", "e", 1)], &vec![]), None);
    assert_eq!(epic_total_checked(&big, &vec![], &vec![]), Some(u64::MAX));
}

#[test]
fn progress_counts_done_column() {
    let cols = board();
    let p = epic_progress(&cols, &"e1".to_string());
    assert_eq!((p.done, p.total), (2, 4));
    assert_eq!(progress_percent(p.done, p.total), 50);
    let p = story_progress(&cols, &"s1".to_string());
    assert_eq!((p.done, p.total), (1, 2));
    assert_eq!(progress_percent(0, 0), 0);
    assert_eq!(progress_percent(1, 3), 33);
    assert_eq!(progress_percent(3, 3), 100);
    let nodone = vec![board().remove(0)];
    let p = epic_progress(&nodone, &"e1".to_string());
    assert_eq!((p.done, p.total), (0, 2));
}

#[test]
fn tag_counts_and_total_cards() {
    let cols = board();
    assert_eq!(tag_card_count(&cols, &"bug".to_string()), 3);
    assert_eq!(tag_card_count(&cols, &"design".to_string()), 0);
    assert_eq!(total_card_count(&cols), Some(5));
}

#[test]
fn durations_are_shown_in_hours_and_minutes() {
    assert_eq!(fmt_duration(0), "0m");
    assert_eq!(fmt_duration(59), "0m");
    assert_eq!(fmt_duration(60), "1m");
    assert_eq!(fmt_duration(3599), "59m");
    assert_eq!(fmt_duration(3600), "1h 0m");
    assert_eq!(fmt_duration(7500), "2h 5m");
    assert_eq!(fmt_duration(36000 * 10 + 125), "100h 2m");
    assert_eq!(fmt_duration(u64::MAX), "5124095576030431h 0m");
}

#[test]
fn clock_pads_minutes_and_seconds() {
    assert_eq!(fmt_clock(1500), "25:00");
    assert_eq!(fmt_clock(300), "05:00");
    assert_eq!(fmt_clock(61), "01:01");
    assert_eq!(fmt_clock(0), "00:00");
    assert_eq!(fmt_clock(6000), "100:00");
}

#[test]
fn space_figures() {
    let cols = board();
    let stories = vec![story("s1", "e1", 5)];
    let epics = vec![epic("e1", 3, Some("sp")), epic("e2", 4, Some("sp")), epic("e3", 9, None)];
    assert_eq!(epics_in_space(&epics, &"sp".to_string()), 2);
    assert_eq!(epics_in_space(&epics, &"none".to_string()), 0);
    assert_eq!(space_total_secs(&epics, &stories, &cols, &"sp".to_string()), 3 + 115 + 1020 + 4);
    assert_eq!(space_total_checked(&epics, &stories, &cols, &"sp".to_string()), Some(3 + 115 + 1020 + 4));
}
