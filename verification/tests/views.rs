use kanban_wasm::model::{Card, Column, Epic, Resource, ResourceKind, Story, Subtask, TagDef};
use kanban_wasm::serve::{asset_path, plan_response, ServedAsset};
use kanban_wasm::text::{is_blank, push_decimal, same_text, spaces_to_hyphens};
use kanban_wasm::views::{
    add_link, card_border_style, card_logged_secs, chosen_id, column_card_count, column_title_class, epic_badge_style,
    epic_color_of, epic_direct_secs, epic_title_for, find_card, is_overdue, remove_resource_at, date_text, story_title_for,
    subtask_label, tag_badge, tag_preview, tasks_label, text_before,
};

fn epic(id: &str, color: &str) -> Epic {
    Epic {
        id: id.to_string(),
        title: format!("Epic {}", id),
        desc: String::new(),
        color: color.to_string(),
        deadline: String::new(),
        estimated_hours_bits: 0,
        direct_logged_secs: 9,
        resources: vec![],
        space_id: None,
    }
}

#[test]
fn column_title_classes() {
    assert_eq!(column_title_class("todo"), "column-title todo");
    assert_eq!(column_title_class("in-progress"), "column-title in-prog");
    assert_eq!(column_title_class("review"), "column-title review");
    assert_eq!(column_title_class("done"), "column-title done");
    assert_eq!(column_title_class("custom"), "column-title");
}

#[test]
fn deadlines_before_today_are_overdue() {
    assert!(is_overdue("2026-03-29", "2026-03-30"));
    assert!(!is_overdue("2026-03-30", "2026-03-30"));
    assert!(!is_overdue("2026-06-30", "2026-03-30"));
    assert!(is_overdue("2026-04-01", "2026-05-01"));
    assert!(is_overdue("2026-04-15", "2027-01-01"));
    assert!(!is_overdue("2026-04-15", "2026-04-14"));
    assert!(is_overdue("", "2026-03-30"));
    assert!(is_overdue("2026", "2026-03-30"));
    assert!(!is_overdue("9", "2026-03-30"));
    assert!(text_before("a", "b"));
    assert!(!text_before("b", "a"));
    assert!(text_before("ab", "abc"));
    assert!(!text_before("abc", "abc"));
    assert_eq!(text_before("é", "z"), "é" < "z");
}

#[test]
fn border_style_follows_epic_color() {
    let epics = vec![epic("e1", "#123456"), epic("e2", "")];
    assert_eq!(card_border_style(&Some("e1".to_string()), &epics), "border-left: 3px solid #123456;");
    assert_eq!(card_border_style(&Some("e2".to_string()), &epics), "");
    assert_eq!(card_border_style(&Some("x".to_string()), &epics), "");
    assert_eq!(card_border_style(&None, &epics), "");
}

#[test]
fn tag_badges() {
    let tags = vec![TagDef::new("bug", "Bug", "#f00")];
    let (name, style) = tag_badge(&"bug".to_string(), &tags);
    assert_eq!(name, "Bug");
    assert_eq!(style, tags[0].badge_style());
    let (name, style) = tag_badge(&"gone".to_string(), &tags);
    assert_eq!(name, "gone");
    assert_eq!(style, "");
    let (n, st) = tag_preview("", "#0f0");
    assert_eq!(n, "Tag name");
    assert_eq!(
        st,
        "background:#0f028;color:#0f0;border:1px solid #0f055;padding:2px 8px;border-radius:5px;font-size:0.8rem;font-weight:600;display:inline-block;"
    );
    assert_eq!(tag_preview("Ops", "#0f0").0, "Ops");
}

#[test]
fn subtask_and_task_labels() {
    let mut c = Card::with_id("c".to_string(), "t", "", "task", None, None);
    assert_eq!(subtask_label(&c), None);
    for (i, done) in [true, false, true].iter().enumerate() {
        c.subtasks.push(Subtask { id: i.to_string(), title: String::new(), done: *done, resources: vec![] });
    }
    assert_eq!(subtask_label(&c), Some("2/3 subtasks".to_string()));
    assert_eq!(tasks_label(1, 12), "1/12 tasks");
    assert_eq!(epic_badge_style("#abc"), "background:#abc22;color:#abc;border:1px solid #abc44;");
}

#[test]
fn lookups_by_id() {
    let epics = vec![epic("e1", "#111")];
    assert_eq!(epic_title_for(&Some("e1".to_string()), &epics), "Epic e1");
    assert_eq!(epic_title_for(&None, &epics), "");
    assert_eq!(epic_color_of(&"e1".to_string(), &epics), "#111");
    assert_eq!(epic_color_of(&"e9".to_string(), &epics), "");
    assert_eq!(epic_direct_secs(&epics, &"e1".to_string()), 9);
    assert_eq!(epic_direct_secs(&epics, &"e9".to_string()), 0);
    let stories = vec![Story { id: "s".to_string(), epic_id: "e1".to_string(), title: "S!".to_string(), direct_logged_secs: 0, resources: vec![] }];
    assert_eq!(story_title_for(&Some("s".to_string()), &stories), "S!");
    assert_eq!(story_title_for(&Some("t".to_string()), &stories), "");
    let mut k = Card::with_id("k".to_string(), "K", "", "task", None, None);
    k.logged_secs = 77;
    let cols = vec![Column { id: "todo".to_string(), title: "T".to_string(), cards: vec![k] }];
    assert_eq!(find_card(&cols, &"k".to_string()).map(|c| c.title.clone()), Some("K".to_string()));
    assert!(find_card(&cols, &"q".to_string()).is_none());
    assert_eq!(card_logged_secs(&cols, &"k".to_string()), 77);
    assert_eq!(card_logged_secs(&cols, &"q".to_string()), 0);
    assert_eq!(column_card_count(&cols, &"todo".to_string()), 1);
    assert_eq!(column_card_count(&cols, &"done".to_string()), 0);
}

#[test]
fn form_helpers() {
    assert_eq!(chosen_id(String::new()), None);
    assert_eq!(chosen_id("e1".to_string()), Some("e1".to_string()));
    assert!(is_blank(""));
    assert!(is_blank(" \t\n\u{3000}"));
    assert!(!is_blank(" x "));
    let mut res: Vec<Resource> = vec![];
    add_link(&mut res, "  ", "   ");
    assert!(res.is_empty());
    add_link(&mut res, " ", "https://a.example");
    assert_eq!(res[0].title, "https://a.example");
    assert_eq!(res[0].kind, ResourceKind::Link);
    add_link(&mut res, "Docs", "https://b.example");
    assert_eq!(res[1].title, "Docs");
    assert_eq!(res[1].notes, "");
    remove_resource_at(&mut res, 5);
    assert_eq!(res.len(), 2);
    remove_resource_at(&mut res, 0);
    assert_eq!(res.len(), 1);
    assert_eq!(res[0].title, "Docs");
}

#[test]
fn text_helpers() {
    assert!(same_text("abc", "abc"));
    assert!(!same_text("abc", "abd"));
    assert!(!same_text("ab", "abc"));
    assert_eq!(spaces_to_hyphens("a b  c"), "a-b--c");
    let mut s = String::from("n=");
    push_decimal(&mut s, 1203);
    assert_eq!(s, "n=1203");
}

#[test]
fn asset_paths() {
    assert_eq!(asset_path("/"), "index.html");
    assert_eq!(asset_path(""), "index.html");
    assert_eq!(asset_path("/?x=1"), "index.html");
    assert_eq!(asset_path("/app.js?v=3"), "app.js");
    assert_eq!(asset_path("//style.css"), "style.css");
    assert_eq!(asset_path("/a/b.wasm"), "a/b.wasm");
    assert_eq!(asset_path(&asset_path("//x?y")), asset_path("//x?y"));
}

#[test]
fn responses_use_guessed_content_types() {
    assert_eq!(
        plan_response("style.css", true, true),
        Some(ServedAsset { path: "style.css".to_string(), content_type: "text/css".to_string() })
    );
    assert_eq!(plan_response("app.wasm", true, false).unwrap().content_type, "application/wasm");
    assert_eq!(plan_response("index.html", true, true).unwrap().content_type, "text/html");
    assert_eq!(plan_response("LICENSE", true, true).unwrap().content_type, "application/octet-stream");
    assert_eq!(
        plan_response("missing.png", false, true),
        Some(ServedAsset { path: "index.html".to_string(), content_type: "text/html; charset=utf-8".to_string() })
    );
    assert_eq!(plan_response("missing.png", false, false), None);
}

#[test]
fn dates_are_written_year_month_day() {
    assert_eq!(date_text(2026, 5, 1), "2026-05-01");
    assert_eq!(date_text(2026, 12, 31), "2026-12-31");
    assert_eq!(date_text(999, 1, 9), "0999-01-09");
    assert_eq!(date_text(7, 10, 10), "0007-10-10");
    assert_eq!(date_text(12345, 1, 1), "12345-01-01");
    assert!(is_overdue("2026-04-01", &date_text(2026, 5, 1)));
}

#[test]
fn blank_agrees_with_std_white_space() {
    for u in 0u32..0x11_0000 {
        if let Some(c) = char::from_u32(u) {
            let s = c.to_string();
            assert_eq!(is_blank(&s), c.is_whitespace(), "code point {}", u);
            assert_eq!(is_blank(&s), s.trim().is_empty(), "code point {}", u);
        }
    }
}
