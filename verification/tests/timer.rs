use kanban_wasm::nav::{parse_target_choice, reorder_tabs, target_choice_value, TargetChoice};
use kanban_wasm::model::Entity;
use kanban_wasm::timer::{timer_entity, Timer, TimerCommand, TimerMode};

fn target(kind: &str, id: &str) -> Option<(String, String)> {
    Some((kind.to_string(), id.to_string()))
}

#[test]
fn new_timer_is_a_stopped_work_session() {
    let t = Timer::new();
    assert_eq!(t, Timer { secs: 1500, running: false, mode: TimerMode::Work, target: None });
    assert_eq!(t.mode.label(), "Work");
    assert_eq!(TimerMode::Break.label(), "Break");
}

#[test]
fn toggle_starts_and_stops() {
    let mut t = Timer::new();
    assert_eq!(t.toggle(), TimerCommand::StartTicking);
    assert!(t.running);
    assert_eq!(t.toggle(), TimerCommand::StopTicking);
    assert!(!t.running);
}

#[test]
fn ticks_log_during_work_only() {
    let mut t = Timer::new();
    t.set_target(target("epic", "e1"));
    t.toggle();
    let o = t.tick();
    assert_eq!(o.log, target("epic", "e1"));
    assert!(!o.finished);
    assert_eq!(t.secs, 1499);
    t.skip();
    assert_eq!(t.mode, TimerMode::Break);
    assert_eq!(t.secs, 300);
    let o = t.tick();
    assert_eq!(o.log, None);
    assert_eq!(t.secs, 299);
}

#[test]
fn full_work_session_logs_every_second_then_breaks() {
    let mut t = Timer::new();
    t.set_target(target("task", "c"));
    t.toggle();
    let mut logged = 0;
    let mut finished = 0;
    for _ in 0..1500 {
        let o = t.tick();
        if o.log.is_some() {
            logged += 1;
        }
        if o.finished {
            finished += 1;
        }
    }
    assert_eq!(logged, 1500);
    assert_eq!(finished, 1);
    assert_eq!(t.mode, TimerMode::Break);
    assert_eq!(t.secs, 300);
    assert!(!t.running);
}

#[test]
fn break_ends_in_work() {
    let mut t = Timer { secs: 1, running: true, mode: TimerMode::Break, target: None };
    let o = t.tick();
    assert!(o.finished);
    assert_eq!(o.log, None);
    assert_eq!(t, Timer { secs: 1500, running: false, mode: TimerMode::Work, target: None });
}

#[test]
fn reset_and_skip() {
    let mut t = Timer { secs: 17, running: true, mode: TimerMode::Break, target: target("story", "s") };
    t.reset();
    assert_eq!(t, Timer { secs: 1500, running: false, mode: TimerMode::Work, target: target("story", "s") });
    t.skip();
    t.skip();
    assert_eq!(t.mode, TimerMode::Work);
    assert_eq!(t.secs, 1500);
}

#[test]
fn timer_kinds_name_entities() {
    assert_eq!(timer_entity("task", "c".to_string()), Some(Entity::Card("c".to_string())));
    assert_eq!(timer_entity("story", "s".to_string()), Some(Entity::Story("s".to_string())));
    assert_eq!(timer_entity("epic", "e".to_string()), Some(Entity::Epic("e".to_string())));
    assert_eq!(timer_entity("card", "c".to_string()), None);
}

#[test]
fn target_choices_roundtrip() {
    let v = target_choice_value("epic", "epic-1");
    assert_eq!(v, "epic:epic-1");
    assert_eq!(parse_target_choice(&v), TargetChoice::Pick("epic".to_string(), "epic-1".to_string()));
    assert_eq!(parse_target_choice("task:a:b"), TargetChoice::Pick("task".to_string(), "a:b".to_string()));
    assert_eq!(parse_target_choice(""), TargetChoice::Clear);
    assert_eq!(parse_target_choice("nocolon"), TargetChoice::Keep);
    assert_eq!(parse_target_choice(":x"), TargetChoice::Pick(String::new(), "x".to_string()));
}

#[test]
fn tabs_reorder_by_key() {
    let mut items = vec![
        ("Board".to_string(), "board".to_string()),
        ("Dashboard".to_string(), "dashboard".to_string()),
        ("Resources".to_string(), "resources".to_string()),
    ];
    reorder_tabs(&mut items, &"resources".to_string(), &"board".to_string());
    let keys: Vec<&str> = items.iter().map(|i| i.1.as_str()).collect();
    assert_eq!(keys, vec!["resources", "board", "dashboard"]);
    reorder_tabs(&mut items, &"resources".to_string(), &"dashboard".to_string());
    let keys: Vec<&str> = items.iter().map(|i| i.1.as_str()).collect();
    assert_eq!(keys, vec!["board", "dashboard", "resources"]);
    reorder_tabs(&mut items, &"x".to_string(), &"board".to_string());
    let keys: Vec<&str> = items.iter().map(|i| i.1.as_str()).collect();
    assert_eq!(keys, vec!["board", "dashboard", "resources"]);
}
