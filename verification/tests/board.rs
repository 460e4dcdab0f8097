use kanban_wasm::columns::{
    add_card, add_card_to_column, add_column, add_column_with_id, column_position, delete_card, delete_column,
    edit_card, move_card, reorder_columns,
};
use kanban_wasm::model::{Card, Column, Resource, ResourceKind};

fn card(id: &str) -> Card {
    Card::with_id(id.to_string(), id, "", "task", None, None)
}

fn col(id: &str, cards: &[&str]) -> Column {
    Column { id: id.to_string(), title: id.to_uppercase(), cards: cards.iter().map(|c| card(c)).collect() }
}

fn board() -> Vec<Column> {
    vec![col("todo", &["a", "b"]), col("doing", &["c"]), col("done", &[])]
}

fn layout(cols: &[Column]) -> Vec<(String, Vec<String>)> {
    cols.iter().map(|c| (c.id.clone(), c.cards.iter().map(|k| k.id.clone()).collect())).collect()
}

fn l(v: &[(&str, &[&str])]) -> Vec<(String, Vec<String>)> {
    v.iter().map(|(c, ks)| (c.to_string(), ks.iter().map(|k| k.to_string()).collect())).collect()
}

#[test]
fn move_card_to_bottom_of_target() {
    let mut cols = board();
    move_card(&mut cols, &"a".to_string(), &"todo".to_string(), &"doing".to_string());
    assert_eq!(layout(&cols), l(&[("todo", &["b"]), ("doing", &["c", "a"]), ("done", &[])]));
}

#[test]
fn move_card_onto_own_column_changes_nothing() {
    let mut cols = board();
    move_card(&mut cols, &"a".to_string(), &"todo".to_string(), &"todo".to_string());
    assert_eq!(layout(&cols), layout(&board()));
}

#[test]
fn move_card_from_wrong_column_changes_nothing() {
    let mut cols = board();
    move_card(&mut cols, &"a".to_string(), &"doing".to_string(), &"done".to_string());
    assert_eq!(layout(&cols), layout(&board()));
}

#[test]
fn move_card_to_missing_column_drops_it() {
    let mut cols = board();
    move_card(&mut cols, &"a".to_string(), &"todo".to_string(), &"nowhere".to_string());
    assert_eq!(layout(&cols), l(&[("todo", &["b"]), ("doing", &["c"]), ("done", &[])]));
}

#[test]
fn delete_card_removes_first_occurrence_only() {
    let mut cols = vec![col("x", &["a", "b", "a"]), col("y", &["a"])];
    delete_card(&mut cols, &"a".to_string());
    assert_eq!(layout(&cols), l(&[("x", &["b", "a"]), ("y", &["a"])]));
    delete_card(&mut cols, &"zzz".to_string());
    assert_eq!(layout(&cols), l(&[("x", &["b", "a"]), ("y", &["a"])]));
}

#[test]
fn add_card_goes_to_first_matching_column() {
    let mut cols = board();
    add_card_to_column(&mut cols, &"done".to_string(), card("n"));
    assert_eq!(layout(&cols), l(&[("todo", &["a", "b"]), ("doing", &["c"]), ("done", &["n"])]));
    add_card_to_column(&mut cols, &"missing".to_string(), card("m"));
    assert_eq!(layout(&cols), l(&[("todo", &["a", "b"]), ("doing", &["c"]), ("done", &["n"])]));
}

#[test]
fn add_card_creates_fresh_card() {
    let mut cols = board();
    add_card(&mut cols, &"doing".to_string(), "New", "Desc", "bug", Some("e".to_string()), None);
    let added = &cols[1].cards[1];
    assert_eq!(added.title, "New");
    assert_eq!(added.tag, "bug");
    assert_eq!(added.epic_id.as_deref(), Some("e"));
    assert_eq!(added.id.len(), 36);
}

#[test]
fn add_then_delete_card_restores_board() {
    let mut cols = board();
    add_card_to_column(&mut cols, &"todo".to_string(), card("fresh"));
    delete_card(&mut cols, &"fresh".to_string());
    assert_eq!(layout(&cols), layout(&board()));
}

#[test]
fn edit_card_keeps_id_subtasks_and_time() {
    let mut cols = board();
    cols[0].cards[1].logged_secs = 42;
    let res = vec![Resource::with_id("r".to_string(), "Doc", "u", ResourceKind::Doc, "")];
    edit_card(
        &mut cols,
        &"b".to_string(),
        "New title".to_string(),
        "New desc".to_string(),
        "bug".to_string(),
        Some("e1".to_string()),
        Some("s1".to_string()),
        res.clone(),
    );
    let c = &cols[0].cards[1];
    assert_eq!(c.id, "b");
    assert_eq!(c.title, "New title");
    assert_eq!(c.desc, "New desc");
    assert_eq!(c.tag, "bug");
    assert_eq!(c.epic_id.as_deref(), Some("e1"));
    assert_eq!(c.story_id.as_deref(), Some("s1"));
    assert_eq!(c.resources, res);
    assert_eq!(c.logged_secs, 42);
}

#[test]
fn add_and_delete_column() {
    let mut cols = board();
    add_column_with_id(&mut cols, "qa".to_string(), "QA".to_string());
    assert_eq!(cols.len(), 4);
    assert_eq!(cols[3].id, "qa");
    assert_eq!(cols[3].title, "QA");
    assert!(cols[3].cards.is_empty());
    delete_column(&mut cols, &"qa".to_string());
    assert_eq!(layout(&cols), layout(&board()));
    add_column(&mut cols, "Blocked".to_string());
    assert_eq!(cols[3].title, "Blocked");
    assert_eq!(cols[3].id.len(), 36);
}

#[test]
fn delete_column_removes_all_with_id() {
    let mut cols = vec![col("a", &["1"]), col("b", &[]), col("a", &[])];
    delete_column(&mut cols, &"a".to_string());
    assert_eq!(layout(&cols), l(&[("b", &[])]));
}

#[test]
fn reorder_columns_moves_source_to_target_place() {
    let mut cols = board();
    reorder_columns(&mut cols, &"todo".to_string(), &"done".to_string());
    let ids: Vec<&str> = cols.iter().map(|c| c.id.as_str()).collect();
    assert_eq!(ids, vec!["doing", "done", "todo"]);
    reorder_columns(&mut cols, &"todo".to_string(), &"doing".to_string());
    let ids: Vec<&str> = cols.iter().map(|c| c.id.as_str()).collect();
    assert_eq!(ids, vec!["todo", "doing", "done"]);
    reorder_columns(&mut cols, &"todo".to_string(), &"missing".to_string());
    let ids: Vec<&str> = cols.iter().map(|c| c.id.as_str()).collect();
    assert_eq!(ids, vec!["todo", "doing", "done"]);
}

#[test]
fn column_position_finds_first() {
    let cols = vec![col("a", &[]), col("b", &[]), col("a", &[])];
    assert_eq!(column_position(&cols, &"a".to_string()), Some(0));
    assert_eq!(column_position(&cols, &"b".to_string()), Some(1));
    assert_eq!(column_position(&cols, &"c".to_string()), None);
}
