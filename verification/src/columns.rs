//! Cards and columns of the board: adding, moving, editing and deleting them.

use vstd::prelude::*;
use crate::find::{
    first_where, lemma_first_where_congruent, lemma_first_where_none, lemma_first_where_some,
    move_item, moved_to, position_where, retain_where,
};
use crate::ids::{is_uuid_v4_text, new_id};
use crate::model::{is_fresh_card, Card, Column, Resource};

verus! {

/// The cards of each column, column by column.
pub open spec fn table(cols: Seq<Column>) -> Seq<Seq<Card>> {
    cols.map_values(|c: Column| c.cards@)
}

/// `new` has the columns of `old`, with the same ids and titles in the same
/// order; only the cards in them may differ.
pub open spec fn same_columns(old: Seq<Column>, new: Seq<Column>) -> bool {
    &&& new.len() == old.len()
    &&& forall|i: int|
        0 <= i < old.len() ==> (#[trigger] new[i]).id == old[i].id && new[i].title == old[i].title
}

/// A card with the id `id`.
pub open spec fn card_has_id(id: Seq<char>) -> spec_fn(Card) -> bool {
    |c: Card| c.id@ == id
}

/// A column with the id `id`.
pub open spec fn col_has_id(id: Seq<char>) -> spec_fn(Column) -> bool {
    |c: Column| c.id@ == id
}

/// A list of cards that holds a card with the id `id`.
pub open spec fn holds_card(id: Seq<char>) -> spec_fn(Seq<Card>) -> bool {
    |cards: Seq<Card>| first_where(cards, card_has_id(id)) is Some
}

/// Where the board finds the card `id`: the first column that holds it, and
/// its first position there.
pub open spec fn card_location(t: Seq<Seq<Card>>, id: Seq<char>) -> Option<(int, int)> {
    match first_where(t, holds_card(id)) {
        Some(i) => Some((i, first_where(t[i], card_has_id(id))->0)),
        None => None,
    }
}

/// The table with the card `id` taken out where the board finds it.
pub open spec fn table_without_card(t: Seq<Seq<Card>>, id: Seq<char>) -> Seq<Seq<Card>> {
    match card_location(t, id) {
        Some((i, k)) => t.update(i, t[i].remove(k)),
        None => t,
    }
}

/// The position of the first card with the id `id`.
pub fn card_position(cards: &Vec<Card>, id: &String) -> (r: Option<usize>)
    ensures
        r matches Some(k) ==> first_where(cards@, card_has_id(id@)) == Some(k as int),
        r is None ==> first_where(cards@, card_has_id(id@)) is None,
{
    let n = cards.len();
    let mut k: usize = 0;
    while k < n
        invariant
            n == cards@.len(),
            k <= n,
            forall|j: int| 0 <= j < k ==> !card_has_id(id@)(#[trigger] cards@[j]),
        decreases n - k,
    {
        if cards[k].id == *id {
            proof {
                lemma_first_where_some(cards@, card_has_id(id@), k as int);
            }
            return Some(k);
        }
        k += 1;
    }
    proof {
        lemma_first_where_none(cards@, card_has_id(id@));
    }
    None
}

/// Deletes the card `card_id` from the first column that holds it.
pub fn delete_card(cols: &mut Vec<Column>, card_id: &String)
    ensures
        same_columns(old(cols)@, final(cols)@),
        table(final(cols)@) == table_without_card(table(old(cols)@), card_id@),
{
    let ghost t = table(cols@);
    let n = cols.len();
    let mut i: usize = 0;
    while i < n
        invariant
            n == cols@.len(),
            i <= n,
            cols@ == old(cols)@,
            t == table(cols@),
            forall|j: int| 0 <= j < i ==> !holds_card(card_id@)(#[trigger] t[j]),
        decreases n - i,
    {
        match card_position(&cols[i].cards, card_id) {
            Some(k) => {
                proof {
                    lemma_first_where_some(t, holds_card(card_id@), i as int);
                }
                cols[i].cards.remove(k);
                assert(table(cols@) =~= table_without_card(t, card_id@));
                return;
            },
            None => {},
        }
        i += 1;
    }
    proof {
        lemma_first_where_none(t, holds_card(card_id@));
    }
}

/// The position of the first column with the id `id`.
pub fn column_position(cols: &Vec<Column>, id: &String) -> (r: Option<usize>)
    ensures
        r matches Some(i) ==> first_where(cols@, col_has_id(id@)) == Some(i as int),
        r is None ==> first_where(cols@, col_has_id(id@)) is None,
{
    position_where(
        cols,
        (|c: &Column| -> (b: bool)
            ensures
                b == (c.id@ == id@),
            { c.id == *id }),
        Ghost(col_has_id(id@)),
    )
}

/// Columns with the same ids in the same places have their first column of a
/// given id in the same place.
pub proof fn lemma_same_columns_position(old: Seq<Column>, new: Seq<Column>, id: Seq<char>)
    requires
        same_columns(old, new),
    ensures
        first_where(new, col_has_id(id)) == first_where(old, col_has_id(id)),
{
    assert forall|i: int| 0 <= i < new.len() implies col_has_id(id)(#[trigger] new[i]) == col_has_id(id)(old[i]) by {
        assert(new[i].id == old[i].id);
    }
    lemma_first_where_congruent(new, col_has_id(id), old, col_has_id(id));
}

/// The table with `card` put at the bottom of the first column with the id `col_id`.
pub open spec fn table_with_card(cols: Seq<Column>, col_id: Seq<char>, card: Card) -> Seq<Seq<Card>> {
    let t = table(cols);
    match first_where(cols, col_has_id(col_id)) {
        Some(i) => t.update(i, t[i].push(card)),
        None => t,
    }
}

/// Puts `card` at the bottom of the first column with the id `col_id`; without
/// such a column nothing changes.
pub fn add_card_to_column(cols: &mut Vec<Column>, col_id: &String, card: Card)
    ensures
        same_columns(old(cols)@, final(cols)@),
        table(final(cols)@) == table_with_card(old(cols)@, col_id@, card),
{
    match column_position(cols, col_id) {
        Some(i) => {
            cols[i].cards.push(card);
            assert(table(cols@) =~= table_with_card(old(cols)@, col_id@, card));
        },
        None => {
            assert(table(cols@) =~= table_with_card(old(cols)@, col_id@, card));
        },
    }
}

/// Creates a card under a fresh id and puts it at the bottom of the first
/// column with the id `col_id`; without such a column nothing changes.
pub fn add_card(
    cols: &mut Vec<Column>,
    col_id: &String,
    title: &str,
    desc: &str,
    tag: &str,
    epic_id: Option<String>,
    story_id: Option<String>,
)
    ensures
        same_columns(old(cols)@, final(cols)@),
        exists|c: Card|
            is_uuid_v4_text(c.id@) && is_fresh_card(c, title@, desc@, tag@, epic_id, story_id)
                && table(final(cols)@) == table_with_card(old(cols)@, col_id@, c),
{
    let card = Card::new_full(title, desc, tag, epic_id, story_id);
    let ghost c = card;
    add_card_to_column(cols, col_id, card);
    assert(table(cols@) == table_with_card(old(cols)@, col_id@, c));
}

/// The table after dragging the card `card_id` from the column `src` onto the
/// column `tgt`: the card leaves the first column with the id `src` and goes
/// to the bottom of the first column with the id `tgt`. A drop on the column
/// it came from changes nothing; when no column has the id `tgt` the card is
/// gone.
pub open spec fn table_after_move(cols: Seq<Column>, card_id: Seq<char>, src: Seq<char>, tgt: Seq<char>) -> Seq<Seq<Card>> {
    let t = table(cols);
    if src == tgt {
        t
    } else {
        match first_where(cols, col_has_id(src)) {
            None => t,
            Some(si) => match first_where(t[si], card_has_id(card_id)) {
                None => t,
                Some(k) => {
                    let t1 = t.update(si, t[si].remove(k));
                    match first_where(cols, col_has_id(tgt)) {
                        None => t1,
                        Some(ti) => t1.update(ti, t1[ti].push(t[si][k])),
                    }
                },
            },
        }
    }
}

/// Drags the card `card_id` from the column `src_col_id` onto the column
/// `target_col_id`.
pub fn move_card(cols: &mut Vec<Column>, card_id: &String, src_col_id: &String, target_col_id: &String)
    ensures
        same_columns(old(cols)@, final(cols)@),
        table(final(cols)@) == table_after_move(old(cols)@, card_id@, src_col_id@, target_col_id@),
{
    let ghost o = cols@;
    let ghost t = table(o);
    if *src_col_id == *target_col_id {
        return;
    }
    let si = match column_position(cols, src_col_id) {
        Some(si) => si,
        None => {
            return;
        },
    };
    let k = match card_position(&cols[si].cards, card_id) {
        Some(k) => k,
        None => {
            return;
        },
    };
    let card = cols[si].cards.remove(k);
    let ghost t1 = table(cols@);
    assert(t1 =~= t.update(si as int, t[si as int].remove(k as int)));
    proof {
        lemma_same_columns_position(o, cols@, target_col_id@);
    }
    match column_position(cols, target_col_id) {
        Some(ti) => {
            cols[ti].cards.push(card);
            assert(table(cols@) =~= t1.update(ti as int, t1[ti as int].push(t[si as int][k as int])));
        },
        None => {},
    }
}

/// `c` with the contents that the edit dialog saves.
pub open spec fn edited_card(
    c: Card,
    title: String,
    desc: String,
    tag: String,
    epic_id: Option<String>,
    story_id: Option<String>,
    resources: Vec<Resource>,
) -> Card {
    Card { title, desc, tag, epic_id, story_id, resources, ..c }
}

/// The change that the edit dialog saves.
pub open spec fn edit_with(
    title: String,
    desc: String,
    tag: String,
    epic_id: Option<String>,
    story_id: Option<String>,
    resources: Vec<Resource>,
) -> spec_fn(Card) -> Card {
    |c: Card| edited_card(c, title, desc, tag, epic_id, story_id, resources)
}

/// The table with the card `id`, where the board finds it, changed by `f`.
pub open spec fn table_updating_card(t: Seq<Seq<Card>>, id: Seq<char>, f: spec_fn(Card) -> Card) -> Seq<Seq<Card>> {
    match card_location(t, id) {
        Some((i, k)) => t.update(i, t[i].update(k, f(t[i][k]))),
        None => t,
    }
}

/// Saves an edit of the card `card_id`: its title, description, tag, epic,
/// story and resources; its id, subtasks and logged time stay.
pub fn edit_card(
    cols: &mut Vec<Column>,
    card_id: &String,
    title: String,
    desc: String,
    tag: String,
    epic_id: Option<String>,
    story_id: Option<String>,
    resources: Vec<Resource>,
)
    ensures
        same_columns(old(cols)@, final(cols)@),
        table(final(cols)@) == table_updating_card(
            table(old(cols)@),
            card_id@,
            edit_with(title, desc, tag, epic_id, story_id, resources),
        ),
{
    let ghost t = table(cols@);
    let ghost f = edit_with(title, desc, tag, epic_id, story_id, resources);
    let n = cols.len();
    let mut i: usize = 0;
    while i < n
        invariant
            n == cols@.len(),
            i <= n,
            cols@ == old(cols)@,
            t == table(cols@),
            f == edit_with(title, desc, tag, epic_id, story_id, resources),
            forall|j: int| 0 <= j < i ==> !holds_card(card_id@)(#[trigger] t[j]),
        decreases n - i,
    {
        match card_position(&cols[i].cards, card_id) {
            Some(k) => {
                proof {
                    lemma_first_where_some(t, holds_card(card_id@), i as int);
                }
                let card = &mut cols[i].cards[k];
                card.title = title;
                card.desc = desc;
                card.tag = tag;
                card.epic_id = epic_id;
                card.story_id = story_id;
                card.resources = resources;
                assert(cols@[i as int].cards@ =~= t[i as int].update(k as int, f(t[i as int][k as int])));
                assert(table(cols@) =~= table_updating_card(t, card_id@, f));
                return;
            },
            None => {},
        }
        i += 1;
    }
    proof {
        lemma_first_where_none(t, holds_card(card_id@));
    }
}

/// `new` is `old` with one more column at the end, with the id `id`, the
/// title `title` and no cards.
pub open spec fn appended_column(old: Seq<Column>, new: Seq<Column>, id: String, title: String) -> bool {
    &&& new.len() == old.len() + 1
    &&& new.take(old.len() as int) == old
    &&& new.last().id == id
    &&& new.last().title == title
    &&& new.last().cards@.len() == 0
}

/// Adds an empty column with the given id and title at the right end.
pub fn add_column_with_id(cols: &mut Vec<Column>, id: String, title: String)
    ensures
        appended_column(old(cols)@, final(cols)@, id, title),
{
    cols.push(Column { id, title, cards: Vec::new() });
    assert(cols@.take(old(cols)@.len() as int) =~= old(cols)@);
}

/// Adds an empty column titled `title` under a fresh id at the right end.
pub fn add_column(cols: &mut Vec<Column>, title: String)
    ensures
        is_uuid_v4_text(final(cols)@.last().id@),
        appended_column(old(cols)@, final(cols)@, final(cols)@.last().id, title),
{
    add_column_with_id(cols, new_id(), title);
}

/// A column whose id is not `id`.
pub open spec fn col_id_is_not(id: Seq<char>) -> spec_fn(Column) -> bool {
    |c: Column| c.id@ != id
}

/// Deletes every column with the id `col_id`, and the cards in them.
pub fn delete_column(cols: &mut Vec<Column>, col_id: &String)
    ensures
        final(cols)@ == old(cols)@.filter(col_id_is_not(col_id@)),
{
    retain_where(
        cols,
        (|c: &Column| -> (b: bool)
            ensures
                b == (c.id@ != col_id@),
            { c.id != *col_id }),
        Ghost(col_id_is_not(col_id@)),
    );
}

/// The columns after dropping the column `src` onto the column `tgt`: the
/// first column with the id `src` is taken out and put back in at the place
/// of the first column with the id `tgt`.
pub open spec fn columns_after_reorder(cols: Seq<Column>, src: Seq<char>, tgt: Seq<char>) -> Seq<Column> {
    if src == tgt {
        cols
    } else {
        match (first_where(cols, col_has_id(src)), first_where(cols, col_has_id(tgt))) {
            (Some(si), Some(ti)) => moved_to(cols, si, ti),
            _ => cols,
        }
    }
}

/// Drops the column `src_id` onto the column `target_id`.
pub fn reorder_columns(cols: &mut Vec<Column>, src_id: &String, target_id: &String)
    ensures
        final(cols)@ == columns_after_reorder(old(cols)@, src_id@, target_id@),
{
    if *src_id == *target_id {
        return;
    }
    if let Some(si) = column_position(cols, src_id) {
        if let Some(ti) = column_position(cols, target_id) {
            move_item(cols, si, ti);
        }
    }
}

} // verus!
