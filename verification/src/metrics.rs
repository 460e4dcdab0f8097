//! Time and progress aggregation over the board: logged seconds of stories
//! and epics, task counts, and how durations are shown.

use vstd::prelude::*;
use crate::columns::{col_has_id, column_position, table};
use crate::find::first_where;
use crate::text::{decimal, push_char, push_decimal};
use crate::model::{id_is, refers_to, Card, Column, Epic, Story};

verus! {

/// The seconds logged on the cards of `cards` that satisfy `p`.
pub open spec fn card_secs(cards: Seq<Card>, p: spec_fn(Card) -> bool) -> nat
    decreases cards.len(),
{
    if cards.len() == 0 {
        0
    } else {
        card_secs(cards.drop_last(), p) + if p(cards.last()) {
            cards.last().logged_secs as nat
        } else {
            0
        }
    }
}

/// The seconds logged on the cards of all columns of `t` that satisfy `p`.
pub open spec fn table_secs(t: Seq<Seq<Card>>, p: spec_fn(Card) -> bool) -> nat
    decreases t.len(),
{
    if t.len() == 0 {
        0
    } else {
        table_secs(t.drop_last(), p) + card_secs(t.last(), p)
    }
}

/// How many cards of `cards` satisfy `p`.
pub open spec fn card_count(cards: Seq<Card>, p: spec_fn(Card) -> bool) -> nat
    decreases cards.len(),
{
    if cards.len() == 0 {
        0
    } else {
        card_count(cards.drop_last(), p) + if p(cards.last()) {
            1nat
        } else {
            0
        }
    }
}

/// How many cards in all columns of `t` satisfy `p`.
pub open spec fn table_count(t: Seq<Seq<Card>>, p: spec_fn(Card) -> bool) -> nat
    decreases t.len(),
{
    if t.len() == 0 {
        0
    } else {
        table_count(t.drop_last(), p) + card_count(t.last(), p)
    }
}

/// Cards of the story `sid`.
pub open spec fn in_story(sid: Seq<char>) -> spec_fn(Card) -> bool {
    |c: Card| id_is(c.story_id, sid)
}

/// Cards of the epic `eid`.
pub open spec fn in_epic(eid: Seq<char>) -> spec_fn(Card) -> bool {
    |c: Card| id_is(c.epic_id, eid)
}

/// Cards of the epic `eid` that are in no story.
pub open spec fn loose_in_epic(eid: Seq<char>) -> spec_fn(Card) -> bool {
    |c: Card| id_is(c.epic_id, eid) && c.story_id is None
}

/// Cards tagged `tid`.
pub open spec fn tagged(tid: Seq<char>) -> spec_fn(Card) -> bool {
    |c: Card| c.tag@ == tid
}

proof fn lemma_card_secs_prefix(cards: Seq<Card>, p: spec_fn(Card) -> bool, i: int)
    requires
        0 <= i <= cards.len(),
    ensures
        card_secs(cards.take(i), p) <= card_secs(cards, p),
    decreases cards.len(),
{
    if i < cards.len() {
        lemma_card_secs_prefix(cards.drop_last(), p, i);
        assert(cards.drop_last().take(i) =~= cards.take(i));
    } else {
        assert(cards.take(i) =~= cards);
    }
}

proof fn lemma_table_secs_prefix(t: Seq<Seq<Card>>, p: spec_fn(Card) -> bool, i: int)
    requires
        0 <= i <= t.len(),
    ensures
        table_secs(t.take(i), p) <= table_secs(t, p),
    decreases t.len(),
{
    if i < t.len() {
        lemma_table_secs_prefix(t.drop_last(), p, i);
        assert(t.drop_last().take(i) =~= t.take(i));
    } else {
        assert(t.take(i) =~= t);
    }
}

proof fn lemma_card_count_prefix(cards: Seq<Card>, p: spec_fn(Card) -> bool, i: int)
    requires
        0 <= i <= cards.len(),
    ensures
        card_count(cards.take(i), p) <= card_count(cards, p),
    decreases cards.len(),
{
    if i < cards.len() {
        lemma_card_count_prefix(cards.drop_last(), p, i);
        assert(cards.drop_last().take(i) =~= cards.take(i));
    } else {
        assert(cards.take(i) =~= cards);
    }
}

proof fn lemma_table_count_prefix(t: Seq<Seq<Card>>, p: spec_fn(Card) -> bool, i: int)
    requires
        0 <= i <= t.len(),
    ensures
        table_count(t.take(i), p) <= table_count(t, p),
    decreases t.len(),
{
    if i < t.len() {
        lemma_table_count_prefix(t.drop_last(), p, i);
        assert(t.drop_last().take(i) =~= t.take(i));
    } else {
        assert(t.take(i) =~= t);
    }
}

/// The seconds logged on the cards of `cols` that `pred` accepts.
pub(crate) fn sum_card_secs<F: Fn(&Card) -> bool>(cols: &Vec<Column>, pred: F, Ghost(p): Ghost<spec_fn(Card) -> bool>) -> (r: u64)
    requires
        forall|c: &Card| #[trigger] pred.requires((c,)),
        forall|c: &Card, b: bool| pred.ensures((c,), b) ==> b == p(*c),
        table_secs(table(cols@), p) <= u64::MAX,
    ensures
        r == table_secs(table(cols@), p),
{
    let ghost t = table(cols@);
    let mut acc: u64 = 0;
    let n = cols.len();
    let mut i: usize = 0;
    while i < n
        invariant
            n == cols@.len(),
            t == table(cols@),
            i <= n,
            forall|c: &Card| #[trigger] pred.requires((c,)),
            forall|c: &Card, b: bool| pred.ensures((c,), b) ==> b == p(*c),
            table_secs(t, p) <= u64::MAX,
            acc == table_secs(t.take(i as int), p),
        decreases n - i,
    {
        let cards = &cols[i].cards;
        let m = cards.len();
        let mut j: usize = 0;
        proof {
            lemma_table_secs_prefix(t, p, i + 1);
            assert(t.take(i + 1).drop_last() =~= t.take(i as int));
            assert(cards@.take(0) =~= Seq::<Card>::empty());
        }
        while j < m
            invariant
                m == cards@.len(),
                cards@ == t[i as int],
                j <= m,
                forall|c: &Card| #[trigger] pred.requires((c,)),
                forall|c: &Card, b: bool| pred.ensures((c,), b) ==> b == p(*c),
                table_secs(t.take(i as int), p) + card_secs(cards@, p) <= u64::MAX,
                acc == table_secs(t.take(i as int), p) + card_secs(cards@.take(j as int), p),
            decreases m - j,
        {
            proof {
                assert(cards@.take(j + 1).drop_last() =~= cards@.take(j as int));
                lemma_card_secs_prefix(cards@, p, j + 1);
            }
            if pred(&cards[j]) {
                acc = acc + cards[j].logged_secs;
            }
            j += 1;
        }
        assert(cards@.take(m as int) =~= cards@);
        i += 1;
    }
    assert(t.take(n as int) =~= t);
    acc
}

/// How many cards of `cols` `pred` accepts.
pub(crate) fn count_cards<F: Fn(&Card) -> bool>(cols: &Vec<Column>, pred: F, Ghost(p): Ghost<spec_fn(Card) -> bool>) -> (r: usize)
    requires
        forall|c: &Card| #[trigger] pred.requires((c,)),
        forall|c: &Card, b: bool| pred.ensures((c,), b) ==> b == p(*c),
        table_count(table(cols@), p) <= usize::MAX,
    ensures
        r == table_count(table(cols@), p),
{
    let ghost t = table(cols@);
    let mut acc: usize = 0;
    let n = cols.len();
    let mut i: usize = 0;
    while i < n
        invariant
            n == cols@.len(),
            t == table(cols@),
            i <= n,
            forall|c: &Card| #[trigger] pred.requires((c,)),
            forall|c: &Card, b: bool| pred.ensures((c,), b) ==> b == p(*c),
            table_count(t, p) <= usize::MAX,
            acc == table_count(t.take(i as int), p),
        decreases n - i,
    {
        let cards = &cols[i].cards;
        let m = cards.len();
        let mut j: usize = 0;
        proof {
            lemma_table_count_prefix(t, p, i + 1);
            assert(t.take(i + 1).drop_last() =~= t.take(i as int));
            assert(cards@.take(0) =~= Seq::<Card>::empty());
        }
        while j < m
            invariant
                m == cards@.len(),
                cards@ == t[i as int],
                j <= m,
                forall|c: &Card| #[trigger] pred.requires((c,)),
                forall|c: &Card, b: bool| pred.ensures((c,), b) ==> b == p(*c),
                table_count(t.take(i as int), p) + card_count(cards@, p) <= usize::MAX,
                acc == table_count(t.take(i as int), p) + card_count(cards@.take(j as int), p),
            decreases m - j,
        {
            proof {
                assert(cards@.take(j + 1).drop_last() =~= cards@.take(j as int));
                lemma_card_count_prefix(cards@, p, j + 1);
            }
            if pred(&cards[j]) {
                acc = acc + 1;
            }
            j += 1;
        }
        assert(cards@.take(m as int) =~= cards@);
        i += 1;
    }
    assert(t.take(n as int) =~= t);
    acc
}

/// The seconds logged on a task: its own.
pub fn task_total_secs(card: &Card) -> (r: u64)
    ensures
        r == card.logged_secs,
{
    card.logged_secs
}

/// The seconds of a story: logged on it directly, and on its cards in every column.
pub open spec fn story_total(story: Story, cols: Seq<Column>) -> nat {
    story.direct_logged_secs as nat + table_secs(table(cols), in_story(story.id@))
}

/// The seconds of `story`: logged on it directly, and on its cards in every column.
pub fn story_total_secs(story: &Story, columns: &Vec<Column>) -> (r: u64)
    requires
        story_total(*story, columns@) <= u64::MAX,
    ensures
        r == story_total(*story, columns@),
{
    let sid = &story.id;
    let cards = sum_card_secs(
        columns,
        (|c: &Card| -> (b: bool)
            ensures
                b == id_is(c.story_id, sid@),
            { refers_to(&c.story_id, sid) }),
        Ghost(in_story(sid@)),
    );
    story.direct_logged_secs + cards
}

/// The seconds of the stories of `stories` in the epic `eid`.
pub open spec fn stories_total(stories: Seq<Story>, eid: Seq<char>, cols: Seq<Column>) -> nat
    decreases stories.len(),
{
    if stories.len() == 0 {
        0
    } else {
        stories_total(stories.drop_last(), eid, cols) + if stories.last().epic_id@ == eid {
            story_total(stories.last(), cols)
        } else {
            0
        }
    }
}

/// The seconds of an epic: logged on it directly, on its stories (with their
/// cards), and on its cards that are in no story.
pub open spec fn epic_total(epic: Epic, stories: Seq<Story>, cols: Seq<Column>) -> nat {
    epic.direct_logged_secs as nat + stories_total(stories, epic.id@, cols) + table_secs(
        table(cols),
        loose_in_epic(epic.id@),
    )
}

proof fn lemma_stories_total_prefix(stories: Seq<Story>, eid: Seq<char>, cols: Seq<Column>, i: int)
    requires
        0 <= i <= stories.len(),
    ensures
        stories_total(stories.take(i), eid, cols) <= stories_total(stories, eid, cols),
    decreases stories.len(),
{
    if i < stories.len() {
        lemma_stories_total_prefix(stories.drop_last(), eid, cols, i);
        assert(stories.drop_last().take(i) =~= stories.take(i));
    } else {
        assert(stories.take(i) =~= stories);
    }
}

/// The seconds of `epic`: logged on it directly, on its stories (with their
/// cards), and on its cards that are in no story.
pub fn epic_total_secs(epic: &Epic, stories: &Vec<Story>, columns: &Vec<Column>) -> (r: u64)
    requires
        epic_total(*epic, stories@, columns@) <= u64::MAX,
    ensures
        r == epic_total(*epic, stories@, columns@),
{
    let eid = &epic.id;
    let ghost total = epic_total(*epic, stories@, columns@);
    let mut from_stories: u64 = 0;
    let n = stories.len();
    let mut i: usize = 0;
    while i < n
        invariant
            n == stories@.len(),
            i <= n,
            total == epic_total(*epic, stories@, columns@),
            total <= u64::MAX,
            *eid == epic.id,
            from_stories == stories_total(stories@.take(i as int), eid@, columns@),
        decreases n - i,
    {
        proof {
            assert(stories@.take(i + 1).drop_last() =~= stories@.take(i as int));
            lemma_stories_total_prefix(stories@, eid@, columns@, i + 1);
        }
        if stories[i].epic_id == *eid {
            from_stories = from_stories + story_total_secs(&stories[i], columns);
        }
        i += 1;
    }
    assert(stories@.take(n as int) =~= stories@);
    let loose = sum_card_secs(
        columns,
        (|c: &Card| -> (b: bool)
            ensures
                b == (id_is(c.epic_id, eid@) && c.story_id is None),
            { refers_to(&c.epic_id, eid) && c.story_id.is_none() }),
        Ghost(loose_in_epic(eid@)),
    );
    epic.direct_logged_secs + from_stories + loose
}

/// How many cards of `cards` `pred` accepts.
fn count_in_column<F: Fn(&Card) -> bool>(cards: &Vec<Card>, pred: F, Ghost(p): Ghost<spec_fn(Card) -> bool>) -> (r: usize)
    requires
        forall|c: &Card| #[trigger] pred.requires((c,)),
        forall|c: &Card, b: bool| pred.ensures((c,), b) ==> b == p(*c),
    ensures
        r == card_count(cards@, p),
{
    let m = cards.len();
    let mut acc: usize = 0;
    let mut j: usize = 0;
    assert(cards@.take(0) =~= Seq::<Card>::empty());
    while j < m
        invariant
            m == cards@.len(),
            j <= m,
            forall|c: &Card| #[trigger] pred.requires((c,)),
            forall|c: &Card, b: bool| pred.ensures((c,), b) ==> b == p(*c),
            acc == card_count(cards@.take(j as int), p),
            acc <= j,
        decreases m - j,
    {
        assert(cards@.take(j + 1).drop_last() =~= cards@.take(j as int));
        if pred(&cards[j]) {
            acc = acc + 1;
        }
        j += 1;
    }
    assert(cards@.take(m as int) =~= cards@);
    acc
}

/// The id of the column whose cards count as done.
pub open spec fn done_id() -> Seq<char> {
    seq!['d', 'o', 'n', 'e']
}

fn done_column_id() -> (s: String)
    ensures
        s@ == done_id(),
{
    let mut s = String::new();
    push_char(&mut s, 'd');
    push_char(&mut s, 'o');
    push_char(&mut s, 'n');
    push_char(&mut s, 'e');
    s
}

/// How many cards in the first column with the id `"done"` satisfy `p`; none
/// without such a column.
pub open spec fn done_count(cols: Seq<Column>, p: spec_fn(Card) -> bool) -> nat {
    match first_where(cols, col_has_id(done_id())) {
        Some(i) => card_count(cols[i].cards@, p),
        None => 0,
    }
}

fn count_done<F: Fn(&Card) -> bool>(cols: &Vec<Column>, pred: F, Ghost(p): Ghost<spec_fn(Card) -> bool>) -> (r: usize)
    requires
        forall|c: &Card| #[trigger] pred.requires((c,)),
        forall|c: &Card, b: bool| pred.ensures((c,), b) ==> b == p(*c),
    ensures
        r == done_count(cols@, p),
{
    let done = done_column_id();
    match column_position(cols, &done) {
        Some(i) => count_in_column(&cols[i].cards, pred, Ghost(p)),
        None => 0,
    }
}

/// The cards of one column are among the cards of all columns.
pub proof fn lemma_column_count_le_table(t: Seq<Seq<Card>>, p: spec_fn(Card) -> bool, i: int)
    requires
        0 <= i < t.len(),
    ensures
        card_count(t[i], p) <= table_count(t, p),
    decreases t.len(),
{
    if i < t.len() - 1 {
        lemma_column_count_le_table(t.drop_last(), p, i);
    }
}

/// How far along a board entity is: `done` of its `total` tasks are in the
/// done column.
pub struct Progress {
    pub done: usize,
    pub total: usize,
}

/// The progress of the epic `epic_id`: its cards in the done column, of its
/// cards in all columns.
pub fn epic_progress(columns: &Vec<Column>, epic_id: &String) -> (r: Progress)
    requires
        table_count(table(columns@), in_epic(epic_id@)) <= usize::MAX,
    ensures
        r.done == done_count(columns@, in_epic(epic_id@)),
        r.total == table_count(table(columns@), in_epic(epic_id@)),
        r.done <= r.total,
{
    let pred = |c: &Card| -> (b: bool)
        ensures
            b == id_is(c.epic_id, epic_id@),
        { refers_to(&c.epic_id, epic_id) };
    let total = count_cards(columns, pred, Ghost(in_epic(epic_id@)));
    let done = count_done(columns, pred, Ghost(in_epic(epic_id@)));
    proof {
        if let Some(i) = first_where(columns@, col_has_id(done_id())) {
            crate::find::lemma_first_where_spec(columns@, col_has_id(done_id()));
            lemma_column_count_le_table(table(columns@), in_epic(epic_id@), i);
        }
    }
    Progress { done, total }
}

/// The progress of the story `story_id`: its cards in the done column, of its
/// cards in all columns.
pub fn story_progress(columns: &Vec<Column>, story_id: &String) -> (r: Progress)
    requires
        table_count(table(columns@), in_story(story_id@)) <= usize::MAX,
    ensures
        r.done == done_count(columns@, in_story(story_id@)),
        r.total == table_count(table(columns@), in_story(story_id@)),
        r.done <= r.total,
{
    let pred = |c: &Card| -> (b: bool)
        ensures
            b == id_is(c.story_id, story_id@),
        { refers_to(&c.story_id, story_id) };
    let total = count_cards(columns, pred, Ghost(in_story(story_id@)));
    let done = count_done(columns, pred, Ghost(in_story(story_id@)));
    proof {
        if let Some(i) = first_where(columns@, col_has_id(done_id())) {
            crate::find::lemma_first_where_spec(columns@, col_has_id(done_id()));
            lemma_column_count_le_table(table(columns@), in_story(story_id@), i);
        }
    }
    Progress { done, total }
}

/// The share of done tasks, in whole percent rounded down; 0 without tasks.
pub fn progress_percent(done: usize, total: usize) -> (r: usize)
    requires
        done * 100 <= usize::MAX,
    ensures
        r == (if total > 0 { (done * 100) / (total as int) } else { 0 }),
{
    if total > 0 {
        done * 100 / total
    } else {
        0
    }
}

/// How many cards in all columns carry the tag `tag_id`.
pub fn tag_card_count(columns: &Vec<Column>, tag_id: &String) -> (r: usize)
    requires
        table_count(table(columns@), tagged(tag_id@)) <= usize::MAX,
    ensures
        r == table_count(table(columns@), tagged(tag_id@)),
{
    count_cards(
        columns,
        (|c: &Card| -> (b: bool)
            ensures
                b == (c.tag@ == tag_id@),
            { c.tag == *tag_id }),
        Ghost(tagged(tag_id@)),
    )
}

/// How a duration in seconds is shown: whole hours and minutes, the hours
/// left out when there are none.
pub open spec fn duration_text(secs: nat) -> Seq<char> {
    let h = secs / 3600;
    let m = (secs % 3600) / 60;
    if h > 0 {
        decimal(h) + seq!['h', ' '] + decimal(m) + seq!['m']
    } else {
        decimal(m) + seq!['m']
    }
}

/// Shows a duration in seconds as hours and minutes, such as `2h 5m` or `42m`.
pub fn fmt_duration(secs: u64) -> (s: String)
    ensures
        s@ == duration_text(secs as nat),
{
    let h = secs / 3600;
    let m = (secs % 3600) / 60;
    let mut s = String::new();
    if h > 0 {
        push_decimal(&mut s, h);
        push_char(&mut s, 'h');
        push_char(&mut s, ' ');
    }
    push_decimal(&mut s, m);
    push_char(&mut s, 'm');
    s
}

/// `n` in decimal, with a leading zero below ten.
pub open spec fn two_digits(n: nat) -> Seq<char> {
    if n < 10 {
        seq!['0'] + decimal(n)
    } else {
        decimal(n)
    }
}

/// How the timer shows the seconds left: minutes and seconds, each at least
/// two digits wide.
pub open spec fn clock_text(secs: nat) -> Seq<char> {
    two_digits(secs / 60) + seq![':'] + two_digits(secs % 60)
}

/// Shows the seconds left on the timer as `MM:SS`.
pub fn fmt_clock(secs: u32) -> (s: String)
    ensures
        s@ == clock_text(secs as nat),
{
    let m = (secs / 60) as u64;
    let r = (secs % 60) as u64;
    let mut s = String::new();
    if m < 10 {
        push_char(&mut s, '0');
    }
    push_decimal(&mut s, m);
    push_char(&mut s, ':');
    if r < 10 {
        push_char(&mut s, '0');
    }
    push_decimal(&mut s, r);
    s
}

/// The seconds of the first story with the id `story_id`; 0 without one.
pub fn story_secs_by_id(stories: &Vec<Story>, columns: &Vec<Column>, story_id: &String) -> (r: u64)
    requires
        match first_where(stories@, crate::planning::story_has_id(story_id@)) {
            Some(i) => story_total(stories@[i], columns@) <= u64::MAX,
            None => true,
        },
    ensures
        match first_where(stories@, crate::planning::story_has_id(story_id@)) {
            Some(i) => r == story_total(stories@[i], columns@),
            None => r == 0,
        },
{
    match crate::planning::story_position(stories, story_id) {
        Some(i) => story_total_secs(&stories[i], columns),
        None => 0,
    }
}

/// The seconds of the first epic with the id `epic_id`; 0 without one.
pub fn epic_secs_by_id(epics: &Vec<Epic>, stories: &Vec<Story>, columns: &Vec<Column>, epic_id: &String) -> (r: u64)
    requires
        match first_where(epics@, crate::planning::epic_has_id(epic_id@)) {
            Some(i) => epic_total(epics@[i], stories@, columns@) <= u64::MAX,
            None => true,
        },
    ensures
        match first_where(epics@, crate::planning::epic_has_id(epic_id@)) {
            Some(i) => r == epic_total(epics@[i], stories@, columns@),
            None => r == 0,
        },
{
    match crate::planning::epic_position(epics, epic_id) {
        Some(i) => epic_total_secs(&epics[i], stories, columns),
        None => 0,
    }
}

/// The seconds of the first story with the id `story_id` (0 without one), or
/// `None` when they do not fit in 64 bits.
pub fn story_secs_by_id_checked(stories: &Vec<Story>, columns: &Vec<Column>, story_id: &String) -> (r: Option<u64>)
    ensures
        match first_where(stories@, crate::planning::story_has_id(story_id@)) {
            Some(i) => if story_total(stories@[i], columns@) <= u64::MAX {
                r == Some(story_total(stories@[i], columns@) as u64)
            } else {
                r is None
            },
            None => r == Some(0u64),
        },
{
    match crate::planning::story_position(stories, story_id) {
        Some(i) => story_total_checked(&stories[i], columns),
        None => Some(0),
    }
}

/// The seconds of the first epic with the id `epic_id` (0 without one), or
/// `None` when they do not fit in 64 bits.
pub fn epic_secs_by_id_checked(epics: &Vec<Epic>, stories: &Vec<Story>, columns: &Vec<Column>, epic_id: &String) -> (r: Option<u64>)
    ensures
        match first_where(epics@, crate::planning::epic_has_id(epic_id@)) {
            Some(i) => if epic_total(epics@[i], stories@, columns@) <= u64::MAX {
                r == Some(epic_total(epics@[i], stories@, columns@) as u64)
            } else {
                r is None
            },
            None => r == Some(0u64),
        },
{
    match crate::planning::epic_position(epics, epic_id) {
        Some(i) => epic_total_checked(&epics[i], stories, columns),
        None => Some(0),
    }
}

/// The seconds logged on the cards of `cols` that `pred` accepts, or `None`
/// when they do not fit in 64 bits.
pub(crate) fn sum_card_secs_checked<F: Fn(&Card) -> bool>(cols: &Vec<Column>, pred: F, Ghost(p): Ghost<spec_fn(Card) -> bool>) -> (r: Option<u64>)
    requires
        forall|c: &Card| #[trigger] pred.requires((c,)),
        forall|c: &Card, b: bool| pred.ensures((c,), b) ==> b == p(*c),
    ensures
        r matches Some(x) ==> x == table_secs(table(cols@), p),
        r is None ==> table_secs(table(cols@), p) > u64::MAX,
{
    let ghost t = table(cols@);
    let mut acc: u64 = 0;
    let n = cols.len();
    let mut i: usize = 0;
    while i < n
        invariant
            n == cols@.len(),
            t == table(cols@),
            i <= n,
            forall|c: &Card| #[trigger] pred.requires((c,)),
            forall|c: &Card, b: bool| pred.ensures((c,), b) ==> b == p(*c),
            acc == table_secs(t.take(i as int), p),
        decreases n - i,
    {
        let cards = &cols[i].cards;
        let m = cards.len();
        let mut j: usize = 0;
        proof {
            lemma_table_secs_prefix(t, p, i + 1);
            assert(t.take(i + 1).drop_last() =~= t.take(i as int));
            assert(cards@.take(0) =~= Seq::<Card>::empty());
        }
        while j < m
            invariant
                m == cards@.len(),
                cards@ == t[i as int],
                j <= m,
                i < n,
                n == t.len(),
                t == table(cols@),
                forall|c: &Card| #[trigger] pred.requires((c,)),
                forall|c: &Card, b: bool| pred.ensures((c,), b) ==> b == p(*c),
                table_secs(t.take(i as int), p) + card_secs(cards@, p) <= table_secs(t, p),
                acc == table_secs(t.take(i as int), p) + card_secs(cards@.take(j as int), p),
            decreases m - j,
        {
            proof {
                assert(cards@.take(j + 1).drop_last() =~= cards@.take(j as int));
                lemma_card_secs_prefix(cards@, p, j + 1);
            }
            if pred(&cards[j]) {
                let x = cards[j].logged_secs;
                assert(cards@.take(j + 1).last() == cards@[j as int]);
                assert(card_secs(cards@.take(j + 1), p) == card_secs(cards@.take(j as int), p) + x);
                if acc > u64::MAX - x {
                    return None;
                }
                acc = acc + x;
            }
            j += 1;
        }
        assert(cards@.take(m as int) =~= cards@);
        i += 1;
    }
    assert(t.take(n as int) =~= t);
    Some(acc)
}

/// The seconds of `story`, or `None` when they do not fit in 64 bits.
pub fn story_total_checked(story: &Story, columns: &Vec<Column>) -> (r: Option<u64>)
    ensures
        r matches Some(x) ==> x == story_total(*story, columns@),
        r is None ==> story_total(*story, columns@) > u64::MAX,
{
    let sid = &story.id;
    match sum_card_secs_checked(
        columns,
        (|c: &Card| -> (b: bool)
            ensures
                b == id_is(c.story_id, sid@),
            { refers_to(&c.story_id, sid) }),
        Ghost(in_story(sid@)),
    ) {
        Some(cards) => {
            if story.direct_logged_secs > u64::MAX - cards {
                None
            } else {
                Some(story.direct_logged_secs + cards)
            }
        },
        None => None,
    }
}

/// The seconds of `epic`, or `None` when they do not fit in 64 bits.
pub fn epic_total_checked(epic: &Epic, stories: &Vec<Story>, columns: &Vec<Column>) -> (r: Option<u64>)
    ensures
        r matches Some(x) ==> x == epic_total(*epic, stories@, columns@),
        r is None ==> epic_total(*epic, stories@, columns@) > u64::MAX,
{
    let eid = &epic.id;
    let mut acc: u64 = epic.direct_logged_secs;
    let n = stories.len();
    let mut i: usize = 0;
    while i < n
        invariant
            n == stories@.len(),
            i <= n,
            *eid == epic.id,
            acc == epic.direct_logged_secs + stories_total(stories@.take(i as int), eid@, columns@),
        decreases n - i,
    {
        proof {
            assert(stories@.take(i + 1).drop_last() =~= stories@.take(i as int));
            lemma_stories_total_prefix(stories@, eid@, columns@, i + 1);
        }
        if stories[i].epic_id == *eid {
            match story_total_checked(&stories[i], columns) {
                Some(x) => {
                    if acc > u64::MAX - x {
                        return None;
                    }
                    acc = acc + x;
                },
                None => {
                    return None;
                },
            }
        }
        i += 1;
    }
    assert(stories@.take(n as int) =~= stories@);
    match sum_card_secs_checked(
        columns,
        (|c: &Card| -> (b: bool)
            ensures
                b == (id_is(c.epic_id, eid@) && c.story_id is None),
            { refers_to(&c.epic_id, eid) && c.story_id.is_none() }),
        Ghost(loose_in_epic(eid@)),
    ) {
        Some(x) => {
            if acc > u64::MAX - x {
                None
            } else {
                Some(acc + x)
            }
        },
        None => None,
    }
}

/// The number of cards in all columns of `t`.
pub open spec fn card_total(t: Seq<Seq<Card>>) -> nat
    decreases t.len(),
{
    if t.len() == 0 {
        0
    } else {
        card_total(t.drop_last()) + t.last().len()
    }
}

/// The number of cards on the board, or `None` when it does not fit in a `usize`.
pub fn total_card_count(columns: &Vec<Column>) -> (r: Option<usize>)
    ensures
        r matches Some(x) ==> x == card_total(table(columns@)),
        r is None ==> card_total(table(columns@)) > usize::MAX,
{
    let ghost t = table(columns@);
    let n = columns.len();
    let mut acc: usize = 0;
    let mut i: usize = 0;
    while i < n
        invariant
            n == columns@.len(),
            t == table(columns@),
            i <= n,
            acc == card_total(t.take(i as int)),
        decreases n - i,
    {
        assert(t.take(i + 1).drop_last() =~= t.take(i as int));
        let m = columns[i].cards.len();
        if acc > usize::MAX - m {
            proof {
                lemma_card_total_prefix(t, i + 1);
            }
            return None;
        }
        acc = acc + m;
        i += 1;
    }
    assert(t.take(n as int) =~= t);
    Some(acc)
}

proof fn lemma_card_total_prefix(t: Seq<Seq<Card>>, i: int)
    requires
        0 <= i <= t.len(),
    ensures
        card_total(t.take(i)) <= card_total(t),
    decreases t.len(),
{
    if i < t.len() {
        lemma_card_total_prefix(t.drop_last(), i);
        assert(t.drop_last().take(i) =~= t.take(i));
    } else {
        assert(t.take(i) =~= t);
    }
}

proof fn lemma_card_count_le_len(cards: Seq<Card>, p: spec_fn(Card) -> bool)
    ensures
        card_count(cards, p) <= cards.len(),
    decreases cards.len(),
{
    if cards.len() > 0 {
        lemma_card_count_le_len(cards.drop_last(), p);
    }
}

/// No count of cards exceeds the number of cards on the board.
pub proof fn lemma_count_le_total(t: Seq<Seq<Card>>, p: spec_fn(Card) -> bool)
    ensures
        table_count(t, p) <= card_total(t),
    decreases t.len(),
{
    if t.len() > 0 {
        lemma_count_le_total(t.drop_last(), p);
        lemma_card_count_le_len(t.last(), p);
    }
}

} // verus!
