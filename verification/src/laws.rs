//! Properties of the board that span its operations.

use vstd::prelude::*;
use crate::columns::{
    appended_column, col_id_is_not, card_has_id, card_location, col_has_id, columns_after_reorder, holds_card, table, table_after_move,
    table_with_card, table_without_card, table_updating_card, edit_with,
};
use crate::find::{first_where, is_first, lemma_first_where_none, lemma_first_where_some, lemma_first_where_spec, moved_to};
use crate::model::{Card, Column, Resource, Space};
use crate::text::{decimal, digit_char};
use crate::metrics::{card_count, duration_text, in_epic, table_count, clock_text, done_count, done_id, two_digits, card_total, epic_total, stories_total, in_story, loose_in_epic, story_total, table_secs, card_secs};
use crate::nav::{choice_meaning, choice_text, is_colon, tabs_after_reorder, TargetChoice};
use crate::planning::{
    epic_has_id, epics_after_second, has_tag_id, not_in_story, story_epic_is_not, story_has_id,
    stories_after_second, space_id_is_not, survives_epic_delete, tag_added, tag_slug, table_after_card_second,
    card_plus_second, epics_after_space_delete,
};
use crate::serve::{asset_path_text, is_not_slash, is_question_mark, without_leading_slashes, without_query};
use crate::timer::{next_mode, session_secs, tick_log, ticked, timer_ok, Timer, TimerMode};
use crate::model::{id_is, Epic, Story, TagDef};

verus! {

proof fn lemma_card_total_update(t: Seq<Seq<Card>>, i: int, x: Seq<Card>)
    requires
        0 <= i < t.len(),
    ensures
        card_total(t.update(i, x)) + t[i].len() == card_total(t) + x.len(),
    decreases t.len(),
{
    if i < t.len() - 1 {
        lemma_card_total_update(t.drop_last(), i, x);
        assert(t.update(i, x).drop_last() =~= t.drop_last().update(i, x));
    } else {
        assert(t.update(i, x).drop_last() =~= t.drop_last());
    }
}

/// Reordering columns by drag and drop only rearranges them: the same
/// columns, as often as before, are on the board.
pub proof fn law_reorder_columns_permutes(cols: Seq<Column>, src: Seq<char>, tgt: Seq<char>)
    ensures
        columns_after_reorder(cols, src, tgt).to_multiset() == cols.to_multiset(),
        columns_after_reorder(cols, src, tgt).len() == cols.len(),
{
    broadcast use vstd::seq_lib::group_to_multiset_ensures;
    if src != tgt {
        if let (Some(si), Some(ti)) = (first_where(cols, col_has_id(src)), first_where(cols, col_has_id(tgt))) {
            lemma_first_where_spec(cols, col_has_id(src));
            lemma_first_where_spec(cols, col_has_id(tgt));
            lemma_moved_to_permutes(cols, si, ti);
        }
    }
}

proof fn lemma_moved_to_permutes<T>(v: Seq<T>, from: int, to: int)
    requires
        0 <= from < v.len(),
        0 <= to < v.len(),
    ensures
        moved_to(v, from, to).to_multiset() == v.to_multiset(),
        moved_to(v, from, to).len() == v.len(),
{
    broadcast use vstd::multiset::group_multiset_axioms;
    vstd::seq_lib::to_multiset_remove(v, from);
    vstd::seq_lib::to_multiset_insert(v.remove(from), to, v[from]);
    vstd::seq_lib::to_multiset_contains(v, v[from]);
    assert(v.to_multiset().contains(v[from])) by {
        assert(v.contains(v[from]));
    }
    assert(v.to_multiset().remove(v[from]).insert(v[from]) =~= v.to_multiset());
}

/// Reordering the view tabs by drag and drop only rearranges them.
pub proof fn law_reorder_tabs_permutes(items: Seq<(String, String)>, src: Seq<char>, tgt: Seq<char>)
    ensures
        tabs_after_reorder(items, src, tgt).to_multiset() == items.to_multiset(),
        tabs_after_reorder(items, src, tgt).len() == items.len(),
{
    if src != tgt {
        if let (Some(si), Some(ti)) = (
            first_where(items, crate::nav::tab_has_key(src)),
            first_where(items, crate::nav::tab_has_key(tgt)),
        ) {
            lemma_first_where_spec(items, crate::nav::tab_has_key(src));
            lemma_first_where_spec(items, crate::nav::tab_has_key(tgt));
            lemma_moved_to_permutes(items, si, ti);
        }
    }
}

/// The id `id` is on no card of `t`.
pub open spec fn id_unused(t: Seq<Seq<Card>>, id: Seq<char>) -> bool {
    forall|i: int, k: int| 0 <= i < t.len() && 0 <= k < t[i].len() ==> (#[trigger] t[i][k]).id@ != id
}

/// Adding a card under an id no card has and deleting that card again gives
/// the board back.
pub proof fn law_add_then_delete_card(cols: Seq<Column>, col_id: Seq<char>, card: Card)
    requires
        id_unused(table(cols), card.id@),
    ensures
        table_without_card(table_with_card(cols, col_id, card), card.id@) == table(cols),
{
    let t = table(cols);
    let id = card.id@;
    assert forall|j: int| 0 <= j < t.len() implies !holds_card(id)(#[trigger] t[j]) by {
        assert forall|k: int| 0 <= k < t[j].len() implies !card_has_id(id)(#[trigger] t[j][k]) by {}
        lemma_first_where_none(t[j], card_has_id(id));
    }
    match first_where(cols, col_has_id(col_id)) {
        Some(i) => {
            lemma_first_where_spec(cols, col_has_id(col_id));
            let t2 = t.update(i, t[i].push(card));
            assert(table_with_card(cols, col_id, card) == t2);
            let n = t[i].len() as int;
            assert forall|k: int| 0 <= k < n implies !card_has_id(id)(#[trigger] t2[i][k]) by {
                assert(t2[i][k] == t[i][k]);
            }
            assert(is_first(t2[i], card_has_id(id), n));
            lemma_first_where_some(t2[i], card_has_id(id), n);
            assert forall|j: int| 0 <= j < i implies !holds_card(id)(#[trigger] t2[j]) by {
                assert(t2[j] == t[j]);
            }
            assert(is_first(t2, holds_card(id), i));
            lemma_first_where_some(t2, holds_card(id), i);
            assert(card_location(t2, id) == Some((i, n)));
            assert(t2[i].remove(n) =~= t[i]);
            assert(t2.update(i, t2[i].remove(n)) =~= t);
        },
        None => {
            lemma_first_where_none(t, holds_card(id));
        },
    }
}

/// Dragging a card from one column onto another column keeps the number of
/// cards on the board.
pub proof fn law_move_keeps_card_count(cols: Seq<Column>, card_id: Seq<char>, src: Seq<char>, tgt: Seq<char>)
    requires
        first_where(cols, col_has_id(tgt)) is Some,
    ensures
        card_total(table_after_move(cols, card_id, src, tgt)) == card_total(table(cols)),
{
    let t = table(cols);
    if src != tgt {
        if let Some(si) = first_where(cols, col_has_id(src)) {
            lemma_first_where_spec(cols, col_has_id(src));
            if let Some(k) = first_where(t[si], card_has_id(card_id)) {
                lemma_first_where_spec(t[si], card_has_id(card_id));
                let t1 = t.update(si, t[si].remove(k));
                lemma_card_total_update(t, si, t[si].remove(k));
                let ti = first_where(cols, col_has_id(tgt))->0;
                lemma_first_where_spec(cols, col_has_id(tgt));
                lemma_card_total_update(t1, ti, t1[ti].push(t[si][k]));
            }
        }
    }
}

/// Every timer operation keeps the seconds left within a full session of
/// the current mode.
pub proof fn law_timer_stays_within_session(t: Timer, target: Option<(String, String)>)
    requires
        timer_ok(t),
    ensures
        timer_ok(Timer { secs: 1500, running: false, mode: TimerMode::Work, target: None }),
        timer_ok(Timer { running: !t.running, ..t }),
        timer_ok(ticked(t)),
        timer_ok(Timer { secs: 1500, running: false, mode: TimerMode::Work, ..t }),
        timer_ok(Timer { secs: session_secs(next_mode(t.mode)), running: false, mode: next_mode(t.mode), ..t }),
        timer_ok(Timer { target, ..t }),
{
}

/// Skipping twice comes back to a full, stopped session of the same mode.
pub proof fn law_skip_twice(t: Timer)
    ensures
        ({
            let once = Timer { secs: session_secs(next_mode(t.mode)), running: false, mode: next_mode(t.mode), ..t };
            let twice = Timer { secs: session_secs(next_mode(once.mode)), running: false, mode: next_mode(once.mode), ..once };
            twice == Timer { secs: session_secs(t.mode), running: false, ..t }
        }),
{
}

/// The timer after `n` ticks.
pub open spec fn ticks(t: Timer, n: nat) -> Timer
    decreases n,
{
    if n == 0 {
        t
    } else {
        ticks(ticked(t), (n - 1) as nat)
    }
}

/// How many of the next `n` ticks log a second on `target`.
pub open spec fn logged_ticks(t: Timer, n: nat, target: (String, String)) -> nat
    decreases n,
{
    if n == 0 {
        0
    } else {
        logged_ticks(ticked(t), (n - 1) as nat, target) + if tick_log(t) == Some(target) {
            1nat
        } else {
            0
        }
    }
}

/// A work session with a target logs every one of its seconds on the target
/// and then turns into a full, stopped break.
pub proof fn law_work_session_logs_each_second(t: Timer, target: (String, String))
    requires
        t.mode == TimerMode::Work,
        t.secs > 0,
        t.target == Some(target),
    ensures
        logged_ticks(t, t.secs as nat, target) == t.secs,
        ticks(t, t.secs as nat).mode == TimerMode::Break,
        ticks(t, t.secs as nat).secs == 300,
        !ticks(t, t.secs as nat).running,
    decreases t.secs,
{
    let n = t.secs as nat;
    let u = ticked(t);
    assert(ticks(t, n) == ticks(u, (n - 1) as nat));
    assert(logged_ticks(t, n, target) == logged_ticks(u, (n - 1) as nat, target) + 1);
    if t.secs > 1 {
        assert(u.secs == t.secs - 1 && u.mode == TimerMode::Work && u.target == Some(target));
        law_work_session_logs_each_second(u, target);
    } else {
        assert(ticks(u, 0) == u);
        assert(logged_ticks(u, 0, target) == 0);
    }
}

/// Picking the option that the timer's picker offers for a target `(kind,
/// id)` sets that target again, whatever the id, as long as the kind has no
/// colon.
pub proof fn law_target_choice_roundtrip(kind: Seq<char>, id: Seq<char>, r: TargetChoice)
    requires
        forall|i: int| 0 <= i < kind.len() ==> kind[i] != ':',
        choice_meaning(choice_text(kind, id), r),
    ensures
        r matches TargetChoice::Pick(k, i) && k@ == kind && i@ == id,
{
    let v = choice_text(kind, id);
    let n = kind.len() as int;
    assert(v[n] == ':');
    assert forall|j: int| 0 <= j < n implies !is_colon()(#[trigger] v[j]) by {
        assert(v[j] == kind[j]);
    }
    assert(is_first(v, is_colon(), n));
    lemma_first_where_some(v, is_colon(), n);
    assert(v.take(n) =~= kind);
    assert(v.skip(n + 1) =~= id);
}

/// Routing is idempotent: the asset a request path names, read as a request
/// path again, names the same asset.
pub proof fn law_asset_path_idempotent(url: Seq<char>)
    ensures
        asset_path_text(asset_path_text(url)) == asset_path_text(url),
{
    let a = asset_path_text(url);
    let q = without_query(url);
    lemma_first_where_spec(url, is_question_mark());
    lemma_first_where_spec(q, is_not_slash());
    let p = without_leading_slashes(q);
    if p.len() == 0 {
        reveal_strlit("index.html");
        assert(forall|j: int| 0 <= j < a.len() ==> a[j] != '?' && a[j] != '/' || j > 0 && a[j] != '?');
        lemma_first_where_none(a, is_question_mark());
        assert(is_first(a, is_not_slash(), 0));
        lemma_first_where_some(a, is_not_slash(), 0);
        assert(a.skip(0) =~= a);
    } else {
        assert(forall|j: int| 0 <= j < p.len() ==> p[j] != '?') by {
            assert forall|j: int| 0 <= j < p.len() implies p[j] != '?' by {
                let s = first_where(q, is_not_slash())->0;
                assert(p[j] == q[s + j]);
                if let Some(m) = first_where(url, is_question_mark()) {
                    assert(q[s + j] == url[s + j]);
                }
            }
        }
        assert forall|j: int| 0 <= j < p.len() implies !is_question_mark()(#[trigger] p[j]) by {}
        lemma_first_where_none(p, is_question_mark());
        assert(is_first(p, is_not_slash(), 0));
        lemma_first_where_some(p, is_not_slash(), 0);
        assert(p.skip(0) =~= p);
    }
}

/// The progress bar never runs past 100 percent.
pub proof fn law_progress_at_most_full(done: int, total: int)
    requires
        0 <= done <= total,
    ensures
        (if total > 0 { (done * 100) / (total as int) } else { 0 }) <= 100,
{
    if total > 0 {
        assert((done * 100) / (total as int) <= 100) by (nonlinear_arith)
            requires
                0 <= done <= total,
                total > 0,
        ;
    }
}

/// Adding a tag is idempotent: adding one with the same name again changes nothing.
pub proof fn law_add_tag_idempotent(
    old: Seq<TagDef>,
    mid: Seq<TagDef>,
    new: Seq<TagDef>,
    name: Seq<char>,
    color: Seq<char>,
    color2: Seq<char>,
)
    requires
        tag_added(old, mid, name, color),
        tag_added(mid, new, name, color2),
    ensures
        new == mid,
{
    if !has_tag_id(old, tag_slug(name)) {
        assert(mid[mid.len() - 1].id@ == tag_slug(name));
    }
}

/// No two tags of `tags` share an id.
pub open spec fn tag_ids_unique(tags: Seq<TagDef>) -> bool {
    forall|i: int, j: int| 0 <= i < j < tags.len() ==> (#[trigger] tags[i]).id@ != (#[trigger] tags[j]).id@
}

/// Adding a tag keeps tag ids unique.
pub proof fn law_add_tag_keeps_ids_unique(old: Seq<TagDef>, new: Seq<TagDef>, name: Seq<char>, color: Seq<char>)
    requires
        tag_ids_unique(old),
        tag_added(old, new, name, color),
    ensures
        tag_ids_unique(new),
{
    if !has_tag_id(old, tag_slug(name)) {
        assert forall|i: int, j: int| 0 <= i < j < new.len() implies (#[trigger] new[i]).id@ != (#[trigger] new[j]).id@ by {
            assert(new.take(old.len() as int)[i] == new[i]);
            if j < old.len() {
                assert(new.take(old.len() as int)[j] == new[j]);
            } else {
                assert(old[i] == new[i]);
            }
        }
    }
}

/// Deleting an epic leaves nothing that points at it: no card in it or in
/// one of its stories, and no story in it.
pub proof fn law_delete_epic_leaves_no_trace(t: Seq<Seq<Card>>, stories: Seq<Story>, eid: Seq<char>)
    ensures
        ({
            let nt = t.map_values(|cards: Seq<Card>| cards.filter(survives_epic_delete(stories, eid)));
            forall|i: int, k: int|
                0 <= i < nt.len() && 0 <= k < nt[i].len() ==> !id_is((#[trigger] nt[i][k]).epic_id, eid)
                    && !(nt[i][k].story_id matches Some(s) && crate::planning::is_story_of_epic(stories, eid, s@))
        }),
        ({
            let ns = stories.filter(story_epic_is_not(eid));
            forall|j: int| 0 <= j < ns.len() ==> (#[trigger] ns[j]).epic_id@ != eid
        }),
{
    let p = survives_epic_delete(stories, eid);
    let nt = t.map_values(|cards: Seq<Card>| cards.filter(p));
    assert forall|i: int, k: int| 0 <= i < nt.len() && 0 <= k < nt[i].len() implies !id_is((#[trigger] nt[i][k]).epic_id, eid)
        && !(nt[i][k].story_id matches Some(s) && crate::planning::is_story_of_epic(stories, eid, s@)) by {
        t[i].lemma_filter_pred(p, k);
    }
    let ns = stories.filter(story_epic_is_not(eid));
    assert forall|j: int| 0 <= j < ns.len() implies (#[trigger] ns[j]).epic_id@ != eid by {
        stories.lemma_filter_pred(story_epic_is_not(eid), j);
    }
}

/// Deleting a story leaves no card in it.
pub proof fn law_delete_story_leaves_no_card(t: Seq<Seq<Card>>, sid: Seq<char>)
    ensures
        ({
            let nt = t.map_values(|cards: Seq<Card>| cards.filter(not_in_story(sid)));
            forall|i: int, k: int| 0 <= i < nt.len() && 0 <= k < nt[i].len() ==> !id_is((#[trigger] nt[i][k]).story_id, sid)
        }),
{
    let nt = t.map_values(|cards: Seq<Card>| cards.filter(not_in_story(sid)));
    assert forall|i: int, k: int| 0 <= i < nt.len() && 0 <= k < nt[i].len() implies !id_is((#[trigger] nt[i][k]).story_id, sid) by {
        t[i].lemma_filter_pred(not_in_story(sid), k);
    }
}

/// Deleting a space keeps all epics, in their order: those that were in it
/// are left in no space, and every other epic stays exactly as it was.
pub proof fn law_delete_space_keeps_epics(epics: Seq<Epic>, sid: Seq<char>)
    ensures
        epics_after_space_delete(epics, sid).len() == epics.len(),
        forall|i: int| 0 <= i < epics.len() ==> !id_is((#[trigger] epics_after_space_delete(epics, sid)[i]).space_id, sid),
        forall|i: int| 0 <= i < epics.len() ==> (#[trigger] epics_after_space_delete(epics, sid)[i]).id == epics[i].id,
        forall|i: int|
            0 <= i < epics.len() && !(epics[i].space_id is Some && epics[i].space_id->0@ == sid) ==> (
            #[trigger] epics_after_space_delete(epics, sid)[i]) == epics[i],
        forall|i: int|
            0 <= i < epics.len() && epics[i].space_id is Some && epics[i].space_id->0@ == sid ==> (
            #[trigger] epics_after_space_delete(epics, sid)[i]) == (Epic { space_id: None, ..epics[i] }),
{
}

/// A second logged on an epic adds one second to its total.
pub proof fn law_epic_second_adds_to_total(epics: Seq<Epic>, id: Seq<char>, stories: Seq<Story>, cols: Seq<Column>)
    requires
        first_where(epics, epic_has_id(id)) is Some,
        epics[first_where(epics, epic_has_id(id))->0].direct_logged_secs < u64::MAX,
    ensures
        ({
            let i = first_where(epics, epic_has_id(id))->0;
            epic_total(epics_after_second(epics, id)[i], stories, cols) == epic_total(epics[i], stories, cols) + 1
        }),
{
    lemma_first_where_spec(epics, epic_has_id(id));
}

/// A second logged on a story adds one second to its total.
pub proof fn law_story_second_adds_to_total(stories: Seq<Story>, id: Seq<char>, cols: Seq<Column>)
    requires
        first_where(stories, story_has_id(id)) is Some,
        stories[first_where(stories, story_has_id(id))->0].direct_logged_secs < u64::MAX,
    ensures
        ({
            let i = first_where(stories, story_has_id(id))->0;
            story_total(stories_after_second(stories, id)[i], cols) == story_total(stories[i], cols) + 1
        }),
{
    lemma_first_where_spec(stories, story_has_id(id));
}

/// What a card adds to a sum over the cards that satisfy `p`.
pub open spec fn secs_if(c: Card, p: spec_fn(Card) -> bool) -> int {
    if p(c) {
        c.logged_secs as int
    } else {
        0
    }
}

proof fn lemma_card_secs_update(cards: Seq<Card>, k: int, c: Card, p: spec_fn(Card) -> bool)
    requires
        0 <= k < cards.len(),
    ensures
        card_secs(cards.update(k, c), p) == card_secs(cards, p) - secs_if(cards[k], p) + secs_if(c, p),
    decreases cards.len(),
{
    if k < cards.len() - 1 {
        lemma_card_secs_update(cards.drop_last(), k, c, p);
        assert(cards.update(k, c).drop_last() =~= cards.drop_last().update(k, c));
    } else {
        assert(cards.update(k, c).drop_last() =~= cards.drop_last());
    }
}

proof fn lemma_table_secs_update(t: Seq<Seq<Card>>, i: int, x: Seq<Card>, p: spec_fn(Card) -> bool)
    requires
        0 <= i < t.len(),
    ensures
        table_secs(t.update(i, x), p) == table_secs(t, p) - card_secs(t[i], p) + card_secs(x, p),
    decreases t.len(),
{
    if i < t.len() - 1 {
        lemma_table_secs_update(t.drop_last(), i, x, p);
        assert(t.update(i, x).drop_last() =~= t.drop_last().update(i, x));
    } else {
        assert(t.update(i, x).drop_last() =~= t.drop_last());
    }
}

proof fn lemma_card_second_sum(t: Seq<Seq<Card>>, id: Seq<char>, p: spec_fn(Card) -> bool)
    requires
        card_location(t, id) is Some,
        ({
            let (i, k) = card_location(t, id)->0;
            &&& t[i][k].logged_secs < u64::MAX
            &&& p(t[i][k]) == p(card_plus_second(t[i][k]))
        }),
    ensures
        ({
            let (i, k) = card_location(t, id)->0;
            table_secs(table_after_card_second(t, id), p) == table_secs(t, p) + if p(t[i][k]) { 1int } else { 0 }
        }),
{
    let (i, k) = card_location(t, id)->0;
    lemma_first_where_spec(t, holds_card(id));
    lemma_first_where_spec(t[i], card_has_id(id));
    let x = t[i].update(k, card_plus_second(t[i][k]));
    lemma_card_secs_update(t[i], k, card_plus_second(t[i][k]), p);
    lemma_table_secs_update(t, i, x, p);
}

/// A second logged on a card in a story adds one second to what that story
/// has logged on its cards.
pub proof fn law_card_second_counts_for_story(t: Seq<Seq<Card>>, id: Seq<char>, sid: Seq<char>)
    requires
        card_location(t, id) is Some,
        ({
            let (i, k) = card_location(t, id)->0;
            t[i][k].logged_secs < u64::MAX && id_is(t[i][k].story_id, sid)
        }),
    ensures
        table_secs(table_after_card_second(t, id), in_story(sid)) == table_secs(t, in_story(sid)) + 1,
{
    lemma_card_second_sum(t, id, in_story(sid));
}

/// A second logged on a card of an epic that is in no story adds one second
/// to what that epic has logged on such cards.
pub proof fn law_card_second_counts_for_epic(t: Seq<Seq<Card>>, id: Seq<char>, eid: Seq<char>)
    requires
        card_location(t, id) is Some,
        ({
            let (i, k) = card_location(t, id)->0;
            t[i][k].logged_secs < u64::MAX && id_is(t[i][k].epic_id, eid) && t[i][k].story_id is None
        }),
    ensures
        table_secs(table_after_card_second(t, id), loose_in_epic(eid)) == table_secs(t, loose_in_epic(eid)) + 1,
{
    lemma_card_second_sum(t, id, loose_in_epic(eid));
}

/// Deleting a card that is on the board takes exactly one card off it.
pub proof fn law_delete_card_removes_one(t: Seq<Seq<Card>>, id: Seq<char>)
    requires
        card_location(t, id) is Some,
    ensures
        card_total(table_without_card(t, id)) + 1 == card_total(t),
{
    let (i, k) = card_location(t, id)->0;
    lemma_first_where_spec(t, holds_card(id));
    lemma_first_where_spec(t[i], card_has_id(id));
    lemma_card_total_update(t, i, t[i].remove(k));
}

proof fn lemma_filter_all(s: Seq<Column>, p: spec_fn(Column) -> bool)
    requires
        forall|i: int| 0 <= i < s.len() ==> p(#[trigger] s[i]),
    ensures
        s.filter(p) == s,
    decreases s.len(),
{
    if s.len() > 0 {
        lemma_filter_all(s.drop_last(), p);
        assert(s.drop_last().push(s.last()) =~= s);
        s.drop_last().lemma_filter_push(s.last(), p);
    } else {
        reveal(Seq::filter);
    }
}

/// Adding a column under an id no column has and deleting that column again
/// gives the columns back.
pub proof fn law_add_then_delete_column(old: Seq<Column>, new: Seq<Column>, id: String, title: String)
    requires
        forall|i: int| 0 <= i < old.len() ==> (#[trigger] old[i]).id@ != id@,
        appended_column(old, new, id, title),
    ensures
        new.filter(col_id_is_not(id@)) == old,
{
    assert(new =~= old.push(new.last()));
    old.lemma_filter_push(new.last(), col_id_is_not(id@));
    lemma_filter_all(old, col_id_is_not(id@));
}

/// Every card on the board, column after column, each in its column's order.
pub open spec fn board_cards(cols: Seq<Column>) -> Seq<Card> {
    table(cols).flatten()
}

proof fn lemma_card_secs_append(a: Seq<Card>, b: Seq<Card>, p: spec_fn(Card) -> bool)
    ensures
        card_secs(a + b, p) == card_secs(a, p) + card_secs(b, p),
    decreases b.len(),
{
    if b.len() == 0 {
        assert(a + b =~= a);
    } else {
        lemma_card_secs_append(a, b.drop_last(), p);
        assert((a + b).drop_last() =~= a + b.drop_last());
    }
}

proof fn lemma_table_secs_flat(t: Seq<Seq<Card>>, p: spec_fn(Card) -> bool)
    ensures
        table_secs(t, p) == card_secs(t.flatten_alt(), p),
    decreases t.len(),
{
    if t.len() > 0 {
        lemma_table_secs_flat(t.drop_last(), p);
        lemma_card_secs_append(t.drop_last().flatten_alt(), t.last(), p);
    }
}

proof fn lemma_table_secs_board(cols: Seq<Column>, p: spec_fn(Card) -> bool)
    ensures
        table_secs(table(cols), p) == card_secs(board_cards(cols), p),
{
    lemma_table_secs_flat(table(cols), p);
    table(cols).lemma_flatten_and_flatten_alt_are_equivalent();
}

proof fn lemma_card_secs_remove(s: Seq<Card>, j: int, p: spec_fn(Card) -> bool)
    requires
        0 <= j < s.len(),
    ensures
        card_secs(s, p) == card_secs(s.remove(j), p) + secs_if(s[j], p),
{
    let one = seq![s[j]];
    assert(one.drop_last() =~= Seq::<Card>::empty());
    assert(card_secs(one.drop_last(), p) == 0);
    assert(one.last() == s[j]);
    assert(card_secs(one, p) == secs_if(s[j], p));
    assert(s =~= s.take(j) + one + s.skip(j + 1));
    assert(s.remove(j) =~= s.take(j) + s.skip(j + 1));
    lemma_card_secs_append(s.take(j) + one, s.skip(j + 1), p);
    lemma_card_secs_append(s.take(j), one, p);
    lemma_card_secs_append(s.take(j), s.skip(j + 1), p);
}

proof fn lemma_card_secs_permutation(s: Seq<Card>, t: Seq<Card>, p: spec_fn(Card) -> bool)
    requires
        s.to_multiset() == t.to_multiset(),
    ensures
        card_secs(s, p) == card_secs(t, p),
    decreases s.len(),
{
    broadcast use vstd::seq_lib::group_to_multiset_ensures;
    if s.len() == 0 {
        assert(t.len() == s.to_multiset().len());
    } else {
        let x = s.last();
        assert(s.contains(x)) by {
            assert(s[s.len() - 1] == x);
        }
        assert(s.to_multiset().count(x) > 0);
        assert(t.to_multiset().count(x) > 0);
        assert(t.contains(x));
        let j = choose|j: int| 0 <= j < t.len() && t[j] == x;
        assert(s.remove(s.len() - 1) =~= s.drop_last());
        assert(s.drop_last().to_multiset() == s.to_multiset().remove(x));
        assert(t.remove(j).to_multiset() == t.to_multiset().remove(x));
        lemma_card_secs_permutation(s.drop_last(), t.remove(j), p);
        lemma_card_secs_remove(t, j, p);
    }
}

proof fn lemma_table_secs_placement(cols1: Seq<Column>, cols2: Seq<Column>, p: spec_fn(Card) -> bool)
    requires
        board_cards(cols1).to_multiset() == board_cards(cols2).to_multiset(),
    ensures
        table_secs(table(cols1), p) == table_secs(table(cols2), p),
{
    lemma_table_secs_board(cols1, p);
    lemma_table_secs_board(cols2, p);
    lemma_card_secs_permutation(board_cards(cols1), board_cards(cols2), p);
}

/// Where the cards sit does not change a story's time: on two boards that
/// hold the same cards, in whatever columns and order, the story has the same
/// total (so a drag-and-drop or a column reorder leaves it as it was).
pub proof fn law_story_total_ignores_placement(story: Story, cols1: Seq<Column>, cols2: Seq<Column>)
    requires
        board_cards(cols1).to_multiset() == board_cards(cols2).to_multiset(),
    ensures
        story_total(story, cols1) == story_total(story, cols2),
{
    lemma_table_secs_placement(cols1, cols2, in_story(story.id@));
}

proof fn lemma_stories_total_placement(stories: Seq<Story>, eid: Seq<char>, cols1: Seq<Column>, cols2: Seq<Column>)
    requires
        board_cards(cols1).to_multiset() == board_cards(cols2).to_multiset(),
    ensures
        stories_total(stories, eid, cols1) == stories_total(stories, eid, cols2),
    decreases stories.len(),
{
    if stories.len() > 0 {
        lemma_stories_total_placement(stories.drop_last(), eid, cols1, cols2);
        law_story_total_ignores_placement(stories.last(), cols1, cols2);
    }
}

/// Where the cards sit does not change an epic's time: on two boards that
/// hold the same cards, in whatever columns and order, the epic has the same
/// total.
pub proof fn law_epic_total_ignores_placement(epic: Epic, stories: Seq<Story>, cols1: Seq<Column>, cols2: Seq<Column>)
    requires
        board_cards(cols1).to_multiset() == board_cards(cols2).to_multiset(),
    ensures
        epic_total(epic, stories, cols1) == epic_total(epic, stories, cols2),
{
    lemma_stories_total_placement(stories, epic.id@, cols1, cols2);
    lemma_table_secs_placement(cols1, cols2, loose_in_epic(epic.id@));
}

proof fn lemma_card_secs_push(s: Seq<Card>, c: Card, p: spec_fn(Card) -> bool)
    ensures
        card_secs(s.push(c), p) == card_secs(s, p) + secs_if(c, p),
{
    assert(s.push(c).drop_last() =~= s);
}

proof fn lemma_table_secs_added_card(cols1: Seq<Column>, cols2: Seq<Column>, c: Card, p: spec_fn(Card) -> bool)
    requires
        board_cards(cols2).to_multiset() == board_cards(cols1).to_multiset().insert(c),
    ensures
        table_secs(table(cols2), p) == table_secs(table(cols1), p) + secs_if(c, p),
{
    broadcast use vstd::seq_lib::group_to_multiset_ensures;
    let b1 = board_cards(cols1);
    assert(b1.push(c).to_multiset() == b1.to_multiset().insert(c));
    lemma_card_secs_permutation(b1.push(c), board_cards(cols2), p);
    lemma_card_secs_push(b1, c, p);
    lemma_table_secs_board(cols1, p);
    lemma_table_secs_board(cols2, p);
}

/// A card counts toward a story's time exactly when it names that story:
/// putting a card anywhere on the board adds its seconds to the total of the
/// story it names, and nothing to any other story's.
pub proof fn law_card_counts_for_its_story_only(story: Story, cols1: Seq<Column>, cols2: Seq<Column>, c: Card)
    requires
        board_cards(cols2).to_multiset() == board_cards(cols1).to_multiset().insert(c),
    ensures
        story_total(story, cols2) == story_total(story, cols1) + if c.story_id is Some && c.story_id->0@ == story.id@ {
            c.logged_secs as int
        } else {
            0
        },
{
    lemma_table_secs_added_card(cols1, cols2, c, in_story(story.id@));
}

proof fn lemma_stories_total_loose_card(stories: Seq<Story>, eid: Seq<char>, cols1: Seq<Column>, cols2: Seq<Column>, c: Card)
    requires
        c.story_id is None,
        board_cards(cols2).to_multiset() == board_cards(cols1).to_multiset().insert(c),
    ensures
        stories_total(stories, eid, cols2) == stories_total(stories, eid, cols1),
    decreases stories.len(),
{
    if stories.len() > 0 {
        lemma_stories_total_loose_card(stories.drop_last(), eid, cols1, cols2, c);
        law_card_counts_for_its_story_only(stories.last(), cols1, cols2, c);
    }
}

/// A card in no story counts toward an epic's time exactly when it names that
/// epic: putting such a card anywhere on the board adds its seconds to the
/// total of its epic, and nothing to the total of any other epic; a card that
/// names no epic counts for none.
pub proof fn law_loose_card_counts_for_its_epic_only(epic: Epic, stories: Seq<Story>, cols1: Seq<Column>, cols2: Seq<Column>, c: Card)
    requires
        c.story_id is None,
        board_cards(cols2).to_multiset() == board_cards(cols1).to_multiset().insert(c),
    ensures
        epic_total(epic, stories, cols2) == epic_total(epic, stories, cols1) + if c.epic_id is Some && c.epic_id->0@ == epic.id@ {
            c.logged_secs as int
        } else {
            0
        },
{
    lemma_stories_total_loose_card(stories, epic.id@, cols1, cols2, c);
    lemma_table_secs_added_card(cols1, cols2, c, loose_in_epic(epic.id@));
}

/// The done figure of a progress bar counts the matching cards of the first
/// column whose id is `"done"`, wherever that column stands on the board.
pub proof fn law_done_is_first_done_column(cols: Seq<Column>, i: int, p: spec_fn(Card) -> bool)
    requires
        0 <= i < cols.len(),
        cols[i].id@ == "done"@,
        forall|j: int| 0 <= j < i ==> (#[trigger] cols[j]).id@ != "done"@,
    ensures
        done_count(cols, p) == card_count(cols[i].cards@, p),
{
    reveal_strlit("done");
    assert("done"@ =~= done_id());
    lemma_first_where_some(cols, col_has_id(done_id()), i);
}

/// Without a column whose id is `"done"`, nothing counts as done.
pub proof fn law_nothing_done_without_done_column(cols: Seq<Column>, p: spec_fn(Card) -> bool)
    requires
        forall|j: int| 0 <= j < cols.len() ==> (#[trigger] cols[j]).id@ != "done"@,
    ensures
        done_count(cols, p) == 0,
{
    reveal_strlit("done");
    assert("done"@ =~= done_id());
    lemma_first_where_none(cols, col_has_id(done_id()));
}

/// Adding a column with another id after the others leaves the done figure
/// as it was.
pub proof fn law_done_ignores_added_column(cols: Seq<Column>, col: Column, p: spec_fn(Card) -> bool)
    requires
        col.id@ != "done"@,
    ensures
        done_count(cols.push(col), p) == done_count(cols, p),
{
    reveal_strlit("done");
    assert("done"@ =~= done_id());
    let q = col_has_id(done_id());
    lemma_first_where_spec(cols, q);
    match first_where(cols, q) {
        Some(i) => {
            assert(is_first(cols.push(col), q, i));
            lemma_first_where_some(cols.push(col), q, i);
        },
        None => {
            assert forall|j: int| 0 <= j < cols.push(col).len() implies !q(#[trigger] cols.push(col)[j]) by {
                if j < cols.len() {
                    assert(cols.push(col)[j] == cols[j]);
                }
            }
            lemma_first_where_none(cols.push(col), q);
        },
    }
}

/// Saving an edit gives the card exactly the title, description, tag, epic,
/// story and resources of the edit (an empty choice clears the epic or the
/// story); its id, subtasks and logged time stay, and every other card of the
/// board stays as it was.
pub proof fn law_edit_card_sets_fields(
    t: Seq<Seq<Card>>,
    id: Seq<char>,
    title: String,
    desc: String,
    tag: String,
    epic_id: Option<String>,
    story_id: Option<String>,
    resources: Vec<Resource>,
    i: int,
    k: int,
)
    requires
        card_location(t, id) == Some((i, k)),
    ensures
        ({
            let after = table_updating_card(t, id, edit_with(title, desc, tag, epic_id, story_id, resources));
            &&& after.len() == t.len()
            &&& after[i].len() == t[i].len()
            &&& after[i][k].title == title
            &&& after[i][k].desc == desc
            &&& after[i][k].tag == tag
            &&& after[i][k].epic_id == epic_id
            &&& after[i][k].story_id == story_id
            &&& after[i][k].resources == resources
            &&& after[i][k].id == t[i][k].id
            &&& after[i][k].subtasks == t[i][k].subtasks
            &&& after[i][k].logged_secs == t[i][k].logged_secs
            &&& forall|a: int, b: int|
                0 <= a < t.len() && 0 <= b < t[a].len() && (a != i || b != k) ==> #[trigger] after[a][b] == t[a][b]
        }),
{
    lemma_first_where_spec(t, holds_card(id));
    lemma_first_where_spec(t[i], card_has_id(id));
}

/// The timer shows the time left as minutes, a colon and seconds: the minutes
/// in decimal with a leading zero below ten, the seconds always as exactly
/// two digits.
pub proof fn law_clock_shows_minutes_and_two_digit_seconds(secs: nat)
    ensures
        ({
            let m = secs / 60;
            let sec = secs % 60;
            let tail = seq![':', digit_char(sec / 10), digit_char(sec % 10)];
            &&& m < 10 ==> clock_text(secs) == seq!['0', digit_char(m)] + tail
            &&& m >= 10 ==> clock_text(secs) == decimal(m) + tail
        }),
{
    let m = secs / 60;
    let sec = secs % 60;
    let tail = seq![':', digit_char(sec / 10), digit_char(sec % 10)];
    let sec_text = two_digits(sec);
    if sec < 10 {
        assert(decimal(sec) == seq![digit_char(sec)]);
        assert(sec / 10 == 0);
        assert(sec_text =~= seq![digit_char(sec / 10), digit_char(sec % 10)]);
    } else {
        assert(decimal(sec / 10) == seq![digit_char(sec / 10)]);
        assert(sec_text =~= seq![digit_char(sec / 10), digit_char(sec % 10)]);
    }
    if m < 10 {
        assert(decimal(m) == seq![digit_char(m)]);
        assert(clock_text(secs) =~= seq!['0', digit_char(m)] + tail);
    } else {
        assert(clock_text(secs) =~= decimal(m) + tail);
    }
}

/// The stories of the epic `eid` that have the id `sid`.
pub open spec fn stories_of_epic_with_id(eid: Seq<char>, sid: Seq<char>) -> spec_fn(Story) -> bool {
    |s: Story| s.epic_id@ == eid && s.id@ == sid
}

proof fn lemma_stories_total_added_card(stories: Seq<Story>, eid: Seq<char>, cols1: Seq<Column>, cols2: Seq<Column>, c: Card)
    requires
        c.story_id is Some,
        board_cards(cols2).to_multiset() == board_cards(cols1).to_multiset().insert(c),
    ensures
        stories_total(stories, eid, cols2) == stories_total(stories, eid, cols1)
            + c.logged_secs * stories.filter(stories_of_epic_with_id(eid, c.story_id->0@)).len(),
    decreases stories.len(),
{
    let q = stories_of_epic_with_id(eid, c.story_id->0@);
    if stories.len() == 0 {
        reveal(Seq::filter);
        assert(stories.filter(q).len() == 0);
    } else {
        let rest = stories.drop_last();
        let last = stories.last();
        lemma_stories_total_added_card(rest, eid, cols1, cols2, c);
        law_card_counts_for_its_story_only(last, cols1, cols2, c);
        assert(rest.push(last) =~= stories);
        rest.lemma_filter_push(last, q);
        let n = rest.filter(q).len();
        let x = c.logged_secs as int;
        assert(x * (n + 1) == x * n + x) by (nonlinear_arith);
        assert(stories.drop_last() == rest);
        if q(last) {
            assert(stories.filter(q).len() == n + 1);
            assert(stories_total(stories, eid, cols2) == stories_total(rest, eid, cols2) + story_total(last, cols2));
        } else {
            assert(stories.filter(q).len() == n);
        }
    }
}

/// A card counts toward an epic's time once through each story of the epic
/// that it names, and once more when it is in no story and names the epic
/// itself; a card that names neither counts for nothing.
pub proof fn law_card_counts_toward_epic(epic: Epic, stories: Seq<Story>, cols1: Seq<Column>, cols2: Seq<Column>, c: Card)
    requires
        board_cards(cols2).to_multiset() == board_cards(cols1).to_multiset().insert(c),
    ensures
        c.story_id is Some ==> epic_total(epic, stories, cols2) == epic_total(epic, stories, cols1)
            + c.logged_secs * stories.filter(stories_of_epic_with_id(epic.id@, c.story_id->0@)).len(),
        c.story_id is None ==> epic_total(epic, stories, cols2) == epic_total(epic, stories, cols1)
            + if c.epic_id is Some && c.epic_id->0@ == epic.id@ { c.logged_secs as int } else { 0 },
{
    if c.story_id is Some {
        lemma_stories_total_added_card(stories, epic.id@, cols1, cols2, c);
        lemma_table_secs_added_card(cols1, cols2, c, loose_in_epic(epic.id@));
    } else {
        law_loose_card_counts_for_its_epic_only(epic, stories, cols1, cols2, c);
    }
}

/// 1 for a card that `p` accepts, 0 for another.
pub open spec fn one_if(c: Card, p: spec_fn(Card) -> bool) -> nat {
    if p(c) {
        1
    } else {
        0
    }
}

proof fn lemma_card_count_append(a: Seq<Card>, b: Seq<Card>, p: spec_fn(Card) -> bool)
    ensures
        card_count(a + b, p) == card_count(a, p) + card_count(b, p),
    decreases b.len(),
{
    if b.len() == 0 {
        assert(a + b =~= a);
    } else {
        lemma_card_count_append(a, b.drop_last(), p);
        assert((a + b).drop_last() =~= a + b.drop_last());
    }
}

proof fn lemma_table_count_flat(t: Seq<Seq<Card>>, p: spec_fn(Card) -> bool)
    ensures
        table_count(t, p) == card_count(t.flatten_alt(), p),
    decreases t.len(),
{
    if t.len() > 0 {
        lemma_table_count_flat(t.drop_last(), p);
        lemma_card_count_append(t.drop_last().flatten_alt(), t.last(), p);
    }
}

proof fn lemma_card_count_remove(s: Seq<Card>, j: int, p: spec_fn(Card) -> bool)
    requires
        0 <= j < s.len(),
    ensures
        card_count(s, p) == card_count(s.remove(j), p) + one_if(s[j], p),
{
    let one = seq![s[j]];
    assert(one.drop_last() =~= Seq::<Card>::empty());
    assert(card_count(one.drop_last(), p) == 0);
    assert(one.last() == s[j]);
    assert(card_count(one, p) == one_if(s[j], p));
    assert(s =~= s.take(j) + one + s.skip(j + 1));
    assert(s.remove(j) =~= s.take(j) + s.skip(j + 1));
    lemma_card_count_append(s.take(j) + one, s.skip(j + 1), p);
    lemma_card_count_append(s.take(j), one, p);
    lemma_card_count_append(s.take(j), s.skip(j + 1), p);
}

proof fn lemma_card_count_permutation(s: Seq<Card>, t: Seq<Card>, p: spec_fn(Card) -> bool)
    requires
        s.to_multiset() == t.to_multiset(),
    ensures
        card_count(s, p) == card_count(t, p),
    decreases s.len(),
{
    broadcast use vstd::seq_lib::group_to_multiset_ensures;
    if s.len() == 0 {
        assert(t.len() == s.to_multiset().len());
    } else {
        let x = s.last();
        assert(s.contains(x)) by {
            assert(s[s.len() - 1] == x);
        }
        assert(s.to_multiset().count(x) > 0);
        assert(t.to_multiset().count(x) > 0);
        assert(t.contains(x));
        let j = choose|j: int| 0 <= j < t.len() && t[j] == x;
        assert(s.remove(s.len() - 1) =~= s.drop_last());
        assert(s.drop_last().to_multiset() == s.to_multiset().remove(x));
        assert(t.remove(j).to_multiset() == t.to_multiset().remove(x));
        lemma_card_count_permutation(s.drop_last(), t.remove(j), p);
        lemma_card_count_remove(t, j, p);
    }
}

proof fn lemma_table_count_added_card(cols1: Seq<Column>, cols2: Seq<Column>, c: Card, p: spec_fn(Card) -> bool)
    requires
        board_cards(cols2).to_multiset() == board_cards(cols1).to_multiset().insert(c),
    ensures
        table_count(table(cols2), p) == table_count(table(cols1), p) + one_if(c, p),
{
    broadcast use vstd::seq_lib::group_to_multiset_ensures;
    let b1 = board_cards(cols1);
    assert(b1.push(c).to_multiset() == b1.to_multiset().insert(c));
    lemma_card_count_permutation(b1.push(c), board_cards(cols2), p);
    assert(b1.push(c).drop_last() =~= b1);
    lemma_table_count_flat(table(cols1), p);
    table(cols1).lemma_flatten_and_flatten_alt_are_equivalent();
    lemma_table_count_flat(table(cols2), p);
    table(cols2).lemma_flatten_and_flatten_alt_are_equivalent();
}

/// The task count of an epic's progress counts each card that names the
/// epic: putting a card on the board adds one to the count of the epic it
/// names and nothing to that of any other.
pub proof fn law_progress_total_counts_epic_cards(eid: Seq<char>, cols1: Seq<Column>, cols2: Seq<Column>, c: Card)
    requires
        board_cards(cols2).to_multiset() == board_cards(cols1).to_multiset().insert(c),
    ensures
        table_count(table(cols2), in_epic(eid)) == table_count(table(cols1), in_epic(eid)) + if c.epic_id is Some
            && c.epic_id->0@ == eid {
            1int
        } else {
            0
        },
{
    lemma_table_count_added_card(cols1, cols2, c, in_epic(eid));
}

/// The task count of a story's progress counts each card that names the
/// story: putting a card on the board adds one to the count of the story it
/// names and nothing to that of any other.
pub proof fn law_progress_total_counts_story_cards(sid: Seq<char>, cols1: Seq<Column>, cols2: Seq<Column>, c: Card)
    requires
        board_cards(cols2).to_multiset() == board_cards(cols1).to_multiset().insert(c),
    ensures
        table_count(table(cols2), in_story(sid)) == table_count(table(cols1), in_story(sid)) + if c.story_id is Some
            && c.story_id->0@ == sid {
            1int
        } else {
            0
        },
{
    lemma_table_count_added_card(cols1, cols2, c, in_story(sid));
}

/// Deleting a space takes out exactly the spaces with its id and keeps every
/// other space, in its order.
pub proof fn law_delete_space_keeps_other_spaces(spaces: Seq<Space>, sid: Seq<char>)
    ensures
        forall|i: int| 0 <= i < spaces.filter(space_id_is_not(sid)).len() ==> (#[trigger] spaces.filter(space_id_is_not(sid))[i]).id@ != sid,
        forall|i: int| 0 <= i < spaces.len() && spaces[i].id@ != sid ==> spaces.filter(space_id_is_not(sid)).contains(#[trigger] spaces[i]),
        forall|s: Space| spaces.filter(space_id_is_not(sid)).contains(s) ==> spaces.contains(s),
        forall|i: int| 0 <= i < spaces.len() ==> (spaces[i].id@ == sid) == !(#[trigger] space_id_is_not(sid)(spaces[i])),
{
    spaces.filter_lemma(space_id_is_not(sid));
    assert forall|s: Space| spaces.filter(space_id_is_not(sid)).contains(s) implies spaces.contains(s) by {
        spaces.lemma_filter_contains_rev(space_id_is_not(sid), s);
    }
    assert forall|i: int| 0 <= i < spaces.len() && spaces[i].id@ != sid implies spaces.filter(space_id_is_not(sid)).contains(#[trigger] spaces[i]) by {
        spaces.lemma_filter_contains(space_id_is_not(sid), i);
    }
}

/// A duration is shown as whole hours and minutes: `<h>h <m>m`, or `<m>m`
/// under an hour, where the minutes are those left over after the hours.
pub proof fn law_duration_shows_hours_and_minutes(secs: nat)
    ensures
        secs >= 3600 ==> duration_text(secs) == decimal(secs / 3600) + seq!['h', ' '] + decimal((secs % 3600) / 60) + seq!['m'],
        secs < 3600 ==> duration_text(secs) == decimal(secs / 60) + seq!['m'],
{
    if secs < 3600 {
        assert(secs / 3600 == 0);
        assert(secs % 3600 == secs);
    } else {
        assert(secs / 3600 > 0);
    }
}

proof fn lemma_four_digits(n: nat)
    requires
        n < 10000,
    ensures
        crate::views::four_digits(n) == seq![
            digit_char(n / 1000),
            digit_char((n / 100) % 10),
            digit_char((n / 10) % 10),
            digit_char(n % 10),
        ],
{
    let want = seq![digit_char(n / 1000), digit_char((n / 100) % 10), digit_char((n / 10) % 10), digit_char(n % 10)];
    if n < 10 {
        assert(decimal(n) == seq![digit_char(n)]);
        assert(crate::views::four_digits(n) =~= want);
    } else if n < 100 {
        assert(decimal(n / 10) == seq![digit_char(n / 10)]);
        assert(crate::views::four_digits(n) =~= want);
    } else if n < 1000 {
        assert(decimal(n / 100) == seq![digit_char(n / 100)]);
        assert((n / 10) / 10 == n / 100);
        assert(crate::views::four_digits(n) =~= want);
    } else {
        assert((n / 10) / 10 == n / 100);
        assert((n / 100) / 10 == n / 1000);
        assert(n / 1000 < 10);
        assert(decimal(n / 1000) == seq![digit_char(n / 1000)]);
        assert(decimal(n / 100) == decimal(n / 1000).push(digit_char((n / 100) % 10)));
        assert(decimal(n / 10) == decimal(n / 100).push(digit_char((n / 10) % 10)));
        assert(decimal(n) == decimal(n / 10).push(digit_char(n % 10)));
        assert(crate::views::four_digits(n) =~= want);
    }
}

proof fn lemma_two_digits(n: nat)
    requires
        n < 100,
    ensures
        two_digits(n) == seq![digit_char(n / 10), digit_char(n % 10)],
{
    if n < 10 {
        assert(decimal(n) == seq![digit_char(n)]);
    } else {
        assert(decimal(n / 10) == seq![digit_char(n / 10)]);
    }
    assert(two_digits(n) =~= seq![digit_char(n / 10), digit_char(n % 10)]);
}

/// A day of the years 0 to 9999 is written in ten characters, `YYYY-MM-DD`:
/// four digits of the year, two of the month and two of the day, each padded
/// with zeros, so that deadlines compare as text in the order of the days.
pub proof fn law_date_text_is_ten_digits_and_dashes(year: nat, month: nat, day: nat)
    requires
        year < 10000,
        month < 100,
        day < 100,
    ensures
        crate::views::date_text_of(year, month, day) == seq![
            digit_char(year / 1000),
            digit_char((year / 100) % 10),
            digit_char((year / 10) % 10),
            digit_char(year % 10),
            '-',
            digit_char(month / 10),
            digit_char(month % 10),
            '-',
            digit_char(day / 10),
            digit_char(day % 10),
        ],
{
    lemma_four_digits(year);
    lemma_two_digits(month);
    lemma_two_digits(day);
    assert(crate::views::date_text_of(year, month, day) =~= seq![
        digit_char(year / 1000),
        digit_char((year / 100) % 10),
        digit_char((year / 10) % 10),
        digit_char(year % 10),
        '-',
        digit_char(month / 10),
        digit_char(month % 10),
        '-',
        digit_char(day / 10),
        digit_char(day % 10),
    ]);
}

} // verus!
