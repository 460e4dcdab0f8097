//! What the board shows for its entities: column styles, deadline warnings,
//! epic colours on cards, tag badges, subtask and task progress, and the
//! figures of a space.

use vstd::prelude::*;
use crate::columns::table;
use crate::find::first_where;
use crate::metrics::{epic_total, epic_total_checked, epic_total_secs};
use crate::model::{badge_style_text, id_is, refers_to, Card, Column, Epic, Story, TagDef};
use crate::planning::{epic_has_id, epic_position, story_has_id, story_position};
use crate::columns::{card_location, card_position, holds_card};
use crate::model::{Resource, ResourceKind};
use crate::ids::is_uuid_v4_text;
use crate::text::{is_blank, is_blank_text};
use crate::text::{decimal, push_char, push_decimal, same_text};
use crate::metrics::two_digits;

verus! {

/// The style class of a column's title: the four built-in columns have their own.
pub open spec fn title_class_text(col_id: Seq<char>) -> Seq<char> {
    if col_id == "todo"@ {
        "column-title todo"@
    } else if col_id == "in-progress"@ {
        "column-title in-prog"@
    } else if col_id == "review"@ {
        "column-title review"@
    } else if col_id == "done"@ {
        "column-title done"@
    } else {
        "column-title"@
    }
}

/// The style class of the title of the column `col_id`.
pub fn column_title_class(col_id: &str) -> (r: &'static str)
    ensures
        r@ == title_class_text(col_id@),
{
    if same_text(col_id, "todo") {
        "column-title todo"
    } else if same_text(col_id, "in-progress") {
        "column-title in-prog"
    } else if same_text(col_id, "review") {
        "column-title review"
    } else if same_text(col_id, "done") {
        "column-title done"
    } else {
        "column-title"
    }
}

/// `a` comes before `b` in the order of `str`: character by character by
/// code point (which is the order of their UTF-8 bytes), a proper prefix first.
pub open spec fn text_less(a: Seq<char>, b: Seq<char>) -> bool
    decreases a.len(),
{
    if a.len() == 0 {
        b.len() > 0
    } else if b.len() == 0 {
        false
    } else if (a[0] as u32) < (b[0] as u32) {
        true
    } else if (a[0] as u32) > (b[0] as u32) {
        false
    } else {
        text_less(a.drop_first(), b.drop_first())
    }
}

proof fn lemma_text_less_skip(a: Seq<char>, b: Seq<char>, i: int)
    requires
        0 <= i <= a.len(),
        i <= b.len(),
        forall|j: int| 0 <= j < i ==> a[j] == b[j],
    ensures
        text_less(a, b) == text_less(a.skip(i), b.skip(i)),
    decreases i,
{
    if i > 0 {
        lemma_text_less_skip(a.drop_first(), b.drop_first(), i - 1);
        assert(a.drop_first().skip(i - 1) =~= a.skip(i));
        assert(b.drop_first().skip(i - 1) =~= b.skip(i));
    } else {
        assert(a.skip(0) =~= a);
        assert(b.skip(0) =~= b);
    }
}

/// Whether `a` comes before `b` in the order of `str`.
pub fn text_before(a: &str, b: &str) -> (r: bool)
    ensures
        r == text_less(a@, b@),
{
    let n = a.unicode_len();
    let m = b.unicode_len();
    let mut i: usize = 0;
    while i < n && i < m
        invariant
            n == a@.len(),
            m == b@.len(),
            i <= n,
            i <= m,
            forall|j: int| 0 <= j < i ==> a@[j] == b@[j],
        decreases n - i,
    {
        let x = a.get_char(i);
        let y = b.get_char(i);
        if (x as u32) < (y as u32) || (x as u32) > (y as u32) {
            proof {
                lemma_text_less_skip(a@, b@, i as int);
                assert(a@.skip(i as int)[0] == x);
                assert(b@.skip(i as int)[0] == y);
            }
            return (x as u32) < (y as u32);
        }
        assert(x == y);
        i += 1;
    }
    proof {
        lemma_text_less_skip(a@, b@, i as int);
    }
    i == n && i < m
}

/// An epic's deadline is shown as overdue when it comes before `today`, both
/// written as `YYYY-MM-DD`, so that the text order is the order of the days.
pub fn is_overdue(deadline: &str, today: &str) -> (r: bool)
    ensures
        r == text_less(deadline@, today@),
{
    text_before(deadline, today)
}

/// `n` in decimal, with zeros in front up to four digits.
pub open spec fn four_digits(n: nat) -> Seq<char> {
    if n < 10 {
        seq!['0', '0', '0'] + decimal(n)
    } else if n < 100 {
        seq!['0', '0'] + decimal(n)
    } else if n < 1000 {
        seq!['0'] + decimal(n)
    } else {
        decimal(n)
    }
}

/// A calendar day as `YYYY-MM-DD`: the year at least four digits wide, the
/// month and the day of the month at least two.
pub open spec fn date_text_of(year: nat, month: nat, day: nat) -> Seq<char> {
    four_digits(year) + seq!['-'] + two_digits(month) + seq!['-'] + two_digits(day)
}

/// Writes a calendar day as `YYYY-MM-DD`, the form that deadlines are
/// entered in.
pub fn date_text(year: u32, month: u32, day: u32) -> (r: String)
    ensures
        r@ == date_text_of(year as nat, month as nat, day as nat),
{
    let mut s = String::new();
    if year < 1000 {
        push_char(&mut s, '0');
    }
    if year < 100 {
        push_char(&mut s, '0');
    }
    if year < 10 {
        push_char(&mut s, '0');
    }
    push_decimal(&mut s, year as u64);
    assert(s@ =~= four_digits(year as nat));
    push_char(&mut s, '-');
    let ghost y = s@;
    if month < 10 {
        push_char(&mut s, '0');
    }
    push_decimal(&mut s, month as u64);
    assert(s@ =~= y + two_digits(month as nat));
    push_char(&mut s, '-');
    let ghost m = s@;
    if day < 10 {
        push_char(&mut s, '0');
    }
    push_decimal(&mut s, day as u64);
    assert(s@ =~= m + two_digits(day as nat));
    s
}

/// The colour of the epic a card is in, if the card names an epic: the
/// colour of the first epic with that id, or nothing when there is none.
pub open spec fn card_epic_color(epic_id: Option<String>, epics: Seq<Epic>) -> Seq<char> {
    match epic_id {
        Some(eid) => match first_where(epics, epic_has_id(eid@)) {
            Some(i) => epics[i].color@,
            None => Seq::empty(),
        },
        None => Seq::empty(),
    }
}

/// The inline style of a card in the epic `epic_id`: a left border in the
/// epic's colour, nothing without one.
pub open spec fn border_style_text(epic_id: Option<String>, epics: Seq<Epic>) -> Seq<char> {
    let c = card_epic_color(epic_id, epics);
    if c.len() == 0 {
        Seq::empty()
    } else {
        "border-left: 3px solid "@ + c + ";"@
    }
}

/// The inline style of a card in the epic `epic_id`.
pub fn card_border_style(epic_id: &Option<String>, epics: &Vec<Epic>) -> (r: String)
    ensures
        r@ == border_style_text(*epic_id, epics@),
{
    match epic_id {
        Some(eid) => match epic_position(epics, eid) {
            Some(i) => {
                let color = epics[i].color.as_str();
                if color.is_empty() {
                    String::new()
                } else {
                    let mut r = String::from_str("border-left: 3px solid ");
                    r.append(color);
                    r.append(";");
                    r
                }
            },
            None => String::new(),
        },
        None => String::new(),
    }
}

/// A tag with the id `id`.
pub open spec fn tag_has_id(id: Seq<char>) -> spec_fn(TagDef) -> bool {
    |t: TagDef| t.id@ == id
}

/// How a card shows its tag: the name and the badge style of the first tag
/// with its id; the bare id and no style when the tag is gone.
pub fn tag_badge(tag_id: &String, tags: &Vec<TagDef>) -> (r: (String, String))
    ensures
        match first_where(tags@, tag_has_id(tag_id@)) {
            Some(i) => r.0@ == tags@[i].name@ && r.1@ == badge_style_text(tags@[i].color@),
            None => r.0@ == tag_id@ && r.1@.len() == 0,
        },
{
    match crate::find::position_where(
        tags,
        (|t: &TagDef| -> (b: bool)
            ensures
                b == (t.id@ == tag_id@),
            { t.id == *tag_id }),
        Ghost(tag_has_id(tag_id@)),
    ) {
        Some(i) => (tags[i].name.clone(), tags[i].badge_style()),
        None => (tag_id.clone(), String::new()),
    }
}

/// How many subtasks of `subtasks` are done.
pub open spec fn done_subtasks(subtasks: Seq<crate::model::Subtask>) -> nat
    decreases subtasks.len(),
{
    if subtasks.len() == 0 {
        0
    } else {
        done_subtasks(subtasks.drop_last()) + if subtasks.last().done {
            1nat
        } else {
            0
        }
    }
}

/// The label of a card's subtask progress, `done/total subtasks`; none when
/// the card has no subtasks.
pub open spec fn subtask_label_text(card: Card) -> Option<Seq<char>> {
    if card.subtasks@.len() > 0 {
        Some(
            decimal(done_subtasks(card.subtasks@)) + "/"@ + decimal(card.subtasks@.len()) + " subtasks"@,
        )
    } else {
        None
    }
}

/// The label of a card's subtask progress.
pub fn subtask_label(card: &Card) -> (r: Option<String>)
    ensures
        r matches Some(s) ==> subtask_label_text(*card) == Some(s@),
        r is None ==> subtask_label_text(*card) is None,
{
    let n = card.subtasks.len();
    if n == 0 {
        return None;
    }
    let mut done: usize = 0;
    let mut i: usize = 0;
    while i < n
        invariant
            n == card.subtasks@.len(),
            i <= n,
            done <= i,
            done == done_subtasks(card.subtasks@.take(i as int)),
        decreases n - i,
    {
        assert(card.subtasks@.take(i + 1).drop_last() =~= card.subtasks@.take(i as int));
        if card.subtasks[i].done {
            done += 1;
        }
        i += 1;
    }
    assert(card.subtasks@.take(n as int) =~= card.subtasks@);
    let mut s = String::new();
    push_decimal(&mut s, done as u64);
    s.append("/");
    push_decimal(&mut s, n as u64);
    s.append(" subtasks");
    Some(s)
}

/// The label `done/total tasks` of a task progress.
pub fn tasks_label(done: usize, total: usize) -> (r: String)
    ensures
        r@ == decimal(done as nat) + "/"@ + decimal(total as nat) + " tasks"@,
{
    let mut s = String::new();
    push_decimal(&mut s, done as u64);
    s.append("/");
    push_decimal(&mut s, total as u64);
    s.append(" tasks");
    s
}

/// The inline style of a story's epic badge in the colour `c`.
pub open spec fn epic_badge_style_text(c: Seq<char>) -> Seq<char> {
    "background:"@ + c + "22;color:"@ + c + ";border:1px solid "@ + c + "44;"@
}

/// The inline style of a story's epic badge in the colour `color`.
pub fn epic_badge_style(color: &str) -> (r: String)
    ensures
        r@ == epic_badge_style_text(color@),
{
    let mut s = String::from_str("background:");
    s.append(color);
    s.append("22;color:");
    s.append(color);
    s.append(";border:1px solid ");
    s.append(color);
    s.append("44;");
    s
}

/// How many epics of `epics` are in the space `sid`.
pub open spec fn space_epic_count(epics: Seq<Epic>, sid: Seq<char>) -> nat
    decreases epics.len(),
{
    if epics.len() == 0 {
        0
    } else {
        space_epic_count(epics.drop_last(), sid) + if id_is(epics.last().space_id, sid) {
            1nat
        } else {
            0
        }
    }
}

/// How many epics are in the space `space_id`.
pub fn epics_in_space(epics: &Vec<Epic>, space_id: &String) -> (r: usize)
    ensures
        r == space_epic_count(epics@, space_id@),
{
    let n = epics.len();
    let mut k: usize = 0;
    let mut i: usize = 0;
    while i < n
        invariant
            n == epics@.len(),
            i <= n,
            k <= i,
            k == space_epic_count(epics@.take(i as int), space_id@),
        decreases n - i,
    {
        assert(epics@.take(i + 1).drop_last() =~= epics@.take(i as int));
        if refers_to(&epics[i].space_id, space_id) {
            k += 1;
        }
        i += 1;
    }
    assert(epics@.take(n as int) =~= epics@);
    k
}

/// The seconds of the epics of `epics` in the space `sid`.
pub open spec fn space_total(epics: Seq<Epic>, sid: Seq<char>, stories: Seq<Story>, cols: Seq<Column>) -> nat
    decreases epics.len(),
{
    if epics.len() == 0 {
        0
    } else {
        space_total(epics.drop_last(), sid, stories, cols) + if id_is(epics.last().space_id, sid) {
            epic_total(epics.last(), stories, cols)
        } else {
            0
        }
    }
}

proof fn lemma_space_total_prefix(epics: Seq<Epic>, sid: Seq<char>, stories: Seq<Story>, cols: Seq<Column>, i: int)
    requires
        0 <= i <= epics.len(),
    ensures
        space_total(epics.take(i), sid, stories, cols) <= space_total(epics, sid, stories, cols),
    decreases epics.len(),
{
    if i < epics.len() {
        lemma_space_total_prefix(epics.drop_last(), sid, stories, cols, i);
        assert(epics.drop_last().take(i) =~= epics.take(i));
    } else {
        assert(epics.take(i) =~= epics);
    }
}

/// The seconds of all epics in the space `space_id`.
pub fn space_total_secs(epics: &Vec<Epic>, stories: &Vec<Story>, columns: &Vec<Column>, space_id: &String) -> (r: u64)
    requires
        space_total(epics@, space_id@, stories@, columns@) <= u64::MAX,
    ensures
        r == space_total(epics@, space_id@, stories@, columns@),
{
    let n = epics.len();
    let mut acc: u64 = 0;
    let mut i: usize = 0;
    while i < n
        invariant
            n == epics@.len(),
            i <= n,
            space_total(epics@, space_id@, stories@, columns@) <= u64::MAX,
            acc == space_total(epics@.take(i as int), space_id@, stories@, columns@),
        decreases n - i,
    {
        proof {
            assert(epics@.take(i + 1).drop_last() =~= epics@.take(i as int));
            lemma_space_total_prefix(epics@, space_id@, stories@, columns@, i + 1);
        }
        if refers_to(&epics[i].space_id, space_id) {
            acc = acc + epic_total_secs(&epics[i], stories, columns);
        }
        i += 1;
    }
    assert(epics@.take(n as int) =~= epics@);
    acc
}

/// An id picked in a form: none for the empty choice.
pub fn chosen_id(s: String) -> (r: Option<String>)
    ensures
        s@.len() == 0 ==> r is None,
        s@.len() > 0 ==> r == Some(s),
{
    if s.as_str().is_empty() {
        None
    } else {
        Some(s)
    }
}

/// The card `id` where the board finds it: in the first column that holds
/// it, at its first position there.
pub fn find_card<'a>(cols: &'a Vec<Column>, id: &String) -> (r: Option<&'a Card>)
    ensures
        match card_location(crate::columns::table(cols@), id@) {
            Some((i, k)) => r == Some(&cols@[i].cards@[k]),
            None => r is None,
        },
{
    let ghost t = crate::columns::table(cols@);
    let n = cols.len();
    let mut i: usize = 0;
    while i < n
        invariant
            n == cols@.len(),
            i <= n,
            t == crate::columns::table(cols@),
            forall|j: int| 0 <= j < i ==> !holds_card(id@)(#[trigger] t[j]),
        decreases n - i,
    {
        match card_position(&cols[i].cards, id) {
            Some(k) => {
                proof {
                    crate::find::lemma_first_where_some(t, holds_card(id@), i as int);
                }
                return Some(&cols[i].cards[k]);
            },
            None => {},
        }
        i += 1;
    }
    proof {
        crate::find::lemma_first_where_none(t, holds_card(id@));
    }
    None
}

/// The seconds logged on the card `id`, 0 when there is no such card.
pub fn card_logged_secs(cols: &Vec<Column>, id: &String) -> (r: u64)
    ensures
        match card_location(crate::columns::table(cols@), id@) {
            Some((i, k)) => r == cols@[i].cards@[k].logged_secs,
            None => r == 0,
        },
{
    match find_card(cols, id) {
        Some(c) => c.logged_secs,
        None => 0,
    }
}

/// How many cards the first column with the id `col_id` holds; 0 without one.
pub fn column_card_count(cols: &Vec<Column>, col_id: &String) -> (r: usize)
    ensures
        match first_where(cols@, crate::columns::col_has_id(col_id@)) {
            Some(i) => r == cols@[i].cards@.len(),
            None => r == 0,
        },
{
    match crate::columns::column_position(cols, col_id) {
        Some(i) => cols[i].cards.len(),
        None => 0,
    }
}

/// The title of the first epic with the id `epic_id`, if the reference names
/// one; empty otherwise.
pub fn epic_title_for(epic_id: &Option<String>, epics: &Vec<Epic>) -> (r: String)
    ensures
        match *epic_id {
            Some(eid) => match first_where(epics@, epic_has_id(eid@)) {
                Some(i) => r@ == epics@[i].title@,
                None => r@.len() == 0,
            },
            None => r@.len() == 0,
        },
{
    match epic_id {
        Some(eid) => match epic_position(epics, eid) {
            Some(i) => epics[i].title.clone(),
            None => String::new(),
        },
        None => String::new(),
    }
}

/// The colour of the first epic with the id `epic_id`; empty without one.
pub fn epic_color_of(epic_id: &String, epics: &Vec<Epic>) -> (r: String)
    ensures
        match first_where(epics@, epic_has_id(epic_id@)) {
            Some(i) => r@ == epics@[i].color@,
            None => r@.len() == 0,
        },
{
    match epic_position(epics, epic_id) {
        Some(i) => epics[i].color.clone(),
        None => String::new(),
    }
}

/// The title of the first story with the id `story_id`, if the reference
/// names one; empty otherwise.
pub fn story_title_for(story_id: &Option<String>, stories: &Vec<Story>) -> (r: String)
    ensures
        match *story_id {
            Some(sid) => match first_where(stories@, story_has_id(sid@)) {
                Some(i) => r@ == stories@[i].title@,
                None => r@.len() == 0,
            },
            None => r@.len() == 0,
        },
{
    match story_id {
        Some(sid) => match story_position(stories, sid) {
            Some(i) => stories[i].title.clone(),
            None => String::new(),
        },
        None => String::new(),
    }
}

/// The seconds logged directly on the first epic with the id `epic_id`; 0
/// without one.
pub fn epic_direct_secs(epics: &Vec<Epic>, epic_id: &String) -> (r: u64)
    ensures
        match first_where(epics@, epic_has_id(epic_id@)) {
            Some(i) => r == epics@[i].direct_logged_secs,
            None => r == 0,
        },
{
    match epic_position(epics, epic_id) {
        Some(i) => epics[i].direct_logged_secs,
        None => 0,
    }
}

/// Takes the resource at `i` out of the list, if there is one there.
pub fn remove_resource_at(resources: &mut Vec<Resource>, i: usize)
    ensures
        i < old(resources)@.len() ==> final(resources)@ == old(resources)@.remove(i as int),
        i >= old(resources)@.len() ==> final(resources)@ == old(resources)@,
{
    if i < resources.len() {
        resources.remove(i);
    }
}

/// Adds a link to the list in the card editor: nothing for a blank URL;
/// otherwise a link resource under a fresh id, labelled `label`, or with the
/// URL itself when the label is blank.
pub fn add_link(resources: &mut Vec<Resource>, label: &str, url: &str)
    ensures
        is_blank_text(url@) ==> final(resources)@ == old(resources)@,
        !is_blank_text(url@) ==> {
            let r = final(resources)@.last();
            &&& final(resources)@.len() == old(resources)@.len() + 1
            &&& final(resources)@.take(old(resources)@.len() as int) == old(resources)@
            &&& is_uuid_v4_text(r.id@)
            &&& r.title@ == (if is_blank_text(label@) { url@ } else { label@ })
            &&& r.url@ == url@
            &&& r.kind == ResourceKind::Link
            &&& r.notes@.len() == 0
        },
{
    if is_blank(url) {
        return;
    }
    let title = if is_blank(label) { url } else { label };
    proof {
        reveal_strlit("");
    }
    resources.push(Resource::new(title, url, ResourceKind::Link, ""));
    assert(resources@.take(old(resources)@.len() as int) =~= old(resources)@);
}

/// The inline style of the tag preview in the colour `c`.
pub open spec fn tag_preview_style_text(c: Seq<char>) -> Seq<char> {
    "background:"@ + c + "28;color:"@ + c + ";border:1px solid "@ + c
        + "55;padding:2px 8px;border-radius:5px;font-size:0.8rem;font-weight:600;display:inline-block;"@
}

/// The preview of a tag being created: its name, or a placeholder while the
/// name is empty, and its badge style.
pub fn tag_preview(name: &str, color: &str) -> (r: (String, String))
    ensures
        r.0@ == (if name@.len() == 0 { "Tag name"@ } else { name@ }),
        r.1@ == tag_preview_style_text(color@),
{
    let mut st = String::from_str("background:");
    st.append(color);
    st.append("28;color:");
    st.append(color);
    st.append(";border:1px solid ");
    st.append(color);
    st.append("55;padding:2px 8px;border-radius:5px;font-size:0.8rem;font-weight:600;display:inline-block;");
    let nm = if name.is_empty() { String::from_str("Tag name") } else { String::from_str(name) };
    (nm, st)
}

/// The seconds of all epics in the space `space_id`, or `None` when they do
/// not fit in 64 bits.
pub fn space_total_checked(epics: &Vec<Epic>, stories: &Vec<Story>, columns: &Vec<Column>, space_id: &String) -> (r: Option<u64>)
    ensures
        r matches Some(x) ==> x == space_total(epics@, space_id@, stories@, columns@),
        r is None ==> space_total(epics@, space_id@, stories@, columns@) > u64::MAX,
{
    let n = epics.len();
    let mut acc: u64 = 0;
    let mut i: usize = 0;
    while i < n
        invariant
            n == epics@.len(),
            i <= n,
            acc == space_total(epics@.take(i as int), space_id@, stories@, columns@),
        decreases n - i,
    {
        proof {
            assert(epics@.take(i + 1).drop_last() =~= epics@.take(i as int));
            lemma_space_total_prefix(epics@, space_id@, stories@, columns@, i + 1);
        }
        if refers_to(&epics[i].space_id, space_id) {
            match epic_total_checked(&epics[i], stories, columns) {
                Some(x) => {
                    if acc > u64::MAX - x {
                        return None;
                    }
                    acc = acc + x;
                },
                None => {
                    return None;
                },
            }
        }
        i += 1;
    }
    assert(epics@.take(n as int) =~= epics@);
    Some(acc)
}

} // verus!
