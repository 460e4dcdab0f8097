//! Epics, stories, spaces and tags: creating and deleting them (with what a
//! deletion takes along), attaching resources and logging time.

use vstd::prelude::*;
use crate::columns::{card_location, card_position, holds_card, same_columns, table};
use crate::find::{first_where, lemma_first_where_none, lemma_first_where_some, position_where, retain_where};
use crate::ids::{is_uuid_v4_text, new_id};
use crate::model::{id_is, refers_to, Card, Column, Entity, Epic, Resource, Space, Story, TagDef};
use crate::text::{hyphenate, lowercase, spaces_to_hyphens, to_lowercase};

verus! {

/// An epic with the id `id`.
pub open spec fn epic_has_id(id: Seq<char>) -> spec_fn(Epic) -> bool {
    |e: Epic| e.id@ == id
}

/// A story with the id `id`.
pub open spec fn story_has_id(id: Seq<char>) -> spec_fn(Story) -> bool {
    |s: Story| s.id@ == id
}

/// The position of the first epic with the id `id`.
pub fn epic_position(epics: &Vec<Epic>, id: &String) -> (r: Option<usize>)
    ensures
        r matches Some(i) ==> first_where(epics@, epic_has_id(id@)) == Some(i as int),
        r is None ==> first_where(epics@, epic_has_id(id@)) is None,
{
    position_where(
        epics,
        (|e: &Epic| -> (b: bool)
            ensures
                b == (e.id@ == id@),
            { e.id == *id }),
        Ghost(epic_has_id(id@)),
    )
}

/// The position of the first story with the id `id`.
pub fn story_position(stories: &Vec<Story>, id: &String) -> (r: Option<usize>)
    ensures
        r matches Some(i) ==> first_where(stories@, story_has_id(id@)) == Some(i as int),
        r is None ==> first_where(stories@, story_has_id(id@)) is None,
{
    position_where(
        stories,
        (|s: &Story| -> (b: bool)
            ensures
                b == (s.id@ == id@),
            { s.id == *id }),
        Ghost(story_has_id(id@)),
    )
}

/// `e` is an epic just created with these contents: nothing logged, no resources.
pub open spec fn is_new_epic(
    e: Epic,
    id: String,
    title: String,
    desc: String,
    color: String,
    deadline: String,
    estimated_hours_bits: u32,
    space_id: Option<String>,
) -> bool {
    &&& e.id == id
    &&& e.title == title
    &&& e.desc == desc
    &&& e.color == color
    &&& e.deadline == deadline
    &&& e.estimated_hours_bits == estimated_hours_bits
    &&& e.direct_logged_secs == 0
    &&& e.resources@.len() == 0
    &&& e.space_id == space_id
}

/// `new` is `old` with one more element at the end.
pub open spec fn appended<T>(old: Seq<T>, new: Seq<T>) -> bool {
    new.len() == old.len() + 1 && new.take(old.len() as int) == old
}

/// Adds an epic with the given id and contents at the end.
pub fn add_epic_with_id(
    epics: &mut Vec<Epic>,
    id: String,
    title: String,
    desc: String,
    color: String,
    deadline: String,
    estimated_hours_bits: u32,
    space_id: Option<String>,
)
    ensures
        appended(old(epics)@, final(epics)@),
        is_new_epic(final(epics)@.last(), id, title, desc, color, deadline, estimated_hours_bits, space_id),
{
    epics.push(
        Epic {
            id,
            title,
            desc,
            color,
            deadline,
            estimated_hours_bits,
            direct_logged_secs: 0,
            resources: Vec::new(),
            space_id,
        },
    );
    assert(epics@.take(old(epics)@.len() as int) =~= old(epics)@);
}

/// Adds an epic under a fresh id at the end.
pub fn add_epic(
    epics: &mut Vec<Epic>,
    title: String,
    desc: String,
    color: String,
    deadline: String,
    estimated_hours_bits: u32,
    space_id: Option<String>,
)
    ensures
        appended(old(epics)@, final(epics)@),
        is_uuid_v4_text(final(epics)@.last().id@),
        is_new_epic(
            final(epics)@.last(),
            final(epics)@.last().id,
            title,
            desc,
            color,
            deadline,
            estimated_hours_bits,
            space_id,
        ),
{
    add_epic_with_id(epics, new_id(), title, desc, color, deadline, estimated_hours_bits, space_id);
}

/// Adds a space with the given id and contents at the end.
pub fn add_space_with_id(spaces: &mut Vec<Space>, id: String, name: String, color: String, desc: String)
    ensures
        final(spaces)@ == old(spaces)@.push(Space { id, name, color, desc }),
{
    spaces.push(Space { id, name, color, desc });
}

/// Adds a space under a fresh id at the end.
pub fn add_space(spaces: &mut Vec<Space>, name: String, color: String, desc: String)
    ensures
        is_uuid_v4_text(final(spaces)@.last().id@),
        final(spaces)@ == old(spaces)@.push(Space { id: final(spaces)@.last().id, name, color, desc }),
{
    add_space_with_id(spaces, new_id(), name, color, desc);
}

/// `e` taken out of the space `sid`, if it is in it.
pub open spec fn unassigned(e: Epic, sid: Seq<char>) -> Epic {
    if id_is(e.space_id, sid) {
        Epic { space_id: None, ..e }
    } else {
        e
    }
}

/// The epics with those in the space `sid` taken out of it.
pub open spec fn epics_after_space_delete(epics: Seq<Epic>, sid: Seq<char>) -> Seq<Epic> {
    epics.map_values(|e: Epic| unassigned(e, sid))
}

/// A space whose id is not `id`.
pub open spec fn space_id_is_not(id: Seq<char>) -> spec_fn(Space) -> bool {
    |s: Space| s.id@ != id
}

/// Deletes every space with the id `space_id`; its epics stay, in no space.
pub fn delete_space(epics: &mut Vec<Epic>, spaces: &mut Vec<Space>, space_id: &String)
    ensures
        final(epics)@ == epics_after_space_delete(old(epics)@, space_id@),
        final(spaces)@ == old(spaces)@.filter(space_id_is_not(space_id@)),
{
    let n = epics.len();
    let mut i: usize = 0;
    while i < n
        invariant
            n == epics@.len(),
            n == old(epics)@.len(),
            i <= n,
            forall|j: int| 0 <= j < i ==> #[trigger] epics@[j] == unassigned(old(epics)@[j], space_id@),
            forall|j: int| i <= j < n ==> #[trigger] epics@[j] == old(epics)@[j],
        decreases n - i,
    {
        if refers_to(&epics[i].space_id, space_id) {
            epics[i].space_id = None;
        }
        i += 1;
    }
    assert(epics@ =~= epics_after_space_delete(old(epics)@, space_id@));
    retain_where(
        spaces,
        (|s: &Space| -> (b: bool)
            ensures
                b == (s.id@ != space_id@),
            { s.id != *space_id }),
        Ghost(space_id_is_not(space_id@)),
    );
}

/// The id of a tag named `name`: the name in lower case, spaces as hyphens.
pub open spec fn tag_slug(name: Seq<char>) -> Seq<char> {
    hyphenate(lowercase(name))
}

/// The id of a tag named `name`.
pub fn tag_id_for(name: &str) -> (r: String)
    ensures
        r@ == tag_slug(name@),
{
    let lower = to_lowercase(name);
    spaces_to_hyphens(lower.as_str())
}

/// Some tag of `tags` has the id `id`.
pub open spec fn has_tag_id(tags: Seq<TagDef>, id: Seq<char>) -> bool {
    exists|i: int| 0 <= i < tags.len() && (#[trigger] tags[i]).id@ == id
}

/// `new` is `old` after adding a tag named `name` in the colour `color`: when
/// a tag with the id derived from the name is there, nothing changes;
/// otherwise the new tag comes last.
pub open spec fn tag_added(old: Seq<TagDef>, new: Seq<TagDef>, name: Seq<char>, color: Seq<char>) -> bool {
    if has_tag_id(old, tag_slug(name)) {
        new == old
    } else {
        &&& appended(old, new)
        &&& new.last().id@ == tag_slug(name)
        &&& new.last().name@ == name
        &&& new.last().color@ == color
    }
}

/// Adds a tag named `name` in the colour `color`, under the id derived from
/// its name, unless a tag with that id is there already.
pub fn add_tag(tags: &mut Vec<TagDef>, name: &str, color: &str)
    ensures
        tag_added(old(tags)@, final(tags)@, name@, color@),
{
    let id = tag_id_for(name);
    let n = tags.len();
    let mut i: usize = 0;
    while i < n
        invariant
            n == tags@.len(),
            tags@ == old(tags)@,
            id@ == tag_slug(name@),
            i <= n,
            forall|j: int| 0 <= j < i ==> (#[trigger] tags@[j]).id@ != id@,
        decreases n - i,
    {
        if tags[i].id == id {
            assert(tags@[i as int].id@ == tag_slug(name@));
            return;
        }
        i += 1;
    }
    tags.push(TagDef::new(id.as_str(), name, color));
    assert(tags@.take(old(tags)@.len() as int) =~= old(tags)@);
}

/// A tag whose id is not `id`.
pub open spec fn tag_id_is_not(id: Seq<char>) -> spec_fn(TagDef) -> bool {
    |t: TagDef| t.id@ != id
}

/// Deletes every tag with the id `tag_id`; cards keep their tag reference.
pub fn delete_tag(tags: &mut Vec<TagDef>, tag_id: &String)
    ensures
        final(tags)@ == old(tags)@.filter(tag_id_is_not(tag_id@)),
{
    retain_where(
        tags,
        (|t: &TagDef| -> (b: bool)
            ensures
                b == (t.id@ != tag_id@),
            { t.id != *tag_id }),
        Ghost(tag_id_is_not(tag_id@)),
    );
}

/// `x` is the id of a story of `stories` in the epic `eid`.
pub open spec fn is_story_of_epic(stories: Seq<Story>, eid: Seq<char>, x: Seq<char>) -> bool {
    exists|j: int| 0 <= j < stories.len() && (#[trigger] stories[j]).epic_id@ == eid && stories[j].id@ == x
}

/// A card that stays when the epic `eid` is deleted: it is neither in that
/// epic nor in one of its stories.
pub open spec fn survives_epic_delete(stories: Seq<Story>, eid: Seq<char>) -> spec_fn(Card) -> bool {
    |c: Card| !id_is(c.epic_id, eid) && !(c.story_id matches Some(s) && is_story_of_epic(stories, eid, s@))
}

/// A story that is not in the epic `eid`.
pub open spec fn story_epic_is_not(eid: Seq<char>) -> spec_fn(Story) -> bool {
    |s: Story| s.epic_id@ != eid
}

/// `v` with its first element that satisfies `p` taken out, if there is one.
pub open spec fn without_first<T>(v: Seq<T>, p: spec_fn(T) -> bool) -> Seq<T> {
    match first_where(v, p) {
        Some(i) => v.remove(i),
        None => v,
    }
}

/// Some element of `ids` is `x`.
pub open spec fn ids_contain(ids: Seq<String>, x: Seq<char>) -> bool {
    exists|k: int| 0 <= k < ids.len() && (#[trigger] ids[k])@ == x
}

fn contains_id(ids: &Vec<String>, id: &String) -> (r: bool)
    ensures
        r == ids_contain(ids@, id@),
{
    let n = ids.len();
    let mut k: usize = 0;
    while k < n
        invariant
            n == ids@.len(),
            k <= n,
            forall|j: int| 0 <= j < k ==> (#[trigger] ids@[j])@ != id@,
        decreases n - k,
    {
        if ids[k] == *id {
            return true;
        }
        k += 1;
    }
    false
}

/// Keeps, in every column, the cards that `keep` accepts.
fn retain_cards<F: Fn(&Card) -> bool>(cols: &mut Vec<Column>, keep: F, Ghost(p): Ghost<spec_fn(Card) -> bool>)
    requires
        forall|c: &Card| #[trigger] keep.requires((c,)),
        forall|c: &Card, b: bool| keep.ensures((c,), b) ==> b == p(*c),
    ensures
        same_columns(old(cols)@, final(cols)@),
        table(final(cols)@) == table(old(cols)@).map_values(|cards: Seq<Card>| cards.filter(p)),
{
    let n = cols.len();
    let mut i: usize = 0;
    while i < n
        invariant
            n == cols@.len(),
            i <= n,
            forall|c: &Card| #[trigger] keep.requires((c,)),
            forall|c: &Card, b: bool| keep.ensures((c,), b) ==> b == p(*c),
            same_columns(old(cols)@, cols@),
            forall|j: int| 0 <= j < i ==> (#[trigger] cols@[j]).cards@ == old(cols)@[j].cards@.filter(p),
            forall|j: int| i <= j < n ==> (#[trigger] cols@[j]).cards@ == old(cols)@[j].cards@,
        decreases n - i,
    {
        retain_where(&mut cols[i].cards, &keep, Ghost(p));
        i += 1;
    }
    assert(table(cols@) =~= table(old(cols)@).map_values(|cards: Seq<Card>| cards.filter(p)));
}

/// Deletes the epic `epic_id` with everything under it: every card in it or
/// in one of its stories, and every story in it. The epic itself is the first
/// with that id.
pub fn delete_epic(cols: &mut Vec<Column>, stories: &mut Vec<Story>, epics: &mut Vec<Epic>, epic_id: &String)
    ensures
        same_columns(old(cols)@, final(cols)@),
        table(final(cols)@) == table(old(cols)@).map_values(
            |cards: Seq<Card>| cards.filter(survives_epic_delete(old(stories)@, epic_id@)),
        ),
        final(stories)@ == old(stories)@.filter(story_epic_is_not(epic_id@)),
        final(epics)@ == without_first(old(epics)@, epic_has_id(epic_id@)),
{
    let ghost st = stories@;
    let mut ids: Vec<String> = Vec::new();
    let n = stories.len();
    let mut i: usize = 0;
    while i < n
        invariant
            n == stories@.len(),
            st == stories@,
            i <= n,
            forall|x: Seq<char>| ids_contain(ids@, x) <==> exists|j: int|
                0 <= j < i && (#[trigger] st[j]).epic_id@ == epic_id@ && st[j].id@ == x,
        decreases n - i,
    {
        if stories[i].epic_id == *epic_id {
            let sid = stories[i].id.clone();
            let ghost before = ids@;
            assert(forall|x: Seq<char>| ids_contain(before, x) <==> exists|j: int|
                0 <= j < i && (#[trigger] st[j]).epic_id@ == epic_id@ && st[j].id@ == x);
            ids.push(sid);
            assert forall|x: Seq<char>| ids_contain(ids@, x) <==> exists|j: int|
                0 <= j < i + 1 && (#[trigger] st[j]).epic_id@ == epic_id@ && st[j].id@ == x by {
                if ids_contain(ids@, x) {
                    let k = choose|k: int| 0 <= k < ids@.len() && (#[trigger] ids@[k])@ == x;
                    if k < before.len() {
                        assert(ids_contain(before, x));
                    } else {
                        assert(st[i as int].id@ == x);
                    }
                }
                if exists|j: int| 0 <= j < i + 1 && (#[trigger] st[j]).epic_id@ == epic_id@ && st[j].id@ == x {
                    let j = choose|j: int| 0 <= j < i + 1 && (#[trigger] st[j]).epic_id@ == epic_id@ && st[j].id@ == x;
                    if j < i {
                        assert(ids_contain(before, x));
                        let k = choose|k: int| 0 <= k < before.len() && (#[trigger] before[k])@ == x;
                        assert(ids@[k] == before[k]);
                    } else {
                        assert(ids@[before.len() as int]@ == x);
                    }
                }
            }
        }
        i += 1;
    }
    let ghost p = survives_epic_delete(st, epic_id@);
    assert forall|x: Seq<char>| ids_contain(ids@, x) == is_story_of_epic(st, epic_id@, x) by {}
    retain_cards(
        cols,
        (|c: &Card| -> (b: bool)
            ensures
                b == (!id_is(c.epic_id, epic_id@) && !(c.story_id matches Some(s) && ids_contain(ids@, s@))),
            {
                !refers_to(&c.epic_id, epic_id) && !(match &c.story_id {
                    Some(s) => contains_id(&ids, s),
                    None => false,
                })
            }),
        Ghost(p),
    );
    retain_where(
        stories,
        (|s: &Story| -> (b: bool)
            ensures
                b == (s.epic_id@ != epic_id@),
            { s.epic_id != *epic_id }),
        Ghost(story_epic_is_not(epic_id@)),
    );
    if let Some(k) = epic_position(epics, epic_id) {
        epics.remove(k);
    }
}

/// A card that is not in the story `sid`.
pub open spec fn not_in_story(sid: Seq<char>) -> spec_fn(Card) -> bool {
    |c: Card| !id_is(c.story_id, sid)
}

/// A story whose id is not `id`.
pub open spec fn story_id_is_not(id: Seq<char>) -> spec_fn(Story) -> bool {
    |s: Story| s.id@ != id
}

/// Deletes the story `story_id` with its cards.
pub fn delete_story(cols: &mut Vec<Column>, stories: &mut Vec<Story>, story_id: &String)
    ensures
        same_columns(old(cols)@, final(cols)@),
        table(final(cols)@) == table(old(cols)@).map_values(|cards: Seq<Card>| cards.filter(not_in_story(story_id@))),
        final(stories)@ == old(stories)@.filter(story_id_is_not(story_id@)),
{
    retain_cards(
        cols,
        (|c: &Card| -> (b: bool)
            ensures
                b == !id_is(c.story_id, story_id@),
            { !refers_to(&c.story_id, story_id) }),
        Ghost(not_in_story(story_id@)),
    );
    retain_where(
        stories,
        (|s: &Story| -> (b: bool)
            ensures
                b == (s.id@ != story_id@),
            { s.id != *story_id }),
        Ghost(story_id_is_not(story_id@)),
    );
}

/// `s` is a story just created with these contents: nothing logged, no resources.
pub open spec fn is_new_story(s: Story, id: String, epic_id: String, title: String) -> bool {
    &&& s.id == id
    &&& s.epic_id == epic_id
    &&& s.title == title
    &&& s.direct_logged_secs == 0
    &&& s.resources@.len() == 0
}

/// Adds a story with the given id to the epic `epic_id`, at the end.
pub fn add_story_with_id(stories: &mut Vec<Story>, id: String, epic_id: String, title: String)
    ensures
        appended(old(stories)@, final(stories)@),
        is_new_story(final(stories)@.last(), id, epic_id, title),
{
    stories.push(Story { id, epic_id, title, direct_logged_secs: 0, resources: Vec::new() });
    assert(stories@.take(old(stories)@.len() as int) =~= old(stories)@);
}

/// Adds a story under a fresh id to the epic `epic_id`, at the end.
pub fn add_story(stories: &mut Vec<Story>, epic_id: String, title: String)
    ensures
        appended(old(stories)@, final(stories)@),
        is_uuid_v4_text(final(stories)@.last().id@),
        is_new_story(final(stories)@.last(), final(stories)@.last().id, epic_id, title),
{
    add_story_with_id(stories, new_id(), epic_id, title);
}

/// `new` is the card `old` with the resource `r` added at the end of its resources.
pub open spec fn card_with_resource(old: Card, new: Card, r: Resource) -> bool {
    new.resources@ == old.resources@.push(r) && new == Card { resources: new.resources, ..old }
}

/// `new` is the story `old` with the resource `r` added at the end of its resources.
pub open spec fn story_with_resource(old: Story, new: Story, r: Resource) -> bool {
    new.resources@ == old.resources@.push(r) && new == Story { resources: new.resources, ..old }
}

/// `new` is the epic `old` with the resource `r` added at the end of its resources.
pub open spec fn epic_with_resource(old: Epic, new: Epic, r: Resource) -> bool {
    new.resources@ == old.resources@.push(r) && new == Epic { resources: new.resources, ..old }
}

/// `new` is the table `old` with the resource `r` added to the card `id`,
/// where the board finds it.
pub open spec fn table_with_card_resource(old: Seq<Seq<Card>>, new: Seq<Seq<Card>>, id: Seq<char>, r: Resource) -> bool {
    match card_location(old, id) {
        Some((i, k)) => new == old.update(i, old[i].update(k, new[i][k])) && card_with_resource(
            old[i][k],
            new[i][k],
            r,
        ),
        None => new == old,
    }
}

/// `new` is `old` with the resource `r` added to the first story with the id `id`.
pub open spec fn stories_with_resource(old: Seq<Story>, new: Seq<Story>, id: Seq<char>, r: Resource) -> bool {
    match first_where(old, story_has_id(id)) {
        Some(i) => new == old.update(i, new[i]) && story_with_resource(old[i], new[i], r),
        None => new == old,
    }
}

/// `new` is `old` with the resource `r` added to the first epic with the id `id`.
pub open spec fn epics_with_resource(old: Seq<Epic>, new: Seq<Epic>, id: Seq<char>, r: Resource) -> bool {
    match first_where(old, epic_has_id(id)) {
        Some(i) => new == old.update(i, new[i]) && epic_with_resource(old[i], new[i], r),
        None => new == old,
    }
}

/// Attaches `res` to the card, story or epic `target`; nothing changes when
/// there is no such entity.
pub fn attach_resource(
    target: &Entity,
    res: Resource,
    cols: &mut Vec<Column>,
    stories: &mut Vec<Story>,
    epics: &mut Vec<Epic>,
)
    ensures
        same_columns(old(cols)@, final(cols)@),
        match *target {
            Entity::Card(id) => {
                &&& table_with_card_resource(table(old(cols)@), table(final(cols)@), id@, res)
                &&& final(stories)@ == old(stories)@
                &&& final(epics)@ == old(epics)@
            },
            Entity::Story(id) => {
                &&& final(cols)@ == old(cols)@
                &&& stories_with_resource(old(stories)@, final(stories)@, id@, res)
                &&& final(epics)@ == old(epics)@
            },
            Entity::Epic(id) => {
                &&& final(cols)@ == old(cols)@
                &&& final(stories)@ == old(stories)@
                &&& epics_with_resource(old(epics)@, final(epics)@, id@, res)
            },
        },
{
    match target {
        Entity::Card(id) => {
            let ghost t = table(cols@);
            let n = cols.len();
            let mut i: usize = 0;
            while i < n
                invariant
                    n == cols@.len(),
                    i <= n,
                    cols@ == old(cols)@,
                    t == table(cols@),
                    *target == Entity::Card(*id),
                    stories@ == old(stories)@,
                    epics@ == old(epics)@,
                    forall|j: int| 0 <= j < i ==> !holds_card(id@)(#[trigger] t[j]),
                decreases n - i,
            {
                match card_position(&cols[i].cards, id) {
                    Some(k) => {
                        proof {
                            lemma_first_where_some(t, holds_card(id@), i as int);
                        }
                        cols[i].cards[k].resources.push(res);
                        assert(table(cols@) =~= t.update(i as int, t[i as int].update(k as int, table(cols@)[i as int][k as int])));
                        return;
                    },
                    None => {},
                }
                i += 1;
            }
            proof {
                lemma_first_where_none(t, holds_card(id@));
            }
        },
        Entity::Story(id) => {
            if let Some(k) = story_position(stories, id) {
                stories[k].resources.push(res);
                assert(stories@ =~= old(stories)@.update(k as int, stories@[k as int]));
            }
        },
        Entity::Epic(id) => {
            if let Some(k) = epic_position(epics, id) {
                epics[k].resources.push(res);
                assert(epics@ =~= old(epics)@.update(k as int, epics@[k as int]));
            }
        },
    }
}

/// The card `c` with one more second logged.
pub open spec fn card_plus_second(c: Card) -> Card {
    Card { logged_secs: (c.logged_secs + 1) as u64, ..c }
}

/// One more second logged on the card `id`, where the board finds it.
pub open spec fn table_after_card_second(t: Seq<Seq<Card>>, id: Seq<char>) -> Seq<Seq<Card>> {
    match card_location(t, id) {
        Some((i, k)) => t.update(i, t[i].update(k, card_plus_second(t[i][k]))),
        None => t,
    }
}

/// One more second logged directly on the first story with the id `id`.
pub open spec fn stories_after_second(v: Seq<Story>, id: Seq<char>) -> Seq<Story> {
    match first_where(v, story_has_id(id)) {
        Some(i) => v.update(i, Story { direct_logged_secs: (v[i].direct_logged_secs + 1) as u64, ..v[i] }),
        None => v,
    }
}

/// One more second logged directly on the first epic with the id `id`.
pub open spec fn epics_after_second(v: Seq<Epic>, id: Seq<char>) -> Seq<Epic> {
    match first_where(v, epic_has_id(id)) {
        Some(i) => v.update(i, Epic { direct_logged_secs: (v[i].direct_logged_secs + 1) as u64, ..v[i] }),
        None => v,
    }
}

/// The counter that logging a second on `target` raises is below its maximum.
pub open spec fn second_fits(target: Entity, cols: Seq<Column>, stories: Seq<Story>, epics: Seq<Epic>) -> bool {
    match target {
        Entity::Card(id) => match card_location(table(cols), id@) {
            Some((i, k)) => table(cols)[i][k].logged_secs < u64::MAX,
            None => true,
        },
        Entity::Story(id) => match first_where(stories, story_has_id(id@)) {
            Some(i) => stories[i].direct_logged_secs < u64::MAX,
            None => true,
        },
        Entity::Epic(id) => match first_where(epics, epic_has_id(id@)) {
            Some(i) => epics[i].direct_logged_secs < u64::MAX,
            None => true,
        },
    }
}

/// Whether a second can be logged on `target` without its counter overflowing.
pub fn second_fits_now(target: &Entity, cols: &Vec<Column>, stories: &Vec<Story>, epics: &Vec<Epic>) -> (r: bool)
    ensures
        r == second_fits(*target, cols@, stories@, epics@),
{
    match target {
        Entity::Card(id) => match crate::views::find_card(cols, id) {
            Some(c) => c.logged_secs < u64::MAX,
            None => true,
        },
        Entity::Story(id) => match story_position(stories, id) {
            Some(i) => stories[i].direct_logged_secs < u64::MAX,
            None => true,
        },
        Entity::Epic(id) => match epic_position(epics, id) {
            Some(i) => epics[i].direct_logged_secs < u64::MAX,
            None => true,
        },
    }
}

/// Logs one second of work on the card, story or epic `target`; nothing
/// changes when there is no such entity.
pub fn log_second(target: &Entity, cols: &mut Vec<Column>, stories: &mut Vec<Story>, epics: &mut Vec<Epic>)
    requires
        second_fits(*target, old(cols)@, old(stories)@, old(epics)@),
    ensures
        same_columns(old(cols)@, final(cols)@),
        match *target {
            Entity::Card(id) => {
                &&& table(final(cols)@) == table_after_card_second(table(old(cols)@), id@)
                &&& final(stories)@ == old(stories)@
                &&& final(epics)@ == old(epics)@
            },
            Entity::Story(id) => {
                &&& final(cols)@ == old(cols)@
                &&& final(stories)@ == stories_after_second(old(stories)@, id@)
                &&& final(epics)@ == old(epics)@
            },
            Entity::Epic(id) => {
                &&& final(cols)@ == old(cols)@
                &&& final(stories)@ == old(stories)@
                &&& final(epics)@ == epics_after_second(old(epics)@, id@)
            },
        },
{
    match target {
        Entity::Card(id) => {
            let ghost t = table(cols@);
            let n = cols.len();
            let mut i: usize = 0;
            while i < n
                invariant
                    n == cols@.len(),
                    i <= n,
                    cols@ == old(cols)@,
                    t == table(cols@),
                    second_fits(*target, old(cols)@, old(stories)@, old(epics)@),
                    *target == Entity::Card(*id),
                    forall|j: int| 0 <= j < i ==> !holds_card(id@)(#[trigger] t[j]),
                decreases n - i,
            {
                match card_position(&cols[i].cards, id) {
                    Some(k) => {
                        proof {
                            lemma_first_where_some(t, holds_card(id@), i as int);
                        }
                        cols[i].cards[k].logged_secs += 1;
                        assert(table(cols@) =~= table_after_card_second(t, id@));
                        return;
                    },
                    None => {},
                }
                i += 1;
            }
            proof {
                lemma_first_where_none(t, holds_card(id@));
            }
        },
        Entity::Story(id) => {
            if let Some(k) = story_position(stories, id) {
                stories[k].direct_logged_secs += 1;
            }
        },
        Entity::Epic(id) => {
            if let Some(k) = epic_position(epics, id) {
                epics[k].direct_logged_secs += 1;
            }
        },
    }
}

} // verus!
