//! The view tabs, which can be dragged into another order, and the timer's
//! target picker, whose option values are `kind:id`.

use vstd::prelude::*;
use crate::find::{first_where, move_item, moved_to, position_where};
use crate::text::push_char;

verus! {

/// A tab `(label, key)` with the key `key`.
pub open spec fn tab_has_key(key: Seq<char>) -> spec_fn((String, String)) -> bool {
    |item: (String, String)| item.1@ == key
}

/// The position of the first tab with the key `key`.
pub fn tab_position(items: &Vec<(String, String)>, key: &String) -> (r: Option<usize>)
    ensures
        r matches Some(i) ==> first_where(items@, tab_has_key(key@)) == Some(i as int),
        r is None ==> first_where(items@, tab_has_key(key@)) is None,
{
    position_where(
        items,
        (|item: &(String, String)| -> (b: bool)
            ensures
                b == (item.1@ == key@),
            { item.1 == *key }),
        Ghost(tab_has_key(key@)),
    )
}

/// The tabs after dropping the tab `src` onto the tab `tgt`: the first tab
/// with the key `src` is taken out and put back in at the place of the first
/// tab with the key `tgt`.
pub open spec fn tabs_after_reorder(items: Seq<(String, String)>, src: Seq<char>, tgt: Seq<char>) -> Seq<(String, String)> {
    if src == tgt {
        items
    } else {
        match (first_where(items, tab_has_key(src)), first_where(items, tab_has_key(tgt))) {
            (Some(si), Some(ti)) => moved_to(items, si, ti),
            _ => items,
        }
    }
}

/// Drops the tab `src_key` onto the tab `target_key`.
pub fn reorder_tabs(items: &mut Vec<(String, String)>, src_key: &String, target_key: &String)
    ensures
        final(items)@ == tabs_after_reorder(old(items)@, src_key@, target_key@),
{
    if *src_key == *target_key {
        return;
    }
    if let Some(si) = tab_position(items, src_key) {
        if let Some(ti) = tab_position(items, target_key) {
            move_item(items, si, ti);
        }
    }
}

/// `v` are the view tabs of a new board: Board, Dashboard and Resources.
pub open spec fn is_default_nav(v: Seq<(String, String)>) -> bool {
    &&& v.len() == 3
    &&& v[0].0@ == "Board"@ && v[0].1@ == "board"@
    &&& v[1].0@ == "Dashboard"@ && v[1].1@ == "dashboard"@
    &&& v[2].0@ == "Resources"@ && v[2].1@ == "resources"@
}

/// The view tabs of a new board: Board, Dashboard and Resources.
pub fn default_nav() -> (r: Vec<(String, String)>)
    ensures
        is_default_nav(r@),
{
    let mut r = Vec::new();
    r.push((String::from_str("Board"), String::from_str("board")));
    r.push((String::from_str("Dashboard"), String::from_str("dashboard")));
    r.push((String::from_str("Resources"), String::from_str("resources")));
    r
}

/// The value of the target picker's option for the target `(kind, id)`.
pub open spec fn choice_text(kind: Seq<char>, id: Seq<char>) -> Seq<char> {
    kind + seq![':'] + id
}

/// The value of the target picker's option for the target `(kind, id)`.
pub fn target_choice_value(kind: &str, id: &str) -> (r: String)
    ensures
        r@ == choice_text(kind@, id@),
{
    let mut r = String::from_str(kind);
    push_char(&mut r, ':');
    r.append(id);
    r
}

/// What picking an option of the target picker does.
#[derive(Clone, Debug, PartialEq)]
pub enum TargetChoice {
    /// The empty option: no target.
    Clear,
    /// A `kind:id` option.
    Pick(String, String),
    /// A value without a colon: the target stays.
    Keep,
}

/// A colon.
pub open spec fn is_colon() -> spec_fn(char) -> bool {
    |c: char| c == ':'
}

/// What picking the option with the value `v` does: an empty value clears
/// the target; otherwise the value splits at its first colon into kind and
/// id; a value without a colon changes nothing.
pub open spec fn choice_meaning(v: Seq<char>, r: TargetChoice) -> bool {
    if v.len() == 0 {
        r == TargetChoice::Clear
    } else {
        match first_where(v, is_colon()) {
            Some(p) => r matches TargetChoice::Pick(kind, id) && kind@ == v.take(p) && id@ == v.skip(p + 1),
            None => r == TargetChoice::Keep,
        }
    }
}

/// Reads the value of a picked option of the target picker.
pub fn parse_target_choice(v: &str) -> (r: TargetChoice)
    ensures
        choice_meaning(v@, r),
{
    let n = v.unicode_len();
    if n == 0 {
        return TargetChoice::Clear;
    }
    let mut i: usize = 0;
    while i < n
        invariant
            n == v@.len(),
            n > 0,
            i <= n,
            forall|j: int| 0 <= j < i ==> !is_colon()(#[trigger] v@[j]),
        decreases n - i,
    {
        if v.get_char(i) == ':' {
            proof {
                crate::find::lemma_first_where_some(v@, is_colon(), i as int);
            }
            let kind = String::from_str(v.substring_char(0, i));
            let id = String::from_str(v.substring_char(i + 1, n));
            assert(v@.subrange(0, i as int) =~= v@.take(i as int));
            assert(v@.subrange(i + 1, n as int) =~= v@.skip(i + 1));
            return TargetChoice::Pick(kind, id);
        }
        i += 1;
    }
    proof {
        crate::find::lemma_first_where_none(v@, is_colon());
    }
    TargetChoice::Keep
}

} // verus!
