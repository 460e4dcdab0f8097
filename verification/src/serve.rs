//! The launcher's routing: which embedded asset answers a request path, and
//! under which content type.

use vstd::prelude::*;
use crate::find::{first_where, lemma_first_where_none, lemma_first_where_some};

verus! {

/// A question mark.
pub open spec fn is_question_mark() -> spec_fn(char) -> bool {
    |c: char| c == '?'
}

/// Not a slash.
pub open spec fn is_not_slash() -> spec_fn(char) -> bool {
    |c: char| c != '/'
}

/// A request path without its query string.
pub open spec fn without_query(u: Seq<char>) -> Seq<char> {
    match first_where(u, is_question_mark()) {
        Some(p) => u.take(p),
        None => u,
    }
}

/// `s` without its leading slashes.
pub open spec fn without_leading_slashes(s: Seq<char>) -> Seq<char> {
    match first_where(s, is_not_slash()) {
        Some(p) => s.skip(p),
        None => Seq::empty(),
    }
}

/// The asset a request path asks for: the path without query string and
/// leading slashes, `index.html` when nothing is left.
pub open spec fn asset_path_text(url: Seq<char>) -> Seq<char> {
    let p = without_leading_slashes(without_query(url));
    if p.len() == 0 {
        "index.html"@
    } else {
        p
    }
}

/// The asset the request path `url` asks for.
pub fn asset_path(url: &str) -> (r: String)
    ensures
        r@ == asset_path_text(url@),
{
    let n = url.unicode_len();
    let mut end: usize = 0;
    while end < n
        invariant
            n == url@.len(),
            end <= n,
            forall|j: int| 0 <= j < end ==> !is_question_mark()(#[trigger] url@[j]),
        ensures
            end <= n,
            forall|j: int| 0 <= j < end ==> !is_question_mark()(#[trigger] url@[j]),
            end < n ==> url@[end as int] == '?',
        decreases n - end,
    {
        if url.get_char(end) == '?' {
            break;
        }
        end += 1;
    }
    proof {
        if end < n {
            lemma_first_where_some(url@, is_question_mark(), end as int);
        } else {
            lemma_first_where_none(url@, is_question_mark());
            assert(url@.take(n as int) =~= url@);
        }
    }
    let path = url.substring_char(0, end);
    assert(path@ =~= without_query(url@));
    let mut start: usize = 0;
    while start < end
        invariant
            end == path@.len(),
            start <= end,
            forall|j: int| 0 <= j < start ==> !is_not_slash()(#[trigger] path@[j]),
        ensures
            start <= end,
            forall|j: int| 0 <= j < start ==> !is_not_slash()(#[trigger] path@[j]),
            start < end ==> path@[start as int] != '/',
        decreases end - start,
    {
        if path.get_char(start) != '/' {
            break;
        }
        start += 1;
    }
    proof {
        if start < end {
            lemma_first_where_some(path@, is_not_slash(), start as int);
        } else {
            lemma_first_where_none(path@, is_not_slash());
        }
    }
    let rest = path.substring_char(start, end);
    assert(rest@ =~= without_leading_slashes(path@));
    if rest.is_empty() {
        String::from_str("index.html")
    } else {
        String::from_str(rest)
    }
}

/// What `mime_guess` gives as the content type of a file at `path`.
pub uninterp spec fn guessed_content_type(path: Seq<char>) -> Seq<char>;

/// The content type of the file at `path`:
/// `mime_guess::from_path(path).first_or_octet_stream()`, as text. The crate
/// looks the path's extension up (case-insensitively) in its static table and
/// falls back to `application/octet-stream`; the table itself is not spelled
/// out here, only that the answer depends on the path alone.
#[verifier::external_body]
pub(crate) fn content_type_for(path: &str) -> (r: String)
    ensures
        r@ == guessed_content_type(path@),
{
    mime_guess::from_path(path).first_or_octet_stream().as_ref().to_string()
}

/// An embedded asset to answer a request with, and its content type.
#[derive(Clone, Debug, PartialEq)]
pub struct ServedAsset {
    pub path: String,
    pub content_type: String,
}

/// How a request for the asset `path` is answered: with that asset when it
/// exists, under the content type guessed from its path; otherwise with the
/// single-page app's `index.html` as HTML when that exists; otherwise not at all.
pub fn plan_response(path: &str, asset_exists: bool, index_exists: bool) -> (r: Option<ServedAsset>)
    ensures
        asset_exists ==> (r matches Some(a) && a.path@ == path@ && a.content_type@ == guessed_content_type(path@)),
        !asset_exists && index_exists ==> (r matches Some(a) && a.path@ == "index.html"@
            && a.content_type@ == "text/html; charset=utf-8"@),
        !asset_exists && !index_exists ==> r is None,
{
    if asset_exists {
        Some(ServedAsset { path: String::from_str(path), content_type: content_type_for(path) })
    } else if index_exists {
        Some(
            ServedAsset {
                path: String::from_str("index.html"),
                content_type: String::from_str("text/html; charset=utf-8"),
            },
        )
    } else {
        None
    }
}

} // verus!
