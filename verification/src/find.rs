//! First-match search, filtering and reordering over sequences: the way the
//! board looks entities up by id, drops them and drags them around.

use vstd::prelude::*;

verus! {

/// `k` is the first position of `s` whose element satisfies `p`.
pub open spec fn is_first<T>(s: Seq<T>, p: spec_fn(T) -> bool, k: int) -> bool {
    &&& 0 <= k < s.len()
    &&& p(s[k])
    &&& forall|j: int| 0 <= j < k ==> !p(#[trigger] s[j])
}

/// The first position of `s` whose element satisfies `p`, if there is one.
pub open spec fn first_where<T>(s: Seq<T>, p: spec_fn(T) -> bool) -> Option<int> {
    if exists|k: int| is_first(s, p, k) {
        Some(choose|k: int| is_first(s, p, k))
    } else {
        None
    }
}

/// A first match is unique.
pub proof fn lemma_first_unique<T>(s: Seq<T>, p: spec_fn(T) -> bool, k1: int, k2: int)
    requires
        is_first(s, p, k1),
        is_first(s, p, k2),
    ensures
        k1 == k2,
{
    if k1 < k2 {
        assert(!p(s[k1]));
    } else if k2 < k1 {
        assert(!p(s[k2]));
    }
}

/// `first_where` finds the first match.
pub proof fn lemma_first_where_some<T>(s: Seq<T>, p: spec_fn(T) -> bool, k: int)
    requires
        is_first(s, p, k),
    ensures
        first_where(s, p) == Some(k),
{
    let c = choose|j: int| is_first(s, p, j);
    lemma_first_unique(s, p, c, k);
}

/// Without a match, `first_where` finds nothing.
pub proof fn lemma_first_where_none<T>(s: Seq<T>, p: spec_fn(T) -> bool)
    requires
        forall|j: int| 0 <= j < s.len() ==> !p(#[trigger] s[j]),
    ensures
        first_where(s, p) is None,
{
}

/// What `first_where` returns is a first match, and nothing matches where it
/// returns `None`.
pub proof fn lemma_first_where_spec<T>(s: Seq<T>, p: spec_fn(T) -> bool)
    ensures
        first_where(s, p) matches Some(k) ==> is_first(s, p, k),
        first_where(s, p) is None ==> forall|j: int| 0 <= j < s.len() ==> !p(#[trigger] s[j]),
{
    if first_where(s, p) is None {
        assert forall|j: int| 0 <= j < s.len() implies !p(#[trigger] s[j]) by {
            if p(s[j]) {
                lemma_least_match(s, p, j);
            }
        }
    }
}

proof fn lemma_least_match<T>(s: Seq<T>, p: spec_fn(T) -> bool, j: int)
    requires
        0 <= j < s.len(),
        p(s[j]),
    ensures
        exists|k: int| is_first(s, p, k),
    decreases j,
{
    if forall|i: int| 0 <= i < j ==> !p(#[trigger] s[i]) {
        assert(is_first(s, p, j));
    } else {
        let i = choose|i: int| 0 <= i < j && p(#[trigger] s[i]);
        lemma_least_match(s, p, i);
    }
}

/// Keeps the elements of `v` that `keep` accepts, in their order.
pub(crate) fn retain_where<T, F: Fn(&T) -> bool>(v: &mut Vec<T>, keep: F, Ghost(p): Ghost<spec_fn(T) -> bool>)
    requires
        forall|x: &T| #[trigger] keep.requires((x,)),
        forall|x: &T, b: bool| keep.ensures((x,), b) ==> b == p(*x),
    ensures
        final(v)@ == old(v)@.filter(p),
{
    broadcast use vstd::seq_lib::group_seq_properties;
    let ghost o = v@;
    let mut i: usize = 0;
    let ghost mut k: int = 0;
    while i < v.len()
        invariant
            0 <= k <= o.len(),
            i <= v@.len(),
            forall|x: &T| #[trigger] keep.requires((x,)),
            forall|x: &T, b: bool| keep.ensures((x,), b) ==> b == p(*x),
            i == o.take(k).filter(p).len(),
            v@ == o.take(k).filter(p) + o.skip(k),
        decreases o.len() - k,
    {
        proof {
            assert(o.skip(k)[0] == o[k]);
            assert(o.take(k + 1) =~= o.take(k).push(o[k]));
            assert(o.skip(k + 1) =~= o.skip(k).drop_first());
            o.take(k).lemma_filter_push(o[k], p);
        }
        if keep(&v[i]) {
            proof {
                assert(v@ =~= (o.take(k).filter(p) + o.skip(k)));
                assert(o.take(k + 1).filter(p) + o.skip(k + 1) =~= v@);
                k = k + 1;
            }
            i += 1;
        } else {
            v.remove(i);
            proof {
                assert(o.take(k + 1).filter(p) + o.skip(k + 1) =~= v@);
                k = k + 1;
            }
        }
    }
    assert(o.take(k) =~= o);
    assert(v@ =~= o.filter(p));
}

/// `v` with its element at `from` taken out and put back in at `to`.
pub open spec fn moved_to<T>(v: Seq<T>, from: int, to: int) -> Seq<T> {
    v.remove(from).insert(to, v[from])
}

/// Takes the element at `from` out of `v` and puts it back in at `to`.
pub(crate) fn move_item<T>(v: &mut Vec<T>, from: usize, to: usize)
    requires
        from < old(v)@.len(),
        to < old(v)@.len(),
    ensures
        final(v)@ == moved_to(old(v)@, from as int, to as int),
{
    let x = v.remove(from);
    v.insert(to, x);
}

/// The first position of `v` whose element `pred` accepts.
pub(crate) fn position_where<T, F: Fn(&T) -> bool>(v: &Vec<T>, pred: F, Ghost(p): Ghost<spec_fn(T) -> bool>) -> (r: Option<usize>)
    requires
        forall|x: &T| #[trigger] pred.requires((x,)),
        forall|x: &T, b: bool| pred.ensures((x,), b) ==> b == p(*x),
    ensures
        r matches Some(k) ==> first_where(v@, p) == Some(k as int),
        r is None ==> first_where(v@, p) is None,
{
    let n = v.len();
    let mut k: usize = 0;
    while k < n
        invariant
            n == v@.len(),
            k <= n,
            forall|x: &T| #[trigger] pred.requires((x,)),
            forall|x: &T, b: bool| pred.ensures((x,), b) ==> b == p(*x),
            forall|j: int| 0 <= j < k ==> !p(#[trigger] v@[j]),
        decreases n - k,
    {
        if pred(&v[k]) {
            proof {
                lemma_first_where_some(v@, p, k as int);
            }
            return Some(k);
        }
        k += 1;
    }
    proof {
        lemma_first_where_none(v@, p);
    }
    None
}

/// Two sequences that agree, position by position, on whether their elements
/// match have their first match at the same place.
pub proof fn lemma_first_where_congruent<A, B>(s1: Seq<A>, p1: spec_fn(A) -> bool, s2: Seq<B>, p2: spec_fn(B) -> bool)
    requires
        s1.len() == s2.len(),
        forall|i: int| 0 <= i < s1.len() ==> p1(#[trigger] s1[i]) == p2(s2[i]),
    ensures
        first_where(s1, p1) == first_where(s2, p2),
{
    lemma_first_where_spec(s1, p1);
    lemma_first_where_spec(s2, p2);
    match first_where(s1, p1) {
        Some(k) => {
            assert(is_first(s2, p2, k)) by {
                assert forall|j: int| 0 <= j < k implies !p2(#[trigger] s2[j]) by {
                    assert(p1(s1[j]) == p2(s2[j]));
                }
                assert(p1(s1[k]) == p2(s2[k]));
            }
            lemma_first_where_some(s2, p2, k);
        },
        None => {
            assert forall|j: int| 0 <= j < s2.len() implies !p2(#[trigger] s2[j]) by {
                assert(p1(s1[j]) == p2(s2[j]));
            }
            lemma_first_where_none(s2, p2);
        },
    }
}

} // verus!
