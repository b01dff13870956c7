//! Ordering a style sheet by how specific its styles are.
use crate::css::selector::scores_of;
use crate::ui::style::StyleView;
use vstd::prelude::*;

verus! {

/// The score of a style.
pub open spec fn score_of_style(s: StyleView) -> nat {
    scores_of(s.selector)
}

/// `p` lists each of `0..n` once.
pub open spec fn is_permutation(p: Seq<int>, n: int) -> bool {
    &&& p.len() == n
    &&& forall|k: int| 0 <= k < n ==> 0 <= #[trigger] p[k] < n
    &&& forall|a: int, b: int| 0 <= a < b < n ==> #[trigger] p[a] != #[trigger] p[b]
    &&& forall|v: int| 0 <= v < n ==> #[trigger] takes_value(p, v)
}

/// Some entry of `p` is `v`.
pub open spec fn takes_value(p: Seq<int>, v: int) -> bool {
    exists|k: int| 0 <= k < p.len() && #[trigger] p[k] == v
}

/// `r` is `s` sorted by ascending score, styles of equal score keeping their
/// order (a stable sort).
pub open spec fn stably_sorted(r: Seq<StyleView>, s: Seq<StyleView>) -> bool {
    &&& r.len() == s.len()
    &&& forall|a: int, b: int|
        0 <= a < b < r.len() ==> score_of_style(#[trigger] r[a]) <= score_of_style(#[trigger] r[b])
    &&& exists|p: Seq<int>|
        {
            &&& is_permutation(p, s.len() as int)
            &&& forall|k: int| 0 <= k < r.len() ==> #[trigger] r[k] == s[p[k]]
            &&& forall|a: int, b: int|
                0 <= a < b < r.len() && score_of_style(r[a]) == score_of_style(r[b]) ==> #[trigger] p[a]
                    < #[trigger] p[b]
        }
}

/// After `i` steps of an insertion sort: `v` is `s` rearranged by `p`, its
/// first `i` entries are in stable score order, and the rest are untouched.
pub open spec fn sorting(v: Seq<StyleView>, s: Seq<StyleView>, p: Seq<int>, i: int) -> bool {
    &&& v.len() == s.len()
    &&& 0 <= i <= s.len()
    &&& is_permutation(p, s.len() as int)
    &&& forall|k: int| 0 <= k < v.len() ==> #[trigger] v[k] == s[p[k]]
    &&& forall|k: int| i <= k < v.len() ==> #[trigger] p[k] == k
    &&& forall|a: int, b: int| 0 <= a < b < i ==> score_of_style(#[trigger] v[a]) <= score_of_style(#[trigger] v[b])
    &&& forall|a: int, b: int|
        0 <= a < b < i && score_of_style(v[a]) == score_of_style(v[b]) ==> #[trigger] p[a] < #[trigger] p[b]
}

pub proof fn lemma_sorting_step(v: Seq<StyleView>, s: Seq<StyleView>, p: Seq<int>, i: int, j: int)
    requires
        sorting(v, s, p, i),
        i < v.len(),
        0 <= j <= i,
        forall|k: int| 0 <= k < j ==> score_of_style(#[trigger] v[k]) <= score_of_style(v[i]),
        forall|k: int| j <= k < i ==> score_of_style(#[trigger] v[k]) > score_of_style(v[i]),
    ensures
        sorting(v.remove(i).insert(j, v[i]), s, p.remove(i).insert(j, p[i]), i + 1),
{
    let x = v[i];
    let v2 = v.remove(i).insert(j, x);
    let p2 = p.remove(i).insert(j, p[i]);
    let n = v.len() as int;
    assert(p[i] == i);
    // where each new position came from
    assert forall|k: int| 0 <= k < n implies #[trigger] v2[k] == (if k < j {
        v[k]
    } else if k == j {
        x
    } else if k <= i {
        v[k - 1]
    } else {
        v[k]
    }) && p2[k] == (if k < j {
        p[k]
    } else if k == j {
        p[i]
    } else if k <= i {
        p[k - 1]
    } else {
        p[k]
    }) by {}
    assert(is_permutation(p2, n)) by {
        assert forall|k: int| 0 <= k < n implies 0 <= #[trigger] p2[k] < n by {}
        assert forall|v: int| 0 <= v < n implies #[trigger] takes_value(p2, v) by {
            assert(takes_value(p, v));
            let ok = choose|k: int| 0 <= k < p.len() && #[trigger] p[k] == v;
            let nk = if ok < j { ok } else if ok < i { ok + 1 } else if ok == i { j } else { ok };
            assert(p2[nk] == v);
        }
        assert forall|a: int, b: int| 0 <= a < b < n implies #[trigger] p2[a] != #[trigger] p2[b] by {
            let oa = if a < j { a } else if a == j { i } else if a <= i { a - 1 } else { a };
            let ob = if b < j { b } else if b == j { i } else if b <= i { b - 1 } else { b };
            assert(p2[a] == p[oa]);
            assert(p2[b] == p[ob]);
            assert(oa != ob);
            if oa < ob {
                assert(p[oa] != p[ob]);
            } else {
                assert(p[ob] != p[oa]);
            }
        }
    }
    assert forall|k: int| 0 <= k < n implies #[trigger] v2[k] == s[p2[k]] by {
        let ok = if k < j { k } else if k == j { i } else if k <= i { k - 1 } else { k };
        assert(v2[k] == v[ok]);
        assert(p2[k] == p[ok]);
    }
    assert forall|a: int, b: int| 0 <= a < b < i + 1 implies score_of_style(#[trigger] v2[a])
        <= score_of_style(#[trigger] v2[b]) by {
        let oa = if a < j { a } else if a == j { i } else { a - 1 };
        let ob = if b < j { b } else if b == j { i } else { b - 1 };
        assert(v2[a] == v[oa]);
        assert(v2[b] == v[ob]);
        if a == j {
            assert(score_of_style(v[ob]) > score_of_style(x));
        } else if b == j {
            assert(score_of_style(v[oa]) <= score_of_style(x));
        } else {
            assert(oa < ob);
        }
    }
    assert forall|a: int, b: int|
        0 <= a < b < i + 1 && score_of_style(v2[a]) == score_of_style(v2[b]) implies #[trigger] p2[a]
        < #[trigger] p2[b] by {
        let oa = if a < j { a } else if a == j { i } else { a - 1 };
        let ob = if b < j { b } else if b == j { i } else { b - 1 };
        assert(v2[a] == v[oa]);
        assert(v2[b] == v[ob]);
        assert(p2[a] == p[oa]);
        assert(p2[b] == p[ob]);
        if a == j {
            assert(score_of_style(v[ob]) > score_of_style(x));
        } else if b == j {
            // every position before i holds an entry that started before i
            assert(p[oa] != p[i]);
            assert(0 <= p[oa] < n);
            if p[oa] > i {
                assert(p[p[oa]] == p[oa]);
                assert(p[p[oa]] != p[oa]) by {
                    assert(oa != p[oa]);
                    if oa < p[oa] {
                        assert(p[oa] != p[p[oa]]);
                    } else {
                        assert(p[p[oa]] != p[oa]);
                    }
                }
            }
        } else {
            assert(oa < ob);
        }
    }
}

} // verus!
