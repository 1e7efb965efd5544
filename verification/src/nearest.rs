//! The nearest of many hits.
//!
//! A candidate counts where it is a hit at a distance above zero: a ray does
//! not strike the surface it starts on.  The nearest hit is the candidate
//! that counts at the smallest distance; among candidates at equal distance
//! the first in the sequence wins.

use vstd::prelude::*;
use crate::surface::Hit;
use crate::surface::is_forward;

verus! {

/// The distance of candidate `i` in units of 2^-149.
pub open spec fn reach(c: Seq<Option<Hit>>, i: int) -> int {
    c[i]->0.distance_spec().value()
}

/// A hit counts where its distance lies above zero.
pub open spec fn counts(x: Option<Hit>) -> bool {
    x matches Some(h) && h.distance_spec().is_positive_spec()
}

/// Every hit among the candidates has a forward distance.
pub open spec fn all_forward(c: Seq<Option<Hit>>) -> bool {
    forall|j: int| 0 <= j < c.len() && c[j] is Some ==> is_forward(#[trigger] c[j]->0.distance_spec())
}

/// Candidate `i` counts, is strictly nearer than every candidate before it
/// that counts, and is at least as near as every one after it that counts.
pub open spec fn is_nearest(c: Seq<Option<Hit>>, i: int) -> bool {
    &&& 0 <= i < c.len()
    &&& counts(c[i])
    &&& forall|j: int| 0 <= j < i && counts(#[trigger] c[j]) ==> reach(c, i) < reach(c, j)
    &&& forall|j: int| i < j < c.len() && counts(#[trigger] c[j]) ==> reach(c, i) <= reach(c, j)
}

/// No candidate counts.
pub open spec fn all_miss(c: Seq<Option<Hit>>) -> bool {
    forall|j: int| 0 <= j < c.len() ==> !counts(#[trigger] c[j])
}

/// `r` names the nearest candidate, or nothing where no candidate counts.
pub open spec fn selects(c: Seq<Option<Hit>>, r: Option<int>) -> bool {
    match r {
        Some(i) => is_nearest(c, i),
        None => all_miss(c),
    }
}

/// Whether one more candidate `x` replaces the nearest so far: it counts,
/// and is strictly nearer than `best` where there is one.
pub open spec fn replaces(best: Option<Hit>, x: Option<Hit>) -> bool {
    counts(x) && (best matches Some(b) ==> x->0.distance_spec().lt_spec(b.distance_spec()))
}

/// The selection after one more candidate `x` has been seen.
pub open spec fn extend(c: Seq<Option<Hit>>, r: Option<int>, x: Option<Hit>) -> Option<int> {
    let best = match r {
        Some(i) => c[i],
        None => None,
    };
    if replaces(best, x) {
        Some(c.len() as int)
    } else {
        r
    }
}

/// Seeing one more candidate keeps the selection right.
pub proof fn lemma_extend(c: Seq<Option<Hit>>, r: Option<int>, x: Option<Hit>)
    requires
        all_forward(c),
        x matches Some(h) ==> is_forward(h.distance_spec()),
        selects(c, r),
    ensures
        all_forward(c.push(x)),
        selects(c.push(x), extend(c, r, x)),
{
    let d = c.push(x);
    let n = c.len() as int;
    assert forall|j: int| 0 <= j < n implies d[j] == c[j] by {}
    assert(d[n] == x);
    match extend(c, r, x) {
        None => {
            assert forall|j: int| 0 <= j < d.len() implies !counts(#[trigger] d[j]) by {
                if j < n {
                    assert(!counts(c[j]));
                }
            }
        },
        Some(k) => {
            assert forall|j: int| 0 <= j < k && counts(#[trigger] d[j]) implies reach(d, k)
                < reach(d, j) by {
                assert(counts(c[j]));
                if k == n {
                    let i = r->0;
                    if j != i {
                        assert(counts(c[i]));
                    }
                }
            }
            assert forall|j: int| k < j < d.len() && counts(#[trigger] d[j]) implies reach(d, k)
                <= reach(d, j) by {
                if j < n {
                    assert(counts(c[j]));
                } else {
                    assert(counts(c[k]));
                }
            }
        },
    }
}

/// At most one candidate is the nearest.
pub proof fn lemma_nearest_unique(c: Seq<Option<Hit>>, i: int, j: int)
    requires
        is_nearest(c, i),
        is_nearest(c, j),
    ensures
        i == j,
{
    if i < j {
        assert(counts(c[i]));
        assert(counts(c[j]));
    } else if j < i {
        assert(counts(c[j]));
        assert(counts(c[i]));
    }
}

/// Some candidate is the nearest exactly when some candidate counts.
pub proof fn lemma_nearest_exists(c: Seq<Option<Hit>>)
    requires
        all_forward(c),
    ensures
        (exists|i: int| is_nearest(c, i)) <==> !all_miss(c),
    decreases c.len(),
{
    if c.len() == 0 {
        assert(all_miss(c));
        assert forall|i: int| !is_nearest(c, i) by {}
    } else {
        let front = c.drop_last();
        let x = c.last();
        assert(c =~= front.push(x));
        assert(all_forward(front)) by {
            assert forall|j: int| 0 <= j < front.len() && front[j] is Some implies is_forward(
                #[trigger] front[j]->0.distance_spec(),
            ) by {
                assert(c[j] is Some);
            }
        }
        lemma_nearest_exists(front);
        if all_miss(front) {
            assert(selects(front, None));
            lemma_extend(front, None, x);
            if counts(x) {
                assert(is_nearest(c, front.len() as int));
                assert(counts(c[front.len() as int]));
            } else {
                assert(all_miss(c));
                assert forall|i: int| !is_nearest(c, i) by {
                    if 0 <= i < c.len() {
                        assert(!counts(c[i]));
                    }
                }
            }
        } else {
            let i = choose|i: int| is_nearest(front, i);
            assert(selects(front, Some(i)));
            lemma_extend(front, Some(i), x);
            assert(is_nearest(c, extend(front, Some(i), x)->0));
            assert(counts(c[i]));
        }
    }
}

/// The nearer of the best hit so far and one more candidate.  `tag` says
/// whose candidate `x` is; it stays with the hit.  The candidate replaces the
/// best so far only where it counts and is strictly nearer.
pub fn closer<T>(best: Option<(T, Hit)>, tag: T, x: Option<Hit>) -> (r: Option<(T, Hit)>)
    ensures
        r == (if replaces(
            match best {
                Some((_, b)) => Some(b),
                None => None,
            },
            x,
        ) {
            Some((tag, x->0))
        } else {
            best
        }),
{
    match x {
        None => best,
        Some(h) => {
            if !h.distance().is_positive() {
                best
            } else {
                match best {
                    None => Some((tag, h)),
                    Some((kept, b)) => {
                        if h.distance().lt(b.distance()) {
                            Some((tag, h))
                        } else {
                            Some((kept, b))
                        }
                    },
                }
            }
        },
    }
}

/// The nearest of the candidates, with its index: among the hits at a
/// distance above zero the one at the smallest distance, and among equals
/// the first.  Nothing where no candidate counts.
pub fn nearest(candidates: &Vec<Option<Hit>>) -> (r: Option<(usize, Hit)>)
    ensures
        match r {
            Some((i, hit)) => is_nearest(candidates@, i as int) && candidates@[i as int] == Some(hit),
            None => all_miss(candidates@),
        },
{
    let mut best: Option<(usize, Hit)> = None;
    let mut i: usize = 0;
    while i < candidates.len()
        invariant
            0 <= i <= candidates.len(),
            all_forward(candidates@.take(i as int)),
            match best {
                Some((k, hit)) => k < i && is_nearest(candidates@.take(i as int), k as int)
                    && candidates@[k as int] == Some(hit),
                None => all_miss(candidates@.take(i as int)),
            },
        decreases candidates.len() - i,
    {
        let ghost seen = candidates@.take(i as int);
        let ghost chosen: Option<int> = match best {
            Some((k, _)) => Some(k as int),
            None => None,
        };
        let x: Option<Hit> = candidates[i];
        proof {
            assert(candidates@.take(i + 1) =~= seen.push(x));
            if let Some(h) = x {
                use_type_invariant(&h);
            }
            lemma_extend(seen, chosen, x);
        }
        best = closer(best, i, x);
        i = i + 1;
    }
    proof {
        assert(candidates@.take(i as int) =~= candidates@);
    }
    best
}

} // verus!
