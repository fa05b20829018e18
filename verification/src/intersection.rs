//! The nearest of the hits along a ray.
//!
//! A spatial index hands back candidates in no order and more than are hit.
//! Each candidate is intersected exactly; of the hits short of a limit the
//! nearest is kept, the earlier of two at one distance.
use vstd::prelude::*;
use crate::scalar::{epsilon, Scalar};
use crate::triangle::Solution;

verus! {

/// Candidate `i` was hit, short of `limit`.
pub open spec fn eligible(distances: Seq<Option<Scalar>>, limit: Scalar, i: int) -> bool {
    &&& 0 <= i < distances.len()
    &&& distances[i] matches Some(t)
    &&& t.precedes(limit)
}

/// Candidate `i` is the nearest hit short of `limit`: no such hit is nearer,
/// and every earlier one is farther.
pub open spec fn is_nearest(distances: Seq<Option<Scalar>>, limit: Scalar, i: int) -> bool {
    &&& eligible(distances, limit, i)
    &&& forall|j: int| #[trigger]
        eligible(distances, limit, j) ==> !distances[j].unwrap().precedes(distances[i].unwrap())
    &&& forall|j: int|
        0 <= j < i && #[trigger] eligible(distances, limit, j) ==> distances[i].unwrap().precedes(
            distances[j].unwrap(),
        )
}

/// Picks the nearest hit short of `limit` among the candidates, where
/// `distances[i]` is the distance at which candidate `i` was hit, or `None`
/// where the ray missed it. A distance that is no number is never picked,
/// and with a limit that is no number nothing is.
pub fn nearest(distances: &Vec<Option<Scalar>>, limit: Scalar) -> (pick: Option<usize>)
    ensures
        match pick {
            Some(i) => is_nearest(distances@, limit, i as int),
            None => forall|j: int| !eligible(distances@, limit, j),
        },
{
    let mut pick: Option<usize> = None;
    let mut best: Scalar = limit;
    let mut i: usize = 0;
    while i < distances.len()
        invariant
            i <= distances.len(),
            match pick {
                Some(p) => p < i && is_nearest(distances@.take(i as int), limit, p as int) && best
                    == distances@[p as int].unwrap(),
                None => best == limit && forall|j: int|
                    !eligible(distances@.take(i as int), limit, j),
            },
        decreases distances.len() - i,
    {
        let ghost before = distances@.take(i as int);
        let ghost after = distances@.take(i + 1);
        proof {
            assert forall|j: int| 0 <= j < i implies after[j] == before[j] by {}
            assert forall|j: int| 0 <= j < i implies eligible(after, limit, j) == eligible(
                before,
                limit,
                j,
            ) by {}
            assert(after[i as int] == distances@[i as int]);
        }
        match distances[i] {
            Some(t) => {
                if t.lt(best) {
                    proof {
                        crate::scalar::lemma_precedes_is_strict(t, t);
                        assert(eligible(after, limit, i as int)) by {
                            if pick is Some {
                                crate::scalar::lemma_precedes_is_transitive(t, best, limit);
                            }
                        }
                        assert forall|j: int| #[trigger]
                            eligible(after, limit, j) implies !after[j].unwrap().precedes(t) by {
                            if j < i {
                                assert(eligible(before, limit, j));
                                if after[j].unwrap().precedes(t) {
                                    crate::scalar::lemma_precedes_is_transitive(
                                        after[j].unwrap(),
                                        t,
                                        best,
                                    );
                                }
                            }
                        }
                        assert forall|j: int|
                            0 <= j < i && #[trigger] eligible(after, limit, j) implies t.precedes(
                            after[j].unwrap(),
                        ) by {
                            assert(eligible(before, limit, j));
                            let other = before[j].unwrap();
                            // `best` is not after `other`, and `t` is before `best`
                            assert(!other.precedes(best));
                            assert(!other.is_nan() && !best.is_nan() && !t.is_nan());
                        }
                    }
                    best = t;
                    pick = Some(i);
                } else {
                    proof {
                        match pick {
                            Some(p) => {
                                assert(eligible(before, limit, p as int));
                                assert(eligible(after, limit, p as int));
                                assert forall|j: int| #[trigger]
                                    eligible(after, limit, j) implies !after[j].unwrap().precedes(
                                    best,
                                ) by {
                                    if j < i {
                                        assert(eligible(before, limit, j));
                                    }
                                }
                                assert forall|j: int|
                                    0 <= j < p && #[trigger] eligible(
                                        after,
                                        limit,
                                        j,
                                    ) implies best.precedes(after[j].unwrap()) by {
                                    assert(eligible(before, limit, j));
                                }
                            },
                            None => {
                                assert forall|j: int| !eligible(after, limit, j) by {
                                    if 0 <= j < i {
                                        assert(!eligible(before, limit, j));
                                    }
                                }
                            },
                        }
                    }
                }
            },
            None => {
                proof {
                    match pick {
                        Some(p) => {
                            assert(eligible(before, limit, p as int));
                            assert forall|j: int| #[trigger]
                                eligible(after, limit, j) implies !after[j].unwrap().precedes(
                                best,
                            ) by {
                                assert(eligible(before, limit, j));
                            }
                            assert forall|j: int|
                                0 <= j < p && #[trigger] eligible(
                                    after,
                                    limit,
                                    j,
                                ) implies best.precedes(after[j].unwrap()) by {
                                assert(eligible(before, limit, j));
                            }
                        },
                        None => {
                            assert forall|j: int| !eligible(after, limit, j) by {
                                if 0 <= j < i {
                                    assert(!eligible(before, limit, j));
                                }
                            }
                        },
                    }
                }
            },
        }
        i += 1;
    }
    proof {
        assert(distances@.take(i as int) == distances@);
    }
    pick
}

/// The distances at which the candidates are hit, `None` for a miss.
pub open spec fn hits(solutions: Seq<Solution>) -> Seq<Option<Scalar>> {
    Seq::new(solutions.len(), |i: int| solutions[i].hit())
}

/// Intersects every candidate exactly and picks the nearest hit short of
/// `limit`, where `solutions[i]` is what solving the ray against candidate
/// `i` gave. The pick is a hit: it lies ahead of the origin by the tolerance
/// at least.
pub fn closest(solutions: &Vec<Solution>, limit: Scalar) -> (pick: Option<usize>)
    ensures
        match pick {
            Some(i) => is_nearest(hits(solutions@), limit, i as int),
            None => forall|j: int| !eligible(hits(solutions@), limit, j),
        },
        pick matches Some(i) ==> i < solutions@.len() && solutions@[i as int].hit() == Some(
            solutions@[i as int].t,
        ) && !solutions@[i as int].t.precedes(epsilon()),
{
    let mut distances: Vec<Option<Scalar>> = Vec::new();
    let mut i: usize = 0;
    while i < solutions.len()
        invariant
            i <= solutions@.len(),
            distances@.len() == i,
            forall|k: int| 0 <= k < i ==> distances@[k] == solutions@[k].hit(),
        decreases solutions@.len() - i,
    {
        distances.push(solutions[i].intersect());
        i += 1;
    }
    assert(distances@ =~= hits(solutions@));
    nearest(&distances, limit)
}

/// At most one candidate is the nearest.
pub proof fn lemma_nearest_is_unique(
    distances: Seq<Option<Scalar>>,
    limit: Scalar,
    i: int,
    k: int,
)
    requires
        is_nearest(distances, limit, i),
        is_nearest(distances, limit, k),
    ensures
        i == k,
{
    if i < k {
        assert(eligible(distances, limit, i));
        assert(distances[k].unwrap().precedes(distances[i].unwrap()));
    }
    if k < i {
        assert(eligible(distances, limit, k));
        assert(distances[i].unwrap().precedes(distances[k].unwrap()));
    }
}

} // verus!
