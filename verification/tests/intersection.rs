use pathtracer::intersection::{closest, nearest};
use pathtracer::scalar::{Scalar, MAX_BITS};
use pathtracer::triangle::Solution;

fn scalar(value: f32) -> Scalar {
    Scalar::from_bits(value.to_bits())
}

fn hits(values: &[Option<f32>]) -> Vec<Option<Scalar>> {
    values.iter().map(|value| value.map(scalar)).collect()
}

fn horizon() -> Scalar {
    Scalar::from_bits(MAX_BITS)
}

/// The fold that the tracer is held to: keep a hit when it is below the best
/// so far.
fn fold(values: &[Option<f32>], limit: f32) -> Option<usize> {
    let mut best = limit;
    let mut pick = None;
    for (i, value) in values.iter().enumerate() {
        if let Some(t) = value {
            if *t < best {
                best = *t;
                pick = Some(i);
            }
        }
    }
    pick
}

#[test]
fn no_candidates_no_hit() {
    assert_eq!(nearest(&Vec::new(), horizon()), None);
}

#[test]
fn misses_only_no_hit() {
    assert_eq!(nearest(&hits(&[None, None, None]), horizon()), None);
}

#[test]
fn the_smallest_distance_wins_wherever_it_stands() {
    assert_eq!(nearest(&hits(&[Some(3.0), Some(1.5), Some(2.0)]), horizon()), Some(1));
    assert_eq!(nearest(&hits(&[Some(0.5), Some(1.5), Some(2.0)]), horizon()), Some(0));
    assert_eq!(nearest(&hits(&[Some(3.0), None, Some(2.0)]), horizon()), Some(2));
    assert_eq!(nearest(&hits(&[None, Some(7.0)]), horizon()), Some(1));
}

#[test]
fn of_two_hits_at_one_distance_the_earlier_wins() {
    assert_eq!(nearest(&hits(&[Some(2.0), Some(1.0), Some(1.0)]), horizon()), Some(1));
    assert_eq!(nearest(&hits(&[Some(1.0), Some(1.0)]), horizon()), Some(0));
}

#[test]
fn a_hit_at_the_limit_or_beyond_does_not_count() {
    let limit = scalar(2.0);
    assert_eq!(nearest(&hits(&[Some(2.0)]), limit), None);
    assert_eq!(nearest(&hits(&[Some(2.5), Some(3.0)]), limit), None);
    assert_eq!(nearest(&hits(&[Some(2.5), Some(1.9999999)]), limit), Some(1));
    assert_eq!(nearest(&hits(&[Some(f32::MAX)]), horizon()), None);
    assert_eq!(nearest(&hits(&[Some(f32::INFINITY)]), horizon()), None);
    assert_eq!(nearest(&hits(&[Some(1.0e38)]), horizon()), Some(0));
}

#[test]
fn a_distance_that_is_no_number_is_never_picked() {
    assert_eq!(nearest(&hits(&[Some(f32::NAN)]), horizon()), None);
    assert_eq!(nearest(&hits(&[Some(f32::NAN), Some(4.0)]), horizon()), Some(1));
    assert_eq!(nearest(&hits(&[Some(4.0), Some(f32::NAN)]), horizon()), Some(0));
}

#[test]
fn a_limit_that_is_no_number_admits_nothing() {
    assert_eq!(nearest(&hits(&[Some(1.0), Some(2.0)]), scalar(f32::NAN)), None);
}

#[test]
fn a_zero_limit_admits_nothing_ahead() {
    assert_eq!(nearest(&hits(&[Some(1.0e-5), Some(2.0)]), scalar(0.0)), None);
}

#[test]
fn nearest_agrees_with_the_fold_on_many_lists() {
    let pool = [
        None,
        Some(1.0e-5),
        Some(0.5),
        Some(0.5),
        Some(2.0),
        Some(f32::NAN),
        Some(f32::INFINITY),
        Some(f32::MAX),
        Some(7.25),
    ];
    let limits = [f32::MAX, 0.5, 2.0, 1.0e-5, f32::INFINITY, f32::NAN, 0.0];
    // every list of up to four candidates from the pool
    let n = pool.len();
    for length in 0..5usize {
        let mut count = 1;
        for _ in 0..length {
            count *= n;
        }
        for code in 0..count {
            let mut list = Vec::new();
            let mut rest = code;
            for _ in 0..length {
                list.push(pool[rest % n]);
                rest /= n;
            }
            for limit in limits {
                assert_eq!(
                    nearest(&hits(&list), scalar(limit)),
                    fold(&list, limit),
                    "{:?} under {:?}",
                    list,
                    limit
                );
            }
        }
    }
}

fn solved(det: f32, u: f32, v: f32, t: f32) -> Solution {
    Solution {
        det: scalar(det),
        u: scalar(u),
        v: scalar(v),
        uv: scalar(u + v),
        t: scalar(t),
    }
}

#[test]
fn the_closest_candidate_is_the_nearest_of_those_that_are_hit() {
    let candidates = vec![
        solved(1.0, 0.25, 0.25, 5.0),
        solved(-1.0, 0.25, 0.25, 1.0),
        solved(1.0, 0.25, 0.25, 2.0),
        solved(1.0, 0.75, 0.75, 0.5),
        solved(1.0, 0.25, 0.25, -4.0),
        solved(1.0, 0.25, 0.25, 2.0),
    ];
    assert_eq!(closest(&candidates, horizon()), Some(2));
    assert_eq!(closest(&candidates, scalar(2.0)), None);
    assert_eq!(closest(&candidates[..1].to_vec(), horizon()), Some(0));
}

#[test]
fn candidates_that_are_all_missed_give_no_closest() {
    let candidates = vec![
        solved(0.0, 0.25, 0.25, 1.0),
        solved(1.0, -0.25, 0.25, 1.0),
        solved(1.0, 0.25, 0.25, 0.0),
    ];
    assert_eq!(closest(&candidates, horizon()), None);
    assert_eq!(closest(&Vec::new(), horizon()), None);
}

#[test]
fn a_candidate_behind_the_origin_is_never_the_closest() {
    let candidates = vec![
        solved(1.0, 0.25, 0.25, -1.0),
        solved(1.0, 0.25, 0.25, 0.5e-5),
        solved(1.0, 0.25, 0.25, 3.0),
    ];
    assert_eq!(closest(&candidates, horizon()), Some(2));
}
