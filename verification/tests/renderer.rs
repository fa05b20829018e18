use pathtracer::material::{Coverage, Tint};
use pathtracer::renderer::{LightKind, Raytracer, Step, Term, MAX_DEPTH};
use pathtracer::intersection::nearest;
use pathtracer::scalar::{Scalar, INFINITY_BITS};

const RED: Tint = Tint::Texel(255, 0, 0);

/// Drives the tracer over what the searches find, as a caller does, and
/// gives the step that ended the trace with the number of searches made.
/// `None` where the searches ran out first.
fn drive(depth: u8, found: &[Option<Coverage>]) -> Option<(Step, usize)> {
    let mut depth = depth;
    let mut searches = 0;
    loop {
        if Raytracer::exhausted(depth) {
            return Some((Step::Exhausted, searches));
        }
        if searches == found.len() {
            return None;
        }
        let step = Raytracer::trace(depth, found[searches]);
        searches += 1;
        match step {
            Step::Continue(next) => depth = next,
            other => return Some((other, searches)),
        }
    }
}

#[test]
fn the_bound_is_fifteen() {
    assert_eq!(MAX_DEPTH, 15);
    assert!(!Raytracer::exhausted(0));
    assert!(!Raytracer::exhausted(15));
    assert!(Raytracer::exhausted(16));
    assert!(Raytracer::exhausted(255));
}

#[test]
fn a_ray_that_hits_nothing_sees_the_background() {
    assert_eq!(Raytracer::trace(0, None), Step::Background);
    assert_eq!(Raytracer::trace(15, None), Step::Background);
}

#[test]
fn a_covered_hit_is_shaded_in_its_colour() {
    assert_eq!(Raytracer::trace(0, Some(Coverage::Opaque(Tint::Flat))), Step::Shade(Tint::Flat));
    assert_eq!(Raytracer::trace(7, Some(Coverage::Opaque(RED))), Step::Shade(RED));
}

#[test]
fn a_cutout_sends_the_ray_on_one_level_deeper() {
    assert_eq!(Raytracer::trace(0, Some(Coverage::Cutout)), Step::Continue(1));
    assert_eq!(Raytracer::trace(9, Some(Coverage::Cutout)), Step::Continue(10));
    assert_eq!(Raytracer::trace(15, Some(Coverage::Cutout)), Step::Continue(16));
}

#[test]
fn past_the_bound_nothing_is_traced() {
    assert_eq!(Raytracer::trace(16, None), Step::Exhausted);
    assert_eq!(Raytracer::trace(16, Some(Coverage::Cutout)), Step::Exhausted);
    assert_eq!(Raytracer::trace(200, Some(Coverage::Opaque(RED))), Step::Exhausted);
    assert_eq!(Raytracer::trace(255, Some(Coverage::Cutout)), Step::Exhausted);
}

#[test]
fn what_lies_behind_a_cutout_is_what_the_ray_sees() {
    let behind = Some(Coverage::Opaque(RED));
    assert_eq!(drive(0, &[Some(Coverage::Cutout), behind]), Some((Step::Shade(RED), 2)));
    assert_eq!(drive(1, &[behind]), Some((Step::Shade(RED), 1)));
    assert_eq!(drive(0, &[Some(Coverage::Cutout), None]), Some((Step::Background, 2)));
    assert_eq!(
        drive(0, &[Some(Coverage::Cutout), Some(Coverage::Cutout), behind]),
        Some((Step::Shade(RED), 3))
    );
}

#[test]
fn each_cutout_raises_the_depth_by_one() {
    let mut depth = 0;
    for passed in 0..16u8 {
        assert_eq!(depth, passed);
        match Raytracer::trace(depth, Some(Coverage::Cutout)) {
            Step::Continue(next) => depth = next,
            other => panic!("{:?} after {} cutouts", other, passed),
        }
    }
    assert_eq!(depth, 16);
}

#[test]
fn endless_cutouts_end_in_zero_after_sixteen_searches() {
    let cutouts = vec![Some(Coverage::Cutout); 100];
    assert_eq!(drive(0, &cutouts), Some((Step::Exhausted, 16)));
    assert_eq!(drive(10, &cutouts), Some((Step::Exhausted, 6)));
    assert_eq!(drive(15, &cutouts), Some((Step::Exhausted, 1)));
    assert_eq!(drive(16, &cutouts), Some((Step::Exhausted, 0)));
}

#[test]
fn the_sixteenth_surface_is_still_seen_and_the_seventeenth_is_not() {
    let mut found = vec![Some(Coverage::Cutout); 15];
    found.push(Some(Coverage::Opaque(RED)));
    assert_eq!(drive(0, &found), Some((Step::Shade(RED), 16)));
    let mut found = vec![Some(Coverage::Cutout); 16];
    found.push(Some(Coverage::Opaque(RED)));
    assert_eq!(drive(0, &found), Some((Step::Exhausted, 16)));
}

#[test]
fn no_trace_makes_more_searches_than_the_bound_leaves() {
    let kinds = [None, Some(Coverage::Cutout), Some(Coverage::Opaque(Tint::Flat))];
    for depth in 0..20u8 {
        // every run of three findings, then cutouts without end
        for code in 0..27usize {
            let mut found = vec![kinds[code % 3], kinds[code / 3 % 3], kinds[code / 9]];
            found.extend(vec![Some(Coverage::Cutout); 32]);
            let (_, searches) = drive(depth, &found).unwrap();
            assert!(searches <= 16usize.saturating_sub(depth as usize));
        }
    }
}

#[test]
fn without_lights_ambient_and_emission_remain() {
    assert_eq!(Raytracer::shade(&Vec::new()), vec![Term::Ambient, Term::Emission]);
}

#[test]
fn a_free_light_adds_its_term() {
    assert_eq!(
        Raytracer::shade(&vec![None]),
        vec![Term::Light(0), Term::Ambient, Term::Emission]
    );
}

#[test]
fn a_light_behind_a_covered_surface_adds_nothing() {
    assert_eq!(
        Raytracer::shade(&vec![Some(Coverage::Opaque(Tint::Flat))]),
        vec![Term::Ambient, Term::Emission]
    );
    assert_eq!(
        Raytracer::shade(&vec![Some(Coverage::Opaque(RED))]),
        vec![Term::Ambient, Term::Emission]
    );
}

#[test]
fn a_cutout_casts_no_shadow() {
    assert_eq!(
        Raytracer::shade(&vec![Some(Coverage::Cutout)]),
        vec![Term::Light(0), Term::Ambient, Term::Emission]
    );
}

#[test]
fn a_shadow_takes_away_its_own_light_only() {
    let occluders = vec![
        None,
        Some(Coverage::Opaque(Tint::Flat)),
        Some(Coverage::Cutout),
        Some(Coverage::Opaque(RED)),
        None,
    ];
    assert_eq!(
        Raytracer::shade(&occluders),
        vec![Term::Light(0), Term::Light(2), Term::Light(4), Term::Ambient, Term::Emission]
    );
}

#[test]
fn a_point_light_reaches_as_far_as_it_is_away() {
    let distance = Scalar::from_bits(2.5f32.to_bits());
    assert_eq!(Raytracer::shadow_limit(LightKind::Point, distance), distance);
    let nowhere = Scalar::from_bits(0);
    assert_eq!(Raytracer::shadow_limit(LightKind::Point, nowhere), nowhere);
}

#[test]
fn a_directional_light_reaches_without_bound() {
    let distance = Scalar::from_bits(1.0f32.to_bits());
    let limit = Raytracer::shadow_limit(LightKind::Directional, distance);
    assert_eq!(limit, Scalar::from_bits(INFINITY_BITS));
    assert_eq!(f32::from_bits(limit.to_bits()), f32::INFINITY);
}

#[test]
fn an_occluder_at_any_finite_distance_shadows_a_directional_light() {
    let limit = Raytracer::shadow_limit(LightKind::Directional, Scalar::from_bits(0));
    for distance in [1.0e-5f32, 0.5, 1.0, 2.0, 1.0e30, f32::MAX] {
        let found = nearest(&vec![Some(Scalar::from_bits(distance.to_bits()))], limit);
        assert_eq!(found, Some(0), "at {:?}", distance);
    }
    let opaque = Some(Coverage::Opaque(Tint::Flat));
    assert_eq!(Raytracer::shade(&vec![opaque]), vec![Term::Ambient, Term::Emission]);
}

#[test]
fn an_occluder_beyond_a_point_light_casts_no_shadow() {
    let distance = Scalar::from_bits(2.0f32.to_bits());
    let limit = Raytracer::shadow_limit(LightKind::Point, distance);
    let nearer = Scalar::from_bits(1.5f32.to_bits());
    let farther = Scalar::from_bits(2.5f32.to_bits());
    assert_eq!(nearest(&vec![Some(nearer)], limit), Some(0));
    assert_eq!(nearest(&vec![Some(distance)], limit), None);
    assert_eq!(nearest(&vec![Some(farther)], limit), None);
}

#[test]
fn the_horizon_hides_no_finite_hit() {
    let limit = Raytracer::horizon();
    assert_eq!(f32::from_bits(limit.to_bits()), f32::INFINITY);
    let farthest = Scalar::from_bits(f32::MAX.to_bits());
    assert_eq!(nearest(&vec![Some(farthest)], limit), Some(0));
    let nowhere = Scalar::from_bits(f32::INFINITY.to_bits());
    assert_eq!(nearest(&vec![Some(nowhere)], limit), None);
    let nothing = Scalar::from_bits(f32::NAN.to_bits());
    assert_eq!(nearest(&vec![Some(nothing)], limit), None);
}
