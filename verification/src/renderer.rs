//! The tracer's decisions.
//!
//! Tracing one ray alternates geometry and decisions: find the nearest hit,
//! decide whether the ray stops there, and if it does, which light terms
//! enter the sum. The geometry is the caller's; `Raytracer` takes what it
//! found and says what happens next.
use vstd::prelude::*;
use crate::material::{Coverage, Tint};
use crate::scalar::{Scalar, INFINITY_BITS};

verus! {

/// The deepest level at which a ray is still traced.
pub const MAX_DEPTH: u8 = 15;

/// Direct illumination with shadow rays and cutout transparency.
pub struct Raytracer;

/// Reserved for a path-tracing renderer.
pub struct Pathtracer;

/// The renderers to choose from.
pub enum Renderer {
    RAYTRACER(Raytracer),
    PATHTRACER(Pathtracer),
}

/// What follows the search for the nearest hit of a ray.
#[derive(Clone, Copy, Debug, PartialEq, Eq, Structural)]
pub enum Step {
    /// The ray is deeper than `MAX_DEPTH`: its radiance is zero.
    Exhausted,
    /// The ray hit nothing: its radiance is the scene's ambient term.
    Background,
    /// The hit is a cutout: the radiance is that of the ray that starts at
    /// the hit, runs in the same direction and has this depth.
    Continue(u8),
    /// The hit is shaded, with this diffuse colour.
    Shade(Tint),
}

/// How the trace of one ray ends, given what each search found.
#[derive(Clone, Copy, Debug, PartialEq, Eq, Structural)]
pub enum Outcome {
    /// Zero radiance: the depth bound was passed.
    Exhausted,
    /// The scene's ambient term: the last ray hit nothing.
    Background,
    /// The shading of a covered point, with this diffuse colour.
    Shaded(Tint),
    /// Not over yet: a ray of this depth still waits for its search.
    Pending(u8),
}

/// One summand of the radiance of a shaded point.
#[derive(Clone, Copy, Debug, PartialEq, Eq, Structural)]
pub enum Term {
    /// The direct contribution of the light with this index.
    Light(usize),
    /// Scene ambient times diffuse colour.
    Ambient,
    /// The material's emission.
    Emission,
}

/// The kinds of light source.
#[derive(Clone, Copy, Debug, PartialEq, Eq, Structural)]
pub enum LightKind {
    /// Light from one direction, from infinitely far away.
    Directional,
    /// Light from one point of the scene.
    Point,
}

/// The limit of a search without bound: infinity, which every finite
/// distance lies below.
pub open spec fn unbounded() -> Scalar {
    Scalar { bits: INFINITY_BITS }
}

/// How far along a shadow ray an occluder counts: short of the light for a
/// point light `distance` away, at any distance for a directional light.
pub open spec fn reach(kind: LightKind, distance: Scalar) -> Scalar {
    match kind {
        LightKind::Directional => unbounded(),
        LightKind::Point => distance,
    }
}

/// Whether what a shadow ray found nearest keeps the light off the point:
/// a covered surface does, a cutout or nothing does not.
pub open spec fn casts_shadow(occluder: Option<Coverage>) -> bool {
    occluder matches Some(Coverage::Opaque(_))
}

/// The terms of the lights that reach the point, in the order of the lights.
pub open spec fn lit(occluders: Seq<Option<Coverage>>) -> Seq<Term>
    decreases occluders.len(),
{
    if occluders.len() == 0 {
        Seq::empty()
    } else if casts_shadow(occluders.last()) {
        lit(occluders.drop_last())
    } else {
        lit(occluders.drop_last()).push(Term::Light((occluders.len() - 1) as usize))
    }
}

/// The summands of a shaded point, in the order in which they are added:
/// the lights that reach it, then ambient, then emission.
pub open spec fn terms(occluders: Seq<Option<Coverage>>) -> Seq<Term> {
    lit(occluders).push(Term::Ambient).push(Term::Emission)
}

impl Raytracer {
    /// What follows a search at `depth` that found `found` nearest (`None`:
    /// no hit).
    pub open spec fn step(depth: u8, found: Option<Coverage>) -> Step {
        if depth > MAX_DEPTH {
            Step::Exhausted
        } else {
            match found {
                None => Step::Background,
                Some(Coverage::Cutout) => Step::Continue((depth + 1) as u8),
                Some(Coverage::Opaque(tint)) => Step::Shade(tint),
            }
        }
    }

    /// How the trace of a ray of `depth` ends when its searches find
    /// `found[0]`, `found[1]`, ... in turn.
    pub open spec fn run(depth: u8, found: Seq<Option<Coverage>>) -> Outcome
        decreases found.len(),
    {
        if depth > MAX_DEPTH {
            Outcome::Exhausted
        } else if found.len() == 0 {
            Outcome::Pending(depth)
        } else {
            match Self::step(depth, found[0]) {
                Step::Exhausted => Outcome::Exhausted,
                Step::Background => Outcome::Background,
                Step::Shade(tint) => Outcome::Shaded(tint),
                Step::Continue(next) => Self::run(next, found.skip(1)),
            }
        }
    }

    /// How many searches the trace of a ray of `depth` makes when they find
    /// `found[0]`, `found[1]`, ... in turn.
    pub open spec fn searches(depth: u8, found: Seq<Option<Coverage>>) -> nat
        decreases found.len(),
    {
        if depth > MAX_DEPTH || found.len() == 0 {
            0
        } else {
            match Self::step(depth, found[0]) {
                Step::Continue(next) => 1 + Self::searches(next, found.skip(1)),
                _ => 1,
            }
        }
    }

    /// Whether a ray of this depth is past the bound, so that its radiance is
    /// zero and nothing is searched.
    pub fn exhausted(depth: u8) -> (r: bool)
        ensures
            r == (depth > MAX_DEPTH),
            r == (Self::run(depth, Seq::empty()) == Outcome::Exhausted),
    {
        depth > MAX_DEPTH
    }

    /// Decides what follows the search for the nearest hit of a ray of
    /// `depth`. `found` is what the material of that hit says at the hit, or
    /// `None` where the ray hit nothing.
    pub fn trace(depth: u8, found: Option<Coverage>) -> (step: Step)
        ensures
            step == Self::step(depth, found),
            step matches Step::Continue(next) ==> next == depth + 1 && found == Some(
                Coverage::Cutout,
            ),
            found == Some(Coverage::Cutout) ==> !(step is Shade),
    {
        if depth > MAX_DEPTH {
            return Step::Exhausted;
        }
        match found {
            None => Step::Background,
            Some(Coverage::Cutout) => Step::Continue(depth + 1),
            Some(Coverage::Opaque(tint)) => Step::Shade(tint),
        }
    }

    /// The limit under which the nearest hit of a ray from the camera, or of
    /// one that went on through a cutout, is searched: none, so a hit at any
    /// finite distance is seen.
    pub fn horizon() -> (limit: Scalar)
        ensures
            limit == unbounded(),
    {
        Scalar::from_bits(INFINITY_BITS)
    }

    /// The limit under which the nearest hit of a shadow ray is searched, for
    /// a light of this kind whose distance from the shaded point is
    /// `distance`. For a point light a hit at the light's distance or beyond
    /// it casts no shadow; for a directional light a hit at any finite
    /// distance does.
    pub fn shadow_limit(kind: LightKind, distance: Scalar) -> (limit: Scalar)
        ensures
            limit == reach(kind, distance),
            kind == LightKind::Directional ==> forall|t: Scalar|
                !t.is_nan() && t.bits != INFINITY_BITS ==> #[trigger] t.precedes(limit),
    {
        match kind {
            LightKind::Directional => Scalar::from_bits(INFINITY_BITS),
            LightKind::Point => distance,
        }
    }

    /// The summands of a shaded point. `occluders[i]` is what the shadow ray
    /// towards light `i` found nearest, short of the light: the coverage of
    /// that surface at that hit, or `None` where nothing is in the way.
    ///
    /// A light is in the sum exactly where nothing covered is in its way.
    /// Ambient and emission are in it always, after the lights.
    pub fn shade(occluders: &Vec<Option<Coverage>>) -> (sum: Vec<Term>)
        ensures
            sum@ == terms(occluders@),
            forall|light: usize|
                #[trigger] sum@.contains(Term::Light(light)) <==> light < occluders@.len()
                    && !casts_shadow(occluders@[light as int]),
            sum@.len() >= 2,
            sum@[sum@.len() - 2] == Term::Ambient,
            sum@[sum@.len() - 1] == Term::Emission,
    {
        let mut sum: Vec<Term> = Vec::new();
        let mut i: usize = 0;
        while i < occluders.len()
            invariant
                i <= occluders.len(),
                sum@ == lit(occluders@.take(i as int)),
            decreases occluders.len() - i,
        {
            let shadowed: bool = match occluders[i] {
                Some(Coverage::Opaque(_)) => true,
                _ => false,
            };
            proof {
                let upto = occluders@.take(i + 1);
                assert(upto.drop_last() == occluders@.take(i as int));
                assert(upto.last() == occluders@[i as int]);
            }
            if !shadowed {
                sum.push(Term::Light(i));
            }
            i += 1;
        }
        proof {
            assert(occluders@.take(i as int) == occluders@);
        }
        sum.push(Term::Ambient);
        sum.push(Term::Emission);
        proof {
            assert forall|light: usize|
                #[trigger] sum@.contains(Term::Light(light)) <==> light < occluders@.len()
                    && !casts_shadow(occluders@[light as int]) by {
                lemma_shadow_removes_only_its_light(occluders@, light);
            }
        }
        sum
    }
}

/// Every finite distance lies within a search without bound.
pub proof fn lemma_unbounded_admits_every_finite_distance(t: Scalar)
    requires
        !t.is_nan(),
        t.bits != INFINITY_BITS,
    ensures
        t.precedes(unbounded()),
{
}

/// A ray that meets a cutout is traced on one level deeper, and the cutout
/// leaves no mark on the outcome.
pub proof fn lemma_cutout_passes_through(depth: u8, rest: Seq<Option<Coverage>>)
    requires
        depth <= MAX_DEPTH,
    ensures
        Raytracer::run(depth, seq![Some(Coverage::Cutout)] + rest) == Raytracer::run(
            (depth + 1) as u8,
            rest,
        ),
{
    let found = seq![Some(Coverage::Cutout)] + rest;
    assert(found[0] == Some(Coverage::Cutout));
    assert(found.skip(1) == rest);
}

/// `count` cutouts in a row raise the depth by `count`, one each, and leave
/// no other mark on the outcome.
pub proof fn lemma_cutouts_pass_through(depth: u8, count: nat, rest: Seq<Option<Coverage>>)
    requires
        depth + count <= MAX_DEPTH + 1,
    ensures
        Raytracer::run(depth, Seq::new(count, |i: int| Some(Coverage::Cutout)) + rest)
            == Raytracer::run((depth + count) as u8, rest),
    decreases count,
{
    let cutouts = Seq::new(count, |i: int| Some(Coverage::Cutout));
    if count == 0 {
        assert(cutouts + rest == rest);
    } else {
        let fewer = Seq::new((count - 1) as nat, |i: int| Some(Coverage::Cutout));
        assert(cutouts + rest == seq![Some(Coverage::Cutout)] + (fewer + rest));
        lemma_cutout_passes_through(depth, fewer + rest);
        lemma_cutouts_pass_through((depth + 1) as u8, (count - 1) as nat, rest);
    }
}

/// The trace of a ray ends: whatever the searches find, a ray of `depth`
/// makes at most `MAX_DEPTH + 1 - depth` of them, and none past the bound.
pub proof fn lemma_trace_is_bounded(depth: u8, found: Seq<Option<Coverage>>)
    ensures
        depth <= MAX_DEPTH ==> Raytracer::searches(depth, found) <= MAX_DEPTH + 1 - depth,
        depth > MAX_DEPTH ==> Raytracer::searches(depth, found) == 0,
        Raytracer::searches(depth, found) <= found.len(),
        found.len() >= MAX_DEPTH + 1 - depth ==> !(Raytracer::run(depth, found) is Pending),
    decreases found.len(),
{
    if depth <= MAX_DEPTH && found.len() > 0 {
        lemma_trace_is_bounded((depth + 1) as u8, found.skip(1));
    }
}

/// A ray that meets nothing but cutouts comes back with zero radiance once
/// its depth has passed the bound.
pub proof fn lemma_endless_cutouts_give_zero(depth: u8, found: Seq<Option<Coverage>>)
    requires
        found.len() >= MAX_DEPTH + 1 - depth,
        forall|i: int| 0 <= i < MAX_DEPTH + 1 - depth ==> found[i] == Some(Coverage::Cutout),
    ensures
        Raytracer::run(depth, found) == Outcome::Exhausted,
    decreases found.len(),
{
    if depth <= MAX_DEPTH {
        let rest = found.skip(1);
        assert forall|i: int| 0 <= i < MAX_DEPTH + 1 - (depth + 1) implies rest[i] == Some(
            Coverage::Cutout,
        ) by {
            assert(rest[i] == found[i + 1]);
        }
        lemma_endless_cutouts_give_zero((depth + 1) as u8, rest);
    }
}

/// Which lights are among the lit ones: those below the number of occluders
/// whose shadow ray met no covered surface.
pub proof fn lemma_lit_lights(occluders: Seq<Option<Coverage>>, light: usize)
    requires
        occluders.len() <= usize::MAX,
    ensures
        lit(occluders).contains(Term::Light(light)) <==> light < occluders.len() && !casts_shadow(
            occluders[light as int],
        ),
        !lit(occluders).contains(Term::Ambient),
        !lit(occluders).contains(Term::Emission),
    decreases occluders.len(),
{
    if occluders.len() > 0 {
        let before = occluders.drop_last();
        let last = (occluders.len() - 1) as usize;
        lemma_lit_lights(before, light);
        if !casts_shadow(occluders.last()) {
            let grown = lit(before).push(Term::Light(last));
            assert(grown.last() == Term::Light(last));
            assert forall|t: Term| grown.contains(t) <==> lit(before).contains(t) || t
                == Term::Light(last) by {
                if lit(before).contains(t) {
                    let k = choose|k: int| 0 <= k < lit(before).len() && lit(before)[k] == t;
                    assert(grown[k] == t);
                }
                if t == Term::Light(last) {
                    assert(grown[grown.len() - 1] == t);
                }
            }
        }
        if light < before.len() {
            assert(before[light as int] == occluders[light as int]);
        }
    }
}

/// A light behind a covered surface adds nothing to the sum, every other
/// light adds its term, and ambient and emission are added last, whatever the
/// shadows are.
pub proof fn lemma_shadow_removes_only_its_light(occluders: Seq<Option<Coverage>>, light: usize)
    requires
        occluders.len() <= usize::MAX,
    ensures
        terms(occluders).contains(Term::Light(light)) <==> light < occluders.len()
            && !casts_shadow(occluders[light as int]),
        terms(occluders).contains(Term::Ambient),
        terms(occluders).contains(Term::Emission),
        terms(occluders)[terms(occluders).len() - 2] == Term::Ambient,
        terms(occluders).last() == Term::Emission,
{
    lemma_lit_lights(occluders, light);
    let lights = lit(occluders);
    let all = terms(occluders);
    assert(all[all.len() - 2] == Term::Ambient);
    assert(all[all.len() - 1] == Term::Emission);
    if lights.contains(Term::Light(light)) {
        let k = choose|k: int| 0 <= k < lights.len() && lights[k] == Term::Light(light);
        assert(all[k] == Term::Light(light));
    }
    if all.contains(Term::Light(light)) {
        let k = choose|k: int| 0 <= k < all.len() && all[k] == Term::Light(light);
        assert(k < lights.len());
        assert(lights[k] == Term::Light(light));
    }
}

} // verus!
