//! The light path: what to do after each intersection and each scatter event.
//!
//! Tracing a ray alternates arithmetic and decisions. The caller intersects the
//! ray with the scene and asks [`intersect`] what that means; where the answer
//! is to scatter, it draws a sample and asks [`bounce`]; where that answer is to
//! go on, it traces the new ray one level deeper and multiplies what comes back
//! by the attenuation.
use vstd::prelude::*;
use crate::materials::Sample;
use crate::objects::{HitRecord, Hittable, HittableList, Probe};
use crate::ray::Ray;
use crate::scalar::Scalar;
use crate::vec3::Vec3;

verus! {

/// The largest number of scatter events along one path.
pub const MAX_DEPTH: usize = 50;

/// The bits of `0.001`: how far along a ray the first hit may lie at the least,
/// so that a scattered ray does not meet the surface it left.
pub const NEAREST_HIT_BITS: u64 = 0x3f50_624d_d2f1_a9fc;

/// What an intersection means for the path.
#[derive(Clone, Copy, Debug, PartialEq, Eq, Structural)]
pub enum Trace {
    /// Nothing was hit: the path ends in the sky.
    Background,
    /// Something was hit, but the path has used up its scatter events: black.
    Absorbed,
    /// This surface was hit and may scatter the ray.
    Scatter(HitRecord),
}

/// What a scatter event means for the path.
#[derive(Clone, Copy, Debug, PartialEq, Eq, Structural)]
pub enum Bounce {
    /// The surface swallowed the ray, or the path may scatter no more: black.
    Absorbed,
    /// The path goes on along `ray`, one level deeper, and what it brings back
    /// is multiplied by `attenuation`, channel by channel.
    Continue { attenuation: Vec3, ray: Ray, depth: usize },
}

/// One step of a path as it might come: the ray, what it hits, and the sample
/// drawn at the hit.
pub struct Encounter {
    pub ray: Ray,
    pub hit: Option<HitRecord>,
    pub sample: Sample,
}

/// The lower end of the interval in which hits count: `0.001`.
pub open spec fn spec_nearest_hit() -> Scalar {
    Scalar { bits: NEAREST_HIT_BITS }
}

/// The upper end of the interval in which hits count: the largest finite number.
pub open spec fn spec_farthest_hit() -> Scalar {
    Scalar::greatest_finite()
}

/// What a hit, or none, means at the given depth.
pub open spec fn classify(hit: Option<HitRecord>, depth: usize) -> Trace {
    match hit {
        None => Trace::Background,
        Some(rec) => if depth < MAX_DEPTH {
            Trace::Scatter(rec)
        } else {
            Trace::Absorbed
        },
    }
}

/// What the scatter event at `rec` means at the given depth.
pub open spec fn bounce_spec(r: Ray, rec: HitRecord, sample: Sample, depth: usize) -> Bounce {
    let outcome = rec.mat.scattering(r, rec, sample, Vec3::origin());
    if depth < MAX_DEPTH && outcome.scattered {
        Bounce::Continue { attenuation: outcome.attenuation, ray: outcome.ray, depth: (depth + 1) as usize }
    } else {
        Bounce::Absorbed
    }
}

/// How many scatter events a path makes from `depth` on, when its steps come as
/// `encounters` lists them. A path that runs out of listed steps stops.
pub open spec fn scatter_events(encounters: Seq<Encounter>, depth: usize) -> nat
    decreases encounters.len(),
{
    if encounters.len() == 0 {
        0
    } else {
        let step = encounters[0];
        match classify(step.hit, depth) {
            Trace::Scatter(rec) => match bounce_spec(step.ray, rec, step.sample, depth) {
                Bounce::Continue { depth: deeper, .. } => 1 + scatter_events(
                    encounters.drop_first(),
                    deeper,
                ),
                Bounce::Absorbed => 0,
            },
            _ => 0,
        }
    }
}

/// The lower end of the interval in which hits count: `0.001`.
#[verifier::when_used_as_spec(spec_nearest_hit)]
pub fn nearest_hit() -> (t: Scalar)
    ensures
        t == spec_nearest_hit(),
{
    Scalar::from_bits(NEAREST_HIT_BITS)
}

/// The upper end of the interval in which hits count: the largest finite number.
#[verifier::when_used_as_spec(spec_farthest_hit)]
pub fn farthest_hit() -> (t: Scalar)
    ensures
        t == spec_farthest_hit(),
{
    Scalar::greatest_finite()
}

/// Intersects the ray behind `probe` with the world, between `0.001` and the
/// largest finite number, and says what that means for a path at `depth`: the
/// sky where nothing is hit; else black from depth 50 on; else a scatter event
/// at the nearest hit.
pub fn intersect(world: &Hittable, probe: &Probe, depth: usize) -> (trace: Trace)
    requires
        world.wf(),
        probe.fits(*world),
    ensures
        trace == classify(world.hit_spec(*probe, nearest_hit(), farthest_hit()), depth),
{
    let mut rec = HitRecord::empty();
    if world.hit(probe, nearest_hit(), farthest_hit(), &mut rec) {
        if depth < MAX_DEPTH {
            Trace::Scatter(rec)
        } else {
            Trace::Absorbed
        }
    } else {
        Trace::Background
    }
}

/// Lets the surface at `rec` scatter the ray `r`. Below depth 50, where the
/// surface sends a ray on, the path continues one level deeper with the
/// surface's attenuation; otherwise it ends in black.
pub fn bounce(r: &Ray, rec: &HitRecord, sample: &Sample, depth: usize) -> (next: Bounce)
    requires
        sample.fits(rec.mat),
    ensures
        next == bounce_spec(*r, *rec, *sample, depth),
        next matches Bounce::Continue { depth: deeper, .. } ==> deeper == depth + 1 && deeper
            <= MAX_DEPTH,
{
    let mut scattered = Ray::empty();
    let mut attenuation = Vec3::zero();
    if depth < MAX_DEPTH && rec.mat.scatter(r, rec, sample, &mut attenuation, &mut scattered) {
        Bounce::Continue { attenuation, ray: scattered, depth: depth + 1 }
    } else {
        Bounce::Absorbed
    }
}

/// In a world without geometry every ray ends in the sky, at every depth.
pub proof fn lemma_empty_world_is_background(scene: HittableList, probe: Probe, depth: usize)
    requires
        scene.list@.len() == 0,
    ensures
        classify(
            Hittable::List(scene).hit_spec(probe, nearest_hit(), farthest_hit()),
            depth,
        ) == Trace::Background,
{
}

/// No path scatters more than 50 times: from depth `depth`, at most
/// `50 - depth` scatter events follow, whatever the path meets.
pub proof fn lemma_depth_bounded(encounters: Seq<Encounter>, depth: usize)
    requires
        depth <= MAX_DEPTH,
    ensures
        depth + scatter_events(encounters, depth) <= MAX_DEPTH,
    decreases encounters.len(),
{
    if encounters.len() > 0 {
        let step = encounters[0];
        if let Trace::Scatter(rec) = classify(step.hit, depth) {
            if let Bounce::Continue { depth: deeper, .. } = bounce_spec(
                step.ray,
                rec,
                step.sample,
                depth,
            ) {
                lemma_depth_bounded(encounters.drop_first(), deeper);
            }
        }
    }
}

} // verus!
