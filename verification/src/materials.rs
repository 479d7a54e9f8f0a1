//! Surfaces: what becomes of a ray that strikes one.
//!
//! A material decides whether a ray goes on and with which colour filter. The
//! directions it chooses between are computed outside this crate and handed in as
//! a sample; the material reads the sample and decides.
use vstd::prelude::*;
use crate::objects::HitRecord;
use crate::ray::Ray;
use crate::scalar::Scalar;
use crate::vec3::Vec3;

verus! {

/// What a diffuse surface is handed: the direction `(p + n + s) - p`, where `p` is
/// the point hit, `n` the normal there and `s` a random point of the unit sphere.
#[derive(Clone, Copy, Debug, PartialEq, Eq, Structural)]
pub struct DiffuseSample {
    pub direction: Vec3,
}

/// What a metal is handed: the mirrored unit direction of the incoming ray plus
/// `fuzz` times a random point of the unit sphere, and the dot product of that
/// direction and the normal.
#[derive(Clone, Copy, Debug, PartialEq, Eq, Structural)]
pub struct GlossySample {
    pub direction: Vec3,
    pub facing: Scalar,
}

/// One attempt at Snell's law, for one side of the surface: the discriminant
/// `1 - ratio^2 * (1 - dt^2)`, the refracted direction that it gives when it is
/// positive, and the Schlick reflectance for the cosine of that side.
#[derive(Clone, Copy, Debug, PartialEq, Eq, Structural)]
pub struct Refraction {
    pub discriminant: Scalar,
    pub refracted: Vec3,
    pub reflectance: Scalar,
}

/// What a dielectric is handed: the dot product of the ray's direction and the
/// normal, the mirrored direction, the refraction for a ray that enters the
/// medium and the one for a ray that leaves it, and a uniform draw from `[0, 1)`.
#[derive(Clone, Copy, Debug, PartialEq, Eq, Structural)]
pub struct DielectricSample {
    pub incidence: Scalar,
    pub reflected: Vec3,
    pub entering: Refraction,
    pub exiting: Refraction,
    pub draw: Scalar,
}

/// The sample for one scatter event, by the kind of surface it was drawn for.
#[derive(Clone, Copy, Debug, PartialEq, Eq, Structural)]
pub enum Sample {
    Empty,
    Matte(DiffuseSample),
    Metal(GlossySample),
    Glass(DielectricSample),
}

/// What a scatter event leaves behind: whether the ray goes on, the colour filter
/// and the ray that leaves the surface.
#[derive(Clone, Copy, Debug, PartialEq, Eq, Structural)]
pub struct Scattering {
    pub scattered: bool,
    pub attenuation: Vec3,
    pub ray: Ray,
}

/// `f` held to the unit interval: 0 below it, 1 above it and for NaN.
pub open spec fn clamp_unit(f: Scalar) -> Scalar {
    if f.below(Scalar::zero()) {
        Scalar::zero()
    } else if f.below(Scalar::one()) {
        f
    } else {
        Scalar::one()
    }
}

/// Whether a candidate offset lies inside the unit sphere, given its squared
/// length. A sampler draws candidates from the cube around the sphere until one
/// is kept; it goes on for as long as the squared length is at least 1.
pub fn in_unit_sphere(magnitude2: Scalar) -> (keep: bool)
    ensures
        keep == !Scalar::one().at_most(magnitude2),
{
    !magnitude2.ge(&Scalar::one())
}

/// The surface of a hit record that no geometry has filled in. It passes the ray
/// on untouched.
#[derive(Clone, Copy, Debug, PartialEq, Eq, Structural)]
pub struct Empty {}

/// An ideal diffuse surface.
#[derive(Clone, Copy, Debug, PartialEq, Eq, Structural)]
pub struct Matte {
    albedo: Vec3,
}

/// A mirror, blurred by `fuzz`.
#[derive(Clone, Copy, Debug, PartialEq, Eq, Structural)]
pub struct Metal {
    albedo: Vec3,
    fuzz: Scalar,
}

/// A clear dielectric such as glass or water.
#[derive(Clone, Copy, Debug, PartialEq, Eq, Structural)]
pub struct Glass {
    attenuation: Vec3,
    ref_idx: Scalar,
}

/// A surface of one of the known kinds.
#[derive(Clone, Copy, Debug, PartialEq, Eq, Structural)]
pub enum Material {
    Empty(Empty),
    Matte(Matte),
    Metal(Metal),
    Glass(Glass),
}

impl Empty {
    /// The ray goes on as it came, and the filter stays as the caller had it.
    pub open spec fn scattering(self, r: Ray, attenuation: Vec3) -> Scattering {
        Scattering { scattered: true, attenuation, ray: r }
    }

    /// Passes the ray on: `scattered` becomes the incoming ray, `attenuation` is
    /// left alone.
    pub fn scatter(
        &self,
        r: &Ray,
        rec: &HitRecord,
        attenuation: &mut Vec3,
        scattered: &mut Ray,
    ) -> (ok: bool)
        ensures
            ok,
            *final(scattered) == *r,
            *final(attenuation) == *old(attenuation),
    {
        *scattered = *r;
        true
    }
}

impl Matte {
    /// The colour that the surface reflects.
    pub closed spec fn spec_albedo(&self) -> Vec3 {
        self.albedo
    }

    /// A ray always leaves, from the point hit along the sampled direction,
    /// filtered by the albedo.
    pub open spec fn scattering(self, rec: HitRecord, sample: DiffuseSample) -> Scattering {
        Scattering {
            scattered: true,
            attenuation: self.albedo(),
            ray: Ray { origin: rec.p, direction: sample.direction },
        }
    }

    /// Whether the albedo is a colour: each channel in `[0, 1]`.
    pub open spec fn wf(self) -> bool {
        self.albedo().unit_color()
    }

    /// A diffuse surface of the given colour.
    pub fn new(albedo: Vec3) -> (m: Matte)
        ensures
            m.albedo() == albedo,
    {
        Matte { albedo }
    }

    /// The colour that the surface reflects.
    #[verifier::when_used_as_spec(spec_albedo)]
    pub fn albedo(&self) -> (a: Vec3)
        ensures
            a == self.albedo(),
    {
        self.albedo
    }

    /// Whether the albedo is a colour: each channel in `[0, 1]`.
    pub fn is_valid(&self) -> (r: bool)
        ensures
            r == self.wf(),
    {
        self.albedo.is_unit_color()
    }

    /// Scatters diffusely. Never absorbs, and the filter is exactly the albedo.
    pub fn scatter(
        &self,
        rec: &HitRecord,
        sample: &DiffuseSample,
        attenuation: &mut Vec3,
        scattered: &mut Ray,
    ) -> (ok: bool)
        ensures
            ok,
            *final(attenuation) == self.albedo(),
            *final(scattered) == (Ray { origin: rec.p, direction: sample.direction }),
    {
        *scattered = Ray::new(rec.p, sample.direction);
        *attenuation = self.albedo;
        true
    }
}

impl Metal {
    #[verifier::type_invariant]
    spec fn fuzz_is_clamped(self) -> bool {
        Scalar::zero().at_most(self.fuzz) && self.fuzz.at_most(Scalar::one())
    }

    /// The colour that the surface reflects.
    pub closed spec fn spec_albedo(&self) -> Vec3 {
        self.albedo
    }

    /// How far the reflection is blurred.
    pub closed spec fn spec_fuzz(&self) -> Scalar {
        self.fuzz
    }

    /// The ray leaves along the sampled direction when that direction points out
    /// of the surface, and is absorbed otherwise.
    pub open spec fn scattering(self, rec: HitRecord, sample: GlossySample) -> Scattering {
        Scattering {
            scattered: sample.facing.positive(),
            attenuation: self.albedo(),
            ray: Ray { origin: rec.p, direction: sample.direction },
        }
    }

    /// Whether the albedo is a colour: each channel in `[0, 1]`. The fuzz lies in
    /// `[0, 1]` in every metal.
    pub open spec fn wf(self) -> bool {
        self.albedo().unit_color()
    }

    /// A metal of the given colour, with `f` held to `[0, 1]` as its fuzz.
    pub fn new(albedo: Vec3, f: Scalar) -> (m: Metal)
        ensures
            m.albedo() == albedo,
            m.fuzz() == clamp_unit(f),
    {
        let fuzz = if f.lt(&Scalar::one()) {
            if f.lt(&Scalar::zero()) {
                Scalar::zero()
            } else {
                f
            }
        } else {
            Scalar::one()
        };
        Metal { albedo, fuzz }
    }

    /// The colour that the surface reflects.
    #[verifier::when_used_as_spec(spec_albedo)]
    pub fn albedo(&self) -> (a: Vec3)
        ensures
            a == self.albedo(),
    {
        self.albedo
    }

    /// How far the reflection is blurred: a number of `[0, 1]`.
    #[verifier::when_used_as_spec(spec_fuzz)]
    pub fn fuzz(&self) -> (f: Scalar)
        ensures
            f == self.fuzz(),
            Scalar::zero().at_most(f),
            f.at_most(Scalar::one()),
    {
        proof {
            use_type_invariant(self);
        }
        self.fuzz
    }

    /// Whether the albedo is a colour: each channel in `[0, 1]`.
    pub fn is_valid(&self) -> (r: bool)
        ensures
            r == self.wf(),
    {
        self.albedo.is_unit_color()
    }

    /// Reflects. The ray is absorbed unless the sampled direction leaves the
    /// surface, that is unless its dot product with the normal is positive.
    pub fn scatter(
        &self,
        rec: &HitRecord,
        sample: &GlossySample,
        attenuation: &mut Vec3,
        scattered: &mut Ray,
    ) -> (ok: bool)
        ensures
            ok == sample.facing.positive(),
            *final(attenuation) == self.albedo(),
            *final(scattered) == (Ray { origin: rec.p, direction: sample.direction }),
    {
        *scattered = Ray::new(rec.p, sample.direction);
        *attenuation = self.albedo;
        sample.facing.is_positive()
    }
}

impl DielectricSample {
    /// Whether the ray leaves the medium: its direction and the normal make a
    /// positive dot product.
    pub open spec fn leaves_medium(self) -> bool {
        self.incidence.positive()
    }

    /// The refraction for the side of the surface that the ray is on.
    pub open spec fn refraction(self) -> Refraction {
        if self.leaves_medium() {
            self.exiting
        } else {
            self.entering
        }
    }

    /// The chance of reflection: the reflectance where refraction is possible,
    /// 1 where it is not.
    pub open spec fn reflect_probability(self) -> Scalar {
        if self.refraction().refracts() {
            self.refraction().reflectance
        } else {
            Scalar::one()
        }
    }

    /// Whether the draw picks the mirrored direction.
    pub open spec fn reflects(self) -> bool {
        self.draw.below(self.reflect_probability())
    }

    /// The direction of the ray that leaves the surface.
    pub open spec fn outgoing(self) -> Vec3 {
        if self.reflects() {
            self.reflected
        } else {
            self.refraction().bent()
        }
    }
}

impl Refraction {
    /// Whether Snell's law has a solution: the discriminant is positive.
    pub open spec fn refracts(self) -> bool {
        self.discriminant.positive()
    }

    /// The refracted direction, or the zero vector where there is none.
    pub open spec fn bent(self) -> Vec3 {
        if self.refracts() {
            self.refracted
        } else {
            Vec3::origin()
        }
    }
}

impl Glass {
    /// The filter that the medium applies.
    pub closed spec fn spec_attenuation(&self) -> Vec3 {
        self.attenuation
    }

    /// The refractive index of the medium.
    pub closed spec fn spec_ref_idx(&self) -> Scalar {
        self.ref_idx
    }

    /// A ray always leaves, from the point hit: mirrored or refracted as the
    /// sample's draw decides.
    pub open spec fn scattering(self, rec: HitRecord, sample: DielectricSample) -> Scattering {
        Scattering {
            scattered: true,
            attenuation: self.attenuation(),
            ray: Ray { origin: rec.p, direction: sample.outgoing() },
        }
    }

    /// Whether the refractive index is a positive number.
    pub open spec fn wf(self) -> bool {
        self.ref_idx().positive()
    }

    /// A dielectric with the given filter and refractive index.
    pub fn new(attenuation: Vec3, ref_idx: Scalar) -> (g: Glass)
        ensures
            g.attenuation() == attenuation,
            g.ref_idx() == ref_idx,
    {
        Glass { attenuation, ref_idx }
    }

    /// The filter that the medium applies.
    #[verifier::when_used_as_spec(spec_attenuation)]
    pub fn attenuation(&self) -> (a: Vec3)
        ensures
            a == self.attenuation(),
    {
        self.attenuation
    }

    /// The refractive index of the medium.
    #[verifier::when_used_as_spec(spec_ref_idx)]
    pub fn ref_idx(&self) -> (n: Scalar)
        ensures
            n == self.ref_idx(),
    {
        self.ref_idx
    }

    /// Whether the refractive index is a positive number.
    pub fn is_valid(&self) -> (r: bool)
        ensures
            r == self.wf(),
    {
        self.ref_idx.is_positive()
    }

    /// Takes the refracted direction of an attempt at Snell's law where the
    /// attempt succeeded, and leaves `refracted` alone where it did not.
    pub fn refract(attempt: &Refraction, refracted: &mut Vec3) -> (ok: bool)
        ensures
            ok == attempt.refracts(),
            ok ==> *final(refracted) == attempt.refracted,
            !ok ==> *final(refracted) == *old(refracted),
    {
        if attempt.discriminant.is_positive() {
            *refracted = attempt.refracted;
            return true;
        }
        false
    }

    /// Reflects or refracts. Never absorbs. Where refraction is impossible the
    /// chance of reflection is 1; otherwise it is the sample's reflectance, and
    /// the draw decides.
    pub fn scatter(
        &self,
        rec: &HitRecord,
        sample: &DielectricSample,
        attenuation: &mut Vec3,
        scattered: &mut Ray,
    ) -> (ok: bool)
        ensures
            ok,
            *final(attenuation) == self.attenuation(),
            *final(scattered) == (Ray { origin: rec.p, direction: sample.outgoing() }),
    {
        *attenuation = self.attenuation;
        let mut refracted = Vec3::zero();
        let attempt = if sample.incidence.is_positive() {
            sample.exiting
        } else {
            sample.entering
        };
        let reflect_prob = if Glass::refract(&attempt, &mut refracted) {
            attempt.reflectance
        } else {
            Scalar::one()
        };
        if sample.draw.lt(&reflect_prob) {
            *scattered = Ray::new(rec.p, sample.reflected);
        } else {
            *scattered = Ray::new(rec.p, refracted);
        }
        true
    }
}

impl Sample {
    /// Whether the sample was drawn for a surface of the kind of `material`.
    pub open spec fn fits(self, material: Material) -> bool {
        match (material, self) {
            (Material::Empty(_), Sample::Empty) => true,
            (Material::Matte(_), Sample::Matte(_)) => true,
            (Material::Metal(_), Sample::Metal(_)) => true,
            (Material::Glass(_), Sample::Glass(_)) => true,
            _ => false,
        }
    }
}

impl Material {
    /// What the surface does with the ray `r` that struck it at `rec`, given the
    /// sample drawn for it. `attenuation` is the filter that the caller held
    /// before; only the empty surface leaves it in place.
    pub open spec fn scattering(
        self,
        r: Ray,
        rec: HitRecord,
        sample: Sample,
        attenuation: Vec3,
    ) -> Scattering {
        match (self, sample) {
            (Material::Matte(m), Sample::Matte(s)) => m.scattering(rec, s),
            (Material::Metal(m), Sample::Metal(s)) => m.scattering(rec, s),
            (Material::Glass(m), Sample::Glass(s)) => m.scattering(rec, s),
            _ => (Empty {}).scattering(r, attenuation),
        }
    }

    /// Whether the sample was drawn for this kind of surface.
    pub fn accepts(&self, sample: &Sample) -> (r: bool)
        ensures
            r == sample.fits(*self),
    {
        match (self, sample) {
            (Material::Empty(_), Sample::Empty) => true,
            (Material::Matte(_), Sample::Matte(_)) => true,
            (Material::Metal(_), Sample::Metal(_)) => true,
            (Material::Glass(_), Sample::Glass(_)) => true,
            _ => false,
        }
    }

    /// Scatters the ray `r` that struck the surface at `rec`. Returns whether a
    /// ray leaves; `attenuation` and `scattered` receive the filter and that ray.
    pub fn scatter(
        &self,
        r: &Ray,
        rec: &HitRecord,
        sample: &Sample,
        attenuation: &mut Vec3,
        scattered: &mut Ray,
    ) -> (ok: bool)
        requires
            sample.fits(*self),
        ensures
            (Scattering { scattered: ok, attenuation: *final(attenuation), ray: *final(scattered) })
                == self.scattering(*r, *rec, *sample, *old(attenuation)),
    {
        match (self, sample) {
            (Material::Matte(m), Sample::Matte(s)) => m.scatter(rec, s, attenuation, scattered),
            (Material::Metal(m), Sample::Metal(s)) => m.scatter(rec, s, attenuation, scattered),
            (Material::Glass(m), Sample::Glass(s)) => m.scatter(rec, s, attenuation, scattered),
            _ => (Empty {}).scatter(r, rec, attenuation, scattered),
        }
    }
}

/// When refraction is impossible, a dielectric reflects: whatever the draw from
/// `[0, 1)`, the ray that leaves is the mirrored one.
pub proof fn lemma_total_internal_reflection(glass: Glass, rec: HitRecord, sample: DielectricSample)
    requires
        !sample.refraction().refracts(),
        sample.draw.unit_draw(),
    ensures
        glass.scattering(rec, sample).scattered,
        glass.scattering(rec, sample).ray == (Ray { origin: rec.p, direction: sample.reflected }),
{
}

/// A fuzz is a number of the unit interval, whatever it was made from, and a
/// number of the unit interval is its own fuzz.
pub proof fn lemma_clamp_unit(f: Scalar)
    ensures
        Scalar::zero().at_most(clamp_unit(f)),
        clamp_unit(f).at_most(Scalar::one()),
        Scalar::zero().at_most(f) && f.at_most(Scalar::one()) ==> clamp_unit(f).rank() == f.rank(),
        f.unit_draw() ==> clamp_unit(f) == f,
{
}

} // verus!
