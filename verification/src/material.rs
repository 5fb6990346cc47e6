//! Surface materials and what each decides when a ray strikes it.
//!
//! A material answers a hit with the colour it lets through and the ray that
//! leaves the surface, or absorbs the ray. The directions that enter these
//! decisions are sums and products of binary32 numbers; they are handed in,
//! and each function here fixes what is done with them.

use vstd::prelude::*;
use crate::hittable::HitRecord;
use crate::ray::Ray;
use crate::scalar::{number_le, number_lt, one_units, Number, Scalar};
use crate::vec3::Vec3;

verus! {

/// Whether a scalar lies in the closed interval from zero to one.
pub open spec fn in_unit_interval(a: Scalar) -> bool {
    number_le(Number::Finite(0), a@) && number_le(a@, Number::Finite(one_units() as int))
}

/// The fuzz a metal keeps of the one it is given: a NaN and everything
/// above one become one, everything below zero becomes zero.
pub open spec fn clamp_fuzz(f: Scalar) -> Scalar {
    if f.is_nan_spec() {
        Scalar { bits: 0x3F80_0000 }
    } else if number_lt(f@, Number::Finite(0)) {
        Scalar { bits: 0 }
    } else if number_lt(Number::Finite(one_units() as int), f@) {
        Scalar { bits: 0x3F80_0000 }
    } else {
        f
    }
}

/// A diffuse surface.
#[derive(Clone, Copy, Debug)]
pub struct Lambertian {
    pub albedo: Vec3,
}

impl Lambertian {
    /// The fraction of light reflected, per channel.
    pub open spec fn albedo_spec(&self) -> Vec3 {
        self.albedo
    }

    /// A diffuse surface of the given albedo.
    pub fn new(albedo: Vec3) -> (m: Lambertian)
        ensures
            m == (Lambertian { albedo }),
    {
        Lambertian { albedo }
    }

    /// The fraction of light reflected, per channel.
    #[verifier::when_used_as_spec(albedo_spec)]
    pub fn albedo(&self) -> (v: Vec3)
        ensures
            v == self.albedo(),
    {
        self.albedo
    }
}

/// A mirror-like surface, roughened by `fuzz`.
#[derive(Clone, Copy, Debug)]
pub struct Metal {
    albedo: Vec3,
    fuzz: Scalar,
}

impl Metal {
    #[verifier::type_invariant]
    spec fn fuzz_in_range(self) -> bool {
        in_unit_interval(self.fuzz)
    }

    /// The fraction of light reflected, per channel.
    pub closed spec fn albedo_spec(&self) -> Vec3 {
        self.albedo
    }

    /// The roughness.
    pub closed spec fn fuzz_spec(&self) -> Scalar {
        self.fuzz
    }

    /// A metal of the given albedo whose fuzz is `f` clamped to `[0, 1]`.
    pub fn new(albedo: Vec3, f: Scalar) -> (m: Metal)
        ensures
            m.albedo() == albedo,
            m.fuzz() == clamp_fuzz(f),
            in_unit_interval(m.fuzz()),
    {
        let zero = Scalar::zero();
        let one = Scalar::one();
        let fuzz = if f.is_nan() {
            one
        } else if f.lt(zero) {
            zero
        } else if f.gt(one) {
            one
        } else {
            f
        };
        Metal { albedo, fuzz }
    }

    /// The fraction of light reflected, per channel.
    #[verifier::when_used_as_spec(albedo_spec)]
    pub fn albedo(&self) -> (v: Vec3)
        ensures
            v == self.albedo(),
    {
        self.albedo
    }

    /// The roughness, which lies between zero and one.
    #[verifier::when_used_as_spec(fuzz_spec)]
    pub fn fuzz(&self) -> (f: Scalar)
        ensures
            f == self.fuzz(),
            in_unit_interval(f),
    {
        proof {
            use_type_invariant(self);
        }
        self.fuzz
    }
}

/// A transparent surface.
#[derive(Clone, Copy, Debug)]
pub struct Dielectric {
    pub ir: Scalar,
}

impl Dielectric {
    /// The index of refraction.
    pub open spec fn ir_spec(&self) -> Scalar {
        self.ir
    }

    /// A transparent surface with the given index of refraction.
    pub fn new(ir: Scalar) -> (m: Dielectric)
        ensures
            m == (Dielectric { ir }),
    {
        Dielectric { ir }
    }

    /// The index of refraction.
    #[verifier::when_used_as_spec(ir_spec)]
    pub fn ir(&self) -> (v: Scalar)
        ensures
            v == self.ir(),
    {
        self.ir
    }
}

/// The material of a surface.
#[derive(Clone, Copy, Debug)]
pub enum Material {
    Lambertian(Lambertian),
    Metal(Metal),
    Dielectric(Dielectric),
}

/// What the optics of a transparent surface gave for one hit.
#[derive(Clone, Copy, Debug)]
pub struct Optics {
    /// The refraction ratio times the sine of the angle of incidence.
    pub sine_ratio: Scalar,
    /// The share of light reflected at this angle.
    pub reflectance: Scalar,
    /// A uniform draw from `[0, 1)`.
    pub draw: Scalar,
    /// The direction of the mirrored ray.
    pub reflected: Vec3,
    /// The direction of the refracted ray.
    pub refracted: Vec3,
}

impl Optics {
    /// Whether the ray is mirrored: refraction is impossible (the sine of
    /// the refracted angle would exceed one), or the draw falls below the
    /// reflectance.
    pub open spec fn reflects(&self) -> bool {
        number_lt(Number::Finite(one_units() as int), self.sine_ratio@) || number_lt(
            self.draw@,
            self.reflectance@,
        )
    }

    /// The direction in which the ray leaves.
    pub open spec fn direction(&self) -> Vec3 {
        if self.reflects() {
            self.reflected
        } else {
            self.refracted
        }
    }
}

impl Lambertian {
    /// The direction a diffuse surface scatters into: the candidate, unless
    /// every component of it is zero up to the tolerance; then the normal.
    pub open spec fn direction(candidate: Vec3, normal: Vec3) -> Vec3 {
        if candidate.near_zero() {
            normal
        } else {
            candidate
        }
    }

    /// Scatters at `rec`. `candidate` is the normal plus a random unit
    /// vector. A diffuse surface never absorbs: the result is the albedo
    /// and the ray from the hit point along the candidate, or along the
    /// normal where the candidate is degenerate.
    pub fn scatter(&self, rec: &HitRecord, candidate: Vec3) -> (r: Option<(Vec3, Ray)>)
        ensures
            r == Some(
                (
                    self.albedo(),
                    (Ray { orig: rec.p(), dir: Self::direction(candidate, rec.normal()) }),
                ),
            ),
    {
        let mut scatter_direction = candidate;
        if scatter_direction.near_zero() {
            scatter_direction = rec.normal();
        }
        Some((self.albedo(), Ray::new(rec.p(), scatter_direction)))
    }
}

impl Metal {
    /// Scatters at `rec`. `direction` is the mirrored direction plus the
    /// fuzz times a random vector of the unit sphere, and `exit` its dot
    /// product with the normal. The ray is absorbed unless `exit` is
    /// positive; otherwise the result is the albedo and the ray from the
    /// hit point along `direction`.
    pub fn scatter(&self, rec: &HitRecord, direction: Vec3, exit: Scalar) -> (r: Option<
        (Vec3, Ray),
    >)
        ensures
            r == (if number_lt(Number::Finite(0), exit@) {
                Some((self.albedo(), (Ray { orig: rec.p(), dir: direction })))
            } else {
                None
            }),
            !exit.is_nan_spec() ==> (r is None <==> number_le(exit@, Number::Finite(0))),
    {
        if exit.gt(Scalar::zero()) {
            Some((self.albedo(), Ray::new(rec.p(), direction)))
        } else {
            None
        }
    }
}

impl Dielectric {
    /// The ratio of the refractive indices across the surface: the inverse
    /// of the index where the ray enters through the front face, the index
    /// where it leaves from inside.
    pub open spec fn refraction_ratio_spec(&self, front_face: bool, inverse: Scalar) -> Scalar {
        if front_face {
            inverse
        } else {
            self.ir()
        }
    }

    /// The ratio of the refractive indices across the surface. `inverse` is
    /// one divided by the index.
    #[verifier::when_used_as_spec(refraction_ratio_spec)]
    pub fn refraction_ratio(&self, front_face: bool, inverse: Scalar) -> (ratio: Scalar)
        ensures
            ratio == self.refraction_ratio_spec(front_face, inverse),
    {
        if front_face {
            inverse
        } else {
            self.ir
        }
    }

    /// Scatters at `rec`. A transparent surface never absorbs and lets all
    /// light through: the result is the colour of ones and the ray from the
    /// hit point, mirrored where `optics` says so and refracted otherwise.
    pub fn scatter(&self, rec: &HitRecord, optics: &Optics) -> (r: Option<(Vec3, Ray)>)
        ensures
            r == Some((Vec3::ones_spec(), (Ray { orig: rec.p(), dir: optics.direction() }))),
    {
        let cannot_refract = optics.sine_ratio.gt(Scalar::one());
        let direction = if cannot_refract || optics.reflectance.gt(optics.draw) {
            optics.reflected
        } else {
            optics.refracted
        };
        Some((Vec3::ones(), Ray::new(rec.p(), direction)))
    }

    /// A surface whose index of refraction is one has the refraction ratio
    /// one on either face.
    pub proof fn lemma_index_of_one(&self, front_face: bool, inverse: Scalar)
        requires
            self.ir()@ == Number::Finite(one_units() as int),
            inverse@ == Number::Finite(one_units() as int),
        ensures
            self.refraction_ratio(front_face, inverse)@ == Number::Finite(one_units() as int),
    {
    }

    /// A transparent surface refracts whenever refraction is possible and
    /// the reflectance does not exceed the draw; with a reflectance of zero,
    /// on every draw that is not negative.
    pub proof fn lemma_refracts(optics: Optics)
        requires
            !number_lt(Number::Finite(one_units() as int), optics.sine_ratio@),
            number_le(optics.reflectance@, optics.draw@) || (number_le(
                optics.reflectance@,
                Number::Finite(0),
            ) && number_le(Number::Finite(0), optics.draw@)),
        ensures
            !optics.reflects(),
            optics.direction() == optics.refracted,
    {
    }
}

} // verus!
