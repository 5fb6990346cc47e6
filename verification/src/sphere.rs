//! The sphere, and which root of its quadratic counts as the hit.

use vstd::prelude::*;
use crate::hittable::{sphere_hit, within, HitRecord, Hittable, Roots};
use crate::material::Material;
use crate::scalar::{number_lt, Number, Scalar};
use crate::vec3::Vec3;

verus! {

/// A sphere with its material.
#[derive(Clone, Copy, Debug)]
pub struct Sphere {
    pub center: Vec3,
    pub radius: Scalar,
    pub material: Material,
}

impl Sphere {
    /// The centre.
    pub open spec fn center_spec(&self) -> Vec3 {
        self.center
    }

    /// The radius.
    pub open spec fn radius_spec(&self) -> Scalar {
        self.radius
    }

    /// The material.
    pub open spec fn material_spec(&self) -> Material {
        self.material
    }

    /// A sphere is well formed when its radius is a positive number.
    pub open spec fn well_formed(&self) -> bool {
        number_lt(Number::Finite(0), self.radius()@)
    }

    /// The sphere with the given centre, radius and material.
    pub fn new(center: Vec3, radius: Scalar, material: Material) -> (s: Sphere)
        ensures
            s == (Sphere { center, radius, material }),
    {
        Sphere { center, radius, material }
    }

    /// The centre.
    #[verifier::when_used_as_spec(center_spec)]
    pub fn center(&self) -> (v: Vec3)
        ensures
            v == self.center(),
    {
        self.center
    }

    /// The radius.
    #[verifier::when_used_as_spec(radius_spec)]
    pub fn radius(&self) -> (v: Scalar)
        ensures
            v == self.radius(),
    {
        self.radius
    }

    /// The material.
    #[verifier::when_used_as_spec(material_spec)]
    pub fn material(&self) -> (m: Material)
        ensures
            m == self.material(),
    {
        self.material
    }

    /// Whether the radius is a positive number.
    pub fn is_well_formed(&self) -> (b: bool)
        ensures
            b == self.well_formed(),
    {
        self.radius.gt(Scalar::zero())
    }
}

impl Hittable for Sphere {
    type Probe = Roots;

    open spec fn fits(&self, probe: &Roots) -> bool {
        true
    }

    open spec fn hit_spec(&self, probe: &Roots, t_min: Scalar, t_max: Scalar) -> Option<
        HitRecord,
    > {
        sphere_hit(self.material(), *probe, t_min, t_max)
    }

    /// The hit of a ray on this sphere within `[t_min, t_max]`. `probe`
    /// holds what the quadratic of the ray and this sphere gave. There is
    /// no hit where the discriminant is negative or neither root lies in
    /// the interval; the smaller root is preferred to the larger.
    fn hit(&self, probe: &Roots, t_min: Scalar, t_max: Scalar) -> (r: Option<HitRecord>)
        ensures
            r matches Some(rec) ==> within(rec.t(), t_min, t_max),
    {
        if probe.discriminant.lt(Scalar::zero()) {
            return None;
        }
        // Find the nearest root that lies in the acceptable range.
        let mut crossing = probe.near;
        if crossing.t.lt(t_min) || t_max.lt(crossing.t) {
            crossing = probe.far;
            if crossing.t.lt(t_min) || t_max.lt(crossing.t) {
                return None;
            }
        }
        Some(HitRecord::at_crossing(&crossing, self.material))
    }
}

} // verus!
