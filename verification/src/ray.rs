//! Rays: a half-line given by an origin and a direction.

use vstd::prelude::*;
use crate::vec3::Vec3;

verus! {

/// A ray. The direction need not have unit length.
#[derive(Clone, Copy, Debug)]
pub struct Ray {
    pub orig: Vec3,
    pub dir: Vec3,
}

impl Ray {
    /// The origin of the ray.
    pub open spec fn origin_spec(&self) -> Vec3 {
        self.orig
    }

    /// The direction of the ray.
    pub open spec fn direction_spec(&self) -> Vec3 {
        self.dir
    }

    /// The ray from `orig` along `dir`.
    pub fn new(orig: Vec3, dir: Vec3) -> (r: Ray)
        ensures
            r == (Ray { orig, dir }),
    {
        Ray { orig, dir }
    }

    /// The origin of the ray.
    #[verifier::when_used_as_spec(origin_spec)]
    pub fn origin(&self) -> (v: Vec3)
        ensures
            v == self.origin(),
    {
        self.orig
    }

    /// The direction of the ray.
    #[verifier::when_used_as_spec(direction_spec)]
    pub fn direction(&self) -> (v: Vec3)
        ensures
            v == self.direction(),
    {
        self.dir
    }
}

} // verus!
