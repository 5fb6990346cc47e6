//! The radiance estimator, one bounce at a time.
//!
//! The light a ray gathers is the product of the attenuations along its
//! path times the light at the path's end. Which way a path goes on, and
//! where it ends, is decided here; the products are binary32 arithmetic and
//! belong to the caller, who follows the path bounce by bounce.

use vstd::prelude::*;
use crate::ray::Ray;
use crate::scalar::{number_le, one_units, Number, Scalar};
use crate::vec3::Vec3;

verus! {

/// What became of a ray in the scene.
#[derive(Clone, Copy, Debug)]
pub enum Bounce {
    /// The ray met no surface.
    Escaped,
    /// The ray met a surface whose material absorbed it.
    Absorbed,
    /// The ray met a surface whose material scattered it.
    Scattered { attenuation: Vec3, scattered: Ray },
}

/// What a ray gathers.
#[derive(Clone, Copy, Debug)]
pub enum Radiance {
    /// No light.
    Black,
    /// The light of the background in the ray's direction.
    Background,
    /// `attenuation`, channel by channel, times what `scattered` gathers
    /// with `depth` bounces left.
    Attenuated { attenuation: Vec3, scattered: Ray, depth: i32 },
}

/// What the material's answer to a hit makes of a ray: no hit, the ray
/// escaped; a hit and no scattered ray, it was absorbed.
pub open spec fn bounce_of(hit: Option<Option<(Vec3, Ray)>>) -> Bounce {
    match hit {
        None => Bounce::Escaped,
        Some(None) => Bounce::Absorbed,
        Some(Some((attenuation, scattered))) => Bounce::Scattered { attenuation, scattered },
    }
}

/// What a ray gathers with `depth` bounces left, given what became of it:
/// nothing once the depth is used up, whatever became of it; else the
/// background if it escaped, nothing if it was absorbed, and the attenuated
/// light of the scattered ray, with one bounce fewer left, if it was
/// scattered.
pub open spec fn radiance(depth: i32, bounce: Bounce) -> Radiance {
    if depth <= 0 {
        Radiance::Black
    } else {
        match bounce {
            Bounce::Escaped => Radiance::Background,
            Bounce::Absorbed => Radiance::Black,
            Bounce::Scattered { attenuation, scattered } => Radiance::Attenuated {
                attenuation,
                scattered,
                depth: (depth - 1) as i32,
            },
        }
    }
}

/// Whether a ray with `depth` bounces left gathers nothing whatever it
/// meets, so that the scene need not be asked.
pub open spec fn exhausted_spec(depth: i32) -> bool {
    depth <= 0
}

/// Whether a ray with `depth` bounces left gathers nothing whatever it
/// meets.
#[verifier::when_used_as_spec(exhausted_spec)]
pub fn exhausted(depth: i32) -> (b: bool)
    ensures
        b == (depth <= 0),
        b ==> forall|bounce: Bounce| radiance(depth, bounce) == Radiance::Black,
{
    depth <= 0
}

/// What became of a ray, from the scene's and the material's answers.
pub fn bounce(hit: Option<Option<(Vec3, Ray)>>) -> (b: Bounce)
    ensures
        b == bounce_of(hit),
{
    match hit {
        None => Bounce::Escaped,
        Some(None) => Bounce::Absorbed,
        Some(Some((attenuation, scattered))) => Bounce::Scattered { attenuation, scattered },
    }
}

/// What a ray gathers with `depth` bounces left, given what became of it.
pub fn ray_color(depth: i32, bounce: &Bounce) -> (r: Radiance)
    ensures
        r == radiance(depth, *bounce),
        depth > 0 && *bounce == Bounce::Escaped ==> r == Radiance::Background,
{
    // No more light is gathered once the bounce limit is reached.
    if depth <= 0 {
        return Radiance::Black;
    }
    match bounce {
        Bounce::Escaped => Radiance::Background,
        Bounce::Absorbed => Radiance::Black,
        Bounce::Scattered { attenuation, scattered } => Radiance::Attenuated {
            attenuation: *attenuation,
            scattered: *scattered,
            depth: depth - 1,
        },
    }
}

/// Where a path ends: `path` tells what becomes of the ray at each bounce,
/// and the estimator is followed from bounce `at` with `depth` bounces left
/// until it gathers black or background. The result is the bounce at which
/// that happens and which of the two it is.
pub open spec fn path_end(path: spec_fn(nat) -> Bounce, depth: i32, at: nat) -> (nat, Radiance)
    decreases depth,
{
    match radiance(depth, path(at)) {
        Radiance::Attenuated { attenuation, scattered, depth: left } => {
            if 0 <= left < depth {
                path_end(path, left, at + 1)
            } else {
                (at, Radiance::Black)
            }
        },
        end => (at, end),
    }
}

/// The depth bounds the path: whatever the scene does, a path followed with
/// `depth` bounces left ends in black or background after no more than
/// `depth` scatterings. A path whose first ray escapes ends at once in the
/// background, if any depth is left.
pub proof fn lemma_depth_bounds_path(path: spec_fn(nat) -> Bounce, depth: i32, at: nat)
    ensures
        path_end(path, depth, at).1 == Radiance::Black || path_end(path, depth, at).1
            == Radiance::Background,
        at <= path_end(path, depth, at).0,
        path_end(path, depth, at).0 - at <= (if depth > 0 {
            depth as int
        } else {
            0
        }),
        depth > 0 && path(at) == Bounce::Escaped ==> path_end(path, depth, at) == (
            at,
            Radiance::Background,
        ),
        depth <= 0 ==> path_end(path, depth, at) == (at, Radiance::Black),
    decreases depth,
{
    match radiance(depth, path(at)) {
        Radiance::Attenuated { attenuation, scattered, depth: left } => {
            lemma_depth_bounds_path(path, left, at + 1);
        },
        _ => {},
    }
}

/// A ray that misses every surface gathers the background, whatever depth
/// is left, so long as some is.
pub proof fn lemma_miss_gathers_background(depth: i32)
    requires
        depth > 0,
    ensures
        radiance(depth, bounce_of(None)) == Radiance::Background,
{
}

/// Whether a random point of the cube `[-1, 1)^3` is kept as a point of the
/// unit sphere. `length_squared` is the dot product of the point with
/// itself; the point is rejected where that is one or more.
pub fn in_unit_sphere(length_squared: Scalar) -> (b: bool)
    ensures
        b == !number_le(Number::Finite(one_units() as int), length_squared@),
{
    !length_squared.ge(Scalar::one())
}

} // verus!
