//! Hit records and the scene: which of many surfaces a ray meets first.

use vstd::prelude::*;
use crate::material::Material;
use crate::scalar::{
    lemma_flip_sign_negates, number_eq, number_le, number_lt, number_neg, Number, Scalar,
};
use crate::sphere::Sphere;
use crate::vec3::Vec3;

verus! {

/// One point at which the line of a ray crosses a surface, as the
/// arithmetic of the intersection gives it.
#[derive(Clone, Copy, Debug)]
pub struct Crossing {
    /// The ray parameter of the crossing.
    pub t: Scalar,
    /// The point of the crossing.
    pub point: Vec3,
    /// The unit normal of the surface there, pointing away from it.
    pub outward_normal: Vec3,
    /// The dot product of the ray's direction with `outward_normal`.
    pub facing: Scalar,
}

/// What solving the quadratic of one ray and one sphere gives: its
/// discriminant and the crossings at its smaller and its larger root.
#[derive(Clone, Copy, Debug)]
pub struct Roots {
    pub discriminant: Scalar,
    pub near: Crossing,
    pub far: Crossing,
}

/// Whether `t` lies in `[t_min, t_max]` as the comparisons of binary32
/// numbers decide it: `t` is neither below `t_min` nor above `t_max`, which
/// a NaN never is.
pub open spec fn within(t: Scalar, t_min: Scalar, t_max: Scalar) -> bool {
    !number_lt(t@, t_min@) && !number_lt(t_max@, t@)
}

/// The crossing that counts as the hit: none where the discriminant is
/// negative; else the near one if its parameter lies in the interval; else
/// the far one if its parameter does; else none.
pub open spec fn accepted(roots: Roots, t_min: Scalar, t_max: Scalar) -> Option<Crossing> {
    if number_lt(roots.discriminant@, Number::Finite(0)) {
        None
    } else if within(roots.near.t, t_min, t_max) {
        Some(roots.near)
    } else if within(roots.far.t, t_min, t_max) {
        Some(roots.far)
    } else {
        None
    }
}

/// The record of a hit at `crossing` on a surface of material `material`,
/// its normal turned against the ray.
pub open spec fn record_of(crossing: Crossing, material: Material) -> HitRecord {
    HitRecord {
        p: crossing.point,
        normal: oriented(crossing.facing, crossing.outward_normal),
        material,
        t: crossing.t,
        front_face: number_lt(crossing.facing@, Number::Finite(0)),
    }
}

/// The hit on a sphere of material `material` within `[t_min, t_max]`,
/// given the roots of the ray's quadratic with it: the record of the
/// accepted crossing.
pub open spec fn sphere_hit(material: Material, roots: Roots, t_min: Scalar, t_max: Scalar)
    -> Option<HitRecord> {
    match accepted(roots, t_min, t_max) {
        Some(crossing) => Some(record_of(crossing, material)),
        None => None,
    }
}

/// A surface that a ray can be intersected with over an interval of its
/// parameter.
pub trait Hittable {
    /// What the arithmetic of intersecting one ray with the surface gives.
    type Probe;

    /// Whether `probe` has the shape this surface asks for.
    spec fn fits(&self, probe: &Self::Probe) -> bool;

    /// The hit within `[t_min, t_max]`, if there is one.
    spec fn hit_spec(&self, probe: &Self::Probe, t_min: Scalar, t_max: Scalar) -> Option<
        HitRecord,
    >;

    /// The hit within `[t_min, t_max]`, if there is one.
    fn hit(&self, probe: &Self::Probe, t_min: Scalar, t_max: Scalar) -> (r: Option<HitRecord>)
        requires
            self.fits(probe),
        ensures
            r == self.hit_spec(probe, t_min, t_max),
    ;
}

/// Where and how a ray met a surface.
#[derive(Clone, Copy, Debug)]
pub struct HitRecord {
    pub p: Vec3,
    pub normal: Vec3,
    pub material: Material,
    pub t: Scalar,
    pub front_face: bool,
}

impl HitRecord {
    /// The point of intersection.
    pub open spec fn p_spec(&self) -> Vec3 {
        self.p
    }

    /// The surface normal, turned against the incoming ray.
    pub open spec fn normal_spec(&self) -> Vec3 {
        self.normal
    }

    /// The material of the surface.
    pub open spec fn material_spec(&self) -> Material {
        self.material
    }

    /// The ray parameter of the intersection.
    pub open spec fn t_spec(&self) -> Scalar {
        self.t
    }

    /// Whether the ray struck the outward-facing side.
    pub open spec fn front_face_spec(&self) -> bool {
        self.front_face
    }

    /// A record with the given fields that is not yet oriented: its
    /// `front_face` is false until `set_face_normal` decides it.
    pub fn new(p: Vec3, normal: Vec3, t: Scalar, material: Material) -> (r: HitRecord)
        ensures
            r == (HitRecord { p, normal, material, t, front_face: false }),
    {
        HitRecord { p, normal, material, t, front_face: false }
    }

    /// The point of intersection.
    #[verifier::when_used_as_spec(p_spec)]
    pub fn p(&self) -> (v: Vec3)
        ensures
            v == self.p(),
    {
        self.p
    }

    /// The surface normal, turned against the incoming ray.
    #[verifier::when_used_as_spec(normal_spec)]
    pub fn normal(&self) -> (v: Vec3)
        ensures
            v == self.normal(),
    {
        self.normal
    }

    /// The material of the surface.
    #[verifier::when_used_as_spec(material_spec)]
    pub fn material(&self) -> (m: Material)
        ensures
            m == self.material(),
    {
        self.material
    }

    /// The ray parameter of the intersection.
    #[verifier::when_used_as_spec(t_spec)]
    pub fn t(&self) -> (v: Scalar)
        ensures
            v == self.t(),
    {
        self.t
    }

    /// Whether the ray struck the outward-facing side.
    #[verifier::when_used_as_spec(front_face_spec)]
    pub fn front_face(&self) -> (b: bool)
        ensures
            b == self.front_face(),
    {
        self.front_face
    }

    /// Orients the record. `facing` is the dot product of the ray's
    /// direction with `outward_normal`: where it is negative the ray came
    /// from outside and the normal is kept, otherwise (a NaN included) the
    /// ray came from inside and the normal is negated.
    pub fn set_face_normal(&mut self, facing: Scalar, outward_normal: &Vec3)
        ensures
            *final(self) == (HitRecord {
                front_face: number_lt(facing@, Number::Finite(0)),
                normal: oriented(facing, *outward_normal),
                ..*old(self)
            }),
    {
        self.front_face = facing.lt(Scalar::zero());
        self.normal = *outward_normal;
        if !self.front_face {
            self.normal = self.normal.neg();
        }
    }

    /// The record of a hit at `crossing` on a surface of material
    /// `material`: built unoriented, then oriented by the crossing's
    /// `facing`.
    pub fn at_crossing(crossing: &Crossing, material: Material) -> (r: HitRecord)
        ensures
            r == record_of(*crossing, material),
    {
        let mut rec = HitRecord::new(crossing.point, crossing.outward_normal, crossing.t, material);
        rec.set_face_normal(crossing.facing, &crossing.outward_normal);
        rec
    }
}

/// The outward normal turned against the incoming ray: kept where `facing`
/// is negative, negated otherwise.
pub open spec fn oriented(facing: Scalar, outward_normal: Vec3) -> Vec3 {
    if number_lt(facing@, Number::Finite(0)) {
        outward_normal
    } else {
        outward_normal.neg()
    }
}

/// The closest-hit scan from object `from` on. `closest` is the upper end
/// of the interval that is left and `best` the hit found so far: each
/// object is tried within `[t_min, closest]`, and a hit replaces `best` and
/// draws `closest` in to its parameter.
pub open spec fn scan(
    objects: Seq<Sphere>,
    roots: Seq<Roots>,
    t_min: Scalar,
    closest: Scalar,
    best: Option<HitRecord>,
    from: int,
) -> Option<HitRecord>
    decreases objects.len() - from,
{
    if from < 0 || from >= objects.len() {
        best
    } else {
        match sphere_hit(objects[from].material(), roots[from], t_min, closest) {
            Some(rec) => scan(objects, roots, t_min, rec.t(), Some(rec), from + 1),
            None => scan(objects, roots, t_min, closest, best, from + 1),
        }
    }
}

/// The scene: the surfaces a ray may meet, in the order they were added.
pub struct HittableList {
    objects: Vec<Sphere>,
}

impl View for HittableList {
    type V = Seq<Sphere>;

    closed spec fn view(&self) -> Seq<Sphere> {
        self.objects@
    }
}

impl HittableList {
    /// The empty scene.
    pub fn new() -> (list: HittableList)
        ensures
            list@ == Seq::<Sphere>::empty(),
    {
        HittableList { objects: Vec::new() }
    }

    /// Removes every surface.
    pub fn clear(&mut self)
        ensures
            final(self)@ == Seq::<Sphere>::empty(),
    {
        self.objects.clear();
    }

    /// Adds a surface behind those already there.
    pub fn add(&mut self, object: Sphere)
        ensures
            final(self)@ == old(self)@.push(object),
    {
        self.objects.push(object);
    }

    /// The number of surfaces.
    pub fn len(&self) -> (n: usize)
        ensures
            n == self@.len(),
    {
        self.objects.len()
    }

    /// The surface at `index`.
    pub fn get(&self, index: usize) -> (s: Sphere)
        requires
            index < self@.len(),
        ensures
            s == self@[index as int],
    {
        self.objects[index]
    }
}

impl Hittable for HittableList {
    type Probe = Vec<Roots>;

    /// One set of roots for each surface.
    open spec fn fits(&self, probe: &Vec<Roots>) -> bool {
        probe@.len() == self@.len()
    }

    open spec fn hit_spec(&self, probe: &Vec<Roots>, t_min: Scalar, t_max: Scalar) -> Option<
        HitRecord,
    > {
        scan(self@, probe@, t_min, t_max, None, 0)
    }

    /// The hit of a ray on the scene within `[t_min, t_max]`: every surface
    /// is tried in turn, each within what is left of the interval below the
    /// hits found before it, and the last hit found is returned. `probe`
    /// holds, for each surface in order, what the quadratic of the ray and
    /// that surface gave.
    fn hit(&self, probe: &Vec<Roots>, t_min: Scalar, t_max: Scalar) -> (r: Option<HitRecord>) {
        let mut closest_so_far = t_max;
        let mut rec: Option<HitRecord> = None;
        let mut i: usize = 0;
        while i < self.objects.len()
            invariant
                i <= self.objects.len(),
                probe@.len() == self.objects@.len(),
                scan(self.objects@, probe@, t_min, closest_so_far, rec, i as int) == scan(
                    self.objects@,
                    probe@,
                    t_min,
                    t_max,
                    None,
                    0,
                ),
            decreases self.objects.len() - i,
        {
            if let Some(temp_rec) = self.objects[i].hit(&probe[i], t_min, closest_so_far) {
                closest_so_far = temp_rec.t();
                rec = Some(temp_rec);
            }
            i += 1;
        }
        rec
    }
}

/// Where neither end of the interval nor `t` is a NaN, `t` lies within the
/// interval exactly when `t_min <= t <= t_max` as numbers.
pub proof fn lemma_within(t: Scalar, t_min: Scalar, t_max: Scalar)
    requires
        !t.is_nan_spec(),
        !t_min.is_nan_spec(),
        !t_max.is_nan_spec(),
    ensures
        within(t, t_min, t_max) <==> number_le(t_min@, t@) && number_le(t@, t_max@),
{
}

/// A ray that runs against the outward normal meets the front face, and
/// the normal recorded is the outward normal.
pub proof fn lemma_front_face(crossing: Crossing, material: Material)
    requires
        number_lt(crossing.facing@, Number::Finite(0)),
    ensures
        record_of(crossing, material).front_face(),
        record_of(crossing, material).normal() == crossing.outward_normal,
{
}

/// A ray that does not run against the outward normal, as every ray from
/// inside a sphere does, meets the back face, and the normal recorded
/// points inward: it is the outward normal negated, component by component.
pub proof fn lemma_back_face(crossing: Crossing, material: Material)
    requires
        !number_lt(crossing.facing@, Number::Finite(0)),
    ensures
        !record_of(crossing, material).front_face(),
        record_of(crossing, material).normal() == crossing.outward_normal.neg(),
        record_of(crossing, material).normal().x@ == number_neg(crossing.outward_normal.x@),
        record_of(crossing, material).normal().y@ == number_neg(crossing.outward_normal.y@),
        record_of(crossing, material).normal().z@ == number_neg(crossing.outward_normal.z@),
{
    lemma_flip_sign_negates(crossing.outward_normal.x);
    lemma_flip_sign_negates(crossing.outward_normal.y);
    lemma_flip_sign_negates(crossing.outward_normal.z);
}

/// A tangent ray has one root. Where the discriminant is zero and both
/// roots are the same number, the sphere is hit exactly when that number
/// lies within the interval, and then once, at the near crossing.
pub proof fn lemma_tangent_hit(material: Material, roots: Roots, t_min: Scalar, t_max: Scalar)
    requires
        number_eq(roots.discriminant@, Number::Finite(0)),
        roots.near.t@ == roots.far.t@,
    ensures
        sphere_hit(material, roots, t_min, t_max) == (if within(roots.near.t, t_min, t_max) {
            Some(record_of(roots.near, material))
        } else {
            None
        }),
{
}

} // verus!
