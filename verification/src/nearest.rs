//! Laws of the scene: the scan over its surfaces finds the nearest hit, and
//! the order of the surfaces does not matter to it.

use vstd::prelude::*;
use crate::hittable::{
    record_of, scan, sphere_hit, within, HitRecord, Hittable, HittableList, Roots,
};
use crate::material::Material;
use crate::scalar::{number_eq, number_le, number_lt, Number, Scalar};
use crate::sphere::Sphere;

verus! {

/// Roots that the law of the nearest hit can speak of: where the
/// discriminant is not negative, neither root is a NaN.
pub open spec fn solvable(roots: Roots) -> bool {
    number_lt(roots.discriminant@, Number::Finite(0)) || (!roots.near.t.is_nan_spec()
        && !roots.far.t.is_nan_spec())
}

/// Roots in their order: where the discriminant is not negative, neither
/// root is a NaN and the near one is not above the far one.
pub open spec fn sorted(roots: Roots) -> bool {
    number_lt(roots.discriminant@, Number::Finite(0)) || number_le(roots.near.t@, roots.far.t@)
}

/// The hit on surface `j` of the scene, taken alone, within
/// `[t_min, t_max]`.
pub open spec fn alone(
    objects: Seq<Sphere>,
    roots: Seq<Roots>,
    j: int,
    t_min: Scalar,
    t_max: Scalar,
) -> Option<HitRecord> {
    sphere_hit(objects[j].material(), roots[j], t_min, t_max)
}

/// Whether no surface of the scene, taken alone, is hit.
pub open spec fn all_miss(objects: Seq<Sphere>, roots: Seq<Roots>, t_min: Scalar, t_max: Scalar)
    -> bool {
    forall|j: int|
        0 <= j < objects.len() ==> #[trigger] alone(objects, roots, j, t_min, t_max) is None
}

/// Whether `t` is no farther than the hit on any of the first `upto`
/// surfaces of the scene, taken alone.
pub open spec fn no_farther(
    t: Scalar,
    objects: Seq<Sphere>,
    roots: Seq<Roots>,
    upto: int,
    t_min: Scalar,
    t_max: Scalar,
) -> bool {
    forall|j: int|
        0 <= j < upto ==> (#[trigger] alone(objects, roots, j, t_min, t_max) matches Some(rj)
            ==> number_le(t@, rj.t()@))
}

/// Whether `rec` records one of the two crossings of surface `i`, with that
/// surface's material, and the discriminant there is not negative.
pub open spec fn records(rec: HitRecord, objects: Seq<Sphere>, roots: Seq<Roots>, i: int) -> bool {
    &&& 0 <= i < objects.len()
    &&& !number_lt(roots[i].discriminant@, Number::Finite(0))
    &&& (rec == record_of(roots[i].near, objects[i].material()) || rec == record_of(
        roots[i].far,
        objects[i].material(),
    ))
}

/// Whether `rec` records a crossing of some surface of the scene.
pub open spec fn stems_from(rec: HitRecord, objects: Seq<Sphere>, roots: Seq<Roots>) -> bool {
    exists|i: int| #[trigger] records(rec, objects, roots, i)
}

/// Whether a surface of material `material` whose quadratic gave `roots`
/// is surface `j` of the scene.
pub open spec fn is_surface(
    material: Material,
    roots: Roots,
    objects: Seq<Sphere>,
    probe: Seq<Roots>,
    j: int,
) -> bool {
    0 <= j < objects.len() && j < probe.len() && objects[j].material() == material && probe[j]
        == roots
}

/// Whether a surface of material `material` whose quadratic gave `roots`
/// is among the surfaces of the scene.
pub open spec fn occurs(material: Material, roots: Roots, objects: Seq<Sphere>, probe: Seq<Roots>)
    -> bool {
    exists|j: int| #[trigger] is_surface(material, roots, objects, probe, j)
}

/// Whether every surface of the first scene is among those of the second.
pub open spec fn contained(
    objects: Seq<Sphere>,
    probe: Seq<Roots>,
    others: Seq<Sphere>,
    other_probe: Seq<Roots>,
) -> bool {
    forall|i: int|
        0 <= i < objects.len() ==> occurs(
            objects[i].material(),
            #[trigger] probe[i],
            others,
            other_probe,
        )
}

/// What the scan keeps true between two surfaces.
spec fn scan_state(
    objects: Seq<Sphere>,
    roots: Seq<Roots>,
    t_min: Scalar,
    t_max: Scalar,
    closest: Scalar,
    best: Option<HitRecord>,
    from: int,
) -> bool {
    &&& 0 <= from <= objects.len()
    &&& !closest.is_nan_spec()
    &&& number_le(closest@, t_max@)
    &&& no_farther(closest, objects, roots, from, t_min, t_max)
    &&& match best {
        None => closest == t_max && forall|j: int|
            0 <= j < from ==> #[trigger] alone(objects, roots, j, t_min, t_max) is None,
        Some(b) => b.t() == closest && within(b.t(), t_min, t_max) && stems_from(
            b,
            objects,
            roots,
        ),
    }
}

/// The scan, started in a state it keeps, ends with the nearest hit.
proof fn lemma_scan(
    objects: Seq<Sphere>,
    roots: Seq<Roots>,
    t_min: Scalar,
    t_max: Scalar,
    closest: Scalar,
    best: Option<HitRecord>,
    from: int,
)
    requires
        roots.len() == objects.len(),
        !t_min.is_nan_spec(),
        !t_max.is_nan_spec(),
        forall|i: int| 0 <= i < roots.len() ==> solvable(#[trigger] roots[i]),
        scan_state(objects, roots, t_min, t_max, closest, best, from),
    ensures
        match scan(objects, roots, t_min, closest, best, from) {
            None => all_miss(objects, roots, t_min, t_max),
            Some(rec) => within(rec.t(), t_min, t_max) && stems_from(rec, objects, roots)
                && no_farther(rec.t(), objects, roots, objects.len() as int, t_min, t_max),
        },
    decreases objects.len() - from,
{
    if from < objects.len() {
        assert(solvable(roots[from]));
        let here = alone(objects, roots, from, t_min, closest);
        let wide = alone(objects, roots, from, t_min, t_max);
        match here {
            Some(rec) => {
                assert(records(rec, objects, roots, from));
                assert forall|j: int| 0 <= j < from + 1 implies (#[trigger] alone(
                    objects,
                    roots,
                    j,
                    t_min,
                    t_max,
                ) matches Some(rj) ==> number_le(rec.t()@, rj.t()@)) by {
                    if j < from {
                        assert(alone(objects, roots, j, t_min, t_max) matches Some(rj)
                            ==> number_le(closest@, rj.t()@));
                    }
                }
                lemma_scan(objects, roots, t_min, t_max, rec.t(), Some(rec), from + 1);
            },
            None => {
                assert(wide matches Some(rj) ==> best is Some && number_le(closest@, rj.t()@));
                lemma_scan(objects, roots, t_min, t_max, closest, best, from + 1);
            },
        }
    }
}

/// A hit that is no farther than the hit on any surface alone is as far as
/// the hit on the surface whose crossing it records.
proof fn lemma_as_far_as_its_surface(
    rec: HitRecord,
    objects: Seq<Sphere>,
    roots: Seq<Roots>,
    i: int,
    t_min: Scalar,
    t_max: Scalar,
)
    requires
        roots.len() == objects.len(),
        records(rec, objects, roots, i),
        sorted(roots[i]),
        within(rec.t(), t_min, t_max),
        no_farther(rec.t(), objects, roots, objects.len() as int, t_min, t_max),
    ensures
        alone(objects, roots, i, t_min, t_max) matches Some(ri) && number_eq(ri.t()@, rec.t()@),
{
    assert(alone(objects, roots, i, t_min, t_max) matches Some(ri) ==> number_le(
        rec.t()@,
        ri.t()@,
    ));
}

/// A hit on one scene is matched in every scene that holds the surfaces
/// of the first: its own hit is no farther.
proof fn lemma_matched(
    objects: Seq<Sphere>,
    probe: Seq<Roots>,
    others: Seq<Sphere>,
    other_probe: Seq<Roots>,
    t_min: Scalar,
    t_max: Scalar,
)
    requires
        probe.len() == objects.len(),
        other_probe.len() == others.len(),
        !t_min.is_nan_spec(),
        !t_max.is_nan_spec(),
        forall|i: int| 0 <= i < probe.len() ==> sorted(#[trigger] probe[i]),
        forall|i: int| 0 <= i < other_probe.len() ==> sorted(#[trigger] other_probe[i]),
        contained(objects, probe, others, other_probe),
    ensures
        scan(objects, probe, t_min, t_max, None, 0) matches Some(a) ==> scan(
            others,
            other_probe,
            t_min,
            t_max,
            None,
            0,
        ) matches Some(b) && number_le(b.t()@, a.t()@),
{
    assert forall|i: int| 0 <= i < probe.len() implies solvable(#[trigger] probe[i]) by {
        assert(sorted(probe[i]));
    }
    assert forall|i: int| 0 <= i < other_probe.len() implies solvable(
        #[trigger] other_probe[i],
    ) by {
        assert(sorted(other_probe[i]));
    }
    lemma_scan(objects, probe, t_min, t_max, t_max, None, 0);
    lemma_scan(others, other_probe, t_min, t_max, t_max, None, 0);
    if let Some(a) = scan(objects, probe, t_min, t_max, None, 0) {
        let i = choose|i: int| #[trigger] records(a, objects, probe, i);
        assert(sorted(probe[i]));
        lemma_as_far_as_its_surface(a, objects, probe, i, t_min, t_max);
        assert(occurs(objects[i].material(), probe[i], others, other_probe));
        let k = choose|k: int|
            #[trigger] is_surface(objects[i].material(), probe[i], others, other_probe, k);
        assert(alone(others, other_probe, k, t_min, t_max) == alone(
            objects,
            probe,
            i,
            t_min,
            t_max,
        ));
    }
}

impl HittableList {
    /// The scan finds the nearest hit. Where neither end of the interval is
    /// a NaN and no root that counts is one: there is no hit exactly when no
    /// surface alone is hit within the interval; and a hit lies in the
    /// interval, records a crossing of a surface of the scene, and is no
    /// farther than the hit on any surface taken alone.
    pub proof fn lemma_hit_is_nearest(&self, probe: &Vec<Roots>, t_min: Scalar, t_max: Scalar)
        requires
            self.fits(probe),
            !t_min.is_nan_spec(),
            !t_max.is_nan_spec(),
            forall|i: int| 0 <= i < probe@.len() ==> solvable(#[trigger] probe@[i]),
        ensures
            self.hit_spec(probe, t_min, t_max) is None <==> all_miss(self@, probe@, t_min, t_max),
            self.hit_spec(probe, t_min, t_max) matches Some(rec) ==> {
                &&& within(rec.t(), t_min, t_max)
                &&& stems_from(rec, self@, probe@)
                &&& no_farther(rec.t(), self@, probe@, self@.len() as int, t_min, t_max)
            },
    {
        lemma_scan(self@, probe@, t_min, t_max, t_max, None, 0);
        if let Some(rec) = self.hit_spec(probe, t_min, t_max) {
            let i = choose|i: int| #[trigger] records(rec, self@, probe@, i);
            assert(alone(self@, probe@, i, t_min, t_max) is Some);
        }
    }

    /// The order of the surfaces does not matter to how far the hit is.
    /// Two scenes that hold the same surfaces, in whatever order and however
    /// often, are hit by a ray at the same distance or not at all, where
    /// neither end of the interval is a NaN and the roots are in order.
    pub proof fn lemma_order_is_irrelevant(
        &self,
        probe: &Vec<Roots>,
        other: &HittableList,
        other_probe: &Vec<Roots>,
        t_min: Scalar,
        t_max: Scalar,
    )
        requires
            self.fits(probe),
            other.fits(other_probe),
            !t_min.is_nan_spec(),
            !t_max.is_nan_spec(),
            forall|i: int| 0 <= i < probe@.len() ==> sorted(#[trigger] probe@[i]),
            forall|i: int| 0 <= i < other_probe@.len() ==> sorted(#[trigger] other_probe@[i]),
            contained(self@, probe@, other@, other_probe@),
            contained(other@, other_probe@, self@, probe@),
        ensures
            self.hit_spec(probe, t_min, t_max) is None <==> other.hit_spec(
                other_probe,
                t_min,
                t_max,
            ) is None,
            self.hit_spec(probe, t_min, t_max) matches Some(a) ==> other.hit_spec(
                other_probe,
                t_min,
                t_max,
            ) matches Some(b) && number_eq(a.t()@, b.t()@),
    {
        lemma_matched(self@, probe@, other@, other_probe@, t_min, t_max);
        lemma_matched(other@, other_probe@, self@, probe@, t_min, t_max);
    }
}

} // verus!
