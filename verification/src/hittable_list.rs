//! The scene: an insertion-ordered collection of spheres, traversed
//! linearly for the nearest hit.
//!
//! Traversal keeps a shrinking upper bound: each object is queried over the
//! open range from the query's lower bound to the closest hit distance found
//! so far, so a farther hit is rejected by construction.  The fold
//! `list_hit_model` states that behaviour exactly, and the traversal lemma
//! below shows the order of insertion cannot change the reported distance.

use vstd::prelude::*;
use crate::fixed::Fixed;
use crate::hittable::{HitModel, HitRecord, Hittable};
use crate::material::Material;
use crate::ray::{Ray, RayModel};
use crate::sphere::Sphere;
use crate::utils::{Span, SPAN_LIMIT};

verus! {

/// The nearest hit among `objs` over the open range `(lo, hi)`, folded in
/// insertion order with a shrinking upper bound.
pub open spec fn list_hit_model(objs: Seq<Sphere>, ray: RayModel, lo: int, hi: int) -> Option<
    HitModel,
>
    decreases objs.len(),
{
    if objs.len() == 0 {
        None
    } else {
        let prefix = list_hit_model(objs.drop_last(), ray, lo, hi);
        let bound = match prefix {
            Some(m) => m.t,
            None => hi,
        };
        match objs.last().hit_model_spec(ray, lo, bound) {
            Some(m) => Some(m),
            None => prefix,
        }
    }
}

/// Every sphere of the sequence is well-formed.
pub open spec fn objects_wf(objs: Seq<Sphere>) -> bool {
    forall|i: int| 0 <= i < objs.len() ==> (#[trigger] objs[i]).sphere_wf()
}

/// A hit the traversal reports lies strictly inside the queried range, its
/// point and oriented normal lie within the world and normal limits, and it
/// carries the material of one of the scene's well-formed spheres.
pub proof fn lemma_list_hit_in_range(objs: Seq<Sphere>, ray: RayModel, lo: int, hi: int)
    requires
        objects_wf(objs),
    ensures
        list_hit_model(objs, ray, lo, hi) matches Some(m) ==> {
            &&& lo < m.t < hi
            &&& crate::vec3::v3_in(m.p, crate::utils::WORLD_LIMIT as int)
            &&& crate::vec3::v3_in(m.normal, crate::utils::NORMAL_LIMIT as int)
            &&& m.mat.wf()
        },
    decreases objs.len(),
{
    if objs.len() > 0 {
        let prefix = objs.drop_last();
        assert(objects_wf(prefix)) by {
            assert(forall|i: int|
                0 <= i < prefix.len() ==> (#[trigger] prefix[i]) == objs[i]);
        }
        lemma_list_hit_in_range(prefix, ray, lo, hi);
        let bound = match list_hit_model(prefix, ray, lo, hi) {
            Some(m) => m.t,
            None => hi,
        };
        assert(objs.last() == objs[objs.len() - 1]);
        assert(objs.last().sphere_wf());
        crate::sphere::lemma_sphere_hit_in_range(objs.last(), ray, lo, bound);
    }
}

/// Traversal of a two-sphere scene reports the nearer of the two hits, and
/// swapping the insertion order never changes the reported distance.  The
/// full record is also unchanged by the swap except when both spheres hit
/// at exactly the same distance, where the one inserted first wins.
pub proof fn lemma_traversal_order_pair(s1: Sphere, s2: Sphere, ray: RayModel, lo: int, hi: int)
    ensures
        ({
            let a = list_hit_model(seq![s1, s2], ray, lo, hi);
            let b = list_hit_model(seq![s2, s1], ray, lo, hi);
            let m1 = s1.hit_model_spec(ray, lo, hi);
            let m2 = s2.hit_model_spec(ray, lo, hi);
            &&& (a is Some <==> (m1 is Some || m2 is Some))
            &&& (a is Some <==> b is Some)
            &&& (a matches Some(am) ==> b matches Some(bm) && am.t == bm.t)
            &&& (!(m1 matches Some(x) && m2 matches Some(y) && x.t == y.t) ==> a == b)
        }),
{
    reveal_with_fuel(list_hit_model, 4);
    let p12 = seq![s1, s2];
    let p21 = seq![s2, s1];
    assert(p12.drop_last() =~= seq![s1]);
    assert(p21.drop_last() =~= seq![s2]);
    assert(seq![s1].drop_last() =~= Seq::<Sphere>::empty());
    assert(seq![s2].drop_last() =~= Seq::<Sphere>::empty());
    assert(seq![s1].last() == s1);
    assert(seq![s2].last() == s2);
    assert(p12.last() == s2);
    assert(p21.last() == s1);
    let m1 = s1.hit_model_spec(ray, lo, hi);
    let m2 = s2.hit_model_spec(ray, lo, hi);
    crate::sphere::lemma_sphere_hit_in_range(s1, ray, lo, hi);
    crate::sphere::lemma_sphere_hit_in_range(s2, ray, lo, hi);
    // Relate each sphere's full hit to its distance.
    crate::sphere::lemma_sphere_hit_narrow(s1, ray, lo, hi, hi);
    crate::sphere::lemma_sphere_hit_narrow(s2, ray, lo, hi, hi);
    match m1 {
        Some(x1) => {
            crate::sphere::lemma_sphere_hit_narrow(s2, ray, lo, hi, x1.t);
        },
        None => {
            match s1.hit_t_spec(ray, lo, hi) {
                Some(t1) => {
                    crate::sphere::lemma_sphere_hit_narrow(s2, ray, lo, hi, hi);
                },
                None => {},
            }
        },
    }
    match m2 {
        Some(x2) => {
            crate::sphere::lemma_sphere_hit_narrow(s1, ray, lo, hi, x2.t);
        },
        None => {},
    }
}

/// An insertion-ordered scene of spheres.
pub struct HittableList {
    pub objects: Vec<Sphere>,
}

impl HittableList {
    /// An empty scene.
    pub fn new() -> (r: HittableList)
        ensures
            r.objects@ =~= Seq::<Sphere>::empty(),
    {
        HittableList { objects: Vec::new() }
    }

    /// Appends an object to the scene.
    pub fn add(&mut self, object: Sphere)
        requires
            object.sphere_wf(),
        ensures
            final(self).objects@ == old(self).objects@.push(object),
    {
        self.objects.push(object);
    }

    /// Removes every object.
    pub fn clear(&mut self)
        ensures
            final(self).objects@ =~= Seq::<Sphere>::empty(),
    {
        self.objects.clear();
    }
}

impl Hittable for HittableList {
    open spec fn wf(&self) -> bool {
        objects_wf(self.objects@)
    }

    open spec fn hit_model(&self, ray: RayModel, t0: int, t1: int) -> Option<HitModel> {
        list_hit_model(self.objects@, ray, t0, t1)
    }

    fn hits<'a>(&'a self, ray: &Ray, ray_t: Span) -> (r: Option<HitRecord<'a>>) {
        let ghost lo = ray_t.min.raw as int;
        let ghost hi = ray_t.max.raw as int;
        let mut closest_so_far: Fixed = ray_t.max;
        let mut temp_hit_record: Option<HitRecord<'a>> = None;
        let n = self.objects.len();
        let mut i: usize = 0;
        while i < n
            invariant
                0 <= i <= n,
                n == self.objects.len(),
                objects_wf(self.objects@),
                crate::vec3::v3_in(ray@.direction, crate::utils::DIR_LIMIT as int),
                crate::vec3::v3_in(ray@.origin, crate::utils::WORLD_LIMIT as int),
                -SPAN_LIMIT <= ray@.time <= SPAN_LIMIT,
                -SPAN_LIMIT <= ray_t.min.raw <= SPAN_LIMIT,
                -SPAN_LIMIT <= ray_t.max.raw <= SPAN_LIMIT,
                lo == ray_t.min.raw as int,
                hi == ray_t.max.raw as int,
                -SPAN_LIMIT <= closest_so_far.raw <= SPAN_LIMIT,
                match temp_hit_record {
                    Some(rec) => {
                        &&& list_hit_model(self.objects@.take(i as int), ray@, lo, hi) == Some(
                            rec@,
                        )
                        &&& closest_so_far.raw == rec@.t
                    },
                    None => {
                        &&& list_hit_model(self.objects@.take(i as int), ray@, lo, hi) is None
                        &&& closest_so_far == ray_t.max
                    },
                },
            decreases n - i,
        {
            let object = &self.objects[i];
            let sub = Span::new(ray_t.min, closest_so_far);
            let attempt = object.hits(ray, sub);
            proof {
                assert(self.objects@.take(i + 1).drop_last() =~= self.objects@.take(i as int));
                assert(self.objects@.take(i + 1).last() == self.objects@[i as int]);
                if attempt is Some {
                    crate::sphere::lemma_sphere_hit_in_range(
                        self.objects@[i as int],
                        ray@,
                        lo,
                        closest_so_far.raw as int,
                    );
                }
            }
            match attempt {
                Some(hit_record) => {
                    closest_so_far = hit_record.t;
                    temp_hit_record = Some(hit_record);
                },
                None => {},
            }
            i = i + 1;
        }
        proof {
            assert(self.objects@.take(n as int) =~= self.objects@);
        }
        temp_hit_record
    }
}

} // verus!
