use vstd::prelude::*;

use crate::interval::{Roots, first_root, first_root_spec, in_window, lemma_narrow_window};

verus! {

/// The hit that a scan over the candidates finds when each one is tested
/// against a window whose upper end shrinks to the closest hit so far.
pub open spec fn nearest_spec(c: Seq<Option<Roots>>, t_min: i64, t_max: i64) -> Option<(usize, i64)>
    decreases c.len(),
{
    if c.len() == 0 {
        None
    } else {
        let prev = nearest_spec(c.drop_last(), t_min, t_max);
        let bound = match prev {
            Some((_, t)) => t,
            None => t_max,
        };
        match first_root_spec(c.last(), t_min, bound) {
            Some(t) => Some(((c.len() - 1) as usize, t)),
            None => prev,
        }
    }
}

/// `r` is the smallest of the hits that each candidate reports on its own for
/// the whole window, the first such candidate where several tie, or `None` when
/// none of them is hit.
pub open spec fn is_nearest(c: Seq<Option<Roots>>, t_min: i64, t_max: i64, r: Option<(usize, i64)>) -> bool {
    match r {
        None => forall|j: int| 0 <= j < c.len() ==> (#[trigger] first_root_spec(c[j], t_min, t_max)) is None,
        Some((i, t)) => {
            &&& i < c.len()
            &&& first_root_spec(c[i as int], t_min, t_max) == Some(t)
            &&& forall|j: int|
                0 <= j < c.len() ==> match #[trigger] first_root_spec(c[j], t_min, t_max) {
                    Some(u) => t <= u && (j < i ==> t < u),
                    None => true,
                }
        },
    }
}

pub open spec fn all_wf(c: Seq<Option<Roots>>) -> bool {
    forall|j: int| 0 <= j < c.len() ==> (#[trigger] c[j] matches Some(r) ==> r.wf())
}

/// The scan with a shrinking window finds the same hit as testing every
/// candidate on its own against the whole window and keeping the smallest.
pub proof fn lemma_nearest_is_minimum(c: Seq<Option<Roots>>, t_min: i64, t_max: i64)
    requires
        all_wf(c),
        c.len() <= usize::MAX,
    ensures
        is_nearest(c, t_min, t_max, nearest_spec(c, t_min, t_max)),
    decreases c.len(),
{
    if c.len() > 0 {
        let p = c.drop_last();
        assert(all_wf(p)) by {
            assert forall|j: int| 0 <= j < p.len() implies (#[trigger] p[j] matches Some(r) ==> r.wf()) by {
                assert(p[j] == c[j]);
            }
        }
        lemma_nearest_is_minimum(p, t_min, t_max);
        let prev = nearest_spec(p, t_min, t_max);
        let bound = match prev {
            Some((_, t)) => t,
            None => t_max,
        };
        let n = c.len() - 1;
        assert(c.last() == c[n]);
        assert(c[n] matches Some(r) ==> r.wf());
        if let Some((i, t)) = prev {
            assert(in_window(t, t_min, t_max));
        }
        lemma_narrow_window(c.last(), t_min, t_max, bound);
        assert forall|j: int| 0 <= j < n implies c[j] == p[j] by {}
        let r = nearest_spec(c, t_min, t_max);
        match r {
            None => {
                assert forall|j: int| 0 <= j < c.len() implies (#[trigger] first_root_spec(c[j], t_min, t_max)) is None by {
                    if j < n {
                        assert(first_root_spec(p[j], t_min, t_max) is None);
                    } else {
                        if let Some(u) = first_root_spec(c[j], t_min, t_max) {
                            assert(in_window(u, t_min, t_max));
                        }
                    }
                }
            },
            Some((i, t)) => {
                if first_root_spec(c.last(), t_min, bound) is Some {
                    assert(i == n);
                } else {
                    assert(r == prev);
                    assert(c[i as int] == p[i as int]);
                }
                assert(first_root_spec(c[i as int], t_min, t_max) == Some(t));
                assert forall|j: int| 0 <= j < c.len() implies match #[trigger] first_root_spec(c[j], t_min, t_max) {
                    Some(u) => t <= u && (j < i ==> t < u),
                    None => true,
                } by {
                    if j < n {
                        assert(first_root_spec(p[j], t_min, t_max) == first_root_spec(c[j], t_min, t_max));
                    }
                }
            },
        }
    }
}

/// The objects of a scene, each with a handle into a registry of materials that
/// several objects may share. Objects and materials are what the caller makes
/// them (a sphere's geometry, a material's parameters).
pub struct HittableList<S, M> {
    objects: Vec<S>,
    handles: Vec<usize>,
    materials: Vec<M>,
}

impl<S, M> HittableList<S, M> {
    pub closed spec fn objects(&self) -> Seq<S> {
        self.objects@
    }

    pub closed spec fn handles(&self) -> Seq<usize> {
        self.handles@
    }

    pub closed spec fn materials(&self) -> Seq<M> {
        self.materials@
    }

    /// Every object has a handle, and every handle names a registered material.
    pub open spec fn wf(&self) -> bool {
        &&& self.handles().len() == self.objects().len()
        &&& forall|i: int| 0 <= i < self.handles().len() ==> #[trigger] self.handles()[i] < self.materials().len()
    }

    pub fn new() -> (r: Self)
        ensures
            r.wf(),
            r.objects() == Seq::<S>::empty(),
            r.handles() == Seq::<usize>::empty(),
            r.materials() == Seq::<M>::empty(),
    {
        HittableList { objects: Vec::new(), handles: Vec::new(), materials: Vec::new() }
    }

    /// Registers a material and returns its handle.
    pub fn add_material(&mut self, material: M) -> (h: usize)
        requires
            old(self).wf(),
        ensures
            final(self).wf(),
            h == old(self).materials().len(),
            final(self).materials() == old(self).materials().push(material),
            final(self).objects() == old(self).objects(),
            final(self).handles() == old(self).handles(),
    {
        let h = self.materials.len();
        self.materials.push(material);
        proof {
            assert forall|i: int| 0 <= i < self.handles().len() implies #[trigger] self.handles()[i] < self.materials().len() by {
                assert(old(self).handles()[i] < old(self).materials().len());
            }
        }
        h
    }

    /// Adds an object that uses the registered material `material`.
    pub fn add(&mut self, object: S, material: usize)
        requires
            old(self).wf(),
            material < old(self).materials().len(),
        ensures
            final(self).wf(),
            final(self).objects() == old(self).objects().push(object),
            final(self).handles() == old(self).handles().push(material),
            final(self).materials() == old(self).materials(),
    {
        self.objects.push(object);
        self.handles.push(material);
        proof {
            assert forall|i: int| 0 <= i < self.handles().len() implies #[trigger] self.handles()[i] < self.materials().len() by {
                if i < old(self).handles().len() {
                    assert(self.handles()[i] == old(self).handles()[i]);
                }
            }
        }
    }

    /// Removes every object; the registered materials stay.
    pub fn clear(&mut self)
        requires
            old(self).wf(),
        ensures
            final(self).wf(),
            final(self).objects() == Seq::<S>::empty(),
            final(self).handles() == Seq::<usize>::empty(),
            final(self).materials() == old(self).materials(),
    {
        self.objects.clear();
        self.handles.clear();
    }

    pub fn len(&self) -> (n: usize)
        ensures
            n == self.objects().len(),
    {
        self.objects.len()
    }

    pub fn object(&self, i: usize) -> (o: &S)
        requires
            i < self.objects().len(),
        ensures
            *o == self.objects()[i as int],
    {
        &self.objects[i]
    }

    /// The material of object `i`.
    pub fn material_of(&self, i: usize) -> (m: &M)
        requires
            self.wf(),
            i < self.objects().len(),
        ensures
            *m == self.materials()[self.handles()[i as int] as int],
    {
        let h = self.handles[i];
        &self.materials[h]
    }

    /// The closest hit of a ray among the objects, given for each object the
    /// roots of its quadratic (`None` where the discriminant is not positive).
    /// Each object is tested against the window `(t_min, closest so far)`; the
    /// result is the index of the object hit and the parameter of the hit.
    pub fn hit(&self, candidates: &Vec<Option<Roots>>, t_min: i64, t_max: i64) -> (r: Option<(usize, i64)>)
        ensures
            r == nearest_spec(candidates@, t_min, t_max),
    {
        let mut best: Option<(usize, i64)> = None;
        let mut closest_so_far: i64 = t_max;
        let mut k: usize = 0;
        while k < candidates.len()
            invariant
                k <= candidates.len(),
                best == nearest_spec(candidates@.take(k as int), t_min, t_max),
                closest_so_far == (match best {
                    Some((_, t)) => t,
                    None => t_max,
                }),
            decreases candidates.len() - k,
        {
            assert(candidates@.take(k as int + 1).drop_last() =~= candidates@.take(k as int));
            assert(candidates@.take(k as int + 1).last() == candidates@[k as int]);
            if let Some(t) = first_root(candidates[k], t_min, closest_so_far) {
                best = Some((k, t));
                closest_so_far = t;
            }
            k = k + 1;
        }
        assert(candidates@.take(k as int) =~= candidates@);
        best
    }
}

} // verus!
