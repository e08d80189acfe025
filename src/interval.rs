use vstd::prelude::*;

verus! {

/// The two roots of a ray/sphere quadratic, as order-preserving codes of the
/// ray parameter, nearer first.
#[derive(Clone, Copy, Debug, PartialEq, Eq, Structural)]
pub struct Roots {
    pub near: i64,
    pub far: i64,
}

impl Roots {
    pub open spec fn wf(self) -> bool {
        self.near <= self.far
    }
}

/// `t` lies strictly inside the open window `(t_min, t_max)`.
pub open spec fn in_window(t: i64, t_min: i64, t_max: i64) -> bool {
    t_min < t && t < t_max
}

/// The root that a sphere reports for a window: the nearer one if it lies in
/// the window, else the farther one if it does, else none. `None` for the roots
/// stands for a discriminant that is not positive.
pub open spec fn first_root_spec(roots: Option<Roots>, t_min: i64, t_max: i64) -> Option<i64> {
    match roots {
        None => None,
        Some(r) => if in_window(r.near, t_min, t_max) {
            Some(r.near)
        } else if in_window(r.far, t_min, t_max) {
            Some(r.far)
        } else {
            None
        },
    }
}

/// Picks the ray parameter at which a sphere is hit inside `(t_min, t_max)`.
pub fn first_root(roots: Option<Roots>, t_min: i64, t_max: i64) -> (r: Option<i64>)
    ensures
        r == first_root_spec(roots, t_min, t_max),
{
    match roots {
        None => None,
        Some(rs) => {
            if t_min < rs.near && rs.near < t_max {
                Some(rs.near)
            } else if t_min < rs.far && rs.far < t_max {
                Some(rs.far)
            } else {
                None
            }
        },
    }
}

/// A sphere whose quadratic has no positive discriminant is never hit; one that
/// is hit is hit strictly inside the window.
pub proof fn lemma_hit_in_window(roots: Option<Roots>, t_min: i64, t_max: i64)
    ensures
        roots is None ==> first_root_spec(roots, t_min, t_max) is None,
        first_root_spec(roots, t_min, t_max) matches Some(t) ==> in_window(t, t_min, t_max),
{
}

/// Narrowing the upper end of the window keeps a hit that lies below the new
/// end and drops one that does not.
pub proof fn lemma_narrow_window(roots: Option<Roots>, t_min: i64, t_max: i64, bound: i64)
    requires
        roots matches Some(r) ==> r.wf(),
        bound <= t_max,
    ensures
        first_root_spec(roots, t_min, bound) == (match first_root_spec(roots, t_min, t_max) {
            Some(t) => if t < bound { Some(t) } else { None },
            None => None,
        }),
{
}

} // verus!
