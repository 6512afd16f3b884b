//! The test for a triangulation whose triangles all have no area.
use vstd::prelude::*;
use crate::scalar::{diff, int_of, is_lt, kernel_ok, lt, minus, over, prod, quot, times, whole, Coord, Op};
use crate::triangulation::{all_below, Triangulation};

verus! {

/// Is the triangulation collinear?
#[derive(Clone, Copy, Debug, PartialEq, Eq, Structural)]
pub enum Tri {
    Collinear,
    NotCollinear,
}

/// Twice the signed area of the triangle `a`, `b`, `c`:
/// `(c.x - a.x) * (b.y - a.y) - (b.x - a.x) * (c.y - a.y)`.
pub open spec fn cross<K: Fn(Op) -> i64>(k: &K, a: Coord, b: Coord, c: Coord) -> i64 {
    diff(
        k,
        prod(k, diff(k, c.x, a.x), diff(k, b.y, a.y)),
        prod(k, diff(k, b.x, a.x), diff(k, c.y, a.y)),
    )
}

/// The area below which a triangle counts as flat: one part in ten thousand
/// million.
pub open spec fn tolerance<K: Fn(Op) -> i64>(k: &K) -> i64 {
    quot(k, int_of(k, 1), int_of(k, 10_000_000_000))
}

/// Triangle `t` has an area above the tolerance.
pub open spec fn has_area<K: Fn(Op) -> i64>(
    k: &K,
    coords: Seq<Coord>,
    triangles: Seq<usize>,
    t: int,
) -> bool {
    lt(
        tolerance(k),
        cross(
            k,
            coords[triangles[3 * t] as int],
            coords[triangles[3 * t + 1] as int],
            coords[triangles[3 * t + 2] as int],
        ),
    )
}

/// Twice the signed area of the triangle `a`, `b`, `c`.
pub fn cross_of<K: Fn(Op) -> i64>(k: &K, a: &Coord, b: &Coord, c: &Coord) -> (r: i64)
    requires
        kernel_ok(k),
    ensures
        r == cross(k, *a, *b, *c),
{
    let left = times(k, minus(k, c.x, a.x), minus(k, b.y, a.y));
    let right = times(k, minus(k, b.x, a.x), minus(k, c.y, a.y));
    minus(k, left, right)
}

/// A triangulation is collinear if none of its triangles has an area above
/// the tolerance.
pub fn colinear<K: Fn(Op) -> i64>(coords: &Vec<Coord>, d: &Triangulation, k: &K) -> (r: Tri)
    requires
        kernel_ok(k),
        d.triangles@.len() % 3 == 0,
        all_below(d.triangles@, coords@.len() as int),
    ensures
        r == Tri::NotCollinear <==> exists|t: int|
            0 <= t < d.triangles@.len() / 3 && #[trigger] has_area(k, coords@, d.triangles@, t),
{
    let eps = over(k, whole(k, 1), whole(k, 10_000_000_000));
    let len = d.triangles.len();
    let mut i: usize = 0;
    while i < len
        invariant
            kernel_ok(k),
            len == d.triangles@.len(),
            len % 3 == 0,
            i % 3 == 0,
            i <= len,
            all_below(d.triangles@, coords@.len() as int),
            eps == tolerance(k),
            forall|t: int| 0 <= t < i / 3 ==> !#[trigger] has_area(k, coords@, d.triangles@, t),
        decreases len - i,
    {
        let a = d.triangles[i];
        let b = d.triangles[i + 1];
        let c = d.triangles[i + 2];
        let area = cross_of(k, &coords[a], &coords[b], &coords[c]);
        if is_lt(eps, area) {
            proof {
                assert(has_area(k, coords@, d.triangles@, i as int / 3));
            }
            return Tri::NotCollinear;
        }
        proof {
            assert(!has_area(k, coords@, d.triangles@, i as int / 3));
        }
        i += 3;
    }
    Tri::Collinear
}

} // verus!
