//! The raw triangulation: triangles, half-edges and hull as flat arrays of
//! indices, and the call that computes one.
use vstd::prelude::*;

verus! {

/// The index that stands for "none": the twin of a half-edge on the hull, the
/// incoming half-edge of a point that no triangle uses.
pub const EMPTY: usize = usize::MAX;

/// A triangulation of `n` points, as flat arrays.
///
/// Half-edge `e` leaves the point `triangles[e]`; the half-edges `3t`, `3t + 1`
/// and `3t + 2` go round triangle `t`.
#[derive(Debug)]
pub struct Triangulation {
    /// The corners of the triangles, three by three.
    pub triangles: Vec<usize>,
    /// For each half-edge its twin in the adjacent triangle, or [`EMPTY`].
    pub halfedges: Vec<usize>,
    /// The points of the convex hull, in order.
    pub hull: Vec<usize>,
}

/// The half-edge that follows `e` in its triangle.
pub open spec fn next_halfedge(e: int) -> int {
    if e % 3 == 2 {
        e - 2
    } else {
        e + 1
    }
}

/// Every entry of `s` is below `n`.
pub open spec fn all_below(s: Seq<usize>, n: int) -> bool {
    forall|i: int| 0 <= i < s.len() ==> (#[trigger] s[i]) < n
}

/// Every half-edge is on the hull or is the twin of its twin.
pub open spec fn twins_paired(halfedges: Seq<usize>) -> bool {
    forall|e: int|
        0 <= e < halfedges.len() && (#[trigger] halfedges[e]) != EMPTY ==> halfedges[e]
            < halfedges.len() && halfedges[halfedges[e] as int] == e
}

/// Point `p` is a corner of a triangle.
pub open spec fn is_corner(triangles: Seq<usize>, p: int) -> bool {
    exists|e: int| 0 <= e < triangles.len() && #[trigger] triangles[e] == p
}

/// Where there is a triangle, every point of the hull is a corner of one.
pub open spec fn hull_cornered(triangles: Seq<usize>, hull: Seq<usize>) -> bool {
    triangles.len() > 0 ==> forall|j: int|
        0 <= j < hull.len() ==> is_corner(triangles, #[trigger] hull[j] as int)
}

/// The arrays refer to each other and to `n` points as they should: one twin
/// entry for each corner, corners three by three, every corner and hull entry
/// a point, every twin paired, no point on the hull twice, and, where there
/// is a triangle, every point of the hull a corner of one.
pub open spec fn links_ok(
    triangles: Seq<usize>,
    halfedges: Seq<usize>,
    hull: Seq<usize>,
    n: int,
) -> bool {
    &&& triangles.len() == halfedges.len()
    &&& triangles.len() % 3 == 0
    &&& all_below(triangles, n)
    &&& twins_paired(halfedges)
    &&& all_below(hull, n)
    &&& hull.no_duplicates()
    &&& hull_cornered(triangles, hull)
}

/// The arrays fit together as a triangulation of `n` points: they refer to
/// each other as they should, and where there is a triangle the hull has at
/// least three points.
pub open spec fn mesh_ok(
    triangles: Seq<usize>,
    halfedges: Seq<usize>,
    hull: Seq<usize>,
    n: int,
) -> bool {
    &&& links_ok(triangles, halfedges, hull, n)
    &&& triangles.len() > 0 ==> hull.len() >= 3
}

/// No triangles, no twins, no hull.
pub open spec fn no_mesh() -> (Seq<usize>, Seq<usize>, Seq<usize>) {
    (Seq::empty(), Seq::empty(), Seq::empty())
}

/// The arrays `m` (triangles, twins, hull) as a triangulation: as they are,
/// or, where they hold a triangle but no hull of three points, no mesh.
pub open spec fn settled(m: (Seq<usize>, Seq<usize>, Seq<usize>)) -> (
    Seq<usize>,
    Seq<usize>,
    Seq<usize>,
) {
    if m.0.len() > 0 && m.2.len() < 3 {
        no_mesh()
    } else {
        m
    }
}

/// What `delaunator::triangulate` returns for `points`: its triangles, its
/// half-edges and its hull.
pub uninterp spec fn raw_mesh(points: Seq<delaunator::Point>) -> (Seq<usize>, Seq<usize>, Seq<usize>);

/// The bits of the abscissa of `p`, as `to_bits` gives them.
pub uninterp spec fn raw_x_bits(p: delaunator::Point) -> u64;

/// The bits of the ordinate of `p`, as `to_bits` gives them.
pub uninterp spec fn raw_y_bits(p: delaunator::Point) -> u64;

/// The bits are those of a number that is zero, or of a size from 2^-400 up
/// to, but not including, 2^401: the sign apart, they are zero or their
/// exponent field holds 623 to 1423.
pub open spec fn tame_bits(b: u64) -> bool {
    let size = b % 0x8000_0000_0000_0000;
    size == 0 || 623 <= size / 0x10_0000_0000_0000 <= 1423
}

/// Both coordinates of `p` are numbers that the triangulator can compute
/// with: sums and products of two of them, or of their differences, are
/// numbers again and lose nothing.
pub open spec fn tame(p: delaunator::Point) -> bool {
    tame_bits(raw_x_bits(p)) && tame_bits(raw_y_bits(p))
}

/// Every one of `points` is tame.
pub open spec fn all_tame(points: Seq<delaunator::Point>) -> bool {
    forall|i: int| 0 <= i < points.len() ==> tame(#[trigger] points[i])
}

/// The triangulation of `points`: what the triangulator returns for them,
/// settled; no mesh where a point is not tame.
pub open spec fn mesh_of(points: Seq<delaunator::Point>) -> (Seq<usize>, Seq<usize>, Seq<usize>) {
    if all_tame(points) {
        settled(raw_mesh(points))
    } else {
        no_mesh()
    }
}

/// Tests whether the bits are those of a tame number.
pub fn is_tame_bits(b: u64) -> (r: bool)
    ensures
        r == tame_bits(b),
{
    let size = b % 0x8000_0000_0000_0000;
    size == 0 || (623 <= size / 0x10_0000_0000_0000 && size / 0x10_0000_0000_0000 <= 1423)
}

impl Triangulation {
    /// The three arrays: triangles, twins, hull.
    pub open spec fn arrays(&self) -> (Seq<usize>, Seq<usize>, Seq<usize>) {
        (self.triangles@, self.halfedges@, self.hull@)
    }

    /// The arrays fit together as a triangulation of `n` points.
    pub open spec fn wf(&self, n: int) -> bool {
        mesh_ok(self.triangles@, self.halfedges@, self.hull@, n)
    }

    /// The arrays are those of `raw`, or, where `raw` has a triangle but no
    /// hull of three points, there is no triangle and no hull.
    pub open spec fn settled_from(&self, raw: &Triangulation) -> bool {
        self.arrays() == settled(raw.arrays())
    }

    /// A triangulation without triangles and without a hull.
    pub fn empty() -> (t: Triangulation)
        ensures
            t.arrays() == no_mesh(),
            forall|n: int| #[trigger] t.wf(n),
    {
        Triangulation { triangles: Vec::new(), halfedges: Vec::new(), hull: Vec::new() }
    }

    /// The arrays as a triangulation: as they are, or, where they hold a
    /// triangle but no hull of three points, without triangles and without a
    /// hull. Arrays that refer to each other as they should then fit
    /// together.
    pub fn settle(self) -> (t: Triangulation)
        ensures
            t.settled_from(&self),
            forall|n: int|
                #[trigger] links_ok(self.triangles@, self.halfedges@, self.hull@, n) ==> t.wf(n),
    {
        if self.triangles.len() > 0 && self.hull.len() < 3 {
            Triangulation::empty()
        } else {
            self
        }
    }

    /// The triangulation of `points`: the triangulator is asked where every
    /// point is tame, and what it returns is settled; where a point is not
    /// tame there are no triangles and no hull.
    pub fn of(points: &Vec<delaunator::Point>) -> (t: Triangulation)
        ensures
            t.arrays() == mesh_of(points@),
            t.wf(points@.len() as int),
    {
        let mut i: usize = 0;
        while i < points.len()
            invariant
                i <= points@.len(),
                forall|j: int| 0 <= j < i ==> tame(#[trigger] points@[j]),
            decreases points@.len() - i,
        {
            if !is_tame_bits(x_bits(&points[i])) || !is_tame_bits(y_bits(&points[i])) {
                proof {
                    assert(!tame(points@[i as int]));
                }
                return Triangulation::empty();
            }
            i += 1;
        }
        raw_triangulate(points).settle()
    }

    /// Tests whether the arrays fit together as a triangulation of `n` points.
    pub fn is_valid(&self, n: usize) -> (ok: bool)
        ensures
            ok == self.wf(n as int),
    {
        let len = self.triangles.len();
        if self.halfedges.len() != len || len % 3 != 0 {
            return false;
        }
        if len > 0 && self.hull.len() < 3 {
            return false;
        }
        let mut corner: Vec<bool> = Vec::new();
        let mut seen: Vec<bool> = Vec::new();
        let mut p: usize = 0;
        while p < n
            invariant
                p <= n,
                corner@.len() == p,
                seen@.len() == p,
                forall|q: int| 0 <= q < p ==> !(#[trigger] corner@[q]),
                forall|q: int| 0 <= q < p ==> !(#[trigger] seen@[q]),
            decreases n - p,
        {
            corner.push(false);
            seen.push(false);
            p += 1;
        }
        let mut e: usize = 0;
        while e < len
            invariant
                e <= len,
                len == self.triangles.len(),
                len == self.halfedges.len(),
                corner@.len() == n,
                forall|i: int| 0 <= i < e ==> (#[trigger] self.triangles@[i]) < n,
                forall|i: int|
                    0 <= i < e && (#[trigger] self.halfedges@[i]) != EMPTY ==> self.halfedges@[i]
                        < len && self.halfedges@[self.halfedges@[i] as int] == i,
                forall|q: int|
                    0 <= q < n ==> ((#[trigger] corner@[q]) <==> is_corner(
                        self.triangles@.take(e as int),
                        q,
                    )),
            decreases len - e,
        {
            let t = self.triangles[e];
            if t >= n {
                return false;
            }
            let twin = self.halfedges[e];
            if twin != EMPTY && (twin >= len || self.halfedges[twin] != e) {
                return false;
            }
            let ghost before = corner@;
            corner.set(t, true);
            proof {
                let old_part = self.triangles@.take(e as int);
                let new_part = self.triangles@.take(e + 1);
                assert(new_part[e as int] == t);
                assert forall|q: int| 0 <= q < n implies ((#[trigger] corner@[q]) <==> is_corner(
                    new_part,
                    q,
                )) by {
                    if is_corner(old_part, q) {
                        let w = choose|w: int| 0 <= w < old_part.len() && old_part[w] == q;
                        assert(new_part[w] == q);
                    }
                    if is_corner(new_part, q) && q != t {
                        let w = choose|w: int| 0 <= w < new_part.len() && new_part[w] == q;
                        assert(old_part[w] == q);
                    }
                }
            }
            e += 1;
        }
        proof {
            assert(self.triangles@.take(len as int) =~= self.triangles@);
        }
        let mut j: usize = 0;
        while j < self.hull.len()
            invariant
                j <= self.hull.len(),
                len == self.triangles.len(),
                corner@.len() == n,
                seen@.len() == n,
                forall|q: int|
                    0 <= q < n ==> ((#[trigger] corner@[q]) <==> is_corner(self.triangles@, q)),
                forall|i: int| 0 <= i < j ==> (#[trigger] self.hull@[i]) < n,
                forall|a: int, b: int| 0 <= a < b < j ==> self.hull@[a] != self.hull@[b],
                forall|q: int|
                    0 <= q < n ==> ((#[trigger] seen@[q]) <==> is_corner(self.hull@.take(j as int), q)),
                len > 0 ==> forall|i: int|
                    0 <= i < j ==> is_corner(self.triangles@, #[trigger] self.hull@[i] as int),
            decreases self.hull.len() - j,
        {
            let h = self.hull[j];
            if h >= n {
                return false;
            }
            if seen[h] {
                proof {
                    let part = self.hull@.take(j as int);
                    let w = choose|w: int| 0 <= w < part.len() && part[w] == h;
                    assert(self.hull@[w] == self.hull@[j as int]);
                }
                return false;
            }
            if len > 0 && !corner[h] {
                return false;
            }
            seen.set(h, true);
            proof {
                let old_part = self.hull@.take(j as int);
                let new_part = self.hull@.take(j + 1);
                assert(new_part[j as int] == h);
                assert forall|q: int| 0 <= q < n implies ((#[trigger] seen@[q]) <==> is_corner(
                    new_part,
                    q,
                )) by {
                    if is_corner(old_part, q) {
                        let w = choose|w: int| 0 <= w < old_part.len() && old_part[w] == q;
                        assert(new_part[w] == q);
                    }
                    if is_corner(new_part, q) && q != h {
                        let w = choose|w: int| 0 <= w < new_part.len() && new_part[w] == q;
                        assert(old_part[w] == q);
                    }
                }
                assert forall|a: int, b: int| 0 <= a < b < j + 1 implies self.hull@[a]
                    != self.hull@[b] by {
                    if b == j && self.hull@[a] == h {
                        assert(old_part[a] == h);
                        assert(is_corner(old_part, h as int));
                    }
                }
            }
            j += 1;
        }
        true
    }
}

/// The half-edge that follows `e` in its triangle.
pub fn next_edge(e: usize) -> (r: usize)
    requires
        e - e % 3 + 2 <= usize::MAX,
    ensures
        r == next_halfedge(e as int),
        r / 3 == e / 3,
{
    if e % 3 == 2 {
        e - 2
    } else {
        e + 1
    }
}

/// A point as the triangulator takes it: `delaunator::Point`. The library
/// hands such points on and never looks into one.
#[verifier::external_type_specification]
#[verifier::external_body]
pub struct ExRawPoint(delaunator::Point);

/// `delaunator::triangulate`, with its three arrays moved into a
/// [`Triangulation`]. Its `EMPTY` is the [`EMPTY`] of this library.
///
/// Claimed of it without proof. On tame points it computes differences,
/// sums and products of two factors without leaving the numbers and without
/// loss, so that its tests of orientation are exact, and it returns. What it
/// returns depends on the points alone. As its documentation and source
/// describe the result: there is one twin entry for each entry of
/// `triangles`; the triangles come three by three; every corner and every
/// hull entry is the index of an input point; a twin that is not [`EMPTY`] is
/// a half-edge whose own twin is the first; the hull is one round of the
/// boundary, so that no point is on it twice; and where there is a triangle,
/// every point of the hull is a corner of one.
#[verifier::external_body]
pub(crate) fn raw_triangulate(points: &Vec<delaunator::Point>) -> (t: Triangulation)
    requires
        all_tame(points@),
    ensures
        t.arrays() == raw_mesh(points@),
        links_ok(t.triangles@, t.halfedges@, t.hull@, points@.len() as int),
{
    let raw = delaunator::triangulate(points);
    Triangulation { triangles: raw.triangles, halfedges: raw.halfedges, hull: raw.hull }
}

/// std's `to_bits` on the abscissa of a `delaunator::Point`: the bits of
/// that floating-point number, which depend on the point alone.
#[verifier::external_body]
pub(crate) fn x_bits(p: &delaunator::Point) -> (b: u64)
    ensures
        b == raw_x_bits(*p),
{
    p.x.to_bits()
}

/// std's `to_bits` on the ordinate of a `delaunator::Point`: the bits of
/// that floating-point number, which depend on the point alone.
#[verifier::external_body]
pub(crate) fn y_bits(p: &delaunator::Point) -> (b: u64)
    ensures
        b == raw_y_bits(*p),
{
    p.y.to_bits()
}

} // verus!
