//! The Delaunay triangulation of a set of points, indexed for traversal.
use vstd::prelude::*;
use crate::colinear::{colinear, has_area, Tri};
use crate::jitter::{jitter, jitter_spec};
use crate::scalar::{diff, ev, int_of, kernel_ok, minus, over, prod, quot, run, times, whole, Coord, Op};
use crate::triangulation::{all_below, is_corner, mesh_of, next_edge, next_halfedge, twins_paired, Triangulation, EMPTY};

verus! {

/// A triangulation with, for each point, a half-edge that arrives at it and
/// its place on the hull.
#[derive(Debug)]
pub struct Delaunay {
    /// The points.
    pub points: Vec<Coord>,
    /// The corners of the triangles, three by three.
    pub triangles: Vec<usize>,
    /// For each half-edge its twin, or [`EMPTY`].
    pub half_edges: Vec<usize>,
    /// The points of the convex hull, in order.
    pub hull: Vec<usize>,
    /// For each point a half-edge that arrives at it, or [`EMPTY`] where no
    /// triangle uses the point. For a point with a half-edge on the hull it is
    /// that half-edge.
    pub inedges: Vec<usize>,
    /// For each point its position in `hull`, or [`EMPTY`].
    pub hull_index: Vec<usize>,
}

/// Half-edge `e` arrives at point `p`: the half-edge after it leaves `p`.
pub open spec fn arrives(triangles: Seq<usize>, e: int, p: int) -> bool {
    triangles[next_halfedge(e)] == p
}

/// Among the half-edges below `m`, `x` is the one chosen for `p`: the last
/// that arrives at `p` without a twin; where there is none, the first that
/// arrives at `p`; [`EMPTY`] where none arrives.
pub open spec fn chosen_upto(
    triangles: Seq<usize>,
    halfedges: Seq<usize>,
    p: int,
    x: usize,
    m: int,
) -> bool {
    if x == EMPTY {
        forall|e: int| 0 <= e < m ==> !#[trigger] arrives(triangles, e, p)
    } else {
        &&& x < m
        &&& arrives(triangles, x as int, p)
        &&& halfedges[x as int] == EMPTY ==> forall|e: int|
            x < e < m && #[trigger] arrives(triangles, e, p) ==> halfedges[e] != EMPTY
        &&& halfedges[x as int] != EMPTY ==> forall|e: int|
            0 <= e < m && #[trigger] arrives(triangles, e, p) ==> halfedges[e] != EMPTY && x <= e
    }
}

/// `x` is the half-edge chosen for `p` among all of them.
pub open spec fn chosen(triangles: Seq<usize>, halfedges: Seq<usize>, p: int, x: usize) -> bool {
    chosen_upto(triangles, halfedges, p, x, triangles.len() as int)
}

/// Among the first `m` entries of `hull`, `i` is the last place of `p`, or
/// [`EMPTY`] where `p` is not among them.
pub open spec fn placed_upto(hull: Seq<usize>, p: int, i: usize, m: int) -> bool {
    if i == EMPTY {
        forall|j: int| 0 <= j < m ==> (#[trigger] hull[j]) != p
    } else {
        &&& i < m
        &&& hull[i as int] == p
        &&& forall|j: int| i < j < m ==> (#[trigger] hull[j]) != p
    }
}

/// The three corners that stand for a hull of one or two points.
pub open spec fn stub_triangles(hull: Seq<usize>) -> Seq<usize> {
    if hull.len() == 1 {
        seq![hull[0], EMPTY, EMPTY]
    } else {
        seq![hull[0], hull[1], hull[1]]
    }
}

/// The incoming half-edges after those of a hull of one or two points are set.
pub open spec fn stub_inedges(inedges: Seq<usize>, hull: Seq<usize>) -> Seq<usize> {
    if hull.len() == 1 {
        inedges.update(hull[0] as int, 1)
    } else {
        inedges.update(hull[0] as int, 1).update(hull[1] as int, 0)
    }
}

/// `p` comes before `q`, or is `q`, in the order by x and, for equal x, by y.
pub open spec fn lex_le(p: Coord, q: Coord) -> bool {
    p.x < q.x || (p.x == q.x && p.y <= q.y)
}

/// `e` is the first of `points` in the order by x and y.
pub open spec fn is_least(points: Seq<Coord>, e: Coord) -> bool {
    points.contains(e) && forall|i: int| 0 <= i < points.len() ==> lex_le(e, #[trigger] points[i])
}

/// `f` is the last of `points` in the order by x and y.
pub open spec fn is_greatest(points: Seq<Coord>, f: Coord) -> bool {
    points.contains(f) && forall|i: int| 0 <= i < points.len() ==> lex_le(#[trigger] points[i], f)
}

/// The first of `points` in the order by x and y.
pub open spec fn least(points: Seq<Coord>) -> Coord {
    choose|e: Coord| is_least(points, e)
}

/// The last of `points` in the order by x and y.
pub open spec fn greatest(points: Seq<Coord>) -> Coord {
    choose|f: Coord| is_greatest(points, f)
}

/// The distance by which points on a line are displaced: a hundred-millionth
/// of the distance between the first and the last of them.
pub open spec fn jitter_radius<K: Fn(Op) -> i64>(k: &K, points: Seq<Coord>) -> i64 {
    let e = least(points);
    let f = greatest(points);
    prod(
        k,
        quot(k, int_of(k, 1), int_of(k, 100_000_000)),
        ev(k, Op::Hypot(diff(k, f.y, e.y), diff(k, f.x, e.x))),
    )
}

/// `points`, each displaced by the jitter radius.
pub open spec fn jittered<K: Fn(Op) -> i64>(k: &K, points: Seq<Coord>) -> Seq<Coord> {
    Seq::new(points.len(), |i: int| jitter_spec(k, points[i], jitter_radius(k, points)))
}

/// The points lie on one line as far as the arrays `m` (triangles, twins,
/// hull) show: there is a hull of more than two points and no triangle with
/// an area.
pub open spec fn on_a_line_mesh<K: Fn(Op) -> i64>(
    k: &K,
    points: Seq<Coord>,
    m: (Seq<usize>, Seq<usize>, Seq<usize>),
) -> bool {
    m.2.len() > 2 && forall|t: int| 0 <= t < m.0.len() / 3 ==> !#[trigger] has_area(k, points, m.0, t)
}

/// The points lie on one line as far as `tri` shows: it has a hull of more
/// than two points and no triangle with an area.
pub open spec fn on_a_line<K: Fn(Op) -> i64>(k: &K, points: Seq<Coord>, tri: &Triangulation) -> bool {
    on_a_line_mesh(k, points, tri.arrays())
}

/// The point that `to_raw` gives for `c`, as the triangulator takes it.
pub open spec fn raw_of<R: Fn(Coord) -> delaunator::Point>(to_raw: &R, c: Coord) -> delaunator::Point {
    choose|r: delaunator::Point| call_ensures(*to_raw, (c,), r)
}

/// `to_raw` gives a point for every point, and for each in one way only.
pub open spec fn raw_ok<R: Fn(Coord) -> delaunator::Point>(to_raw: &R) -> bool {
    &&& forall|c: Coord| call_requires(*to_raw, (c,))
    &&& forall|c: Coord, r: delaunator::Point|
        call_ensures(*to_raw, (c,), r) ==> r == raw_of(to_raw, c)
}

/// Each of `points` as `to_raw` gives it, in order.
pub open spec fn raws<R: Fn(Coord) -> delaunator::Point>(to_raw: &R, points: Seq<Coord>) -> Seq<
    delaunator::Point,
> {
    Seq::new(points.len(), |i: int| raw_of(to_raw, points[i]))
}

/// Tests whether the points lie on one line as far as their triangulation
/// shows.
pub fn needs_jitter<K: Fn(Op) -> i64>(points: &Vec<Coord>, tri: &Triangulation, k: &K) -> (r: bool)
    requires
        kernel_ok(k),
        tri.wf(points@.len() as int),
    ensures
        r == on_a_line(k, points@, tri),
{
    let flat = colinear(points, tri, k) == Tri::Collinear;
    proof {
        let m = tri.arrays();
        assert(m.0 == tri.triangles@ && m.2 == tri.hull@);
        if flat {
            assert forall|t: int| 0 <= t < m.0.len() / 3 implies !#[trigger] has_area(
                k,
                points@,
                m.0,
                t,
            ) by {}
        } else {
            let t = choose|t: int|
                0 <= t < tri.triangles@.len() / 3 && #[trigger] has_area(k, points@, tri.triangles@, t);
            assert(has_area(k, points@, m.0, t));
        }
    }
    tri.hull.len() > 2 && flat
}

/// The first and the last of `points` in the order by x and y.
pub fn extremes(points: &Vec<Coord>) -> (r: (Coord, Coord))
    requires
        points@.len() > 0,
    ensures
        r.0 == least(points@),
        r.1 == greatest(points@),
{
    let mut e = points[0];
    let mut f = points[0];
    let mut i: usize = 1;
    while i < points.len()
        invariant
            1 <= i <= points@.len(),
            points@.contains(e),
            points@.contains(f),
            forall|j: int| 0 <= j < i ==> lex_le(e, #[trigger] points@[j]),
            forall|j: int| 0 <= j < i ==> lex_le(#[trigger] points@[j], f),
        decreases points@.len() - i,
    {
        let q = points[i];
        if q.x < e.x || (q.x == e.x && q.y < e.y) {
            e = q;
        }
        if q.x > f.x || (q.x == f.x && q.y > f.y) {
            f = q;
        }
        i += 1;
    }
    proof {
        assert(is_least(points@, e));
        assert(is_greatest(points@, f));
        let e2 = least(points@);
        let f2 = greatest(points@);
        let ie = choose|j: int| 0 <= j < points@.len() && points@[j] == e;
        let ie2 = choose|j: int| 0 <= j < points@.len() && points@[j] == e2;
        assert(lex_le(e, points@[ie2]) && lex_le(e2, points@[ie]));
        let jf = choose|j: int| 0 <= j < points@.len() && points@[j] == f;
        let jf2 = choose|j: int| 0 <= j < points@.len() && points@[j] == f2;
        assert(lex_le(points@[jf2], f) && lex_le(points@[jf], f2));
    }
    (e, f)
}

/// Displaces each of `points` by the jitter radius.
pub fn jitter_all<K: Fn(Op) -> i64>(points: &Vec<Coord>, k: &K) -> (out: Vec<Coord>)
    requires
        kernel_ok(k),
    ensures
        out@ == jittered(k, points@),
{
    let mut out: Vec<Coord> = Vec::new();
    if points.len() == 0 {
        proof {
            assert(out@ =~= jittered(k, points@));
        }
        return out;
    }
    let (e, f) = extremes(points);
    let scale = over(k, whole(k, 1), whole(k, 100_000_000));
    let span = run(k, Op::Hypot(minus(k, f.y, e.y), minus(k, f.x, e.x)));
    let r = times(k, scale, span);
    let mut i: usize = 0;
    while i < points.len()
        invariant
            kernel_ok(k),
            i <= points@.len(),
            out@.len() == i,
            r == jitter_radius(k, points@),
            forall|j: int| 0 <= j < i ==> (#[trigger] out@[j]) == jitter_spec(k, points@[j], r),
        decreases points@.len() - i,
    {
        out.push(jitter(&points[i], r, k));
        i += 1;
    }
    proof {
        assert(out@ =~= jittered(k, points@));
    }
    out
}

/// A copy of `points`.
fn copy_points(points: &Vec<Coord>) -> (out: Vec<Coord>)
    ensures
        out@ == points@,
{
    let mut out: Vec<Coord> = Vec::new();
    let mut i: usize = 0;
    while i < points.len()
        invariant
            i <= points@.len(),
            out@ == points@.take(i as int),
        decreases points@.len() - i,
    {
        out.push(points[i]);
        proof {
            assert(out@ =~= points@.take(i + 1));
        }
        i += 1;
    }
    proof {
        assert(points@.take(points@.len() as int) =~= points@);
    }
    out
}

/// Triangulates `points`, each handed over as `to_raw` gives it.
///
/// Where a point is not tame as it is handed over, and where the
/// triangulator returns a triangle but no hull of three points, the points
/// are left without triangles and without a hull.
pub fn triangulation_of<R: Fn(Coord) -> delaunator::Point>(points: &Vec<Coord>, to_raw: &R) -> (t:
    Triangulation)
    requires
        raw_ok(to_raw),
    ensures
        t.arrays() == mesh_of(raws(to_raw, points@)),
        t.wf(points@.len() as int),
{
    let raw = raw_points(points, to_raw);
    Triangulation::of(&raw)
}

/// Each of `points` as `to_raw` gives it, in order.
fn raw_points<R: Fn(Coord) -> delaunator::Point>(points: &Vec<Coord>, to_raw: &R) -> (raw: Vec<
    delaunator::Point,
>)
    requires
        raw_ok(to_raw),
    ensures
        raw@ == raws(to_raw, points@),
{
    let mut raw: Vec<delaunator::Point> = Vec::new();
    let mut i: usize = 0;
    while i < points.len()
        invariant
            i <= points@.len(),
            raw@.len() == i,
            raw_ok(to_raw),
            forall|j: int| 0 <= j < i ==> (#[trigger] raw@[j]) == raw_of(to_raw, points@[j]),
        decreases points@.len() - i,
    {
        raw.push(to_raw(points[i]));
        i += 1;
    }
    proof {
        assert(raw@ =~= raws(to_raw, points@));
    }
    raw
}

impl Delaunay {
    /// The arrays fit together: what every function of this type relies on.
    pub open spec fn wf(&self) -> bool {
        let n = self.points@.len();
        &&& self.inedges@.len() == n
        &&& self.hull_index@.len() == n
        &&& self.triangles@.len() == self.half_edges@.len()
        &&& self.triangles@.len() % 3 == 0
        &&& forall|e: int|
            0 <= e < self.triangles@.len() ==> (#[trigger] self.triangles@[e]) < n
                || self.triangles@[e] == EMPTY
        &&& twins_paired(self.half_edges@)
        &&& all_below(self.hull@, n as int)
        &&& forall|p: int|
            0 <= p < n ==> (#[trigger] self.inedges@[p]) == EMPTY || self.inedges@[p]
                < self.triangles@.len()
        &&& forall|p: int|
            0 <= p < n && (#[trigger] self.hull_index@[p]) != EMPTY ==> self.hull_index@[p]
                < self.hull@.len() && self.hull@[self.hull_index@[p] as int] == p
        &&& forall|e: int|
            0 <= e < self.triangles@.len() && (#[trigger] self.triangles@[e]) < n
                ==> self.inedges@[self.triangles@[e] as int] != EMPTY
        &&& self.hull@.no_duplicates()
        &&& forall|j: int|
            0 <= j < self.hull@.len() ==> self.hull_index@[(#[trigger] self.hull@[j]) as int] == j
        &&& forall|p: int, j: int|
            0 <= p < n && 0 <= j < self.hull@.len() && (#[trigger] self.inedges@[p]) != EMPTY
                ==> self.used((#[trigger] self.hull@[j]) as int)
    }

    /// Some triangle uses point `i`.
    pub open spec fn used(&self, i: int) -> bool {
        self.inedges@[i] != EMPTY
    }

    /// Some triangle uses every point of the hull.
    pub open spec fn hull_used(&self) -> bool {
        forall|j: int| 0 <= j < self.hull@.len() ==> self.used(#[trigger] self.hull@[j] as int)
    }

    /// This is the index of the arrays `m` (triangles, twins, hull).
    ///
    /// The hull is that of `m`, and `hull_index` gives each point's last
    /// place in it. With no hull, or one of three points or more, the
    /// triangles and twins are those of `m` and each point has its chosen
    /// incoming half-edge. With a hull of one or two points there is no
    /// triangle: three stub corners stand for one, those points get the
    /// half-edges 1 and 0, and no other point has one.
    pub open spec fn built_on(&self, m: (Seq<usize>, Seq<usize>, Seq<usize>)) -> bool {
        let n = self.points@.len() as int;
        let hull = m.2;
        &&& self.hull@ == hull
        &&& self.hull_index@.len() == n
        &&& forall|p: int|
            0 <= p < n ==> placed_upto(hull, p, #[trigger] self.hull_index@[p], hull.len() as int)
        &&& self.inedges@.len() == n
        &&& if hull.len() == 0 || hull.len() > 2 {
            &&& self.triangles@ == m.0
            &&& self.half_edges@ == m.1
            &&& forall|p: int|
                0 <= p < n ==> chosen(m.0, m.1, p, #[trigger] self.inedges@[p])
        } else {
            &&& self.triangles@ == stub_triangles(hull)
            &&& self.half_edges@ == seq![EMPTY, EMPTY, EMPTY]
            &&& self.inedges@ == stub_inedges(Seq::new(n as nat, |p: int| EMPTY), hull)
        }
    }

    /// This is the index of `tri`: see [`Self::built_on`].
    pub open spec fn built_from(&self, tri: &Triangulation) -> bool {
        self.built_on(tri.arrays())
    }

    /// `hull_index` gives each point of the hull its place: it undoes `hull`.
    pub proof fn lemma_hull_index(&self, i: int)
        requires
            self.wf(),
            0 <= i < self.hull@.len(),
        ensures
            self.hull_index@[self.hull@[i] as int] == i,
    {
    }

    /// The twin of a half-edge's twin is the half-edge itself.
    pub proof fn lemma_twin_of_twin(&self, e: int)
        requires
            self.wf(),
            0 <= e < self.half_edges@.len(),
            self.half_edges@[e] != EMPTY,
        ensures
            self.half_edges@[e] < self.half_edges@.len(),
            self.half_edges@[self.half_edges@[e] as int] == e,
    {
    }

    /// Triangulates `points` and indexes the result.
    ///
    /// `to_raw` gives each point as the triangulator takes it. Where the first
    /// triangulation shows the points on one line, they are displaced by the
    /// jitter radius and triangulated again. Points that are not tame as they
    /// are handed over are left without triangles and without a hull.
    pub fn new<K: Fn(Op) -> i64, R: Fn(Coord) -> delaunator::Point>(
        points: &Vec<Coord>,
        k: &K,
        to_raw: &R,
    ) -> (d: Delaunay)
        requires
            kernel_ok(k),
            raw_ok(to_raw),
        ensures
            d.wf(),
            if on_a_line_mesh(k, points@, mesh_of(raws(to_raw, points@))) {
                &&& d.points@ == jittered(k, points@)
                &&& d.built_on(mesh_of(raws(to_raw, jittered(k, points@))))
            } else {
                &&& d.points@ == points@
                &&& d.built_on(mesh_of(raws(to_raw, points@)))
            },
    {
        let first = triangulation_of(points, to_raw);
        if needs_jitter(points, &first, k) {
            let moved = jitter_all(points, k);
            let second = triangulation_of(&moved, to_raw);
            Delaunay::from_triangulation(moved, second)
        } else {
            Delaunay::from_triangulation(copy_points(points), first)
        }
    }

    /// Indexes a triangulation of `points`.
    pub fn from_triangulation(points: Vec<Coord>, tri: Triangulation) -> (d: Delaunay)
        requires
            tri.wf(points@.len() as int),
        ensures
            d.wf(),
            d.points@ == points@,
            d.built_from(&tri),
    {
        let n = points.len();
        let len = tri.triangles.len();
        let mut inedges: Vec<usize> = Vec::new();
        let mut hull_index: Vec<usize> = Vec::new();
        let mut i: usize = 0;
        while i < n
            invariant
                i <= n,
                inedges@.len() == i,
                hull_index@.len() == i,
                forall|p: int| 0 <= p < i ==> (#[trigger] inedges@[p]) == EMPTY,
                forall|p: int| 0 <= p < i ==> (#[trigger] hull_index@[p]) == EMPTY,
            decreases n - i,
        {
            inedges.push(EMPTY);
            hull_index.push(EMPTY);
            i += 1;
        }
        let mut e: usize = 0;
        while e < len
            invariant
                e <= len,
                n == points@.len(),
                len == tri.triangles@.len(),
                tri.wf(n as int),
                inedges@.len() == n,
                forall|p: int|
                    0 <= p < n ==> chosen_upto(
                        tri.triangles@,
                        tri.halfedges@,
                        p,
                        #[trigger] inedges@[p],
                        e as int,
                    ),
            decreases len - e,
        {
            let p = tri.triangles[next_edge(e)];
            let ghost before = inedges@;
            if tri.halfedges[e] == EMPTY || inedges[p] == EMPTY {
                inedges.set(p, e);
            }
            proof {
                assert(arrives(tri.triangles@, e as int, p as int));
                assert forall|q: int| 0 <= q < n implies chosen_upto(
                    tri.triangles@,
                    tri.halfedges@,
                    q,
                    #[trigger] inedges@[q],
                    e + 1,
                ) by {
                    assert(chosen_upto(tri.triangles@, tri.halfedges@, q, before[q], e as int));
                    if q != p {
                        assert(!arrives(tri.triangles@, e as int, q));
                    }
                }
            }
            e += 1;
        }
        let mut j: usize = 0;
        while j < tri.hull.len()
            invariant
                j <= tri.hull@.len(),
                n == points@.len(),
                tri.wf(n as int),
                hull_index@.len() == n,
                forall|p: int|
                    0 <= p < n ==> placed_upto(tri.hull@, p, #[trigger] hull_index@[p], j as int),
            decreases tri.hull@.len() - j,
        {
            let h = tri.hull[j];
            let ghost before = hull_index@;
            hull_index.set(h, j);
            proof {
                assert forall|p: int| 0 <= p < n implies placed_upto(
                    tri.hull@,
                    p,
                    #[trigger] hull_index@[p],
                    j + 1,
                ) by {
                    assert(placed_upto(tri.hull@, p, before[p], j as int));
                }
            }
            j += 1;
        }
        let ghost base = inedges@;
        let Triangulation { triangles, halfedges, hull } = tri;
        let mut triangles = triangles;
        let mut half_edges = halfedges;
        proof {
            assert forall|e: int| 0 <= e < triangles@.len() && (#[trigger] triangles@[e]) < n
                implies inedges@[triangles@[e] as int] != EMPTY by {
                let prev = if e % 3 == 0 {
                    e + 2
                } else {
                    e - 1
                };
                assert(arrives(triangles@, prev, triangles@[e] as int));
                assert(chosen(triangles@, half_edges@, triangles@[e] as int, inedges@[triangles@[e] as int]));
            }
        }
        if hull.len() <= 2 && hull.len() > 0 {
            let h0 = hull[0];
            triangles = Vec::new();
            half_edges = Vec::new();
            triangles.push(h0);
            half_edges.push(EMPTY);
            half_edges.push(EMPTY);
            half_edges.push(EMPTY);
            inedges.set(h0, 1);
            if hull.len() == 2 {
                let h1 = hull[1];
                triangles.push(h1);
                triangles.push(h1);
                inedges.set(h1, 0);
            } else {
                triangles.push(EMPTY);
                triangles.push(EMPTY);
            }
            proof {
                assert(triangles@ =~= stub_triangles(hull@));
                assert(half_edges@ =~= seq![EMPTY, EMPTY, EMPTY]);
                assert(base =~= Seq::new(n as nat, |p: int| EMPTY)) by {
                    assert forall|p: int| 0 <= p < n implies base[p] == EMPTY by {
                        assert(chosen(tri.triangles@, tri.halfedges@, p, base[p]));
                    }
                }
                assert(inedges@ =~= stub_inedges(base, hull@));
            }
        }
        proof {
            assert forall|j: int| 0 <= j < hull@.len() implies hull_index@[(#[trigger] hull@[j]) as int]
                == j by {
                let p = hull@[j];
                assert(placed_upto(tri.hull@, p as int, hull_index@[p as int], tri.hull@.len() as int));
            }
            assert forall|p: int, j: int|
                0 <= p < n && 0 <= j < hull@.len() && (#[trigger] inedges@[p]) != EMPTY
                implies inedges@[(#[trigger] hull@[j]) as int] != EMPTY by {
                if hull@.len() > 2 {
                    assert(chosen(tri.triangles@, tri.halfedges@, p, base[p]));
                    assert(tri.triangles@.len() > 0);
                    assert(is_corner(tri.triangles@, hull@[j] as int));
                    let e = choose|e: int|
                        0 <= e < tri.triangles@.len() && #[trigger] tri.triangles@[e] == hull@[j];
                    assert(triangles@[e] < n);
                }
            }
        }
        let d = Delaunay { points, triangles, half_edges, hull, inedges, hull_index };
        proof {
            assert(d.built_from(&tri));
        }
        d
    }
}

} // verus!
