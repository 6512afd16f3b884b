//! The Voronoi diagram of a Delaunay triangulation, clipped to a rectangle.
use vstd::prelude::*;
use crate::delaunay::Delaunay;
use crate::scalar::{diff, int_of, is_lt, is_same, kernel_ok, lt, minus, over, plus, prod, quot, same, sum, times, whole, Coord, Op, NAN};

verus! {

/// The rectangle has `xmax < xmin` or `ymax < ymin`.
#[derive(Clone, Copy, Debug, PartialEq, Eq, Structural)]
pub struct InvalidBounds;

/// The rectangle to clip to, where none is given: from the origin to (960, 500).
pub open spec fn default_bounds<K: Fn(Op) -> i64>(k: &K) -> (i64, i64, i64, i64) {
    (int_of(k, 0), int_of(k, 0), int_of(k, 960), int_of(k, 500))
}

/// The rectangle `(xmin, ymin, xmax, ymax)` has its sides in order.
pub open spec fn bounds_ok(b: (i64, i64, i64, i64)) -> bool {
    !lt(b.2, b.0) && !lt(b.3, b.1)
}

/// Corner `e` of `triangles`, where it is a point.
pub open spec fn corner(points: Seq<Coord>, triangles: Seq<usize>, e: int) -> Option<Coord> {
    if 0 <= e < triangles.len() && triangles[e] < points.len() {
        Some(points[triangles[e] as int])
    } else {
        None
    }
}

/// `b - a`, or no number where one of them is missing.
pub open spec fn gap<K: Fn(Op) -> i64>(k: &K, a: Option<i64>, b: Option<i64>) -> i64 {
    match (a, b) {
        (Some(a), Some(b)) => diff(k, b, a),
        _ => NAN,
    }
}

/// `(a + b) / 2`
pub open spec fn mid<K: Fn(Op) -> i64>(k: &K, a: i64, b: i64) -> i64 {
    quot(k, sum(k, a, b), int_of(k, 2))
}

/// A thousand million, with the sign of `delta`; no number where `delta` is
/// none.
pub open spec fn far<K: Fn(Op) -> i64>(k: &K, delta: i64) -> i64 {
    let sign = if delta == NAN {
        NAN
    } else if lt(int_of(k, 0), delta) {
        int_of(k, 1)
    } else {
        int_of(k, -1i64)
    };
    prod(k, int_of(k, 1_000_000_000), sign)
}

/// The centre of the circle through the corners `p1`, `p2`, `p3` of a
/// triangle, as far as it can be computed.
///
/// With `d = p2 - p1`, `e = p3 - p1` and `ab = 2 (d.x e.y - d.y e.x)`:
/// where `ab` is at least a hundred-millionth in size, the centre is
/// `p1 + ((e.y |d|² - d.y |e|²) / ab, (d.x |e|² - e.x |d|²) / ab)`;
/// where `ab` is smaller but not zero, it is the middle of `p1` and `p3`;
/// where `ab` is zero or no number, it is that middle moved by a thousand
/// million times `(-e.y, e.x)`, away from `reference`, and not moved where
/// `reference` lies on the line through `p1` and `p3`. It is no point where
/// `p1` or `reference` is missing, or where `ab` is no number and `p3` is
/// missing.
pub open spec fn circumcenter<K: Fn(Op) -> i64>(
    k: &K,
    p1: Option<Coord>,
    p2: Option<Coord>,
    p3: Option<Coord>,
    reference: Option<Coord>,
) -> Coord {
    let x = |p: Option<Coord>|
        match p {
            Some(c) => Some(c.x),
            None => None,
        };
    let y = |p: Option<Coord>|
        match p {
            Some(c) => Some(c.y),
            None => None,
        };
    let dx = gap(k, x(p1), x(p2));
    let dy = gap(k, y(p1), y(p2));
    let ex = gap(k, x(p1), x(p3));
    let ey = gap(k, y(p1), y(p3));
    let ab = prod(k, diff(k, prod(k, dx, ey), prod(k, dy, ex)), int_of(k, 2));
    let tiny = quot(k, int_of(k, 1), int_of(k, 100_000_000));
    match (p1, reference) {
        (Some(p1), Some(r)) => if ab == NAN || same(ab, int_of(k, 0)) {
            let delta = diff(
                k,
                prod(k, diff(k, r.x, p1.x), ey),
                prod(k, diff(k, r.y, p1.y), ex),
            );
            let a = if same(delta, int_of(k, 0)) {
                int_of(k, 0)
            } else {
                far(k, delta)
            };
            match p3 {
                Some(p3) => Coord {
                    x: diff(k, mid(k, p1.x, p3.x), prod(k, a, ey)),
                    y: sum(k, mid(k, p1.y, p3.y), prod(k, a, ex)),
                },
                None => Coord { x: NAN, y: NAN },
            }
        } else {
            match p3 {
                Some(p3) => if lt(ab, tiny) && lt(diff(k, int_of(k, 0), tiny), ab) {
                    Coord { x: mid(k, p1.x, p3.x), y: mid(k, p1.y, p3.y) }
                } else {
                    let d = quot(k, int_of(k, 1), ab);
                    let bl = sum(k, prod(k, dx, dx), prod(k, dy, dy));
                    let cl = sum(k, prod(k, ex, ex), prod(k, ey, ey));
                    Coord {
                        x: sum(k, p1.x, prod(k, diff(k, prod(k, ey, bl), prod(k, dy, cl)), d)),
                        y: sum(k, p1.y, prod(k, diff(k, prod(k, dx, cl), prod(k, ex, bl)), d)),
                    }
                },
                None => Coord { x: NAN, y: NAN },
            }
        },
        _ => Coord { x: NAN, y: NAN },
    }
}

/// The x of `p`, if there is one.
fn x_of(p: &Option<Coord>) -> (r: Option<i64>)
    ensures
        r == match *p {
            Some(c) => Some(c.x),
            None => None::<i64>,
        },
{
    match p {
        Some(c) => Some(c.x),
        None => None,
    }
}

/// The y of `p`, if there is one.
fn y_of(p: &Option<Coord>) -> (r: Option<i64>)
    ensures
        r == match *p {
            Some(c) => Some(c.y),
            None => None::<i64>,
        },
{
    match p {
        Some(c) => Some(c.y),
        None => None,
    }
}

/// `b - a`, or no number where one of them is missing.
fn gap_of<K: Fn(Op) -> i64>(k: &K, a: Option<i64>, b: Option<i64>) -> (r: i64)
    requires
        kernel_ok(k),
    ensures
        r == gap(k, a, b),
{
    match (a, b) {
        (Some(a), Some(b)) => minus(k, b, a),
        _ => NAN,
    }
}

/// `(a + b) / 2`
fn mid_of<K: Fn(Op) -> i64>(k: &K, a: i64, b: i64) -> (r: i64)
    requires
        kernel_ok(k),
    ensures
        r == mid(k, a, b),
{
    over(k, plus(k, a, b), whole(k, 2))
}

/// The centre of the circle through the corners of a triangle.
pub fn circumcenter_of<K: Fn(Op) -> i64>(
    k: &K,
    p1: Option<Coord>,
    p2: Option<Coord>,
    p3: Option<Coord>,
    reference: Option<Coord>,
) -> (c: Coord)
    requires
        kernel_ok(k),
    ensures
        c == circumcenter(k, p1, p2, p3, reference),
{
    let dx = gap_of(k, x_of(&p1), x_of(&p2));
    let dy = gap_of(k, y_of(&p1), y_of(&p2));
    let ex = gap_of(k, x_of(&p1), x_of(&p3));
    let ey = gap_of(k, y_of(&p1), y_of(&p3));
    let ab = times(k, minus(k, times(k, dx, ey), times(k, dy, ex)), whole(k, 2));
    let zero = whole(k, 0);
    let nowhere = Coord { x: NAN, y: NAN };
    match (p1, reference) {
        (Some(p1), Some(r)) => {
            if ab == NAN || is_same(ab, zero) {
                let delta = minus(
                    k,
                    times(k, minus(k, r.x, p1.x), ey),
                    times(k, minus(k, r.y, p1.y), ex),
                );
                let a = if is_same(delta, zero) {
                    zero
                } else {
                    let sign = if delta == NAN {
                        NAN
                    } else if is_lt(zero, delta) {
                        whole(k, 1)
                    } else {
                        whole(k, -1)
                    };
                    times(k, whole(k, 1_000_000_000), sign)
                };
                match p3 {
                    Some(p3) => Coord {
                        x: minus(k, mid_of(k, p1.x, p3.x), times(k, a, ey)),
                        y: plus(k, mid_of(k, p1.y, p3.y), times(k, a, ex)),
                    },
                    None => nowhere,
                }
            } else {
                match p3 {
                    Some(p3) => {
                        let tiny = over(k, whole(k, 1), whole(k, 100_000_000));
                        if is_lt(ab, tiny) && is_lt(minus(k, zero, tiny), ab) {
                            Coord { x: mid_of(k, p1.x, p3.x), y: mid_of(k, p1.y, p3.y) }
                        } else {
                            let d = over(k, whole(k, 1), ab);
                            let bl = plus(k, times(k, dx, dx), times(k, dy, dy));
                            let cl = plus(k, times(k, ex, ex), times(k, ey, ey));
                            Coord {
                                x: plus(
                                    k,
                                    p1.x,
                                    times(k, minus(k, times(k, ey, bl), times(k, dy, cl)), d),
                                ),
                                y: plus(
                                    k,
                                    p1.y,
                                    times(k, minus(k, times(k, dx, cl), times(k, ex, bl)), d),
                                ),
                            }
                        }
                    },
                    None => nowhere,
                }
            }
        },
        _ => nowhere,
    }
}

/// The direction of the ray that leaves the hull between `from` and `to`, two
/// points that follow each other on it: `(from.y - to.y, to.x - from.x)`.
pub open spec fn ray<K: Fn(Op) -> i64>(k: &K, from: Coord, to: Coord) -> Coord {
    Coord { x: diff(k, from.y, to.y), y: diff(k, to.x, from.x) }
}

/// The centres of the circles through the triangles of `d`, each taken with
/// the first corner of the first triangle as its reference.
pub open spec fn centers<K: Fn(Op) -> i64>(k: &K, d: &Delaunay) -> Seq<Coord> {
    Seq::new(
        d.triangles@.len() / 3,
        |t: int|
            circumcenter(
                k,
                corner(d.points@, d.triangles@, 3 * t),
                corner(d.points@, d.triangles@, 3 * t + 1),
                corner(d.points@, d.triangles@, 3 * t + 2),
                corner(d.points@, d.triangles@, 0),
            ),
    )
}

/// The ray directions after the first `m` edges of the hull are taken: two
/// for each point, zero at first; the edge that arrives at a hull point sets
/// the first of the point's two, and the second of the point it comes from.
pub open spec fn rays_upto<K: Fn(Op) -> i64>(k: &K, d: &Delaunay, m: int) -> Seq<Coord>
    decreases m,
{
    if m <= 0 {
        Seq::new(2 * d.points@.len(), |i: int| Coord { x: int_of(k, 0), y: int_of(k, 0) })
    } else {
        let prev = if m == 1 {
            d.hull@.last()
        } else {
            d.hull@[m - 2]
        };
        let cur = d.hull@[m - 1];
        let v = ray(k, d.points@[prev as int], d.points@[cur as int]);
        rays_upto(k, d, m - 1).update(2 * prev + 1, v).update(2 * cur, v)
    }
}

/// The ray directions of `d`: for each point of the hull the directions of
/// the two rays that bound its cell, and zero for every other point.
pub open spec fn rays<K: Fn(Op) -> i64>(k: &K, d: &Delaunay) -> Seq<Coord> {
    rays_upto(k, d, d.hull@.len() as int)
}

/// The Voronoi diagram of a Delaunay triangulation within a rectangle.
#[derive(Debug)]
pub struct Voronoi {
    /// The centre of the circle through each triangle: the corners of the
    /// cells.
    pub circumcenters: Vec<Coord>,
    /// The triangulation.
    pub delaunay: Delaunay,
    /// For each point two directions: those of the rays that bound the cell
    /// of a hull point, and zero for a point inside.
    pub vectors: Vec<Coord>,
    /// The least x of the rectangle.
    pub xmin: i64,
    /// The least y of the rectangle.
    pub ymin: i64,
    /// The greatest x of the rectangle.
    pub xmax: i64,
    /// The greatest y of the rectangle.
    pub ymax: i64,
}

/// Corner `e` of the triangles of `d`, where it is a point.
fn corner_of(d: &Delaunay, e: usize) -> (r: Option<Coord>)
    ensures
        r == corner(d.points@, d.triangles@, e as int),
{
    if e < d.triangles.len() && d.triangles[e] < d.points.len() {
        Some(d.points[d.triangles[e]])
    } else {
        None
    }
}

impl Voronoi {
    /// The rectangle has its sides in order, and the arrays fit the
    /// triangulation: a centre for each triangle, two directions for each
    /// point.
    pub open spec fn wf(&self) -> bool {
        &&& bounds_ok(self.bounds())
        &&& self.delaunay.wf()
        &&& self.circumcenters@.len() == self.delaunay.triangles@.len() / 3
        &&& self.vectors@.len() == 2 * self.delaunay.points@.len()
    }

    /// The rectangle, as `(xmin, ymin, xmax, ymax)`.
    pub open spec fn bounds(&self) -> (i64, i64, i64, i64) {
        (self.xmin, self.ymin, self.xmax, self.ymax)
    }

    /// The diagram of `delaunay` within `bounds`, given as
    /// `(xmin, ymin, xmax, ymax)`, or within the default rectangle.
    ///
    /// Fails where `xmax < xmin` or `ymax < ymin`.
    pub fn new<K: Fn(Op) -> i64>(
        delaunay: Delaunay,
        bounds: Option<(i64, i64, i64, i64)>,
        k: &K,
    ) -> (r: Result<Voronoi, InvalidBounds>)
        requires
            kernel_ok(k),
            delaunay.wf(),
            2 * delaunay.points@.len() <= usize::MAX,
        ensures
            r is Err <==> !bounds_ok(
                match bounds {
                    Some(b) => b,
                    None => default_bounds(k),
                },
            ),
            r matches Ok(v) ==> {
                &&& v.wf()
                &&& v.delaunay == delaunay
                &&& v.bounds() == match bounds {
                    Some(b) => b,
                    None => default_bounds(k),
                }
                &&& v.circumcenters@ == centers(k, &delaunay)
                &&& v.vectors@ == rays(k, &delaunay)
            },
    {
        let (xmin, ymin, xmax, ymax) = match bounds {
            Some(b) => b,
            None => (whole(k, 0), whole(k, 0), whole(k, 960), whole(k, 500)),
        };
        if is_lt(xmax, xmin) || is_lt(ymax, ymin) {
            return Err(InvalidBounds);
        }
        let circumcenters = Self::circumcenters_of(&delaunay, k);
        let vectors = Self::vectors_of(&delaunay, k);
        Ok(Voronoi { circumcenters, delaunay, vectors, xmin, ymin, xmax, ymax })
    }

    /// The centre of the circle through each triangle of `d`.
    fn circumcenters_of<K: Fn(Op) -> i64>(d: &Delaunay, k: &K) -> (out: Vec<Coord>)
        requires
            kernel_ok(k),
            d.wf(),
        ensures
            out@ == centers(k, d),
    {
        let len = d.triangles.len();
        let count = len / 3;
        let reference = corner_of(d, 0);
        let mut out: Vec<Coord> = Vec::new();
        let mut t: usize = 0;
        while t < count
            invariant
                kernel_ok(k),
                len == d.triangles@.len(),
                len % 3 == 0,
                count == len / 3,
                reference == corner(d.points@, d.triangles@, 0),
                t <= count,
                out@.len() == t,
                forall|j: int| 0 <= j < t ==> (#[trigger] out@[j]) == centers(k, d)[j],
            decreases count - t,
        {
            let e = 3 * t;
            let c = circumcenter_of(
                k,
                corner_of(d, e),
                corner_of(d, e + 1),
                corner_of(d, e + 2),
                reference,
            );
            out.push(c);
            t += 1;
        }
        proof {
            assert(out@ =~= centers(k, d));
        }
        out
    }

    /// The ray directions of `d`.
    fn vectors_of<K: Fn(Op) -> i64>(d: &Delaunay, k: &K) -> (out: Vec<Coord>)
        requires
            kernel_ok(k),
            d.wf(),
            2 * d.points@.len() <= usize::MAX,
        ensures
            out@ == rays(k, d),
            out@.len() == 2 * d.points@.len(),
    {
        let n = d.points.len();
        let zero = whole(k, 0);
        let mut out: Vec<Coord> = Vec::new();
        let mut i: usize = 0;
        while i < 2 * n
            invariant
                2 * n <= usize::MAX,
                i <= 2 * n,
                out@.len() == i,
                forall|j: int| 0 <= j < i ==> (#[trigger] out@[j]) == (Coord { x: zero, y: zero }),
            decreases 2 * n - i,
        {
            out.push(Coord { x: zero, y: zero });
            i += 1;
        }
        proof {
            assert(out@ =~= rays_upto(k, d, 0));
        }
        let count = d.hull.len();
        if count == 0 {
            return out;
        }
        let mut prev = d.hull[count - 1];
        let mut m: usize = 0;
        while m < count
            invariant
                kernel_ok(k),
                d.wf(),
                n == d.points@.len(),
                2 * n <= usize::MAX,
                count == d.hull@.len(),
                m <= count,
                prev < n,
                prev == if m == 0 {
                    d.hull@.last()
                } else {
                    d.hull@[m - 1]
                },
                out@.len() == 2 * n,
                out@ == rays_upto(k, d, m as int),
            decreases count - m,
        {
            let cur = d.hull[m];
            let from = d.points[prev];
            let to = d.points[cur];
            let v = Coord { x: minus(k, from.y, to.y), y: minus(k, to.x, from.x) };
            out.set(2 * prev + 1, v);
            out.set(2 * cur, v);
            prev = cur;
            m += 1;
        }
        out
    }
}

impl Delaunay {
    /// The Voronoi diagram of this triangulation within `bounds`, or within
    /// the default rectangle.
    pub fn voronoi<K: Fn(Op) -> i64>(self, bounds: Option<(i64, i64, i64, i64)>, k: &K) -> (r:
        Result<Voronoi, InvalidBounds>)
        requires
            kernel_ok(k),
            self.wf(),
            2 * self.points@.len() <= usize::MAX,
        ensures
            r is Err <==> !bounds_ok(
                match bounds {
                    Some(b) => b,
                    None => default_bounds(k),
                },
            ),
            r matches Ok(v) ==> {
                &&& v.wf()
                &&& v.delaunay == self
                &&& v.bounds() == match bounds {
                    Some(b) => b,
                    None => default_bounds(k),
                }
                &&& v.circumcenters@ == centers(k, &self)
                &&& v.vectors@ == rays(k, &self)
            },
    {
        Voronoi::new(self, bounds, k)
    }
}

} // verus!
