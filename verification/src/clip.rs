//! The cells of a Voronoi diagram, cut to the rectangle.
use vstd::prelude::*;
use crate::scalar::{diff, int_of, is_le, is_lt, is_same, kernel_ok, le, lt, minus, over, plus, prod, quot, same, sum, times, whole, Coord, Op};
use crate::triangulation::{all_below, EMPTY};
use crate::voronoi::{bounds_ok, mid, Voronoi};

verus! {

/// How often at most a segment is cut before it is given up.
pub const MAX_CUTS: usize = 16;

/// `e` is the code of a point on the rectangle's boundary: one side, or two
/// that meet.
pub open spec fn is_edge(e: u8) -> bool {
    e == 1 || e == 2 || e == 4 || e == 5 || e == 6 || e == 8 || e == 9 || e == 10
}

/// The code that follows `e` on the way round the boundary: from the corner
/// `(xmin, ymin)` along the side `ymin` to `xmax`, along the side `xmax` to
/// `ymax`, back along the side `ymax` to `xmin` and along the side `xmin` to
/// where it began.
pub open spec fn next_code(e: u8) -> u8 {
    if e == 0b0101 {
        0b0100
    } else if e == 0b0100 {
        0b0110
    } else if e == 0b0110 {
        0b0010
    } else if e == 0b0010 {
        0b1010
    } else if e == 0b1010 {
        0b1000
    } else if e == 0b1000 {
        0b1001
    } else if e == 0b1001 {
        0b0001
    } else {
        0b0101
    }
}

/// The place of `e` on the way round the boundary.
pub open spec fn place(e: u8) -> int {
    if e == 0b0101 {
        0
    } else if e == 0b0100 {
        1
    } else if e == 0b0110 {
        2
    } else if e == 0b0010 {
        3
    } else if e == 0b1010 {
        4
    } else if e == 0b1000 {
        5
    } else if e == 0b1001 {
        6
    } else {
        7
    }
}

/// How many codes the way round the boundary passes from `e0` to `e1`.
pub open spec fn way(e0: u8, e1: u8) -> int {
    if place(e1) >= place(e0) {
        place(e1) - place(e0)
    } else {
        place(e1) - place(e0) + 8
    }
}

/// Three points in a row with one x or one y.
pub open spec fn flat(a: Coord, b: Coord, c: Coord) -> bool {
    (same(a.x, b.x) && same(b.x, c.x)) || (same(a.y, b.y) && same(b.y, c.y))
}

/// `points` without the middle one of each three in a row with one x or one
/// y, looked for from place `a` on and round the end.
pub open spec fn pruned_from(points: Seq<Coord>, a: int) -> Seq<Coord>
    decreases points.len() - a,
{
    if 0 <= a < points.len() {
        let b = (a + 1) % (points.len() as int);
        let c = (b + 1) % (points.len() as int);
        if flat(points[a], points[b], points[c]) {
            pruned_from(points.remove(b), a)
        } else {
            pruned_from(points, a + 1)
        }
    } else {
        points
    }
}

/// `points` without the middle one of each three in a row with one x or one
/// y; as it is where it has two points or fewer.
pub open spec fn pruned(points: Seq<Coord>) -> Seq<Coord> {
    if points.len() > 2 {
        pruned_from(points, 0)
    } else {
        points
    }
}

/// Removes the middle one of each three points in a row with one x or one y.
pub fn prune(points: &mut Vec<Coord>)
    ensures
        final(points)@ == pruned(old(points)@),
        final(points)@.len() <= old(points)@.len(),
        forall|i: int|
            0 <= i < final(points)@.len() ==> old(points)@.contains(#[trigger] final(points)@[i]),
{
    if points.len() > 2 {
        let mut a: usize = 0;
        while a < points.len()
            invariant
                points@.len() <= old(points)@.len(),
                pruned(old(points)@) == pruned_from(points@, a as int),
                forall|i: int| 0 <= i < points@.len() ==> old(points)@.contains(#[trigger] points@[i]),
            decreases points@.len() - a,
        {
            let len = points.len();
            let b = (a + 1) % len;
            let c = (b + 1) % len;
            let pa = points[a];
            let pb = points[b];
            let pc = points[c];
            if (is_same(pa.x, pb.x) && is_same(pb.x, pc.x)) || (is_same(pa.y, pb.y) && is_same(
                pb.y,
                pc.y,
            )) {
                let ghost before = points@;
                points.remove(b);
                proof {
                    assert forall|i: int| 0 <= i < points@.len() implies old(points)@.contains(
                        #[trigger] points@[i],
                    ) by {
                        if i < b {
                            assert(points@[i] == before[i]);
                        } else {
                            assert(points@[i] == before[i + 1]);
                        }
                    }
                }
            } else {
                a += 1;
            }
        }
    }
}

/// `a0 + (a1 - a0) * (b - b0) / (b1 - b0)`: the value at `b` of what goes
/// from `a0` at `b0` to `a1` at `b1`.
pub open spec fn lerp<K: Fn(Op) -> i64>(k: &K, a0: i64, a1: i64, b: i64, b0: i64, b1: i64) -> i64 {
    sum(k, a0, quot(k, prod(k, diff(k, a1, a0), diff(k, b, b0)), diff(k, b1, b0)))
}

/// The value at `b` of what goes from `a0` at `b0` to `a1` at `b1`.
fn lerp_of<K: Fn(Op) -> i64>(k: &K, a0: i64, a1: i64, b: i64, b0: i64, b1: i64) -> (r: i64)
    requires
        kernel_ok(k),
    ensures
        r == lerp(k, a0, a1, b, b0, b1),
{
    plus(k, a0, over(k, times(k, minus(k, a1, a0), minus(k, b, b0)), minus(k, b1, b0)))
}

/// The codes of the sides, alone and in pairs, as numbers.
proof fn lemma_codes()
    ensures
        0u8 | 0u8 == 0u8,
        1u8 | 0u8 == 1u8,
        2u8 | 0u8 == 2u8,
        0u8 | 4u8 == 4u8,
        1u8 | 4u8 == 5u8,
        2u8 | 4u8 == 6u8,
        0u8 | 8u8 == 8u8,
        1u8 | 8u8 == 9u8,
        2u8 | 8u8 == 10u8,
{
    assert(0u8 | 0u8 == 0u8) by (bit_vector);
    assert(1u8 | 0u8 == 1u8) by (bit_vector);
    assert(2u8 | 0u8 == 2u8) by (bit_vector);
    assert(0u8 | 4u8 == 4u8) by (bit_vector);
    assert(1u8 | 4u8 == 5u8) by (bit_vector);
    assert(2u8 | 4u8 == 6u8) by (bit_vector);
    assert(0u8 | 8u8 == 8u8) by (bit_vector);
    assert(1u8 | 8u8 == 9u8) by (bit_vector);
    assert(2u8 | 8u8 == 10u8) by (bit_vector);
}

impl Voronoi {
    /// The sides of the rectangle beyond which `p` lies, as bits: 1 for
    /// `x < xmin`, 2 for `x > xmax`, 4 for `y < ymin`, 8 for `y > ymax`. Zero
    /// for a point inside or on the boundary.
    pub open spec fn regioncode_spec(&self, p: Coord) -> u8 {
        let lower: u8 = if lt(p.x, self.xmin) {
            1
        } else if lt(self.xmax, p.x) {
            2
        } else {
            0
        };
        let upper: u8 = if lt(p.y, self.ymin) {
            4
        } else if lt(self.ymax, p.y) {
            8
        } else {
            0
        };
        lower | upper
    }

    /// The sides of the rectangle on which `p` lies, as bits: 1 for
    /// `x == xmin`, 2 for `x == xmax`, 4 for `y == ymin`, 8 for `y == ymax`.
    pub open spec fn edgecode_spec(&self, p: Coord) -> u8 {
        let lower: u8 = if same(p.x, self.xmin) {
            1
        } else if same(p.x, self.xmax) {
            2
        } else {
            0
        };
        let upper: u8 = if same(p.y, self.ymin) {
            4
        } else if same(p.y, self.ymax) {
            8
        } else {
            0
        };
        lower | upper
    }

    /// Every one of `points` lies in the rectangle or on its boundary.
    pub open spec fn within(&self, points: Seq<Coord>) -> bool {
        forall|j: int| 0 <= j < points.len() ==> self.regioncode_spec(#[trigger] points[j]) == 0
    }

    /// The corners of a rectangle with its sides in order lie in it.
    pub proof fn lemma_corners_within(&self)
        requires
            bounds_ok(self.bounds()),
        ensures
            self.regioncode_spec(Coord { x: self.xmax, y: self.ymin }) == 0,
            self.regioncode_spec(Coord { x: self.xmax, y: self.ymax }) == 0,
            self.regioncode_spec(Coord { x: self.xmin, y: self.ymax }) == 0,
            self.regioncode_spec(Coord { x: self.xmin, y: self.ymin }) == 0,
            self.within(self.frame()),
            self.within(self.frame_from_origin()),
    {
        lemma_codes();
    }

    /// The sides of the rectangle on which `p` lies.
    pub fn edgecode(&self, p: &Coord) -> (e: u8)
        ensures
            e == self.edgecode_spec(*p),
            e == 0 || is_edge(e),
    {
        let lower: u8 = if is_same(p.x, self.xmin) {
            1
        } else if is_same(p.x, self.xmax) {
            2
        } else {
            0
        };
        let upper: u8 = if is_same(p.y, self.ymin) {
            4
        } else if is_same(p.y, self.ymax) {
            8
        } else {
            0
        };
        proof {
            lemma_codes();
        }
        lower | upper
    }

    /// The sides of the rectangle beyond which `p` lies.
    pub fn regioncode(&self, p: &Coord) -> (c: u8)
        ensures
            c == self.regioncode_spec(*p),
    {
        let lower: u8 = if is_lt(p.x, self.xmin) {
            1
        } else if is_lt(self.xmax, p.x) {
            2
        } else {
            0
        };
        let upper: u8 = if is_lt(p.y, self.ymin) {
            4
        } else if is_lt(self.ymax, p.y) {
            8
        } else {
            0
        };
        lower | upper
    }

    /// Point `i` is the nearest to `p` among itself and its neighbours.
    pub open spec fn contains_spec<K: Fn(Op) -> i64>(&self, k: &K, i: usize, p: Coord) -> bool {
        self.delaunay.step_spec(k, p, i) == i
    }

    /// Tests whether the cell of point `i` contains `p`: whether `i` is the
    /// nearest to `p` among itself and its neighbours.
    pub fn contains<K: Fn(Op) -> i64>(&self, i: usize, p: &Coord, k: &K) -> (r: bool)
        requires
            self.wf(),
            kernel_ok(k),
            i < self.delaunay.points@.len(),
        ensures
            r == self.contains_spec(k, i, *p),
    {
        self.delaunay.step(i, p, k) == i
    }

    /// The corners of the cell of point `i` before it is cut: the centres of
    /// the triangles round `i`, in the order of the ring of `i`. None where no
    /// triangle uses the point.
    pub open spec fn cell_spec(&self, i: int) -> Option<Seq<Coord>> {
        if self.delaunay.inedges@[i] == EMPTY {
            None
        } else {
            Some(
                Seq::new(
                    self.delaunay.ring(i).len(),
                    |j: int| self.circumcenters@[self.delaunay.ring(i)[j] as int / 3],
                ),
            )
        }
    }

    /// The corners of the cell of point `i` before it is cut.
    pub fn cell(&self, i: usize) -> (r: Option<Vec<Coord>>)
        requires
            self.wf(),
            i < self.delaunay.points@.len(),
        ensures
            match r {
                Some(v) => self.cell_spec(i as int) == Some(v@) && v@.len() > 0,
                None => self.cell_spec(i as int) is None,
            },
    {
        if self.delaunay.inedges[i] == EMPTY {
            return None;
        }
        let (ring, _) = self.delaunay.walk(i);
        let mut points: Vec<Coord> = Vec::new();
        let mut j: usize = 0;
        while j < ring.len()
            invariant
                self.wf(),
                all_below(ring@, self.delaunay.triangles@.len() as int),
                j <= ring@.len(),
                points@.len() == j,
                forall|a: int|
                    0 <= a < j ==> (#[trigger] points@[a]) == self.circumcenters@[ring@[a] as int / 3],
            decreases ring@.len() - j,
        {
            points.push(self.circumcenters[ring[j] / 3]);
            j += 1;
        }
        proof {
            assert(points@ =~= self.cell_spec(i as int).unwrap());
        }
        Some(points)
    }

    /// The corner of the rectangle at the end of the side `e`, on the way
    /// round the boundary. None for the code of a corner.
    pub open spec fn corner_after(&self, e: u8) -> Option<Coord> {
        if e == 0b0100 {
            Some(Coord { x: self.xmax, y: self.ymin })
        } else if e == 0b0010 {
            Some(Coord { x: self.xmax, y: self.ymax })
        } else if e == 0b1000 {
            Some(Coord { x: self.xmin, y: self.ymax })
        } else if e == 0b0001 {
            Some(Coord { x: self.xmin, y: self.ymin })
        } else {
            None
        }
    }

    /// `points` with the corners of the rectangle put in at place `j` that
    /// the way round the boundary from `e0` to `e1` passes, and the place
    /// after them. A corner is put in where it belongs to the cell of point
    /// `i` and is not the point at that place already.
    pub open spec fn with_corners<K: Fn(Op) -> i64>(
        &self,
        k: &K,
        i: usize,
        e0: u8,
        e1: u8,
        points: Seq<Coord>,
        j: int,
    ) -> (Seq<Coord>, int)
        decreases way(e0, e1),
    {
        if e0 == e1 || !is_edge(e0) || !is_edge(e1) {
            (points, j)
        } else {
            match self.corner_after(e0) {
                Some(c) => if (j >= points.len() || !same(points[j].x, c.x) || !same(
                    points[j].y,
                    c.y,
                )) && self.contains_spec(k, i, c) {
                    self.with_corners(k, i, next_code(e0), e1, points.insert(j, c), j + 1)
                } else {
                    self.with_corners(k, i, next_code(e0), e1, points, j)
                },
                None => self.with_corners(k, i, next_code(e0), e1, points, j),
            }
        }
    }

    /// `points` joined along the boundary from a point with code `e0` to one
    /// with code `e1` at place `j`: the corners between them are put in, and
    /// what then lies in a row is pruned. With it the place after the
    /// corners.
    pub open spec fn edge_spec<K: Fn(Op) -> i64>(
        &self,
        k: &K,
        i: usize,
        e0: u8,
        e1: u8,
        points: Seq<Coord>,
        j: int,
    ) -> (Seq<Coord>, int) {
        let r = self.with_corners(k, i, e0, e1, points, j);
        (pruned(r.0), r.1)
    }

    /// Joins `points` along the boundary from a point with code `e0` to one
    /// with code `e1` at place `j`, for the cell of point `i`. Returns the
    /// place after the corners put in.
    pub fn edge<K: Fn(Op) -> i64>(
        &self,
        i: usize,
        e0: u8,
        e1: u8,
        points: &mut Vec<Coord>,
        j: usize,
        k: &K,
    ) -> (r: usize)
        requires
            self.wf(),
            kernel_ok(k),
            i < self.delaunay.points@.len(),
            is_edge(e0),
            is_edge(e1),
            j <= old(points)@.len(),
        ensures
            (final(points)@, r as int) == self.edge_spec(k, i, e0, e1, old(points)@, j as int),
            j <= r,
            final(points)@.len() - r <= old(points)@.len() - j,
            self.within(old(points)@) ==> self.within(final(points)@),
    {
        proof {
            self.lemma_corners_within();
        }
        let mut e = e0;
        let mut at = j;
        while e != e1
            invariant
                self.wf(),
                kernel_ok(k),
                i < self.delaunay.points@.len(),
                is_edge(e),
                is_edge(e1),
                j <= at <= points@.len(),
                points@.len() - at == old(points)@.len() - j,
                self.within(old(points)@) ==> self.within(points@),
                self.regioncode_spec(Coord { x: self.xmax, y: self.ymin }) == 0,
                self.regioncode_spec(Coord { x: self.xmax, y: self.ymax }) == 0,
                self.regioncode_spec(Coord { x: self.xmin, y: self.ymax }) == 0,
                self.regioncode_spec(Coord { x: self.xmin, y: self.ymin }) == 0,
                self.with_corners(k, i, e0, e1, old(points)@, j as int) == self.with_corners(
                    k,
                    i,
                    e,
                    e1,
                    points@,
                    at as int,
                ),
            decreases way(e, e1),
        {
            let corner = if e == 0b0100 {
                Some(Coord { x: self.xmax, y: self.ymin })
            } else if e == 0b0010 {
                Some(Coord { x: self.xmax, y: self.ymax })
            } else if e == 0b1000 {
                Some(Coord { x: self.xmin, y: self.ymax })
            } else if e == 0b0001 {
                Some(Coord { x: self.xmin, y: self.ymin })
            } else {
                None
            };
            let next: u8 = if e == 0b0101 {
                0b0100
            } else if e == 0b0100 {
                0b0110
            } else if e == 0b0110 {
                0b0010
            } else if e == 0b0010 {
                0b1010
            } else if e == 0b1010 {
                0b1000
            } else if e == 0b1000 {
                0b1001
            } else if e == 0b1001 {
                0b0001
            } else {
                0b0101
            };
            match corner {
                Some(c) => {
                    if (at >= points.len() || !is_same(points[at].x, c.x) || !is_same(
                        points[at].y,
                        c.y,
                    )) && self.contains(i, &c, k) {
                        points.insert(at, c);
                        proof {
                            assert(points.len() <= usize::MAX);
                        }
                        at += 1;
                    }
                },
                None => {},
            }
            e = next;
        }
        let ghost unpruned = points@;
        prune(points);
        proof {
            if self.within(unpruned) {
                assert forall|a: int| 0 <= a < points@.len() implies self.regioncode_spec(
                    #[trigger] points@[a],
                ) == 0 by {
                    let b = choose|b: int| 0 <= b < unpruned.len() && unpruned[b] == points@[a];
                    assert(self.regioncode_spec(unpruned[b]) == 0);
                }
            }
        }
        at
    }

    /// Where the ray from `p0` in the direction `(vx, vy)` leaves the
    /// rectangle.
    ///
    /// The ray is followed to the side `ymin` or `ymax`, by the sign of
    /// `vy`, and to the side `xmax` or `xmin`, by the sign of `vx`; the
    /// point is where it arrives first, the side `ymin` or `ymax` where it
    /// arrives at both at once. None where `p0` is on or beyond a side that
    /// the ray goes to. The origin where the direction is zero.
    pub open spec fn project_spec<K: Fn(Op) -> i64>(
        &self,
        k: &K,
        p0: Coord,
        vx: i64,
        vy: i64,
    ) -> Option<Coord> {
        let zero = int_of(k, 0);
        let inf = quot(k, int_of(k, 1), int_of(k, 0));
        let to_ymin = lt(vy, zero);
        let to_ymax = lt(zero, vy);
        let to_xmax = lt(zero, vx);
        let to_xmin = lt(vx, zero);
        let side_y = if to_ymin {
            self.ymin
        } else {
            self.ymax
        };
        let side_x = if to_xmax {
            self.xmax
        } else {
            self.xmin
        };
        let cy = quot(k, diff(k, side_y, p0.y), vy);
        let cx = quot(k, diff(k, side_x, p0.x), vx);
        let first = (to_ymin || to_ymax) && lt(cy, inf);
        let t = if first {
            cy
        } else {
            inf
        };
        let second = (to_xmax || to_xmin) && lt(cx, t);
        if (to_ymin && le(p0.y, self.ymin)) || (to_ymax && le(self.ymax, p0.y)) || (to_xmax && le(
            self.xmax,
            p0.x,
        )) || (to_xmin && le(p0.x, self.xmin)) {
            None
        } else if second {
            Some(Coord { x: side_x, y: sum(k, p0.y, prod(k, cx, vy)) })
        } else if first {
            Some(Coord { x: sum(k, p0.x, prod(k, cy, vx)), y: side_y })
        } else {
            Some(Coord { x: zero, y: zero })
        }
    }

    /// Where the ray from `p0` in the direction `(vx, vy)` leaves the
    /// rectangle.
    pub fn project<K: Fn(Op) -> i64>(&self, p0: &Coord, vx: i64, vy: i64, k: &K) -> (r: Option<
        Coord,
    >)
        requires
            kernel_ok(k),
        ensures
            r == self.project_spec(k, *p0, vx, vy),
    {
        let zero = whole(k, 0);
        let mut t = over(k, whole(k, 1), zero);
        let mut x = zero;
        let mut y = zero;
        if is_lt(vy, zero) {
            if is_le(p0.y, self.ymin) {
                return None;
            }
            let c = over(k, minus(k, self.ymin, p0.y), vy);
            if is_lt(c, t) {
                y = self.ymin;
                t = c;
                x = plus(k, p0.x, times(k, t, vx));
            }
        } else if is_lt(zero, vy) {
            if is_le(self.ymax, p0.y) {
                return None;
            }
            let c = over(k, minus(k, self.ymax, p0.y), vy);
            if is_lt(c, t) {
                y = self.ymax;
                t = c;
                x = plus(k, p0.x, times(k, t, vx));
            }
        }
        if is_lt(zero, vx) {
            if is_le(self.xmax, p0.x) {
                return None;
            }
            let c = over(k, minus(k, self.xmax, p0.x), vx);
            if is_lt(c, t) {
                x = self.xmax;
                t = c;
                y = plus(k, p0.y, times(k, t, vy));
            }
        } else if is_lt(vx, zero) {
            if is_le(p0.x, self.xmin) {
                return None;
            }
            let c = over(k, minus(k, self.xmin, p0.x), vx);
            if is_lt(c, t) {
                x = self.xmin;
                t = c;
                y = plus(k, p0.y, times(k, t, vy));
            }
        }
        Some(Coord { x, y })
    }

    /// Where the line through `p0` and `p1` meets the side that `c` names
    /// first: the side `ymax`, the side `ymin`, the side `xmax`, the side
    /// `xmin`.
    pub open spec fn cut_point<K: Fn(Op) -> i64>(&self, k: &K, p0: Coord, p1: Coord, c: u8) -> Coord {
        if c & 0b1000 != 0 {
            Coord { x: lerp(k, p0.x, p1.x, self.ymax, p0.y, p1.y), y: self.ymax }
        } else if c & 0b0100 != 0 {
            Coord { x: lerp(k, p0.x, p1.x, self.ymin, p0.y, p1.y), y: self.ymin }
        } else if c & 0b0010 != 0 {
            Coord { x: self.xmax, y: lerp(k, p0.y, p1.y, self.xmax, p0.x, p1.x) }
        } else {
            Coord { x: self.xmin, y: lerp(k, p0.y, p1.y, self.xmin, p0.x, p1.x) }
        }
    }

    /// The part of the segment from `p0` to `p1` that lies in the rectangle,
    /// found in at most `fuel` cuts; `c0` and `c1` are the region codes of
    /// the two ends.
    ///
    /// With both ends inside it is the segment. With both ends beyond one
    /// side there is none. Else the end that is outside (the first, where
    /// both are) is moved to where the line meets a side beyond which it
    /// lies, and the rest is cut again; there is none where the cuts are
    /// used up.
    pub open spec fn cut_spec<K: Fn(Op) -> i64>(
        &self,
        k: &K,
        p0: Coord,
        p1: Coord,
        c0: u8,
        c1: u8,
        fuel: nat,
    ) -> Option<(Coord, Coord)>
        decreases fuel,
    {
        if c0 == 0 && c1 == 0 {
            Some((p0, p1))
        } else if c0 & c1 != 0 || fuel == 0 {
            None
        } else if c0 == 0 {
            let q = self.cut_point(k, p0, p1, c1);
            self.cut_spec(k, p0, q, c0, self.regioncode_spec(q), (fuel - 1) as nat)
        } else {
            let q = self.cut_point(k, p0, p1, c0);
            self.cut_spec(k, q, p1, self.regioncode_spec(q), c1, (fuel - 1) as nat)
        }
    }

    /// The part of the segment from `p0` to `p1` that lies in the rectangle:
    /// [`Self::cut_spec`] with [`MAX_CUTS`] cuts.
    pub open spec fn clip_segment_spec<K: Fn(Op) -> i64>(
        &self,
        k: &K,
        p0: Coord,
        p1: Coord,
        c0: u8,
        c1: u8,
    ) -> Option<(Coord, Coord)> {
        self.cut_spec(k, p0, p1, c0, c1, MAX_CUTS as nat)
    }

    /// The part of the segment from `p0` to `p1` that lies in the rectangle;
    /// `c0` and `c1` are the region codes of the two ends.
    pub fn clip_segment<K: Fn(Op) -> i64>(
        &self,
        p0: &Coord,
        p1: &Coord,
        c0: u8,
        c1: u8,
        k: &K,
    ) -> (r: Option<(Coord, Coord)>)
        requires
            kernel_ok(k),
        ensures
            r == self.clip_segment_spec(k, *p0, *p1, c0, c1),
            c0 == self.regioncode_spec(*p0) && c1 == self.regioncode_spec(*p1) ==> match r {
                Some(s) => self.regioncode_spec(s.0) == 0 && self.regioncode_spec(s.1) == 0,
                None => true,
            },
    {
        let mut a = *p0;
        let mut b = *p1;
        let mut ca = c0;
        let mut cb = c1;
        let mut fuel = MAX_CUTS;
        loop
            invariant
                kernel_ok(k),
                c0 == self.regioncode_spec(*p0) && c1 == self.regioncode_spec(*p1) ==> ca
                    == self.regioncode_spec(a) && cb == self.regioncode_spec(b),
                self.clip_segment_spec(k, *p0, *p1, c0, c1) == self.cut_spec(
                    k,
                    a,
                    b,
                    ca,
                    cb,
                    fuel as nat,
                ),
            decreases fuel,
        {
            if ca == 0 && cb == 0 {
                return Some((a, b));
            }
            if ca & cb != 0 || fuel == 0 {
                return None;
            }
            let c = if ca == 0 {
                cb
            } else {
                ca
            };
            let q = if c & 0b1000 != 0 {
                Coord { x: lerp_of(k, a.x, b.x, self.ymax, a.y, b.y), y: self.ymax }
            } else if c & 0b0100 != 0 {
                Coord { x: lerp_of(k, a.x, b.x, self.ymin, a.y, b.y), y: self.ymin }
            } else if c & 0b0010 != 0 {
                Coord { x: self.xmax, y: lerp_of(k, a.y, b.y, self.xmax, a.x, b.x) }
            } else {
                Coord { x: self.xmin, y: lerp_of(k, a.y, b.y, self.xmin, a.x, b.x) }
            };
            if ca == 0 {
                b = q;
                cb = self.regioncode(&b);
            } else {
                a = q;
                ca = self.regioncode(&a);
            }
            fuel -= 1;
        }
    }

    /// The middle of the rectangle.
    pub open spec fn center<K: Fn(Op) -> i64>(&self, k: &K) -> Coord {
        Coord { x: mid(k, self.xmin, self.xmax), y: mid(k, self.ymin, self.ymax) }
    }

    /// The corners of the rectangle, from `(xmax, ymin)` on, `(xmax, ymax)`
    /// next.
    pub open spec fn frame(&self) -> Seq<Coord> {
        seq![
            Coord { x: self.xmax, y: self.ymin },
            Coord { x: self.xmax, y: self.ymax },
            Coord { x: self.xmin, y: self.ymax },
            Coord { x: self.xmin, y: self.ymin },
        ]
    }

    /// The corners of the rectangle, from `(xmin, ymin)` on, `(xmax, ymin)`
    /// next.
    pub open spec fn frame_from_origin(&self) -> Seq<Coord> {
        seq![
            Coord { x: self.xmin, y: self.ymin },
            Coord { x: self.xmax, y: self.ymin },
            Coord { x: self.xmax, y: self.ymax },
            Coord { x: self.xmin, y: self.ymax },
        ]
    }

    /// The polygon so far, and the edge code of its last point, after `s` is
    /// added: where the last point and `s` are both on the boundary, the
    /// polygon is first joined along the boundary from the one to the other.
    pub open spec fn joined<K: Fn(Op) -> i64>(
        &self,
        k: &K,
        i: usize,
        st: (Seq<Coord>, u8),
        s: Coord,
    ) -> (Seq<Coord>, u8) {
        let e1 = self.edgecode_spec(s);
        let points = if st.1 != 0 && e1 != 0 {
            self.edge_spec(k, i, st.1, e1, st.0, st.0.len() as int).0
        } else {
            st.0
        };
        (points.push(s), e1)
    }

    /// The polygon so far, and the edge code of its last point, after the
    /// side from `p0` to `p1` of the cell is taken.
    ///
    /// With both ends in the rectangle `p1` is added. Else the side is cut to
    /// the rectangle; where nothing is left of it the polygon stays; where
    /// `p0` is inside, the cut end is added; where `p0` is outside, the two
    /// cut ends are added, the one nearer to `p0` first. What is added is
    /// joined to the polygon along the boundary.
    pub open spec fn finite_step<K: Fn(Op) -> i64>(
        &self,
        k: &K,
        i: usize,
        st: (Seq<Coord>, u8),
        p0: Coord,
        p1: Coord,
    ) -> (Seq<Coord>, u8) {
        let c0 = self.regioncode_spec(p0);
        let c1 = self.regioncode_spec(p1);
        if c0 == 0 && c1 == 0 {
            (st.0.push(p1), 0)
        } else if c0 == 0 {
            match self.clip_segment_spec(k, p0, p1, c0, c1) {
                Some(s) => self.joined(k, i, st, s.1),
                None => st,
            }
        } else {
            match self.clip_segment_spec(k, p1, p0, c1, c0) {
                Some(s) => self.joined(k, i, self.joined(k, i, st, s.1), s.0),
                None => st,
            }
        }
    }

    /// The polygon, and the edge code of its last point, after the first `m`
    /// sides of the cell are taken; the first side comes from the last of
    /// `points` to the first.
    pub open spec fn finite_walk<K: Fn(Op) -> i64>(
        &self,
        k: &K,
        i: usize,
        points: Seq<Coord>,
        m: int,
    ) -> (Seq<Coord>, u8)
        decreases m,
    {
        if m <= 0 {
            (Seq::empty(), 0)
        } else {
            let p0 = if m == 1 {
                points.last()
            } else {
                points[m - 2]
            };
            self.finite_step(k, i, self.finite_walk(k, i, points, m - 1), p0, points[m - 1])
        }
    }

    /// The cell of point `i` with the corners `points`, cut to the rectangle.
    ///
    /// Its sides are taken one by one; the polygon that results is joined
    /// along the boundary from its last point to its first. Where nothing
    /// results, the cell is the whole rectangle if it holds the rectangle's
    /// middle, and empty if not.
    pub open spec fn clip_finite_spec<K: Fn(Op) -> i64>(
        &self,
        k: &K,
        i: usize,
        points: Seq<Coord>,
    ) -> Seq<Coord> {
        let st = self.finite_walk(k, i, points, points.len() as int);
        if st.0.len() > 0 {
            let e1 = self.edgecode_spec(st.0[0]);
            if st.1 != 0 && e1 != 0 {
                self.edge_spec(k, i, st.1, e1, st.0, st.0.len() as int).0
            } else {
                st.0
            }
        } else if self.contains_spec(k, i, self.center(k)) {
            self.frame()
        } else {
            st.0
        }
    }

    /// Adds `s` to the polygon, joined along the boundary.
    fn join<K: Fn(Op) -> i64>(&self, i: usize, out: &mut Vec<Coord>, e1: u8, s: Coord, k: &K) -> (e:
        u8)
        requires
            self.wf(),
            kernel_ok(k),
            i < self.delaunay.points@.len(),
            e1 == 0 || is_edge(e1),
        ensures
            (final(out)@, e) == self.joined(k, i, (old(out)@, e1), s),
            e == 0 || is_edge(e),
            self.within(old(out)@) && self.regioncode_spec(s) == 0 ==> self.within(final(out)@),
    {
        let e = self.edgecode(&s);
        if e1 != 0 && e != 0 {
            let len = out.len();
            self.edge(i, e1, e, out, len, k);
        }
        out.push(s);
        e
    }

    /// The middle of the rectangle.
    fn center_of<K: Fn(Op) -> i64>(&self, k: &K) -> (c: Coord)
        requires
            kernel_ok(k),
        ensures
            c == self.center(k),
    {
        let two = whole(k, 2);
        Coord {
            x: over(k, plus(k, self.xmin, self.xmax), two),
            y: over(k, plus(k, self.ymin, self.ymax), two),
        }
    }

    /// The cell of point `i` with the corners `points`, cut to the rectangle.
    pub fn clip_finite<K: Fn(Op) -> i64>(&self, i: usize, points: &Vec<Coord>, k: &K) -> (out: Vec<
        Coord,
    >)
        requires
            self.wf(),
            kernel_ok(k),
            i < self.delaunay.points@.len(),
            points@.len() > 0,
        ensures
            out@ == self.clip_finite_spec(k, i, points@),
            self.within(out@),
    {
        let mut out: Vec<Coord> = Vec::new();
        let mut p1 = points[points.len() - 1];
        let mut c1 = self.regioncode(&p1);
        let mut e1: u8 = 0;
        let mut m: usize = 0;
        while m < points.len()
            invariant
                self.wf(),
                kernel_ok(k),
                i < self.delaunay.points@.len(),
                points@.len() > 0,
                m <= points@.len(),
                p1 == if m == 0 {
                    points@.last()
                } else {
                    points@[m - 1]
                },
                c1 == self.regioncode_spec(p1),
                e1 == 0 || is_edge(e1),
                self.within(out@),
                (out@, e1) == self.finite_walk(k, i, points@, m as int),
            decreases points@.len() - m,
        {
            let p0 = p1;
            p1 = points[m];
            let c0 = c1;
            c1 = self.regioncode(&p1);
            if c0 == 0 && c1 == 0 {
                e1 = 0;
                out.push(p1);
            } else if c0 == 0 {
                match self.clip_segment(&p0, &p1, c0, c1, k) {
                    Some(s) => {
                        e1 = self.join(i, &mut out, e1, s.1, k);
                    },
                    None => {},
                }
            } else {
                match self.clip_segment(&p1, &p0, c1, c0, k) {
                    Some(s) => {
                        e1 = self.join(i, &mut out, e1, s.1, k);
                        e1 = self.join(i, &mut out, e1, s.0, k);
                    },
                    None => {},
                }
            }
            m += 1;
        }
        if out.len() > 0 {
            let e = self.edgecode(&out[0]);
            if e1 != 0 && e != 0 {
                let len = out.len();
                self.edge(i, e1, e, &mut out, len, k);
            }
            out
        } else if self.contains(i, &self.center_of(k), k) {
            let mut frame: Vec<Coord> = Vec::new();
            frame.push(Coord { x: self.xmax, y: self.ymin });
            frame.push(Coord { x: self.xmax, y: self.ymax });
            frame.push(Coord { x: self.xmin, y: self.ymax });
            frame.push(Coord { x: self.xmin, y: self.ymin });
            proof {
                assert(frame@ =~= self.frame());
                self.lemma_corners_within();
            }
            frame
        } else {
            out
        }
    }

    /// `points` joined along the boundary wherever two points that follow
    /// each other lie on it, from place `j` on; `c1` is the edge code of the
    /// point before place `j`.
    pub open spec fn stitched<K: Fn(Op) -> i64>(
        &self,
        k: &K,
        i: usize,
        points: Seq<Coord>,
        c1: u8,
        j: int,
    ) -> Seq<Coord>
        decreases points.len() - j,
    {
        if 0 <= j < points.len() {
            let c = self.edgecode_spec(points[j]);
            let r = if c1 != 0 && c != 0 {
                self.edge_spec(k, i, c1, c, points, j)
            } else {
                (points, j)
            };
            if r.1 + 1 >= r.0.len() || r.1 < j || r.0.len() - r.1 > points.len() - j {
                r.0
            } else {
                self.stitched(k, i, r.0, c, r.1 + 1)
            }
        } else {
            points
        }
    }

    /// The cell of the hull point `i` with the corners `points`, cut to the
    /// rectangle; `(vx0, vy0)` and `(vxn, vyn)` are the directions of the two
    /// rays that bound it.
    ///
    /// The points where the two rays leave the rectangle are put before and
    /// after the corners, where there are such points. The polygon is cut as
    /// a closed one and joined along the boundary wherever two of its points
    /// that follow each other lie on it. Where nothing results, the cell is
    /// the whole rectangle if it holds the rectangle's middle, and empty if
    /// not.
    pub open spec fn clip_infinite_spec<K: Fn(Op) -> i64>(
        &self,
        k: &K,
        i: usize,
        points: Seq<Coord>,
        vx0: i64,
        vy0: i64,
        vxn: i64,
        vyn: i64,
    ) -> Seq<Coord> {
        let front = match self.project_spec(k, points[0], vx0, vy0) {
            Some(p) => points.insert(0, p),
            None => points,
        };
        let both = match self.project_spec(k, front.last(), vxn, vyn) {
            Some(p) => front.push(p),
            None => front,
        };
        let cut = self.clip_finite_spec(k, i, both);
        if cut.len() > 0 {
            self.stitched(k, i, cut, self.edgecode_spec(cut.last()), 0)
        } else if self.contains_spec(k, i, self.center(k)) {
            self.frame_from_origin()
        } else {
            cut
        }
    }

    /// The cell of the hull point `i` with the corners `points`, cut to the
    /// rectangle.
    pub fn clip_infinite<K: Fn(Op) -> i64>(
        &self,
        i: usize,
        points: &Vec<Coord>,
        vx0: i64,
        vy0: i64,
        vxn: i64,
        vyn: i64,
        k: &K,
    ) -> (out: Vec<Coord>)
        requires
            self.wf(),
            kernel_ok(k),
            i < self.delaunay.points@.len(),
            points@.len() > 0,
        ensures
            out@ == self.clip_infinite_spec(k, i, points@, vx0, vy0, vxn, vyn),
            self.within(out@),
    {
        let mut all: Vec<Coord> = Vec::new();
        let mut m: usize = 0;
        while m < points.len()
            invariant
                m <= points@.len(),
                all@ == points@.take(m as int),
            decreases points@.len() - m,
        {
            all.push(points[m]);
            proof {
                assert(all@ =~= points@.take(m + 1));
            }
            m += 1;
        }
        proof {
            assert(points@.take(points@.len() as int) =~= points@);
        }
        match self.project(&all[0], vx0, vy0, k) {
            Some(p) => {
                all.insert(0, p);
            },
            None => {},
        }
        match self.project(&all[all.len() - 1], vxn, vyn, k) {
            Some(p) => {
                all.push(p);
            },
            None => {},
        }
        let mut out = self.clip_finite(i, &all, k);
        if out.len() > 0 {
            let ghost cut = out@;
            let mut c1 = self.edgecode(&out[out.len() - 1]);
            let mut j: usize = 0;
            loop
                invariant_except_break
                    self.wf(),
                    kernel_ok(k),
                    i < self.delaunay.points@.len(),
                    j < out@.len(),
                    c1 == 0 || is_edge(c1),
                    self.within(out@),
                    self.stitched(k, i, cut, self.edgecode_spec(cut.last()), 0) == self.stitched(
                        k,
                        i,
                        out@,
                        c1,
                        j as int,
                    ),
                ensures
                    out@ == self.stitched(k, i, cut, self.edgecode_spec(cut.last()), 0),
                    self.within(out@),
                decreases out@.len() - j,
            {
                let c0 = c1;
                c1 = self.edgecode(&out[j]);
                if c0 != 0 && c1 != 0 {
                    j = self.edge(i, c0, c1, &mut out, j, k);
                }
                if j >= out.len() || j + 1 >= out.len() {
                    break ;
                }
                j += 1;
            }
            out
        } else if self.contains(i, &self.center_of(k), k) {
            let mut frame: Vec<Coord> = Vec::new();
            frame.push(Coord { x: self.xmin, y: self.ymin });
            frame.push(Coord { x: self.xmax, y: self.ymin });
            frame.push(Coord { x: self.xmax, y: self.ymax });
            frame.push(Coord { x: self.xmin, y: self.ymax });
            proof {
                assert(frame@ =~= self.frame_from_origin());
                self.lemma_corners_within();
            }
            frame
        } else {
            out
        }
    }

    /// The cell of point `i`, cut to the rectangle.
    ///
    /// With a hull of one point, the cell of point 0 is the whole rectangle.
    /// There is no cell where no triangle uses the point. A point with a ray
    /// direction that is not zero has a cell that is open towards the hull,
    /// and any other point a closed one.
    pub open spec fn clip_spec<K: Fn(Op) -> i64>(&self, k: &K, i: usize) -> Option<Seq<Coord>> {
        if i == 0 && self.delaunay.hull@.len() == 1 {
            Some(self.frame())
        } else {
            match self.cell_spec(i as int) {
                Some(points) => {
                    let v = self.vectors@[2 * i];
                    let w = self.vectors@[2 * i + 1];
                    if !same(v.x, int_of(k, 0)) || !same(v.y, int_of(k, 0)) {
                        Some(self.clip_infinite_spec(k, i, points, v.x, v.y, w.x, w.y))
                    } else {
                        Some(self.clip_finite_spec(k, i, points))
                    }
                },
                None => None,
            }
        }
    }

    /// The cell of point `i`, cut to the rectangle.
    pub fn clip<K: Fn(Op) -> i64>(&self, i: usize, k: &K) -> (r: Option<Vec<Coord>>)
        requires
            self.wf(),
            kernel_ok(k),
            i < self.delaunay.points@.len(),
        ensures
            match r {
                Some(v) => self.clip_spec(k, i) == Some(v@) && self.within(v@),
                None => self.clip_spec(k, i) is None,
            },
    {
        if i == 0 && self.delaunay.hull.len() == 1 {
            let mut frame: Vec<Coord> = Vec::new();
            frame.push(Coord { x: self.xmax, y: self.ymin });
            frame.push(Coord { x: self.xmax, y: self.ymax });
            frame.push(Coord { x: self.xmin, y: self.ymax });
            frame.push(Coord { x: self.xmin, y: self.ymin });
            proof {
                assert(frame@ =~= self.frame());
                self.lemma_corners_within();
            }
            return Some(frame);
        }
        match self.cell(i) {
            Some(points) => {
                let zero = whole(k, 0);
                proof {
                    assert(self.vectors.len() <= usize::MAX);
                }
                let v = self.vectors[2 * i];
                let w = self.vectors[2 * i + 1];
                if !is_same(v.x, zero) || !is_same(v.y, zero) {
                    Some(self.clip_infinite(i, &points, v.x, v.y, w.x, w.y, k))
                } else {
                    Some(self.clip_finite(i, &points, k))
                }
            },
            None => None,
        }
    }
}

} // verus!
