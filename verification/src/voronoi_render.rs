//! What is drawn for a Voronoi diagram: its cells and its mesh.
use vstd::prelude::*;
use crate::context::{replay, CanvasRenderingContext2d, Command};
use crate::path::{format_ok, path_text, Path};
use crate::polygon::{drawn_among, lemma_outline_among, lemma_outline_closed, outline, outline_of};
use crate::scalar::{is_same_coord, kernel_ok, same_coord, Coord, Op};
use crate::triangulation::EMPTY;
use crate::voronoi::Voronoi;

verus! {

/// How many of the first `n` of `points` are left when those at the end that
/// equal the first point are dropped; the first point itself stays.
pub open spec fn trimmed(points: Seq<Coord>, n: int) -> int
    decreases n,
{
    if n > 1 && same_coord(points[0], points[n - 1]) {
        trimmed(points, n - 1)
    } else {
        n
    }
}

/// A line to each of the points 1 to `m - 1` that differs from the point
/// before it.
pub open spec fn lines_upto(points: Seq<Coord>, m: int) -> Seq<Command>
    decreases m,
{
    if m <= 1 {
        Seq::empty()
    } else if same_coord(points[m - 1], points[m - 2]) {
        lines_upto(points, m - 1)
    } else {
        lines_upto(points, m - 1).push(Command::LineTo(points[m - 1]))
    }
}

/// What is drawn for a polygon: a move to its first point, a line to each
/// point that differs from the one before it, up to the last that differs
/// from the first, and the closing. Nothing for no points.
pub open spec fn polygon_commands(points: Seq<Coord>) -> Seq<Command> {
    if points.len() == 0 {
        Seq::empty()
    } else {
        seq![Command::MoveTo(points[0])] + lines_upto(
            points,
            trimmed(points, points.len() as int),
        ) + seq![Command::ClosePath]
    }
}

/// No two points of `s` that follow each other are equal.
pub open spec fn no_repeats(s: Seq<Coord>) -> bool {
    forall|j: int| 0 <= j < s.len() - 1 ==> !same_coord(#[trigger] s[j], s[j + 1])
}

/// A move alone leaves the point moved to.
proof fn lemma_outline_move(p: Coord)
    ensures
        outline(seq![Command::MoveTo(p)]) == seq![p],
{
    let start = seq![Command::MoveTo(p)];
    assert(start.drop_last() =~= Seq::<Command>::empty());
    assert(outline(Seq::<Command>::empty()) =~= Seq::<Coord>::empty());
    assert(start.last() == Command::MoveTo(p));
    assert(outline(start) =~= seq![p]);
}

/// Where points are dropped from the end, the last that is kept differs from
/// the first.
proof fn lemma_trimmed(points: Seq<Coord>, n: int)
    requires
        1 <= n <= points.len(),
    ensures
        1 <= trimmed(points, n) <= n,
        trimmed(points, n) > 1 ==> !same_coord(points[0], points[trimmed(points, n) - 1]),
    decreases n,
{
    if n > 1 && same_coord(points[0], points[n - 1]) {
        lemma_trimmed(points, n - 1);
    }
}

/// The lines to the first `m` points leave a polygon that begins with the
/// first point, ends with point `m - 1` and repeats no point.
proof fn lemma_lines_no_repeats(points: Seq<Coord>, m: int)
    requires
        1 <= m <= points.len(),
    ensures
        outline(seq![Command::MoveTo(points[0])] + lines_upto(points, m)).len() > 0,
        outline(seq![Command::MoveTo(points[0])] + lines_upto(points, m))[0] == points[0],
        outline(seq![Command::MoveTo(points[0])] + lines_upto(points, m)).last() == points[m - 1],
        no_repeats(outline(seq![Command::MoveTo(points[0])] + lines_upto(points, m))),
    decreases m,
{
    let start = seq![Command::MoveTo(points[0])];
    if m == 1 {
        assert(start + lines_upto(points, m) =~= start);
        lemma_outline_move(points[0]);
    } else {
        lemma_lines_no_repeats(points, m - 1);
        let before = outline(start + lines_upto(points, m - 1));
        if !same_coord(points[m - 1], points[m - 2]) {
            let all = start + lines_upto(points, m);
            assert(all.drop_last() =~= start + lines_upto(points, m - 1));
            assert(all.last() == Command::LineTo(points[m - 1]));
            assert(outline(all) == before.push(points[m - 1]));
            assert forall|j: int| 0 <= j < outline(all).len() - 1 implies !same_coord(
                #[trigger] outline(all)[j],
                outline(all)[j + 1],
            ) by {
                if j < before.len() - 1 {
                    assert(outline(all)[j] == before[j]);
                    assert(outline(all)[j + 1] == before[j + 1]);
                }
            }
        }
    }
}

/// A polygon of more than one point, as it is drawn, has no two equal points
/// that follow each other: an edge of no length is not drawn.
pub proof fn lemma_polygon_no_repeats(points: Seq<Coord>)
    requires
        points.len() > 0,
    ensures
        outline(polygon_commands(points)).len() > 2 ==> no_repeats(outline(polygon_commands(points))),
{
    let n = trimmed(points, points.len() as int);
    lemma_trimmed(points, points.len() as int);
    lemma_lines_no_repeats(points, n);
    let open = seq![Command::MoveTo(points[0])] + lines_upto(points, n);
    let all = polygon_commands(points);
    assert(all.drop_last() =~= open);
    assert(all.last() == Command::ClosePath);
    let before = outline(open);
    assert(outline(all) == before.push(points[0]));
    if n == 1 {
        assert(open =~= seq![Command::MoveTo(points[0])]);
        lemma_outline_move(points[0]);
    } else {
        assert forall|j: int| 0 <= j < outline(all).len() - 1 implies !same_coord(
            #[trigger] outline(all)[j],
            outline(all)[j + 1],
        ) by {
            if j < before.len() - 1 {
                assert(outline(all)[j] == before[j]);
                assert(outline(all)[j + 1] == before[j + 1]);
            }
        }
    }
}

/// What is drawn for a polygon.
pub fn polygon_path(points: &Vec<Coord>) -> (out: Vec<Command>)
    ensures
        out@ == polygon_commands(points@),
        drawn_among(out@, points@),
{
    let mut out: Vec<Command> = Vec::new();
    if points.len() == 0 {
        return out;
    }
    out.push(Command::MoveTo(points[0]));
    let mut n = points.len();
    while n > 1 && is_same_coord(&points[0], &points[n - 1])
        invariant
            1 <= n <= points@.len(),
            trimmed(points@, points@.len() as int) == trimmed(points@, n as int),
        decreases n,
    {
        n -= 1;
    }
    let ghost start = seq![Command::MoveTo(points@[0])];
    let mut m: usize = 1;
    while m < n
        invariant
            1 <= m <= n <= points@.len(),
            out@ == start + lines_upto(points@, m as int),
            drawn_among(out@, points@),
        decreases n - m,
    {
        if !is_same_coord(&points[m], &points[m - 1]) {
            out.push(Command::LineTo(points[m]));
        }
        proof {
            assert(out@ =~= start + lines_upto(points@, m + 1));
        }
        m += 1;
    }
    out.push(Command::ClosePath);
    proof {
        assert(out@ =~= polygon_commands(points@));
    }
    out
}

impl Voronoi {
    /// What is drawn for the cell of point `i`: its polygon, cut to the
    /// rectangle. Nothing where the point has no cell.
    pub open spec fn cell_commands<K: Fn(Op) -> i64>(&self, k: &K, i: usize) -> Seq<Command> {
        match self.clip_spec(k, i) {
            Some(points) => polygon_commands(points),
            None => Seq::empty(),
        }
    }

    /// What is drawn for the cell of point `i`.
    pub fn cell_path<K: Fn(Op) -> i64>(&self, i: usize, k: &K) -> (out: Vec<Command>)
        requires
            self.wf(),
            kernel_ok(k),
            i < self.delaunay.points@.len(),
        ensures
            out@ == self.cell_commands(k, i),
            self.within(outline(out@)),
    {
        match self.clip(i, k) {
            Some(points) => {
                let out = polygon_path(&points);
                proof {
                    lemma_outline_among(out@, points@);
                    assert forall|j: int| 0 <= j < outline(out@).len() implies self.regioncode_spec(
                        #[trigger] outline(out@)[j],
                    ) == 0 by {
                        let p = outline(out@)[j];
                        let a = choose|a: int| 0 <= a < points@.len() && points@[a] == p;
                        assert(self.regioncode_spec(points@[a]) == 0);
                    }
                }
                out
            },
            None => {
                proof {
                    assert(outline(Seq::<Command>::empty()) =~= Seq::empty());
                }
                Vec::new()
            },
        }
    }

    /// The cell of point `i` as the text of a path.
    pub fn render_cell_to_string<K: Fn(Op) -> i64, F: Fn(i64) -> String>(
        &self,
        i: usize,
        k: &K,
        fmt: &F,
    ) -> (s: String)
        requires
            self.wf(),
            kernel_ok(k),
            format_ok(fmt),
            i < self.delaunay.points@.len(),
        ensures
            s@ == path_text(k, fmt, self.cell_commands(k, i)),
    {
        let mut path = Path::new();
        self.render_cell(i, &mut path, k);
        proof {
            assert(path.drawn() =~= self.cell_commands(k, i));
        }
        path.to_string(k, fmt)
    }

    /// Draws the cell of point `i`.
    pub fn render_cell<C: CanvasRenderingContext2d, K: Fn(Op) -> i64>(
        &self,
        i: usize,
        context: &mut C,
        k: &K,
    )
        requires
            self.wf(),
            kernel_ok(k),
            i < self.delaunay.points@.len(),
        ensures
            final(context).drawn() == old(context).drawn() + self.cell_commands(k, i),
    {
        let commands = self.cell_path(i, k);
        replay(context, &commands);
    }

    /// The cell of point `i` as a closed polygon: the points that drawing it
    /// leaves, the first again at the end. Empty where the point has no cell.
    pub fn cell_polygon<K: Fn(Op) -> i64>(&self, i: usize, k: &K) -> (r: Vec<Coord>)
        requires
            self.wf(),
            kernel_ok(k),
            i < self.delaunay.points@.len(),
        ensures
            r@ == outline(self.cell_commands(k, i)),
            r@.len() == 0 <==> (match self.clip_spec(k, i) {
                Some(points) => points.len() == 0,
                None => true,
            }),
            r@.len() > 0 ==> r@.len() > 1 && r@.last() == r@[0],
            r@.len() > 2 ==> no_repeats(r@),
            self.within(r@),
            self.delaunay.inedges@[i as int] == EMPTY && !(i == 0 && self.delaunay.hull@.len() == 1)
                ==> r@.len() == 0,
    {
        let commands = self.cell_path(i, k);
        proof {
            match self.clip_spec(k, i) {
                Some(points) => {
                    if points.len() > 0 {
                        lemma_outline_closed(polygon_commands(points), points[0]);
                        lemma_polygon_no_repeats(points);
                    } else {
                        assert(outline(polygon_commands(points)) =~= Seq::empty());
                    }
                },
                None => {
                    assert(outline(self.cell_commands(k, i)) =~= Seq::empty());
                },
            }
        }
        outline_of(&commands)
    }

    /// What is drawn for the segment from `p0` to `p1`: the part of it that
    /// lies in the rectangle, as a move and a line.
    pub open spec fn segment_commands<K: Fn(Op) -> i64>(
        &self,
        k: &K,
        p0: Coord,
        p1: Coord,
    ) -> Seq<Command> {
        let c0 = self.regioncode_spec(p0);
        let c1 = self.regioncode_spec(p1);
        if c0 == 0 && c1 == 0 {
            seq![Command::MoveTo(p0), Command::LineTo(p1)]
        } else {
            match self.clip_segment_spec(k, p0, p1, c0, c1) {
                Some(s) => seq![Command::MoveTo(s.0), Command::LineTo(s.1)],
                None => Seq::empty(),
            }
        }
    }

    /// What is drawn for half-edge `i`: the segment between the centres of
    /// its triangle and of its twin's, once for the two of them.
    pub open spec fn inner_commands<K: Fn(Op) -> i64>(&self, k: &K, i: int) -> Seq<Command> {
        let j = self.delaunay.half_edges@[i];
        if j == EMPTY || j < i {
            Seq::empty()
        } else {
            self.segment_commands(k, self.circumcenters@[i / 3], self.circumcenters@[j as int / 3])
        }
    }

    /// What is drawn for the half-edges below `m`.
    pub open spec fn inners_commands<K: Fn(Op) -> i64>(&self, k: &K, m: int) -> Seq<Command>
        decreases m,
    {
        if m <= 0 {
            Seq::empty()
        } else {
            self.inners_commands(k, m - 1) + self.inner_commands(k, m - 1)
        }
    }

    /// What is drawn for the hull edge that arrives at place `m` of the hull:
    /// the ray from the centre of the triangle at that hull point, in the
    /// direction that leaves the hull across the edge, as far as the
    /// rectangle. Nothing where no triangle uses the point or the ray does
    /// not leave the rectangle.
    pub open spec fn ray_commands<K: Fn(Op) -> i64>(&self, k: &K, m: int) -> Seq<Command> {
        let h0 = if m == 0 {
            self.delaunay.hull@.last()
        } else {
            self.delaunay.hull@[m - 1]
        };
        let h1 = self.delaunay.hull@[m];
        let e = self.delaunay.inedges@[h1 as int];
        if e == EMPTY {
            Seq::empty()
        } else {
            let from = self.circumcenters@[e as int / 3];
            let v = self.vectors@[2 * h0 + 1];
            match self.project_spec(k, from, v.x, v.y) {
                Some(p) => self.segment_commands(k, from, p),
                None => Seq::empty(),
            }
        }
    }

    /// What is drawn for the first `m` hull edges.
    pub open spec fn rays_commands<K: Fn(Op) -> i64>(&self, k: &K, m: int) -> Seq<Command>
        decreases m,
    {
        if m <= 0 {
            Seq::empty()
        } else {
            self.rays_commands(k, m - 1) + self.ray_commands(k, m - 1)
        }
    }

    /// What is drawn for the diagram: the edges between the cells, each once,
    /// and the rays that leave the hull. Nothing with a hull of one point or
    /// none.
    pub open spec fn mesh_commands<K: Fn(Op) -> i64>(&self, k: &K) -> Seq<Command> {
        if self.delaunay.hull@.len() <= 1 {
            Seq::empty()
        } else {
            self.inners_commands(k, self.delaunay.half_edges@.len() as int) + self.rays_commands(
                k,
                self.delaunay.hull@.len() as int,
            )
        }
    }

    /// Draws the part of the segment from `p0` to `p1` that lies in the
    /// rectangle.
    fn render_segment<C: CanvasRenderingContext2d, K: Fn(Op) -> i64>(
        &self,
        p0: &Coord,
        p1: &Coord,
        context: &mut C,
        k: &K,
    )
        requires
            kernel_ok(k),
        ensures
            final(context).drawn() == old(context).drawn() + self.segment_commands(k, *p0, *p1),
    {
        let c0 = self.regioncode(p0);
        let c1 = self.regioncode(p1);
        if c0 == 0 && c1 == 0 {
            context.move_to(p0);
            context.line_to(p1);
            proof {
                assert(context.drawn() =~= old(context).drawn() + self.segment_commands(k, *p0, *p1));
            }
        } else {
            match self.clip_segment(p0, p1, c0, c1, k) {
                Some(s) => {
                    context.move_to(&s.0);
                    context.line_to(&s.1);
                    proof {
                        assert(context.drawn() =~= old(context).drawn() + self.segment_commands(
                            k,
                            *p0,
                            *p1,
                        ));
                    }
                },
                None => {
                    proof {
                        assert(context.drawn() =~= old(context).drawn() + self.segment_commands(
                            k,
                            *p0,
                            *p1,
                        ));
                    }
                },
            }
        }
    }

    /// The diagram as the text of a path.
    pub fn render_to_string<K: Fn(Op) -> i64, F: Fn(i64) -> String>(&self, k: &K, fmt: &F) -> (s:
        String)
        requires
            self.wf(),
            kernel_ok(k),
            format_ok(fmt),
        ensures
            s@ == path_text(k, fmt, self.mesh_commands(k)),
    {
        let mut path = Path::new();
        self.render(&mut path, k);
        proof {
            assert(path.drawn() =~= self.mesh_commands(k));
        }
        path.to_string(k, fmt)
    }

    /// Draws the diagram: the edges between the cells and the rays that leave
    /// the hull.
    pub fn render<C: CanvasRenderingContext2d, K: Fn(Op) -> i64>(&self, context: &mut C, k: &K)
        requires
            self.wf(),
            kernel_ok(k),
        ensures
            final(context).drawn() == old(context).drawn() + self.mesh_commands(k),
    {
        let count = self.delaunay.hull.len();
        if count <= 1 {
            proof {
                assert(context.drawn() =~= old(context).drawn() + self.mesh_commands(k));
            }
            return ;
        }
        let len = self.delaunay.half_edges.len();
        let mut i: usize = 0;
        while i < len
            invariant
                self.wf(),
                kernel_ok(k),
                len == self.delaunay.half_edges@.len(),
                i <= len,
                context.drawn() == old(context).drawn() + self.inners_commands(k, i as int),
            decreases len - i,
        {
            let j = self.delaunay.half_edges[i];
            let ghost before = context.drawn();
            if j != EMPTY && j >= i {
                self.render_segment(
                    &self.circumcenters[i / 3],
                    &self.circumcenters[j / 3],
                    context,
                    k,
                );
            }
            proof {
                assert(context.drawn() =~= before + self.inner_commands(k, i as int));
                assert(context.drawn() =~= old(context).drawn() + self.inners_commands(k, i + 1));
            }
            i += 1;
        }
        let ghost inner = context.drawn();
        let mut h1 = self.delaunay.hull[count - 1];
        let mut m: usize = 0;
        while m < count
            invariant
                self.wf(),
                kernel_ok(k),
                count == self.delaunay.hull@.len(),
                m <= count,
                h1 < self.delaunay.points@.len(),
                h1 == if m == 0 {
                    self.delaunay.hull@.last()
                } else {
                    self.delaunay.hull@[m - 1]
                },
                context.drawn() == inner + self.rays_commands(k, m as int),
            decreases count - m,
        {
            let h0 = h1;
            h1 = self.delaunay.hull[m];
            let e = self.delaunay.inedges[h1];
            let ghost before = context.drawn();
            if e != EMPTY {
                let from = self.circumcenters[e / 3];
                proof {
                    assert(self.vectors.len() <= usize::MAX);
                }
                let v = self.vectors[2 * h0 + 1];
                match self.project(&from, v.x, v.y, k) {
                    Some(p) => {
                        self.render_segment(&from, &p, context, k);
                    },
                    None => {},
                }
            }
            proof {
                assert(context.drawn() =~= before + self.ray_commands(k, m as int));
                assert(context.drawn() =~= inner + self.rays_commands(k, m + 1));
            }
            m += 1;
        }
        proof {
            assert(context.drawn() =~= old(context).drawn() + self.mesh_commands(k));
        }
    }
}

} // verus!
