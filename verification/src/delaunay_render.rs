//! What is drawn for a Delaunay triangulation: its mesh, its hull, its
//! points, its triangles.
use vstd::prelude::*;
use crate::context::{CanvasRenderingContext2d, Command};
use crate::delaunay::Delaunay;
use crate::path::{format_ok, path_text, Path};
use crate::polygon::{outline, Polygon};
use crate::scalar::{ev, int_of, kernel_ok, plus, prod, run, sum, times, whole, Coord, Op};
use crate::triangulation::{all_below, EMPTY};

verus! {

impl Delaunay {
    /// What is drawn for half-edge `i`: the edge from its point to that of its
    /// twin, once for the two of them, where both are points.
    pub open spec fn edge_commands(&self, i: int) -> Seq<Command> {
        let j = self.half_edges@[i];
        if j == EMPTY || j < i || self.triangles@[i] >= self.points@.len() || self.triangles@[j as int]
            >= self.points@.len() {
            Seq::empty()
        } else {
            seq![
                Command::MoveTo(self.points@[self.triangles@[i] as int]),
                Command::LineTo(self.points@[self.triangles@[j as int] as int]),
            ]
        }
    }

    /// What is drawn for the half-edges below `m`.
    pub open spec fn edges_commands(&self, m: int) -> Seq<Command>
        decreases m,
    {
        if m <= 0 {
            Seq::empty()
        } else {
            self.edges_commands(m - 1) + self.edge_commands(m - 1)
        }
    }

    /// What is drawn for the hull: a move to its first point, a line to each
    /// of the others, and the closing. Nothing for an empty hull.
    pub open spec fn hull_commands(&self) -> Seq<Command> {
        if self.hull@.len() == 0 {
            Seq::empty()
        } else {
            seq![Command::MoveTo(self.points@[self.hull@[0] as int])] + Seq::new(
                (self.hull@.len() - 1) as nat,
                |i: int| Command::LineTo(self.points@[self.hull@[i + 1] as int]),
            ) + seq![Command::ClosePath]
        }
    }

    /// What is drawn for the mesh: its inner edges, and the hull.
    pub open spec fn mesh_commands(&self) -> Seq<Command> {
        self.edges_commands(self.half_edges@.len() as int) + self.hull_commands()
    }

    /// What is drawn for the points: for each a move to the point `r` to its
    /// right and a full circle of radius `r` round it.
    pub open spec fn points_commands<K: Fn(Op) -> i64>(&self, k: &K, r: i64) -> Seq<Command> {
        Seq::new(
            2 * self.points@.len(),
            |i: int|
                if i % 2 == 0 {
                    Command::MoveTo(
                        Coord { x: sum(k, self.points@[i / 2].x, r), y: self.points@[i / 2].y },
                    )
                } else {
                    Command::Arc(
                        self.points@[i / 2],
                        r,
                        int_of(k, 0),
                        prod(k, int_of(k, 2), ev(k, Op::Pi)),
                    )
                },
        )
    }

    /// What is drawn for triangle `i`: a move to each of its corners, and the
    /// closing.
    pub open spec fn triangle_commands(&self, i: int) -> Seq<Command> {
        seq![
            Command::MoveTo(self.points@[self.triangles@[3 * i] as int]),
            Command::MoveTo(self.points@[self.triangles@[3 * i + 1] as int]),
            Command::MoveTo(self.points@[self.triangles@[3 * i + 2] as int]),
            Command::ClosePath,
        ]
    }

    /// The radius with which points are drawn where none is given: two.
    pub open spec fn radius_or_default<K: Fn(Op) -> i64>(k: &K, r: Option<i64>) -> i64 {
        match r {
            Some(r) => r,
            None => int_of(k, 2),
        }
    }

    /// The mesh as the text of a path.
    pub fn render_to_string<K: Fn(Op) -> i64, F: Fn(i64) -> String>(&self, k: &K, fmt: &F) -> (s:
        String)
        requires
            self.wf(),
            kernel_ok(k),
            format_ok(fmt),
        ensures
            s@ == path_text(k, fmt, self.mesh_commands()),
    {
        let mut path = Path::new();
        self.render(&mut path);
        proof {
            assert(path.drawn() =~= self.mesh_commands());
        }
        path.to_string(k, fmt)
    }

    /// Draws the mesh: each inner edge once, and the hull.
    pub fn render<C: CanvasRenderingContext2d>(&self, context: &mut C)
        requires
            self.wf(),
        ensures
            final(context).drawn() == old(context).drawn() + self.mesh_commands(),
    {
        let n = self.points.len();
        let len = self.half_edges.len();
        let mut i: usize = 0;
        while i < len
            invariant
                self.wf(),
                n == self.points@.len(),
                len == self.half_edges@.len(),
                i <= len,
                context.drawn() == old(context).drawn() + self.edges_commands(i as int),
            decreases len - i,
        {
            let j = self.half_edges[i];
            let ghost before = context.drawn();
            if j != EMPTY && j >= i {
                let ti = self.triangles[i];
                let tj = self.triangles[j];
                if ti < n && tj < n {
                    context.move_to(&self.points[ti]);
                    context.line_to(&self.points[tj]);
                }
            }
            proof {
                assert(context.drawn() =~= before + self.edge_commands(i as int));
                assert(context.drawn() =~= old(context).drawn() + self.edges_commands(i + 1));
            }
            i += 1;
        }
        self.render_hull(context);
        proof {
            assert(context.drawn() =~= old(context).drawn() + self.mesh_commands());
        }
    }

    /// The points as the text of a path, each a circle of radius `r`, or of
    /// radius two.
    pub fn render_points_to_string<K: Fn(Op) -> i64, F: Fn(i64) -> String>(
        &self,
        r: Option<i64>,
        k: &K,
        fmt: &F,
    ) -> (s: String)
        requires
            kernel_ok(k),
            format_ok(fmt),
        ensures
            s@ == path_text(k, fmt, self.points_commands(k, Self::radius_or_default(k, r))),
    {
        let mut path = Path::new();
        self.render_points(&mut path, r, k);
        proof {
            assert(path.drawn() =~= self.points_commands(k, Self::radius_or_default(k, r)));
        }
        path.to_string(k, fmt)
    }

    /// Draws the points, each as a circle of radius `r`, or of radius two.
    pub fn render_points<C: CanvasRenderingContext2d, K: Fn(Op) -> i64>(
        &self,
        context: &mut C,
        r: Option<i64>,
        k: &K,
    )
        requires
            kernel_ok(k),
        ensures
            final(context).drawn() == old(context).drawn() + self.points_commands(
                k,
                Self::radius_or_default(k, r),
            ),
    {
        let tau = times(k, whole(k, 2), run(k, Op::Pi));
        let zero = whole(k, 0);
        let r = match r {
            Some(r) => r,
            None => whole(k, 2),
        };
        let mut i: usize = 0;
        while i < self.points.len()
            invariant
                kernel_ok(k),
                i <= self.points@.len(),
                tau == prod(k, int_of(k, 2), ev(k, Op::Pi)),
                zero == int_of(k, 0),
                context.drawn() == old(context).drawn() + self.points_commands(k, r).take(2 * i),
            decreases self.points@.len() - i,
        {
            let p = self.points[i];
            context.move_to(&Coord { x: plus(k, p.x, r), y: p.y });
            context.arc(&p, r, zero, tau);
            proof {
                let all = self.points_commands(k, r);
                assert(all[2 * i] == Command::MoveTo(Coord { x: sum(k, p.x, r), y: p.y }));
                assert(all[2 * i + 1] == Command::Arc(p, r, zero, tau));
                assert(all.take(2 * i + 2) =~= all.take(2 * i).push(all[2 * i]).push(all[2 * i + 1]));
                assert(context.drawn() =~= old(context).drawn() + all.take(2 * (i + 1)));
            }
            i += 1;
        }
        proof {
            let all = self.points_commands(k, r);
            assert(all.take(2 * (self.points@.len() as int)) =~= all);
        }
    }

    /// The hull as the text of a path.
    pub fn render_hull_to_string<K: Fn(Op) -> i64, F: Fn(i64) -> String>(&self, k: &K, fmt: &F) -> (s:
        String)
        requires
            self.wf(),
            kernel_ok(k),
            format_ok(fmt),
        ensures
            s@ == path_text(k, fmt, self.hull_commands()),
    {
        let mut path = Path::new();
        self.render_hull(&mut path);
        proof {
            assert(path.drawn() =~= self.hull_commands());
        }
        path.to_string(k, fmt)
    }

    /// Draws the hull as a closed line. Draws nothing where there is no hull.
    pub fn render_hull<C: CanvasRenderingContext2d>(&self, context: &mut C)
        requires
            self.wf(),
        ensures
            final(context).drawn() == old(context).drawn() + self.hull_commands(),
    {
        let n = self.hull.len();
        if n == 0 {
            proof {
                assert(context.drawn() =~= old(context).drawn() + self.hull_commands());
            }
            return ;
        }
        let ghost lines = Seq::new(
            (n - 1) as nat,
            |i: int| Command::LineTo(self.points@[self.hull@[i + 1] as int]),
        );
        let ghost start = old(context).drawn().push(Command::MoveTo(self.points@[self.hull@[0] as int]));
        context.move_to(&self.points[self.hull[0]]);
        let mut i: usize = 1;
        while i < n
            invariant
                self.wf(),
                n == self.hull@.len(),
                1 <= i <= n,
                lines == Seq::new(
                    (n - 1) as nat,
                    |i: int| Command::LineTo(self.points@[self.hull@[i + 1] as int]),
                ),
                context.drawn() == start + lines.take(i - 1),
            decreases n - i,
        {
            context.line_to(&self.points[self.hull[i]]);
            proof {
                assert(lines.take(i as int) =~= lines.take(i - 1).push(lines[i - 1]));
                assert(context.drawn() =~= start + lines.take(i as int));
            }
            i += 1;
        }
        context.close_path();
        proof {
            assert(lines.take(n - 1) =~= lines);
            assert(context.drawn() =~= old(context).drawn() + self.hull_commands());
        }
    }

    /// The hull as a closed polygon: its points, and the first again.
    pub fn hull_polygon(&self) -> (r: Vec<Coord>)
        requires
            self.wf(),
        ensures
            r@ == outline(self.hull_commands()),
    {
        let mut polygon = Polygon::new();
        let n = self.hull.len();
        if n == 0 {
            proof {
                assert(self.hull_commands() =~= polygon.drawn());
            }
            return polygon.points;
        }
        let ghost lines = Seq::new(
            (n - 1) as nat,
            |i: int| Command::LineTo(self.points@[self.hull@[i + 1] as int]),
        );
        let ghost start = seq![Command::MoveTo(self.points@[self.hull@[0] as int])];
        polygon.move_to(&self.points[self.hull[0]]);
        let mut i: usize = 1;
        while i < n
            invariant
                self.wf(),
                n == self.hull@.len(),
                1 <= i <= n,
                lines == Seq::new(
                    (n - 1) as nat,
                    |i: int| Command::LineTo(self.points@[self.hull@[i + 1] as int]),
                ),
                polygon.wf(),
                polygon.drawn() == start + lines.take(i - 1),
            decreases n - i,
        {
            polygon.line_to(&self.points[self.hull[i]]);
            proof {
                assert(lines.take(i as int) =~= lines.take(i - 1).push(lines[i - 1]));
                assert(polygon.drawn() =~= start + lines.take(i as int));
            }
            i += 1;
        }
        polygon.close_path();
        proof {
            assert(lines.take(n - 1) =~= lines);
            assert(polygon.drawn() =~= self.hull_commands());
        }
        polygon.points
    }

    /// Draws triangle `i`.
    pub fn render_triangle<C: CanvasRenderingContext2d>(&self, i: usize, context: &mut C)
        requires
            self.wf(),
            3 * i + 2 < self.triangles@.len(),
            self.triangles@[3 * i] < self.points@.len(),
            self.triangles@[3 * i + 1] < self.points@.len(),
            self.triangles@[3 * i + 2] < self.points@.len(),
        ensures
            final(context).drawn() == old(context).drawn() + self.triangle_commands(i as int),
    {
        proof {
            assert(self.triangles.len() <= usize::MAX);
        }
        let e = i * 3;
        let t0 = self.triangles[e];
        let t1 = self.triangles[e + 1];
        let t2 = self.triangles[e + 2];
        context.move_to(&self.points[t0]);
        context.move_to(&self.points[t1]);
        context.move_to(&self.points[t2]);
        context.close_path();
        proof {
            assert(context.drawn() =~= old(context).drawn() + self.triangle_commands(i as int));
        }
    }

    /// Triangle `i` as the text of a path.
    pub fn render_triangle_to_string<K: Fn(Op) -> i64, F: Fn(i64) -> String>(
        &self,
        i: usize,
        k: &K,
        fmt: &F,
    ) -> (s: String)
        requires
            self.wf(),
            3 * i + 2 < self.triangles@.len(),
            self.triangles@[3 * i] < self.points@.len(),
            self.triangles@[3 * i + 1] < self.points@.len(),
            self.triangles@[3 * i + 2] < self.points@.len(),
            kernel_ok(k),
            format_ok(fmt),
        ensures
            s@ == path_text(k, fmt, self.triangle_commands(i as int)),
    {
        let mut path = Path::new();
        self.render_triangle(i, &mut path);
        proof {
            assert(path.drawn() =~= self.triangle_commands(i as int));
        }
        path.to_string(k, fmt)
    }

    /// Triangle `i` as a closed polygon: its corners, and the first again.
    pub fn triangle_polygon(&self, i: usize) -> (r: Polygon)
        requires
            self.wf(),
            3 * i + 2 < self.triangles@.len(),
            self.triangles@[3 * i] < self.points@.len(),
            self.triangles@[3 * i + 1] < self.points@.len(),
            self.triangles@[3 * i + 2] < self.points@.len(),
        ensures
            r.wf(),
            r.drawn() == self.triangle_commands(i as int),
            r.points@ == seq![
                self.points@[self.triangles@[3 * i] as int],
                self.points@[self.triangles@[3 * i + 1] as int],
                self.points@[self.triangles@[3 * i + 2] as int],
                self.points@[self.triangles@[3 * i] as int],
            ],
    {
        let mut polygon = Polygon::new();
        proof {
            assert(self.triangles.len() <= usize::MAX);
        }
        let e = i * 3;
        polygon.move_to(&self.points[self.triangles[e]]);
        polygon.move_to(&self.points[self.triangles[e + 1]]);
        polygon.move_to(&self.points[self.triangles[e + 2]]);
        polygon.close_path();
        proof {
            assert(polygon.drawn() =~= self.triangle_commands(i as int));
            assert(polygon.points@ =~= seq![
                self.points@[self.triangles@[3 * i] as int],
                self.points@[self.triangles@[3 * i + 1] as int],
                self.points@[self.triangles@[3 * i + 2] as int],
                self.points@[self.triangles@[3 * i] as int],
            ]);
        }
        polygon
    }

    /// The triangles as closed polygons, in order.
    pub fn triangle_polygons_generator(&self) -> (r: Vec<Polygon>)
        requires
            self.wf(),
            all_below(self.triangles@, self.points@.len() as int),
        ensures
            r@.len() == self.triangles@.len() / 3,
            forall|t: int|
                0 <= t < r@.len() ==> (#[trigger] r@[t]).wf() && r@[t].drawn()
                    == self.triangle_commands(t) && r@[t].points@ == outline(
                    self.triangle_commands(t),
                ),
    {
        let count = self.triangles.len() / 3;
        let mut out: Vec<Polygon> = Vec::new();
        let mut t: usize = 0;
        while t < count
            invariant
                self.wf(),
                all_below(self.triangles@, self.points@.len() as int),
                count == self.triangles@.len() / 3,
                t <= count,
                out@.len() == t,
                forall|j: int|
                    0 <= j < t ==> (#[trigger] out@[j]).wf() && out@[j].drawn()
                        == self.triangle_commands(j) && out@[j].points@ == outline(
                        self.triangle_commands(j),
                    ),
            decreases count - t,
        {
            let polygon = self.triangle_polygon(t);
            out.push(polygon);
            t += 1;
        }
        out
    }
}

} // verus!
