//! The search for the point of a triangulation that is nearest to a given
//! point, from neighbour to neighbour.
use vstd::prelude::*;
use crate::delaunay::Delaunay;
use crate::scalar::{dist2, distance2, is_lt, kernel_ok, lt, Coord, Op, NAN};
use crate::triangulation::{all_below, EMPTY};
use crate::walk::{lemma_distinct_below, RingEnd};

verus! {

impl Delaunay {
    /// The square of the distance from `p` to point `t`; not a number where
    /// `t` is no point.
    pub open spec fn reach<K: Fn(Op) -> i64>(&self, k: &K, p: Coord, t: usize) -> i64 {
        if t < self.points@.len() {
            dist2(k, p, self.points@[t as int])
        } else {
            NAN
        }
    }

    /// Of `c` and `t`, the point nearer to `p`: `t` only where it is strictly
    /// nearer.
    pub open spec fn nearer<K: Fn(Op) -> i64>(&self, k: &K, p: Coord, c: usize, t: usize) -> usize {
        if lt(self.reach(k, p, t), self.reach(k, p, c)) {
            t
        } else {
            c
        }
    }

    /// The point nearest to `p` among `c` and the points that the half-edges
    /// `es` leave; among equally near ones, the first.
    pub open spec fn scan<K: Fn(Op) -> i64>(
        &self,
        k: &K,
        p: Coord,
        es: Seq<usize>,
        c: usize,
    ) -> usize
        decreases es.len(),
    {
        if es.len() == 0 {
            c
        } else {
            self.nearer(k, p, self.scan(k, p, es.drop_last(), c), self.triangles@[es.last() as int])
        }
    }

    /// One step of the search for the point nearest to `p`, from point `i`.
    ///
    /// Where no triangle uses `i`, the step goes to point `(i + 1) % (n / 2)`,
    /// and stays at `i` among fewer than two points. Otherwise it goes to the nearest of `i` and its neighbours round the
    /// ring; and where the ring ends on the hull, to the next point of the hull
    /// if that is another point than the last neighbour and nearer still.
    pub open spec fn step_spec<K: Fn(Op) -> i64>(&self, k: &K, p: Coord, i: usize) -> usize {
        if self.inedges@[i as int] == EMPTY {
            if self.points@.len() / 2 == 0 {
                i
            } else {
                ((i + 1) % (self.points@.len() as int / 2)) as usize
            }
        } else {
            let ring = self.ring(i as int);
            let c = self.scan(k, p, ring, i);
            match self.hull_next(i as int) {
                Some(h) => if self.ring_end(i as int) == RingEnd::Hull && h != self.triangles@[ring.last() as int]
                    && lt(self.reach(k, p, h), self.reach(k, p, c)) {
                    h
                } else {
                    c
                },
                None => c,
            }
        }
    }

    /// The square of the distance from `p` to point `t`.
    fn reach_of<K: Fn(Op) -> i64>(&self, k: &K, p: &Coord, t: usize) -> (r: i64)
        requires
            kernel_ok(k),
        ensures
            r == self.reach(k, *p, t),
    {
        if t < self.points.len() {
            distance2(k, p, &self.points[t])
        } else {
            NAN
        }
    }

    /// One step of the search for the point nearest to `p`, from point `i`:
    /// the point to go to, which is `i` itself where no neighbour is nearer.
    pub fn step<K: Fn(Op) -> i64>(&self, i: usize, p: &Coord, k: &K) -> (c: usize)
        requires
            self.wf(),
            kernel_ok(k),
            i < self.points@.len(),
        ensures
            c == self.step_spec(k, *p, i),
            c < self.points@.len(),
    {
        let n = self.points.len();
        if self.inedges[i] == EMPTY {
            let half = n / 2;
            if half == 0 {
                return i;
            }
            return (i + 1) % half;
        }
        let (ring, end) = self.walk(i);
        let mut c = i;
        let mut dc = self.reach_of(k, p, i);
        let mut j: usize = 0;
        while j < ring.len()
            invariant
                j <= ring@.len(),
                kernel_ok(k),
                self.wf(),
                all_below(ring@, self.triangles@.len() as int),
                c < self.points@.len(),
                dc == self.reach(k, *p, c),
                c == self.scan(k, *p, ring@.take(j as int), i),
            decreases ring@.len() - j,
        {
            let t = self.triangles[ring[j]];
            let dt = self.reach_of(k, p, t);
            proof {
                assert(ring@.take(j + 1).drop_last() =~= ring@.take(j as int));
            }
            if is_lt(dt, dc) {
                dc = dt;
                c = t;
            }
            j += 1;
        }
        proof {
            assert(ring@.take(ring@.len() as int) =~= ring@);
        }
        if end == RingEnd::Hull && self.hull_index[i] != EMPTY && self.hull.len() > 0 {
            let h = self.hull[(self.hull_index[i] + 1) % self.hull.len()];
            let last = self.triangles[ring[ring.len() - 1]];
            if h != last && is_lt(self.reach_of(k, p, h), dc) {
                return h;
            }
        }
        c
    }

    /// The point that a search reaches from `i` in at most `fuel + 1` steps:
    /// it stops where a step stays, or goes back to `i0`.
    pub open spec fn chase<K: Fn(Op) -> i64>(
        &self,
        k: &K,
        p: Coord,
        i: usize,
        i0: usize,
        fuel: nat,
    ) -> usize
        decreases fuel,
    {
        let c = self.step_spec(k, p, i);
        if c == i || c == i0 || fuel == 0 {
            c
        } else {
            self.chase(k, p, c, i0, (fuel - 1) as nat)
        }
    }

    /// The point that a search for the point nearest to `p` reaches from
    /// `start`, or from point 0: it steps until a step stays or goes back to
    /// the start, and not more often than there are points.
    pub open spec fn find_spec<K: Fn(Op) -> i64>(
        &self,
        k: &K,
        p: Coord,
        start: Option<usize>,
    ) -> usize {
        let i0 = match start {
            Some(i) => i,
            None => 0,
        };
        self.chase(k, p, i0, i0, self.points@.len())
    }

    /// The point nearest to `p`, as a search from `start` (or from point 0)
    /// finds it.
    pub fn find<K: Fn(Op) -> i64>(&self, p: &Coord, start: Option<usize>, k: &K) -> (c: usize)
        requires
            self.wf(),
            kernel_ok(k),
            match start {
                Some(i) => i < self.points@.len(),
                None => 0 < self.points@.len(),
            },
        ensures
            c == self.find_spec(k, *p, start),
            c < self.points@.len(),
    {
        let i0 = match start {
            Some(i) => i,
            None => 0,
        };
        let mut i = i0;
        let mut c = self.step(i, p, k);
        let mut fuel = self.points.len();
        while c != i && c != i0 && fuel > 0
            invariant
                self.wf(),
                    kernel_ok(k),
                i < self.points@.len(),
                c < self.points@.len(),
                c == self.step_spec(k, *p, i),
                self.find_spec(k, *p, start) == self.chase(k, *p, i, i0, fuel as nat),
                i0 == match start {
                    Some(i) => i,
                    None => 0,
                },
            decreases fuel,
        {
            i = c;
            c = self.step(i, p, k);
            fuel -= 1;
        }
        c
    }

    /// No neighbour of point `c` is strictly nearer to `p` than `c` is.
    pub open spec fn local_minimum<K: Fn(Op) -> i64>(&self, k: &K, p: Coord, c: usize) -> bool {
        forall|a: int|
            0 <= a < self.neighbors_spec(c as int).len() ==> !lt(
                self.reach(k, p, #[trigger] self.neighbors_spec(c as int)[a]),
                self.reach(k, p, c),
            )
    }

    /// Each of `seen` but the first is the point that a step from the one
    /// before it goes to.
    pub open spec fn linked<K: Fn(Op) -> i64>(&self, k: &K, p: Coord, seen: Seq<usize>) -> bool {
        forall|a: int| 0 < a < seen.len() ==> (#[trigger] seen[a]) == self.step_spec(k, p, seen[a - 1])
    }

    /// Once a search has met a point that a triangle uses, it meets only such
    /// points, each nearer to `p` than those before it.
    pub open spec fn descending<K: Fn(Op) -> i64>(&self, k: &K, p: Coord, seen: Seq<usize>) -> bool {
        forall|a: int, b: int|
            0 <= a < b < seen.len() && self.used(#[trigger] seen[a] as int) ==> self.used(
                #[trigger] seen[b] as int,
            ) && lt(self.reach(k, p, seen[b]), self.reach(k, p, seen[a]))
    }

    /// A scan ends on the point it began with, or on a scanned point that is
    /// nearer; nothing scanned is nearer than the point it ends on.
    proof fn lemma_scan<K: Fn(Op) -> i64>(&self, k: &K, p: Coord, es: Seq<usize>, c: usize)
        ensures
            self.scan(k, p, es, c) == c || (lt(
                self.reach(k, p, self.scan(k, p, es, c)),
                self.reach(k, p, c),
            ) && exists|a: int|
                0 <= a < es.len() && self.scan(k, p, es, c) == self.triangles@[#[trigger] es[a] as int]),
            forall|a: int|
                0 <= a < es.len() ==> !lt(
                    self.reach(k, p, self.triangles@[#[trigger] es[a] as int]),
                    self.reach(k, p, self.scan(k, p, es, c)),
                ),
        decreases es.len(),
    {
        if es.len() > 0 {
            let rest = es.drop_last();
            self.lemma_scan(k, p, rest, c);
            let r = self.scan(k, p, rest, c);
            let t = self.triangles@[es.last() as int];
            assert forall|a: int| 0 <= a < es.len() implies !lt(
                self.reach(k, p, self.triangles@[#[trigger] es[a] as int]),
                self.reach(k, p, self.scan(k, p, es, c)),
            ) by {
                if a < rest.len() {
                    assert(rest[a] == es[a]);
                }
            }
            if self.scan(k, p, es, c) != c {
                if self.scan(k, p, es, c) == r {
                    let a = choose|a: int|
                        0 <= a < rest.len() && r == self.triangles@[#[trigger] rest[a] as int];
                    assert(rest[a] == es[a]);
                } else {
                    assert(self.scan(k, p, es, c) == self.triangles@[es[es.len() - 1] as int]);
                }
            }
        }
    }

    /// A step from a point that a triangle uses goes to such a point: the
    /// point itself, and then none of its neighbours is nearer, or one that is
    /// strictly nearer.
    proof fn lemma_step<K: Fn(Op) -> i64>(&self, k: &K, p: Coord, i: usize)
        requires
            self.wf(),
            i < self.points@.len(),
            self.used(i as int),
        ensures
            self.step_spec(k, p, i) < self.points@.len(),
            self.used(self.step_spec(k, p, i) as int),
            self.step_spec(k, p, i) == i ==> self.local_minimum(k, p, i),
            self.step_spec(k, p, i) != i ==> lt(
                self.reach(k, p, self.step_spec(k, p, i)),
                self.reach(k, p, i),
            ),
    {
        let ring = self.ring(i as int);
        self.lemma_scan(k, p, ring, i);
        self.lemma_ring_from_below(i as int, self.inedges@[i as int] as int, self.triangles@.len());
        let c = self.scan(k, p, ring, i);
        if c != i {
            let a = choose|a: int| 0 <= a < ring.len() && c == self.triangles@[#[trigger] ring[a] as int];
            assert(ring[a] < self.triangles@.len());
            assert(self.triangles@[ring[a] as int] < self.points@.len());
        }
        match self.hull_next(i as int) {
            Some(h) => {
                let at = (self.hull_index@[i as int] + 1) % (self.hull@.len() as int);
                assert(self.inedges@[i as int] != EMPTY);
                assert(self.used(self.hull@[at] as int));
                assert(self.hull@[at] < self.points@.len());
            },
            None => {},
        }
    }

    /// A step from a point that no triangle uses goes to a point.
    proof fn lemma_jump<K: Fn(Op) -> i64>(&self, k: &K, p: Coord, i: usize)
        requires
            i < self.points@.len(),
            !self.used(i as int),
        ensures
            self.step_spec(k, p, i) < self.points@.len(),
    {
    }

    /// A search that goes round among points that no triangle uses ends on
    /// one of them.
    proof fn lemma_cycle<K: Fn(Op) -> i64>(
        &self,
        k: &K,
        p: Coord,
        i: usize,
        i0: usize,
        fuel: nat,
        seen: Seq<usize>,
        m: int,
    )
        requires
            0 <= m < seen.len(),
            all_below(seen, self.points@.len() as int),
            forall|a: int| m <= a < seen.len() ==> !self.used(#[trigger] seen[a] as int),
            forall|a: int|
                m < a < seen.len() ==> (#[trigger] seen[a]) == self.step_spec(k, p, seen[a - 1]),
            self.step_spec(k, p, seen.last()) == seen[m],
            exists|q: int| m <= q < seen.len() && seen[q] == i,
        ensures
            self.chase(k, p, i, i0, fuel) < self.points@.len(),
            !self.used(self.chase(k, p, i, i0, fuel) as int),
        decreases fuel,
    {
        let q = choose|q: int| m <= q < seen.len() && seen[q] == i;
        let c = self.step_spec(k, p, i);
        if q == seen.len() - 1 {
            assert(c == seen[m]);
        } else {
            assert(seen[q + 1] == self.step_spec(k, p, seen[q]));
            assert(c == seen[q + 1]);
        }
        if !(c == i || c == i0 || fuel == 0) {
            self.lemma_cycle(k, p, c, i0, (fuel - 1) as nat, seen, m);
        }
    }

    /// A search ends on a point; if a triangle uses that point, a step from
    /// it stays there.
    proof fn lemma_chase<K: Fn(Op) -> i64>(
        &self,
        k: &K,
        p: Coord,
        i: usize,
        i0: usize,
        fuel: nat,
        seen: Seq<usize>,
    )
        requires
            self.wf(),
            seen.len() > 0,
            seen[0] == i0,
            seen.last() == i,
            all_below(seen, self.points@.len() as int),
            seen.no_duplicates(),
            self.linked(k, p, seen),
            self.descending(k, p, seen),
            fuel + seen.len() == self.points@.len() + 1,
        ensures
            self.chase(k, p, i, i0, fuel) < self.points@.len(),
            self.used(self.chase(k, p, i, i0, fuel) as int) ==> self.step_spec(
                k,
                p,
                self.chase(k, p, i, i0, fuel),
            ) == self.chase(k, p, i, i0, fuel),
        decreases fuel,
    {
        let n = self.points@.len() as int;
        let last = seen.len() - 1;
        let c = self.step_spec(k, p, i);
        assert(seen[last] == i);
        if self.used(i as int) {
            self.lemma_step(k, p, i);
        } else {
            self.lemma_jump(k, p, i);
        }
        if c == i {
        } else if c == i0 {
            if self.used(c as int) {
                if last > 0 {
                    assert(self.used(seen[0] as int));
                    assert(self.used(seen[last] as int) && lt(
                        self.reach(k, p, seen[last]),
                        self.reach(k, p, seen[0]),
                    ));
                }
            }
        } else if fuel == 0 {
            lemma_distinct_below(seen, n);
        } else if seen.contains(c) {
            let m = choose|m: int| 0 <= m < seen.len() && seen[m] == c;
            assert(m < last);
            if self.used(i as int) {
                assert(self.used(c as int));
                assert(self.used(seen[m] as int));
                assert(lt(self.reach(k, p, seen[last]), self.reach(k, p, seen[m])));
            }
            assert forall|a: int| m <= a < seen.len() implies !self.used(#[trigger] seen[a] as int) by {
                if self.used(seen[a] as int) && a < last {
                    assert(self.used(seen[last] as int));
                }
            }
            assert(seen[m] == c);
            self.lemma_cycle(k, p, c, i0, (fuel - 1) as nat, seen, m);
        } else {
            let more = seen.push(c);
            assert(more.no_duplicates());
            assert(self.linked(k, p, more)) by {
                assert forall|a: int| 0 < a < more.len() implies (#[trigger] more[a])
                    == self.step_spec(k, p, more[a - 1]) by {
                    if a < seen.len() {
                        assert(more[a] == seen[a]);
                        assert(more[a - 1] == seen[a - 1]);
                    }
                }
            }
            assert(self.descending(k, p, more)) by {
                assert forall|a: int, b: int|
                    0 <= a < b < more.len() && self.used(#[trigger] more[a] as int) implies self.used(
                    #[trigger] more[b] as int,
                ) && lt(self.reach(k, p, more[b]), self.reach(k, p, more[a])) by {
                    assert(more[a] == seen[a]);
                    if b < seen.len() {
                        assert(more[b] == seen[b]);
                    } else {
                        if a < last {
                            assert(self.used(seen[last] as int) && lt(
                                self.reach(k, p, seen[last]),
                                self.reach(k, p, seen[a]),
                            ));
                        }
                    }
                }
            }
            self.lemma_chase(k, p, c, i0, (fuel - 1) as nat, more);
        }
    }

    /// A search ends on a point that is weakly nearer to `p` than each of its
    /// neighbours, from whatever point it starts.
    pub proof fn lemma_find_local_minimum<K: Fn(Op) -> i64>(
        &self,
        k: &K,
        p: Coord,
        start: usize,
    )
        requires
            self.wf(),
            start < self.points@.len(),
        ensures
            self.find_spec(k, p, Some(start)) < self.points@.len(),
            self.local_minimum(k, p, self.find_spec(k, p, Some(start))),
    {
        let n = self.points@.len();
        self.lemma_chase(k, p, start, start, n, seq![start]);
        let r = self.find_spec(k, p, Some(start));
        if self.used(r as int) {
            self.lemma_step(k, p, r);
        } else {
            assert(self.neighbors_spec(r as int) =~= Seq::empty());
        }
    }
}

} // verus!
