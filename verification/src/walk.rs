//! The walk round a point of a triangulation, from half-edge to half-edge.
use vstd::prelude::*;
use vstd::set_lib::{lemma_int_range, lemma_len_subset, set_int_range};
use crate::delaunay::{arrives, Delaunay};
use crate::triangulation::{all_below, next_edge, next_halfedge, twins_paired, EMPTY};

verus! {

/// How the walk round a point ended.
#[derive(Clone, Copy, Debug, PartialEq, Eq, Structural)]
pub enum RingEnd {
    /// It came back to the half-edge it started from.
    Closed,
    /// It reached a half-edge without a twin: the point is on the hull.
    Hull,
    /// It met a triangle that does not use the point, or no triangle uses
    /// the point at all.
    Broken,
}

/// A sequence of distinct indices below `bound` is no longer than `bound`.
pub(crate) proof fn lemma_distinct_below(s: Seq<usize>, bound: int)
    requires
        0 <= bound,
        s.no_duplicates(),
        all_below(s, bound),
    ensures
        s.len() <= bound,
{
    if s.len() > 0 {
        assert(s[0] < bound);
        let t = s.map_values(|x: usize| x as int);
        assert(t.no_duplicates()) by {
            assert forall|i: int, j: int| 0 <= i < t.len() && 0 <= j < t.len() && i != j implies t[i]
                != t[j] by {
                assert(s[i] != s[j]);
            }
        }
        t.unique_seq_to_set();
        lemma_int_range(0, bound);
        assert(t.to_set().subset_of(set_int_range(0, bound))) by {
            assert forall|v: int| t.to_set().contains(v) implies set_int_range(0, bound).contains(
                v,
            ) by {
                let i = choose|i: int| 0 <= i < t.len() && t[i] == v;
                assert(s[i] < bound);
            }
        }
        lemma_len_subset(t.to_set(), set_int_range(0, bound));
        assert(t.len() == s.len());
    }
}

impl Delaunay {
    /// The half-edge that the walk round `i` takes after `e`: the twin of the
    /// half-edge that follows `e`.
    pub open spec fn turn(&self, e: int) -> usize {
        self.half_edges@[next_halfedge(e)]
    }

    /// The walk round `i` stops at `e`: the next triangle does not use `i`,
    /// or there is none, or the walk is back where it started.
    pub open spec fn stops_at(&self, i: int, e: int) -> bool {
        ||| self.triangles@[next_halfedge(e)] != i
        ||| self.turn(e) == EMPTY
        ||| self.turn(e) == self.inedges@[i]
    }

    /// The half-edges that the walk round `i` visits from `e` on, in at most
    /// `fuel + 1` steps.
    pub open spec fn ring_from(&self, i: int, e: int, fuel: nat) -> Seq<usize>
        decreases fuel,
    {
        if fuel == 0 || self.stops_at(i, e) {
            seq![e as usize]
        } else {
            seq![e as usize] + self.ring_from(i, self.turn(e) as int, (fuel - 1) as nat)
        }
    }

    /// The half-edges that arrive at point `i`, in the order in which the walk
    /// round `i` meets them: it starts at `inedges[i]` and turns from each
    /// half-edge to the twin of the one that follows it, until it stops. No
    /// half-edge where no triangle uses the point.
    pub open spec fn ring(&self, i: int) -> Seq<usize> {
        if self.inedges@[i] == EMPTY {
            Seq::empty()
        } else {
            self.ring_from(i, self.inedges@[i] as int, self.triangles@.len())
        }
    }

    /// How the walk round `i` ends, by its last half-edge.
    pub open spec fn ring_end(&self, i: int) -> RingEnd {
        let e = self.ring(i).last() as int;
        if self.inedges@[i] == EMPTY || self.triangles@[next_halfedge(e)] != i {
            RingEnd::Broken
        } else if self.turn(e) == EMPTY {
            RingEnd::Hull
        } else {
            RingEnd::Closed
        }
    }

    /// The half-edges that a walk visits are half-edges of the triangulation.
    pub(crate) proof fn lemma_ring_from_below(&self, i: int, e: int, fuel: nat)
        requires
            twins_paired(self.half_edges@),
            self.triangles@.len() == self.half_edges@.len(),
            self.triangles@.len() % 3 == 0,
            0 <= e < self.triangles@.len(),
        ensures
            all_below(self.ring_from(i, e, fuel), self.triangles@.len() as int),
        decreases fuel,
    {
        if fuel > 0 && !self.stops_at(i, e) {
            let t = self.turn(e);
            assert(self.half_edges@[next_halfedge(e)] == t);
            self.lemma_ring_from_below(i, t as int, (fuel - 1) as nat);
            let rest = self.ring_from(i, t as int, (fuel - 1) as nat);
            let all = self.ring_from(i, e, fuel);
            assert forall|a: int| 0 <= a < all.len() implies (#[trigger] all[a])
                < self.triangles@.len() by {
                if a > 0 {
                    assert(all[a] == rest[a - 1]);
                }
            }
        }
    }

    /// Two half-edges from which the walk turns to one and the same half-edge
    /// are one.
    proof fn lemma_turn_injective(&self, x: int, y: int)
        requires
            twins_paired(self.half_edges@),
            self.triangles@.len() == self.half_edges@.len(),
            self.triangles@.len() % 3 == 0,
            0 <= x < self.triangles@.len(),
            0 <= y < self.triangles@.len(),
            self.turn(x) == self.turn(y),
            self.turn(x) != EMPTY,
        ensures
            x == y,
    {
        let nx = next_halfedge(x);
        let ny = next_halfedge(y);
        let t = self.half_edges@[nx];
        assert(self.half_edges@[t as int] == nx);
        assert(self.half_edges@[ny] == t);
        assert(self.half_edges@[t as int] == ny);
    }

    /// A walk that has met distinct half-edges, each the turn of the one
    /// before, does not turn back to one of them, but for the first.
    proof fn lemma_turn_fresh(&self, seen: Seq<usize>, t: usize)
        requires
            twins_paired(self.half_edges@),
            self.triangles@.len() == self.half_edges@.len(),
            self.triangles@.len() % 3 == 0,
            all_below(seen, self.triangles@.len() as int),
            seen.no_duplicates(),
            seen.len() > 0,
            forall|a: int| 0 < a < seen.len() ==> (#[trigger] seen[a]) == self.turn(seen[a - 1] as int),
            t == self.turn(seen.last() as int),
            t != EMPTY,
            t != seen[0],
        ensures
            !seen.contains(t),
    {
        if seen.contains(t) {
            let a = choose|a: int| 0 <= a < seen.len() && seen[a] == t;
            assert(a > 0);
            assert(seen[a] == self.turn(seen[a - 1] as int));
            assert(seen[a - 1] < self.triangles@.len());
            assert(seen[seen.len() - 1] < self.triangles@.len());
            self.lemma_turn_injective(seen[a - 1] as int, seen.last() as int);
            assert(seen[a - 1] == seen[seen.len() - 1]);
        }
    }

    /// The walk round point `i`: the half-edges of [`Self::ring`], and how it
    /// ended.
    pub fn walk(&self, i: usize) -> (r: (Vec<usize>, RingEnd))
        requires
            self.wf(),
            i < self.points@.len(),
        ensures
            r.0@ == self.ring(i as int),
            r.1 == self.ring_end(i as int),
            all_below(r.0@, self.triangles@.len() as int),
            r.0@.no_duplicates(),
            self.inedges@[i as int] != EMPTY ==> r.0@.len() > 0 && r.0@[0] == self.inedges@[i as int],
            forall|a: int|
                0 <= a < r.0@.len() && (a < r.0@.len() - 1 || r.1 != RingEnd::Broken) ==> arrives(
                    self.triangles@,
                    #[trigger] r.0@[a] as int,
                    i as int,
                ),
    {
        let mut out: Vec<usize> = Vec::new();
        let e0 = self.inedges[i];
        if e0 == EMPTY {
            return (out, RingEnd::Broken);
        }
        let len = self.triangles.len();
        let mut e = e0;
        let mut end = RingEnd::Broken;
        loop
            invariant_except_break
                twins_paired(self.half_edges@),
                self.triangles@.len() == self.half_edges@.len(),
                self.triangles@.len() % 3 == 0,
                len == self.triangles@.len(),
                e0 == self.inedges@[i as int],
                e0 != EMPTY,
                e < len,
                all_below(out@, len as int),
                out@.no_duplicates(),
                !out@.contains(e),
                out@.len() == 0 ==> e == e0,
                out@.len() > 0 ==> out@[0] == e0 && e == self.turn(out@.last() as int) && e != e0,
                forall|a: int|
                    0 < a < out@.len() ==> (#[trigger] out@[a]) == self.turn(out@[a - 1] as int),
                forall|a: int|
                    0 <= a < out@.len() ==> arrives(self.triangles@, #[trigger] out@[a] as int, i as int),
                self.ring(i as int) == out@ + self.ring_from(
                    i as int,
                    e as int,
                    (len - out@.len()) as nat,
                ),
            ensures
                out@ == self.ring(i as int),
                end == self.ring_end(i as int),
                all_below(out@, self.triangles@.len() as int),
                out@.no_duplicates(),
                out@.len() > 0 && out@[0] == e0,
                forall|a: int|
                    0 <= a < out@.len() && (a < out@.len() - 1 || end != RingEnd::Broken) ==> arrives(
                        self.triangles@,
                        #[trigger] out@[a] as int,
                        i as int,
                    ),
            decreases len - out@.len(),
        {
            let ghost before = out@;
            out.push(e);
            proof {
                assert(out@ == before.push(e));
                assert(out@.no_duplicates());
                assert(all_below(out@, len as int));
                lemma_distinct_below(out@, len as int);
                assert(out@.last() == e);
                assert forall|a: int| 0 < a < out@.len() implies (#[trigger] out@[a]) == self.turn(
                    out@[a - 1] as int,
                ) by {
                    if a < before.len() {
                        assert(out@[a] == before[a]);
                        assert(out@[a - 1] == before[a - 1]);
                    }
                }
            }
            let nx = next_edge(e);
            let t = self.half_edges[nx];
            if self.triangles[nx] != i || t == EMPTY || t == e0 {
                if self.triangles[nx] != i {
                    end = RingEnd::Broken;
                } else if t == EMPTY {
                    end = RingEnd::Hull;
                } else {
                    end = RingEnd::Closed;
                }
                proof {
                    assert(self.stops_at(i as int, e as int));
                    assert(self.ring_from(i as int, e as int, (len - before.len()) as nat) == seq![e]);
                    assert(self.ring(i as int) =~= out@);
                }
                break;
            }
            proof {
                self.lemma_turn_fresh(out@, t);
                assert(!self.stops_at(i as int, e as int));
                assert(self.ring_from(i as int, e as int, (len - before.len()) as nat) == seq![e]
                    + self.ring_from(i as int, t as int, (len - out@.len()) as nat));
                assert(self.ring(i as int) =~= out@ + self.ring_from(
                    i as int,
                    t as int,
                    (len - out@.len()) as nat,
                ));
            }
            e = t;
        }
        (out, end)
    }

    /// The point that follows `i` on the hull, if `i` is on the hull.
    pub open spec fn hull_next(&self, i: int) -> Option<usize> {
        if self.hull_index@[i] == EMPTY || self.hull@.len() == 0 {
            None
        } else {
            Some(self.hull@[(self.hull_index@[i] + 1) % (self.hull@.len() as int)])
        }
    }

    /// The neighbours of point `i`: the points that the half-edges of its ring
    /// leave, in order, and, where the ring ends on the hull, the point that
    /// follows `i` on the hull unless it is the last of them.
    pub open spec fn neighbors_spec(&self, i: int) -> Seq<usize> {
        let ring = self.ring(i);
        let around = Seq::new(ring.len(), |j: int| self.triangles@[ring[j] as int]);
        match self.hull_next(i) {
            Some(h) => if self.ring_end(i) == RingEnd::Hull && h != around.last() {
                around.push(h)
            } else {
                around
            },
            None => around,
        }
    }

    /// The neighbours of point `i`.
    pub fn neighbors(&self, i: usize) -> (r: Vec<usize>)
        requires
            self.wf(),
            i < self.points@.len(),
        ensures
            r@ == self.neighbors_spec(i as int),
    {
        let (ring, end) = self.walk(i);
        let mut out: Vec<usize> = Vec::new();
        let mut j: usize = 0;
        while j < ring.len()
            invariant
                self.wf(),
                all_below(ring@, self.triangles@.len() as int),
                j <= ring@.len(),
                out@.len() == j,
                forall|a: int| 0 <= a < j ==> (#[trigger] out@[a]) == self.triangles@[ring@[a] as int],
            decreases ring@.len() - j,
        {
            out.push(self.triangles[ring[j]]);
            j += 1;
        }
        proof {
            assert(out@ =~= Seq::new(
                self.ring(i as int).len(),
                |j: int| self.triangles@[self.ring(i as int)[j] as int],
            ));
        }
        if end == RingEnd::Hull && self.hull_index[i] != EMPTY && self.hull.len() > 0 {
            let h = self.hull[(self.hull_index[i] + 1) % self.hull.len()];
            if h != out[out.len() - 1] {
                out.push(h);
            }
        }
        out
    }
}

} // verus!
