//! A drawing surface that keeps the points it is given.
use vstd::prelude::*;
use crate::context::{CanvasRenderingContext2d, Command};
use crate::scalar::Coord;

verus! {

/// The points that `commands` leave in a polygon: each point moved or drawn
/// to, and for each closing the first point again. Arcs and rectangles leave
/// none.
pub open spec fn outline(commands: Seq<Command>) -> Seq<Coord>
    decreases commands.len(),
{
    if commands.len() == 0 {
        Seq::empty()
    } else {
        let before = outline(commands.drop_last());
        match commands.last() {
            Command::MoveTo(p) => before.push(p),
            Command::LineTo(p) => before.push(p),
            Command::ClosePath => if before.len() > 0 {
                before.push(before[0])
            } else {
                before
            },
            _ => before,
        }
    }
}

/// What begins with a move to `p` leaves a polygon that begins with `p`.
pub proof fn lemma_outline_first(commands: Seq<Command>, p: Coord)
    requires
        commands.len() > 0,
        commands[0] == Command::MoveTo(p),
    ensures
        outline(commands).len() > 0,
        outline(commands)[0] == p,
    decreases commands.len(),
{
    if commands.len() > 1 {
        lemma_outline_first(commands.drop_last(), p);
    } else {
        assert(outline(commands.drop_last()) =~= Seq::empty());
    }
}

/// What begins with a move and ends with the closing leaves a closed polygon:
/// its last point is its first.
pub proof fn lemma_outline_closed(commands: Seq<Command>, p: Coord)
    requires
        commands.len() > 1,
        commands[0] == Command::MoveTo(p),
        commands.last() == Command::ClosePath,
    ensures
        outline(commands).len() > 1,
        outline(commands)[0] == p,
        outline(commands).last() == p,
{
    lemma_outline_first(commands.drop_last(), p);
}

/// Every point that `commands` move or draw a line to is one of `points`.
pub open spec fn drawn_among(commands: Seq<Command>, points: Seq<Coord>) -> bool {
    forall|j: int|
        0 <= j < commands.len() ==> match #[trigger] commands[j] {
            Command::MoveTo(p) => points.contains(p),
            Command::LineTo(p) => points.contains(p),
            _ => true,
        }
}

/// A polygon has no other points than those moved or drawn to.
pub proof fn lemma_outline_among(commands: Seq<Command>, points: Seq<Coord>)
    requires
        drawn_among(commands, points),
    ensures
        forall|i: int|
            0 <= i < outline(commands).len() ==> points.contains(#[trigger] outline(commands)[i]),
    decreases commands.len(),
{
    if commands.len() > 0 {
        let rest = commands.drop_last();
        assert(drawn_among(rest, points)) by {
            assert forall|j: int| 0 <= j < rest.len() implies match #[trigger] rest[j] {
                Command::MoveTo(p) => points.contains(p),
                Command::LineTo(p) => points.contains(p),
                _ => true,
            } by {
                assert(rest[j] == commands[j]);
            }
        }
        lemma_outline_among(rest, points);
        let before = outline(rest);
        let after = outline(commands);
        assert(commands[commands.len() - 1] == commands.last());
        assert forall|i: int| 0 <= i < after.len() implies points.contains(#[trigger] after[i]) by {
            if i < before.len() {
                assert(after[i] == before[i]);
            } else {
                match commands.last() {
                    Command::MoveTo(p) => {
                        assert(after[i] == p);
                    },
                    Command::LineTo(p) => {
                        assert(after[i] == p);
                    },
                    Command::ClosePath => {
                        assert(after[i] == before[0]);
                    },
                    _ => {},
                }
            }
        }
    }
}

/// The points that `commands` leave in a polygon.
pub fn outline_of(commands: &Vec<Command>) -> (points: Vec<Coord>)
    ensures
        points@ == outline(commands@),
{
    let mut points: Vec<Coord> = Vec::new();
    let mut i: usize = 0;
    while i < commands.len()
        invariant
            i <= commands@.len(),
            points@ == outline(commands@.take(i as int)),
        decreases commands@.len() - i,
    {
        proof {
            assert(commands@.take(i + 1).drop_last() =~= commands@.take(i as int));
        }
        match commands[i] {
            Command::MoveTo(p) => {
                points.push(p);
            },
            Command::LineTo(p) => {
                points.push(p);
            },
            Command::ClosePath => {
                if points.len() > 0 {
                    let first = points[0];
                    points.push(first);
                }
            },
            _ => {},
        }
        i += 1;
    }
    proof {
        assert(commands@.take(commands@.len() as int) =~= commands@);
    }
    points
}

/// A sequence of points that takes the requests of a drawing surface.
pub struct Polygon {
    /// The points so far.
    pub points: Vec<Coord>,
    /// What the polygon has been asked to draw.
    pub log: Ghost<Seq<Command>>,
}

impl Polygon {
    /// The points are those that what was drawn leaves.
    pub open spec fn wf(&self) -> bool {
        self.points@ == outline(self.log@)
    }

    /// A polygon without points.
    pub fn new() -> (r: Polygon)
        ensures
            r.wf(),
            r.drawn() == Seq::<Command>::empty(),
            r.points@ == Seq::<Coord>::empty(),
    {
        Polygon { points: Vec::new(), log: Ghost(Seq::empty()) }
    }
}

impl Default for Polygon {
    fn default() -> (r: Polygon)
        ensures
            r.wf(),
            r.drawn() == Seq::<Command>::empty(),
            r.points@ == Seq::<Coord>::empty(),
    {
        Polygon::new()
    }
}

impl CanvasRenderingContext2d for Polygon {
    open spec fn drawn(&self) -> Seq<Command> {
        self.log@
    }

    /// A polygon has no arcs: it keeps its points.
    fn arc(&mut self, p: &Coord, r: i64, start: i64, stop: i64)
        ensures
            old(self).wf() ==> final(self).wf(),
            final(self).points@ == old(self).points@,
    {
        proof {
            assert(self.log@.push(Command::Arc(*p, r, start, stop)).drop_last() =~= self.log@);
        }
        self.log = Ghost(self.log@.push(Command::Arc(*p, r, start, stop)));
    }

    /// Adds the first point again, if there is one.
    fn close_path(&mut self)
        ensures
            old(self).wf() ==> final(self).wf(),
            final(self).points@ == if old(self).points@.len() > 0 {
                old(self).points@.push(old(self).points@[0])
            } else {
                old(self).points@
            },
    {
        proof {
            assert(self.log@.push(Command::ClosePath).drop_last() =~= self.log@);
        }
        if self.points.len() > 0 {
            let first = self.points[0];
            self.points.push(first);
        }
        self.log = Ghost(self.log@.push(Command::ClosePath));
    }

    /// Adds `p`.
    fn line_to(&mut self, p: &Coord)
        ensures
            old(self).wf() ==> final(self).wf(),
            final(self).points@ == old(self).points@.push(*p),
    {
        proof {
            assert(self.log@.push(Command::LineTo(*p)).drop_last() =~= self.log@);
        }
        self.points.push(*p);
        self.log = Ghost(self.log@.push(Command::LineTo(*p)));
    }

    /// Adds `p`.
    fn move_to(&mut self, p: &Coord)
        ensures
            old(self).wf() ==> final(self).wf(),
            final(self).points@ == old(self).points@.push(*p),
    {
        proof {
            assert(self.log@.push(Command::MoveTo(*p)).drop_last() =~= self.log@);
        }
        self.points.push(*p);
        self.log = Ghost(self.log@.push(Command::MoveTo(*p)));
    }

    /// A polygon has no rectangles: it keeps its points.
    fn rect(&mut self, p: &Coord, w: i64, h: i64)
        ensures
            old(self).wf() ==> final(self).wf(),
            final(self).points@ == old(self).points@,
    {
        proof {
            assert(self.log@.push(Command::Rect(*p, w, h)).drop_last() =~= self.log@);
        }
        self.log = Ghost(self.log@.push(Command::Rect(*p, w, h)));
    }
}

} // verus!
