//! The drawing surface that the diagrams are rendered to.
use vstd::prelude::*;
use crate::scalar::Coord;

verus! {

/// One request to a drawing surface.
#[derive(Clone, Copy, Debug, PartialEq, Eq, Structural)]
pub enum Command {
    /// Start a new subpath at the point.
    MoveTo(Coord),
    /// Draw a line from the current point to the point.
    LineTo(Coord),
    /// Close the subpath.
    ClosePath,
    /// Draw an arc round the point with the radius, from the start angle to
    /// the stop angle.
    Arc(Coord, i64, i64, i64),
    /// Draw the rectangle with the corner, the width and the height.
    Rect(Coord, i64, i64),
}

/// A drawing surface: it takes the requests one by one.
pub trait CanvasRenderingContext2d {
    /// What the surface has been asked to draw so far, in order.
    spec fn drawn(&self) -> Seq<Command>;

    /// Draws an arc.
    fn arc(&mut self, p: &Coord, r: i64, start: i64, stop: i64)
        ensures
            final(self).drawn() == old(self).drawn().push(Command::Arc(*p, r, start, stop)),
    ;

    /// Closes the subpath.
    fn close_path(&mut self)
        ensures
            final(self).drawn() == old(self).drawn().push(Command::ClosePath),
    ;

    /// Draws a line from the current point to `p`.
    fn line_to(&mut self, p: &Coord)
        ensures
            final(self).drawn() == old(self).drawn().push(Command::LineTo(*p)),
    ;

    /// Makes `p` the current point.
    fn move_to(&mut self, p: &Coord)
        ensures
            final(self).drawn() == old(self).drawn().push(Command::MoveTo(*p)),
    ;

    /// Draws a rectangle.
    fn rect(&mut self, p: &Coord, w: i64, h: i64)
        ensures
            final(self).drawn() == old(self).drawn().push(Command::Rect(*p, w, h)),
    ;
}

/// Asks `context` to draw `commands`, one by one.
pub fn replay<C: CanvasRenderingContext2d>(context: &mut C, commands: &Vec<Command>)
    ensures
        final(context).drawn() == old(context).drawn() + commands@,
{
    let mut i: usize = 0;
    while i < commands.len()
        invariant
            i <= commands@.len(),
            context.drawn() == old(context).drawn() + commands@.take(i as int),
        decreases commands@.len() - i,
    {
        let ghost before = context.drawn();
        match commands[i] {
            Command::MoveTo(p) => context.move_to(&p),
            Command::LineTo(p) => context.line_to(&p),
            Command::ClosePath => context.close_path(),
            Command::Arc(p, r, start, stop) => context.arc(&p, r, start, stop),
            Command::Rect(p, w, h) => context.rect(&p, w, h),
        }
        proof {
            assert(context.drawn() == before.push(commands@[i as int]));
            assert(commands@.take(i + 1) =~= commands@.take(i as int).push(commands@[i as int]));
            assert(context.drawn() =~= old(context).drawn() + commands@.take(i + 1));
        }
        i += 1;
    }
    proof {
        assert(commands@.take(commands@.len() as int) =~= commands@);
    }
}

} // verus!
