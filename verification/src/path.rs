//! A drawing surface that writes what it is asked to draw as the text of a
//! path: `M` to move, `L` for a line, `A` for an arc, `Z` to close, with the
//! numbers separated by commas.
use vstd::prelude::*;
use vstd::string::*;
use crate::context::{CanvasRenderingContext2d, Command};
use crate::scalar::{diff, int_of, is_lt, is_same, kernel_ok, lt, minus, over, plus, quot, same, sum, whole, Coord, Op};

verus! {

/// The text that `fmt` writes for the number with code `x`.
pub open spec fn text<F: Fn(i64) -> String>(fmt: &F, x: i64) -> Seq<char> {
    (choose|r: String| call_ensures(*fmt, (x,), r))@
}

/// `fmt` writes every number, and each in one way only.
pub open spec fn format_ok<F: Fn(i64) -> String>(fmt: &F) -> bool {
    &&& forall|x: i64| call_requires(*fmt, (x,))
    &&& forall|x: i64, r: String| call_ensures(*fmt, (x,), r) ==> r@ == text(fmt, x)
}

/// What a path knows while it is written: where the subpath began, where the
/// pen is, and the text so far.
pub struct PathState {
    pub p0: Coord,
    pub p1: Option<Coord>,
    pub s: Seq<char>,
}

/// `s` followed by the two coordinates of `p` with a comma between them.
pub open spec fn with_pair<F: Fn(i64) -> String>(fmt: &F, s: Seq<char>, p: Coord) -> Seq<char> {
    s + text(fmt, p.x) + ","@ + text(fmt, p.y)
}

/// `s` followed by half a circle of radius `r` that ends at `to`.
pub open spec fn with_half_circle<F: Fn(i64) -> String>(
    fmt: &F,
    s: Seq<char>,
    r: i64,
    to: Coord,
) -> Seq<char> {
    with_pair(fmt, s + "A"@ + text(fmt, r) + ","@ + text(fmt, r) + ",0,1,1,"@, to)
}

/// The distance that counts as none: a millionth.
pub open spec fn epsilon<K: Fn(Op) -> i64>(k: &K) -> i64 {
    quot(k, int_of(k, 1), int_of(k, 1_000_000))
}

/// `a` and `b` differ by more than a millionth.
pub open spec fn apart<K: Fn(Op) -> i64>(k: &K, a: i64, b: i64) -> bool {
    let d = diff(k, a, b);
    lt(epsilon(k), d) || lt(d, diff(k, int_of(k, 0), epsilon(k)))
}

/// The state after `c` is written.
///
/// A move writes `M` and the point. A line writes `L` and the point. Closing
/// writes `Z`, and nothing where nothing was begun. An arc round `p` with
/// radius `r` begins at the point `r` to the right of `p`: with nothing begun
/// it moves there; else it draws a line there unless the pen is there already,
/// and, unless `r` is zero, two half circles, to the point `r` to the left of
/// `p` and back to where the subpath began. A rectangle writes its corner and
/// its sides, and closes.
pub open spec fn written<K: Fn(Op) -> i64, F: Fn(i64) -> String>(
    k: &K,
    fmt: &F,
    st: PathState,
    c: Command,
) -> PathState {
    match c {
        Command::MoveTo(p) => PathState { p0: p, p1: Some(p), s: with_pair(fmt, st.s + "M"@, p) },
        Command::LineTo(p) => PathState { p0: st.p0, p1: Some(p), s: with_pair(fmt, st.s + "L"@, p) },
        Command::ClosePath => match st.p1 {
            Some(_) => PathState { p0: st.p0, p1: Some(st.p0), s: st.s + "Z"@ },
            None => st,
        },
        Command::Arc(p, r, _, _) => {
            let from = Coord { x: sum(k, p.x, r), y: p.y };
            match st.p1 {
                None => PathState { p0: st.p0, p1: st.p1, s: with_pair(fmt, st.s + "M"@, from) },
                Some(p1) => {
                    let s1 = if apart(k, p1.x, from.x) || apart(k, p1.y, from.y) {
                        with_pair(fmt, st.s + "L"@, from)
                    } else {
                        st.s
                    };
                    if same(r, int_of(k, 0)) {
                        PathState { p0: st.p0, p1: st.p1, s: s1 }
                    } else {
                        PathState {
                            p0: st.p0,
                            p1: st.p1,
                            s: with_half_circle(
                                fmt,
                                with_half_circle(fmt, s1, r, Coord { x: diff(k, p.x, r), y: p.y }),
                                r,
                                st.p0,
                            ),
                        }
                    }
                },
            }
        },
        Command::Rect(p, w, h) => PathState {
            p0: p,
            p1: Some(p),
            s: with_pair(fmt, st.s + "M"@, p) + "h"@ + text(fmt, w) + "v"@ + text(fmt, h) + "h"@
                + text(fmt, diff(k, int_of(k, 0), w)) + "Z"@,
        },
    }
}

/// The state after all of `commands` are written, from an empty text with the
/// origin as the point where the subpath began.
pub open spec fn written_all<K: Fn(Op) -> i64, F: Fn(i64) -> String>(
    k: &K,
    fmt: &F,
    commands: Seq<Command>,
) -> PathState
    decreases commands.len(),
{
    if commands.len() == 0 {
        PathState {
            p0: Coord { x: int_of(k, 0), y: int_of(k, 0) },
            p1: None,
            s: Seq::empty(),
        }
    } else {
        written(k, fmt, written_all(k, fmt, commands.drop_last()), commands.last())
    }
}

/// The text of the path that `commands` draw.
pub open spec fn path_text<K: Fn(Op) -> i64, F: Fn(i64) -> String>(
    k: &K,
    fmt: &F,
    commands: Seq<Command>,
) -> Seq<char> {
    written_all(k, fmt, commands).s
}

/// Appends the text of the number with code `x`.
fn put<F: Fn(i64) -> String>(s: &mut String, fmt: &F, x: i64)
    requires
        format_ok(fmt),
    ensures
        final(s)@ == old(s)@ + text(fmt, x),
{
    let t = fmt(x);
    s.append(t.as_str());
}

/// Appends the two coordinates of `p` with a comma between them.
fn put_pair<F: Fn(i64) -> String>(s: &mut String, fmt: &F, p: &Coord)
    requires
        format_ok(fmt),
    ensures
        final(s)@ == with_pair(fmt, old(s)@, *p),
{
    put(s, fmt, p.x);
    s.append(",");
    put(s, fmt, p.y);
}

/// Appends half a circle of radius `r` that ends at `to`.
fn put_half_circle<F: Fn(i64) -> String>(s: &mut String, fmt: &F, r: i64, to: &Coord)
    requires
        format_ok(fmt),
    ensures
        final(s)@ == with_half_circle(fmt, old(s)@, r, *to),
{
    s.append("A");
    put(s, fmt, r);
    s.append(",");
    put(s, fmt, r);
    s.append(",0,1,1,");
    put_pair(s, fmt, to);
}

/// Tests whether `a` and `b` differ by more than a millionth.
fn is_apart<K: Fn(Op) -> i64>(k: &K, a: i64, b: i64) -> (r: bool)
    requires
        kernel_ok(k),
    ensures
        r == apart(k, a, b),
{
    let eps = over(k, whole(k, 1), whole(k, 1_000_000));
    let d = minus(k, a, b);
    is_lt(eps, d) || is_lt(d, minus(k, whole(k, 0), eps))
}

/// A path: it keeps what it is asked to draw and writes it out as text.
#[derive(Debug)]
pub struct Path {
    /// What the path has been asked to draw, in order.
    pub items: Vec<Command>,
}

impl Path {
    /// A path with nothing drawn.
    pub fn new() -> (r: Path)
        ensures
            r.drawn() == Seq::<Command>::empty(),
    {
        Path { items: Vec::new() }
    }

    /// The text of the path, with each number written by `fmt`.
    pub fn to_string<K: Fn(Op) -> i64, F: Fn(i64) -> String>(&self, k: &K, fmt: &F) -> (r: String)
        requires
            kernel_ok(k),
            format_ok(fmt),
        ensures
            r@ == path_text(k, fmt, self.drawn()),
    {
        let zero = whole(k, 0);
        let mut p0 = Coord { x: zero, y: zero };
        let mut p1: Option<Coord> = None;
        let mut s = String::new();
        let mut i: usize = 0;
        while i < self.items.len()
            invariant
                kernel_ok(k),
                format_ok(fmt),
                zero == int_of(k, 0),
                i <= self.items@.len(),
                (PathState { p0, p1, s: s@ }) == written_all(k, fmt, self.items@.take(i as int)),
            decreases self.items@.len() - i,
        {
            let ghost st = PathState { p0, p1, s: s@ };
            proof {
                assert(self.items@.take(i + 1).drop_last() =~= self.items@.take(i as int));
            }
            match self.items[i] {
                Command::MoveTo(p) => {
                    p0 = p;
                    p1 = Some(p);
                    s.append("M");
                    put_pair(&mut s, fmt, &p);
                },
                Command::LineTo(p) => {
                    p1 = Some(p);
                    s.append("L");
                    put_pair(&mut s, fmt, &p);
                },
                Command::ClosePath => {
                    if p1.is_some() {
                        p1 = Some(p0);
                        s.append("Z");
                    }
                },
                Command::Arc(p, r, _, _) => {
                    let from = Coord { x: plus(k, p.x, r), y: p.y };
                    match p1 {
                        None => {
                            s.append("M");
                            put_pair(&mut s, fmt, &from);
                        },
                        Some(at) => {
                            if is_apart(k, at.x, from.x) || is_apart(k, at.y, from.y) {
                                s.append("L");
                                put_pair(&mut s, fmt, &from);
                            }
                            if !is_same(r, zero) {
                                let left = Coord { x: minus(k, p.x, r), y: p.y };
                                put_half_circle(&mut s, fmt, r, &left);
                                put_half_circle(&mut s, fmt, r, &p0);
                            }
                        },
                    }
                },
                Command::Rect(p, w, h) => {
                    p0 = p;
                    p1 = Some(p);
                    s.append("M");
                    put_pair(&mut s, fmt, &p);
                    s.append("h");
                    put(&mut s, fmt, w);
                    s.append("v");
                    put(&mut s, fmt, h);
                    s.append("h");
                    put(&mut s, fmt, minus(k, zero, w));
                    s.append("Z");
                },
            }
            proof {
                assert((PathState { p0, p1, s: s@ }) == written(k, fmt, st, self.items@[i as int]));
            }
            i += 1;
        }
        proof {
            assert(self.items@.take(self.items@.len() as int) =~= self.items@);
        }
        s
    }
}

impl Default for Path {
    fn default() -> (r: Path)
        ensures
            r.drawn() == Seq::<Command>::empty(),
    {
        Path::new()
    }
}

impl CanvasRenderingContext2d for Path {
    open spec fn drawn(&self) -> Seq<Command> {
        self.items@
    }

    fn arc(&mut self, p: &Coord, r: i64, start: i64, stop: i64) {
        self.items.push(Command::Arc(*p, r, start, stop));
    }

    fn close_path(&mut self) {
        self.items.push(Command::ClosePath);
    }

    fn line_to(&mut self, p: &Coord) {
        self.items.push(Command::LineTo(*p));
    }

    fn move_to(&mut self, p: &Coord) {
        self.items.push(Command::MoveTo(*p));
    }

    fn rect(&mut self, p: &Coord, w: i64, h: i64) {
        self.items.push(Command::Rect(*p, w, h));
    }
}

} // verus!
