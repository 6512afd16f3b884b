//! The small, repeatable displacement that takes points off a common line.
use vstd::prelude::*;
use crate::scalar::{ev, kernel_ok, plus, prod, run, minus, sum, diff, times, Coord, Op};

verus! {

/// `p` displaced by `r` times the sine of `x + y` along x and by `r` times the
/// cosine of `x - y` along y.
pub open spec fn jitter_spec<K: Fn(Op) -> i64>(k: &K, p: Coord, r: i64) -> Coord {
    Coord {
        x: sum(k, p.x, prod(k, ev(k, Op::Sin(sum(k, p.x, p.y))), r)),
        y: sum(k, p.y, prod(k, ev(k, Op::Cos(diff(k, p.x, p.y))), r)),
    }
}

/// Displaces `p` by a distance of about `r`, in a direction that depends on
/// `p` alone.
pub fn jitter<K: Fn(Op) -> i64>(p: &Coord, r: i64, k: &K) -> (q: Coord)
    requires
        kernel_ok(k),
    ensures
        q == jitter_spec(k, *p, r),
{
    let s = run(k, Op::Sin(plus(k, p.x, p.y)));
    let c = run(k, Op::Cos(minus(k, p.x, p.y)));
    Coord { x: plus(k, p.x, times(k, s, r)), y: plus(k, p.y, times(k, c, r)) }
}

} // verus!
