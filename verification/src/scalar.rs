//! Coordinates and the arithmetic kernel.
//!
//! A coordinate is a 64-bit code that stands for a real number. Codes are
//! ordered as the numbers they stand for, and one code, [`NAN`], stands for
//! "not a number". The library compares codes itself; it never computes with
//! them. Every sum, product or quotient is asked of a kernel: a function from
//! an [`Op`] to the code of its result, supplied by the caller.
use vstd::prelude::*;

verus! {

/// The code of "not a number". It is neither below, above nor equal to any
/// code, itself included.
pub const NAN: i64 = -0x8000_0000_0000_0000;

/// A point of the plane, by the codes of its coordinates.
#[derive(Clone, Copy, Debug, PartialEq, Eq, Structural)]
pub struct Coord {
    /// The code of the abscissa.
    pub x: i64,
    /// The code of the ordinate.
    pub y: i64,
}

/// One arithmetic request to the kernel. The operands are codes.
#[derive(Clone, Copy, Debug)]
pub enum Op {
    /// The code of an integer.
    Int(i64),
    /// The code of the ratio of a circle's circumference to its diameter.
    Pi,
    /// `a + b`
    Add(i64, i64),
    /// `a - b`
    Sub(i64, i64),
    /// `a * b`
    Mul(i64, i64),
    /// `a / b`
    Div(i64, i64),
    /// The sine of `a`.
    Sin(i64),
    /// The cosine of `a`.
    Cos(i64),
    /// The length of the hypotenuse of a right triangle with legs `a` and `b`.
    Hypot(i64, i64),
}

/// The code that the kernel gives for `op`.
pub open spec fn ev<K: Fn(Op) -> i64>(k: &K, op: Op) -> i64 {
    choose|r: i64| call_ensures(*k, (op,), r)
}

/// A kernel answers every request, and answers it in one way only.
pub open spec fn kernel_ok<K: Fn(Op) -> i64>(k: &K) -> bool {
    &&& forall|op: Op| call_requires(*k, (op,))
    &&& forall|op: Op, r: i64| call_ensures(*k, (op,), r) ==> r == ev(k, op)
}

/// The code of the integer `n`.
pub open spec fn int_of<K: Fn(Op) -> i64>(k: &K, n: i64) -> i64 {
    ev(k, Op::Int(n))
}

/// The code of `a + b`.
pub open spec fn sum<K: Fn(Op) -> i64>(k: &K, a: i64, b: i64) -> i64 {
    ev(k, Op::Add(a, b))
}

/// The code of `a - b`.
pub open spec fn diff<K: Fn(Op) -> i64>(k: &K, a: i64, b: i64) -> i64 {
    ev(k, Op::Sub(a, b))
}

/// The code of `a * b`.
pub open spec fn prod<K: Fn(Op) -> i64>(k: &K, a: i64, b: i64) -> i64 {
    ev(k, Op::Mul(a, b))
}

/// The code of `a / b`.
pub open spec fn quot<K: Fn(Op) -> i64>(k: &K, a: i64, b: i64) -> i64 {
    ev(k, Op::Div(a, b))
}

/// The square of the distance between `p` and `q`.
pub open spec fn dist2<K: Fn(Op) -> i64>(k: &K, p: Coord, q: Coord) -> i64 {
    let dx = diff(k, p.x, q.x);
    let dy = diff(k, p.y, q.y);
    sum(k, prod(k, dx, dx), prod(k, dy, dy))
}

/// Asks the kernel.
pub fn run<K: Fn(Op) -> i64>(k: &K, op: Op) -> (r: i64)
    requires
        kernel_ok(k),
    ensures
        r == ev(k, op),
{
    k(op)
}

/// The code of the integer `n`.
pub fn whole<K: Fn(Op) -> i64>(k: &K, n: i64) -> (r: i64)
    requires
        kernel_ok(k),
    ensures
        r == int_of(k, n),
{
    run(k, Op::Int(n))
}

/// `a + b`
pub fn plus<K: Fn(Op) -> i64>(k: &K, a: i64, b: i64) -> (r: i64)
    requires
        kernel_ok(k),
    ensures
        r == sum(k, a, b),
{
    run(k, Op::Add(a, b))
}

/// `a - b`
pub fn minus<K: Fn(Op) -> i64>(k: &K, a: i64, b: i64) -> (r: i64)
    requires
        kernel_ok(k),
    ensures
        r == diff(k, a, b),
{
    run(k, Op::Sub(a, b))
}

/// `a * b`
pub fn times<K: Fn(Op) -> i64>(k: &K, a: i64, b: i64) -> (r: i64)
    requires
        kernel_ok(k),
    ensures
        r == prod(k, a, b),
{
    run(k, Op::Mul(a, b))
}

/// `a / b`
pub fn over<K: Fn(Op) -> i64>(k: &K, a: i64, b: i64) -> (r: i64)
    requires
        kernel_ok(k),
    ensures
        r == quot(k, a, b),
{
    run(k, Op::Div(a, b))
}

/// The square of the distance between `p` and `q`.
pub fn distance2<K: Fn(Op) -> i64>(k: &K, p: &Coord, q: &Coord) -> (r: i64)
    requires
        kernel_ok(k),
    ensures
        r == dist2(k, *p, *q),
{
    let dx = minus(k, p.x, q.x);
    let dy = minus(k, p.y, q.y);
    plus(k, times(k, dx, dx), times(k, dy, dy))
}

/// `a < b` as numbers: false when either is not a number.
pub open spec fn lt(a: i64, b: i64) -> bool {
    a != NAN && b != NAN && a < b
}

/// `a <= b` as numbers: false when either is not a number.
pub open spec fn le(a: i64, b: i64) -> bool {
    a != NAN && b != NAN && a <= b
}

/// `a == b` as numbers: false when either is not a number.
pub open spec fn same(a: i64, b: i64) -> bool {
    a != NAN && a == b
}

/// Two points with equal coordinates.
pub open spec fn same_coord(p: Coord, q: Coord) -> bool {
    same(p.x, q.x) && same(p.y, q.y)
}

/// Tests whether `a < b` as numbers.
pub fn is_lt(a: i64, b: i64) -> (r: bool)
    ensures
        r == lt(a, b),
{
    a != NAN && b != NAN && a < b
}

/// Tests whether `a <= b` as numbers.
pub fn is_le(a: i64, b: i64) -> (r: bool)
    ensures
        r == le(a, b),
{
    a != NAN && b != NAN && a <= b
}

/// Tests whether `a == b` as numbers.
pub fn is_same(a: i64, b: i64) -> (r: bool)
    ensures
        r == same(a, b),
{
    a != NAN && a == b
}

/// Tests whether two points have equal coordinates.
pub fn is_same_coord(p: &Coord, q: &Coord) -> (r: bool)
    ensures
        r == same_coord(*p, *q),
{
    is_same(p.x, q.x) && is_same(p.y, q.y)
}

} // verus!
