//! Straight lines on the integer grid.
//!
//! A line from `(x0, y0)` to `(x1, y1)` has one point for each step along its
//! longer axis. Along the shorter axis the exact position is rounded to the
//! nearest integer, halves upwards, so that the same pixels are chosen in
//! whichever direction the line is drawn.
//!
//! `LineIter` walks a line point by point with additions and comparisons
//! only; `line_point_at` gives any one point at once, and `line` all of them.
use vstd::arithmetic::div_mod::{
    lemma_fundamental_div_mod,
    lemma_fundamental_div_mod_converse,
    lemma_mod_bound,
};
use vstd::prelude::*;

verus! {

/// The distance between two integers.
pub open spec fn abs_diff(a: int, b: int) -> int {
    if a >= b {
        a - b
    } else {
        b - a
    }
}

/// The number of steps of a line: the longer of its two extents. The line has
/// one point more than it has steps.
pub open spec fn line_steps(x0: int, y0: int, x1: int, y1: int) -> int {
    let dx = abs_diff(x1, x0);
    let dy = abs_diff(y1, y0);
    if dx >= dy {
        dx
    } else {
        dy
    }
}

/// `a / n` rounded to the nearest integer, halves upwards.
pub open spec fn div_round(a: int, n: int) -> int {
    (2 * a + n) / (2 * n)
}

/// Point `i` of the line from `(x0, y0)` to `(x1, y1)`, for `i` from 0 to the
/// number of steps.
pub open spec fn line_point(x0: int, y0: int, x1: int, y1: int, i: int) -> (int, int) {
    let n = line_steps(x0, y0, x1, y1);
    if n == 0 {
        (x0, y0)
    } else {
        (x0 + div_round(i * (x1 - x0), n), y0 + div_round(i * (y1 - y0), n))
    }
}

/// The points of the line from `(x0, y0)` to `(x1, y1)`, in order.
pub open spec fn line_points(x0: int, y0: int, x1: int, y1: int) -> Seq<(int, int)> {
    Seq::new((line_steps(x0, y0, x1, y1) + 1) as nat, |i: int| line_point(x0, y0, x1, y1, i))
}

/// Whether the line from `(x0, y0)` to `(x1, y1)` has the point `(x, y)`.
pub open spec fn line_covers(x0: int, y0: int, x1: int, y1: int, x: int, y: int) -> bool {
    exists|i: int|
        0 <= i <= line_steps(x0, y0, x1, y1) && #[trigger] line_point(x0, y0, x1, y1, i) == (x, y)
}

/// Points given as machine integers, read as points of the grid.
pub open spec fn points_of(points: Seq<(i32, i32)>) -> Seq<(int, int)> {
    Seq::new(points.len(), |i: int| (points[i].0 as int, points[i].1 as int))
}

/// The rounded quotient is the one integer within half a unit of `a / n`.
pub proof fn lemma_div_round_bounds(a: int, n: int)
    requires
        n > 0,
    ensures
        2 * n * div_round(a, n) <= 2 * a + n < 2 * n * div_round(a, n) + 2 * n,
{
    lemma_fundamental_div_mod(2 * a + n, 2 * n);
    lemma_mod_bound(2 * a + n, 2 * n);
}

/// An integer within half a unit of `a / n` is the rounded quotient.
pub proof fn lemma_div_round_unique(a: int, n: int, q: int)
    requires
        n > 0,
        2 * n * q <= 2 * a + n < 2 * n * q + 2 * n,
    ensures
        div_round(a, n) == q,
{
    let r = 2 * a + n - 2 * n * q;
    assert(2 * a + n == q * (2 * n) + r) by (nonlinear_arith)
        requires
            r == 2 * a + n - 2 * n * q,
    ;
    lemma_fundamental_div_mod_converse(2 * a + n, 2 * n, q, r);
}

/// Rounding commutes with adding a whole number.
pub proof fn lemma_div_round_shift(a: int, n: int, k: int)
    requires
        n > 0,
    ensures
        div_round(a + k * n, n) == div_round(a, n) + k,
{
    lemma_div_round_bounds(a, n);
    let q = div_round(a, n);
    assert(2 * n * (q + k) <= 2 * (a + k * n) + n < 2 * n * (q + k) + 2 * n) by (nonlinear_arith)
        requires
            2 * n * q <= 2 * a + n < 2 * n * q + 2 * n,
    ;
    lemma_div_round_unique(a + k * n, n, q + k);
}

/// After `i` of `n` steps along an axis of extent `d`, the rounded offset
/// lies between 0 and `d`; it is 0 at the start and `d` at the end, and along
/// the longer axis it is exactly `i` steps.
pub proof fn lemma_offset(i: int, d: int, n: int)
    requires
        n > 0,
        0 <= i <= n,
        -n <= d <= n,
    ensures
        d >= 0 ==> 0 <= div_round(i * d, n) <= d,
        d <= 0 ==> d <= div_round(i * d, n) <= 0,
        i == 0 ==> div_round(i * d, n) == 0,
        i == n ==> div_round(i * d, n) == d,
        d == n ==> div_round(i * d, n) == i,
        d == -n ==> div_round(i * d, n) == -i,
{
    let a = i * d;
    let q = div_round(a, n);
    lemma_div_round_bounds(a, n);
    if d >= 0 {
        assert(0 <= a <= n * d) by (nonlinear_arith)
            requires
                a == i * d,
                0 <= i <= n,
                0 <= d,
        ;
        assert(0 <= q <= d) by (nonlinear_arith)
            requires
                n > 0,
                0 <= a <= n * d,
                2 * n * q <= 2 * a + n < 2 * n * q + 2 * n,
        ;
    } else {
        assert(n * d <= a <= 0) by (nonlinear_arith)
            requires
                a == i * d,
                0 <= i <= n,
                d <= 0,
        ;
        assert(d <= q <= 0) by (nonlinear_arith)
            requires
                n > 0,
                n * d <= a <= 0,
                2 * n * q <= 2 * a + n < 2 * n * q + 2 * n,
        ;
    }
    if i == 0 {
        assert(a == 0);
        lemma_div_round_unique(a, n, 0);
    }
    if i == n {
        assert(2 * n * d <= 2 * a + n < 2 * n * d + 2 * n) by (nonlinear_arith)
            requires
                a == n * d,
                n > 0,
        ;
        lemma_div_round_unique(a, n, d);
    }
    if d == n {
        assert(2 * n * i <= 2 * a + n < 2 * n * i + 2 * n) by (nonlinear_arith)
            requires
                a == i * n,
                n > 0,
        ;
        lemma_div_round_unique(a, n, i);
    }
    if d == -n {
        assert(2 * n * (-i) <= 2 * a + n < 2 * n * (-i) + 2 * n) by (nonlinear_arith)
            requires
                a == i * (-n),
                n > 0,
        ;
        lemma_div_round_unique(a, n, -i);
    }
}

/// A line starts at its first end and stops at its second.
pub proof fn lemma_line_endpoints(x0: int, y0: int, x1: int, y1: int)
    ensures
        line_points(x0, y0, x1, y1).first() == (x0, y0),
        line_points(x0, y0, x1, y1).last() == (x1, y1),
{
    let n = line_steps(x0, y0, x1, y1);
    if n > 0 {
        lemma_offset(0, x1 - x0, n);
        lemma_offset(0, y1 - y0, n);
        lemma_offset(n, x1 - x0, n);
        lemma_offset(n, y1 - y0, n);
    }
}

/// A line from a point to itself is that one point.
pub proof fn lemma_line_single_point(x: int, y: int)
    ensures
        line_points(x, y, x, y) == seq![(x, y)],
{
    assert(line_points(x, y, x, y) =~= seq![(x, y)]);
}

/// No point occurs twice in a line: each step moves along the longer axis.
pub proof fn lemma_line_points_distinct(x0: int, y0: int, x1: int, y1: int, i: int, j: int)
    requires
        0 <= i <= line_steps(x0, y0, x1, y1),
        0 <= j <= line_steps(x0, y0, x1, y1),
        i != j,
    ensures
        line_point(x0, y0, x1, y1, i) != line_point(x0, y0, x1, y1, j),
{
    let n = line_steps(x0, y0, x1, y1);
    lemma_offset(i, x1 - x0, n);
    lemma_offset(j, x1 - x0, n);
    lemma_offset(i, y1 - y0, n);
    lemma_offset(j, y1 - y0, n);
}

/// Drawn from the other end, a line has the same points in reverse order.
pub proof fn lemma_line_reversed(x0: int, y0: int, x1: int, y1: int, i: int)
    requires
        0 <= i <= line_steps(x0, y0, x1, y1),
    ensures
        line_steps(x1, y1, x0, y0) == line_steps(x0, y0, x1, y1),
        line_point(x1, y1, x0, y0, line_steps(x0, y0, x1, y1) - i) == line_point(
            x0,
            y0,
            x1,
            y1,
            i,
        ),
{
    let n = line_steps(x0, y0, x1, y1);
    if n > 0 {
        lemma_reversed_offset(i, x1 - x0, n);
        lemma_reversed_offset(i, y1 - y0, n);
    }
}

proof fn lemma_reversed_offset(i: int, d: int, n: int)
    requires
        n > 0,
    ensures
        div_round((n - i) * (-d), n) == div_round(i * d, n) - d,
{
    assert((n - i) * (-d) == i * d + (-d) * n) by (nonlinear_arith);
    lemma_div_round_shift(i * d, n, -d);
}

/// Reversing the ends of a line leaves its set of points unchanged.
pub proof fn lemma_line_symmetric(x0: int, y0: int, x1: int, y1: int)
    ensures
        line_points(x1, y1, x0, y0) == line_points(x0, y0, x1, y1).reverse(),
        line_points(x1, y1, x0, y0).to_set() == line_points(x0, y0, x1, y1).to_set(),
        forall|x: int, y: int|
            line_covers(x1, y1, x0, y0, x, y) == line_covers(x0, y0, x1, y1, x, y),
{
    let n = line_steps(x0, y0, x1, y1);
    let forward = line_points(x0, y0, x1, y1);
    let backward = line_points(x1, y1, x0, y0);
    lemma_line_reversed(x0, y0, x1, y1, 0);
    assert forall|i: int| 0 <= i <= n implies backward[i] == #[trigger] forward.reverse()[i] by {
        lemma_line_reversed(x0, y0, x1, y1, n - i);
    }
    assert(backward =~= forward.reverse());
    assert forall|p: (int, int)| backward.to_set().contains(p) == forward.to_set().contains(
        p,
    ) by {
        if backward.contains(p) {
            let i = choose|i: int| 0 <= i < backward.len() && backward[i] == p;
            assert(forward[n - i] == p);
        }
        if forward.contains(p) {
            let i = choose|i: int| 0 <= i < forward.len() && forward[i] == p;
            assert(backward[n - i] == p);
        }
    }
    assert(backward.to_set() =~= forward.to_set());
    assert forall|x: int, y: int|
        line_covers(x1, y1, x0, y0, x, y) == line_covers(x0, y0, x1, y1, x, y) by {
        if line_covers(x1, y1, x0, y0, x, y) {
            let i = choose|i: int|
                0 <= i <= n && #[trigger] line_point(x1, y1, x0, y0, i) == (x, y);
            lemma_line_reversed(x0, y0, x1, y1, n - i);
            assert(line_point(x0, y0, x1, y1, n - i) == (x, y));
        }
        if line_covers(x0, y0, x1, y1, x, y) {
            let i = choose|i: int|
                0 <= i <= n && #[trigger] line_point(x0, y0, x1, y1, i) == (x, y);
            lemma_line_reversed(x0, y0, x1, y1, i);
            assert(line_point(x1, y1, x0, y0, n - i) == (x, y));
        }
    }
}

/// The number of points of the line from `(x0, y0)` to `(x1, y1)`.
pub fn line_len(x0: i32, y0: i32, x1: i32, y1: i32) -> (len: u64)
    ensures
        len == line_steps(x0 as int, y0 as int, x1 as int, y1 as int) + 1,
        len == line_points(x0 as int, y0 as int, x1 as int, y1 as int).len(),
{
    let dx: i64 = if x1 >= x0 {
        x1 as i64 - x0 as i64
    } else {
        x0 as i64 - x1 as i64
    };
    let dy: i64 = if y1 >= y0 {
        y1 as i64 - y0 as i64
    } else {
        y0 as i64 - y1 as i64
    };
    if dx >= dy {
        (dx + 1) as u64
    } else {
        (dy + 1) as u64
    }
}

/// `from` moved by the rounded share of `to - from` that `i` of `n` steps
/// make.
fn step_along(from: i32, to: i32, i: u64, n: u64) -> (r: i32)
    requires
        0 < n <= 0xffff_ffff,
        i <= n,
        abs_diff(to as int, from as int) <= n,
    ensures
        r == from + div_round(i * (to - from), n as int),
{
    let n_wide: i128 = n as i128;
    let i_wide: i128 = i as i128;
    proof {
        lemma_offset(i as int, to - from, n as int);
    }
    if to >= from {
        let d: i128 = to as i128 - from as i128;
        assert(0 <= i_wide * d <= 0xffff_ffff * 0xffff_ffff) by (nonlinear_arith)
            requires
                0 <= i_wide <= 0xffff_ffff,
                0 <= d <= 0xffff_ffff,
        ;
        let q: i128 = (2 * (i_wide * d) + n_wide) / (2 * n_wide);
        assert(q == div_round(i * (to - from), n as int));
        (from as i128 + q) as i32
    } else {
        let m: i128 = from as i128 - to as i128;
        assert(0 <= i_wide * m <= 0xffff_ffff * 0xffff_ffff) by (nonlinear_arith)
            requires
                0 <= i_wide <= 0xffff_ffff,
                0 <= m <= 0xffff_ffff,
        ;
        let k: i128 = (2 * (i_wide * m) + n_wide - 1) / (2 * n_wide);
        proof {
            let a = i * (to - from);
            assert(a == -(i_wide * m)) by (nonlinear_arith)
                requires
                    a == i * (to - from),
                    m == from - to,
                    i_wide == i,
            ;
            let num = 2 * (i_wide * m) + n_wide - 1;
            lemma_fundamental_div_mod(num, 2 * n_wide);
            lemma_mod_bound(num, 2 * n_wide);
            assert(2 * n * (-k) <= 2 * a + n < 2 * n * (-k) + 2 * n) by (nonlinear_arith)
                requires
                    num == 2 * (-a) + n - 1,
                    num == (2 * n) * k + num % (2 * n),
                    0 <= num % (2 * n) < 2 * n,
                    n > 0,
            ;
            lemma_div_round_unique(a, n as int, -k);
        }
        (from as i128 - k) as i32
    }
}

/// Point `i` of the line from `(x0, y0)` to `(x1, y1)`.
pub fn line_point_at(x0: i32, y0: i32, x1: i32, y1: i32, i: u64) -> (p: (i32, i32))
    requires
        i <= line_steps(x0 as int, y0 as int, x1 as int, y1 as int),
    ensures
        (p.0 as int, p.1 as int) == line_point(x0 as int, y0 as int, x1 as int, y1 as int, i as int),
{
    let n = line_len(x0, y0, x1, y1) - 1;
    if n == 0 {
        (x0, y0)
    } else {
        (step_along(x0, x1, i, n), step_along(y0, y1, i, n))
    }
}

/// Offset and remainder one step further along an axis of extent `d`, for
/// a line of `n` steps: the remainder grows by `2 * d`, and where it leaves
/// the range from 0 to `2 * n` the offset moves by one.
pub open spec fn next_offset(d: int, n: int, offset: int, rest: int) -> (int, int) {
    let grown = rest + 2 * d;
    if grown >= 2 * n {
        (offset + 1, grown - 2 * n)
    } else if grown < 0 {
        (offset - 1, grown + 2 * n)
    } else {
        (offset, grown)
    }
}

/// Stepping with a remainder gives the rounded offsets: if `offset` and
/// `rest` are quotient and remainder of `2 * i * d + n` by `2 * n`, then
/// `next_offset` gives those of `2 * (i + 1) * d + n`.
pub proof fn lemma_next_offset(i: int, d: int, n: int, offset: int, rest: int)
    requires
        n > 0,
        0 <= i < n,
        -n <= d <= n,
        0 <= rest < 2 * n,
        2 * i * d + n == 2 * n * offset + rest,
    ensures
        offset == div_round(i * d, n),
        ({
            let (offset2, rest2) = next_offset(d, n, offset, rest);
            &&& 0 <= rest2 < 2 * n
            &&& 2 * (i + 1) * d + n == 2 * n * offset2 + rest2
            &&& offset2 == div_round((i + 1) * d, n)
            &&& d >= 0 ==> 0 <= offset2 <= d
            &&& d <= 0 ==> d <= offset2 <= 0
        }),
{
    let (offset2, rest2) = next_offset(d, n, offset, rest);
    assert(2 * (i * d) + n == 2 * i * d + n) by (nonlinear_arith);
    lemma_div_round_unique(i * d, n, offset);
    let turn = offset2 - offset;
    assert(turn == 1 || turn == 0 || turn == -1);
    assert(rest2 == rest + 2 * d - turn * (2 * n));
    let product = turn * (2 * n);
    assert(2 * ((i + 1) * d) + n == 2 * n * offset2 + rest2 && 2 * (i + 1) * d + n == 2 * n
        * offset2 + rest2) by (nonlinear_arith)
        requires
            2 * i * d + n == 2 * n * offset + rest,
            offset2 == offset + turn,
            rest2 == rest + 2 * d - product,
            product == turn * (2 * n),
    ;
    lemma_div_round_unique((i + 1) * d, n, offset2);
    lemma_offset(i + 1, d, n);
}

/// A walk along a line, point by point. It holds the next point and, for each
/// axis, the remainder that says when the point moves along that axis; each
/// step is a few additions and comparisons.
#[derive(Clone, Copy, Debug)]
pub struct LineIter {
    x0: i32,
    y0: i32,
    x1: i32,
    y1: i32,
    steps: i64,
    index: i64,
    x: i32,
    y: i32,
    rest_x: i64,
    rest_y: i64,
}

impl LineIter {
    /// The walk is at a point of its line, with the remainders that belong to
    /// it, or past the end.
    pub closed spec fn wf(&self) -> bool {
        let (x0, y0, x1, y1) = (self.x0 as int, self.y0 as int, self.x1 as int, self.y1 as int);
        &&& self.steps == line_steps(x0, y0, x1, y1)
        &&& 0 <= self.index <= self.steps + 1
        &&& self.index <= self.steps ==> {
            &&& (self.x as int, self.y as int) == line_point(x0, y0, x1, y1, self.index as int)
            &&& self.steps > 0 ==> {
                &&& 0 <= self.rest_x < 2 * self.steps
                &&& 0 <= self.rest_y < 2 * self.steps
                &&& 2 * self.index * (x1 - x0) + self.steps == 2 * self.steps * (self.x - x0)
                    + self.rest_x
                &&& 2 * self.index * (y1 - y0) + self.steps == 2 * self.steps * (self.y - y0)
                    + self.rest_y
            }
        }
    }

    /// The two ends of the line: `(x0, y0, x1, y1)`.
    pub closed spec fn ends(&self) -> (int, int, int, int) {
        (self.x0 as int, self.y0 as int, self.x1 as int, self.y1 as int)
    }

    /// How many points the walk has given.
    pub closed spec fn given(&self) -> int {
        self.index as int
    }

    /// The points that the walk has yet to give, in order.
    pub open spec fn remaining(&self) -> Seq<(int, int)> {
        let (x0, y0, x1, y1) = self.ends();
        line_points(x0, y0, x1, y1).skip(self.given())
    }

    /// A walk from `(x0, y0)` to `(x1, y1)` that has given no point yet.
    pub fn new(x0: i32, y0: i32, x1: i32, y1: i32) -> (walk: LineIter)
        ensures
            walk.wf(),
            walk.ends() == (x0 as int, y0 as int, x1 as int, y1 as int),
            walk.given() == 0,
    {
        let steps = (line_len(x0, y0, x1, y1) - 1) as i64;
        proof {
            if steps > 0 {
                lemma_offset(0, x1 - x0, steps as int);
                lemma_offset(0, y1 - y0, steps as int);
            }
            assert(2 * 0 * (x1 - x0) + steps == 2 * steps * (x0 - x0) + steps) by (nonlinear_arith);
            assert(2 * 0 * (y1 - y0) + steps == 2 * steps * (y0 - y0) + steps) by (nonlinear_arith);
        }
        LineIter { x0, y0, x1, y1, steps, index: 0, x: x0, y: y0, rest_x: steps, rest_y: steps }
    }

    /// The next point of the line, and `None` when both ends and all points
    /// between them have been given.
    pub fn next(&mut self) -> (point: Option<(i32, i32)>)
        requires
            old(self).wf(),
        ensures
            final(self).wf(),
            final(self).ends() == old(self).ends(),
            ({
                let (x0, y0, x1, y1) = old(self).ends();
                match point {
                    Some(p) => {
                        &&& old(self).given() <= line_steps(x0, y0, x1, y1)
                        &&& (p.0 as int, p.1 as int) == line_point(x0, y0, x1, y1, old(self).given())
                        &&& final(self).given() == old(self).given() + 1
                    },
                    None => {
                        &&& old(self).given() == line_steps(x0, y0, x1, y1) + 1
                        &&& final(self).given() == old(self).given()
                    },
                }
            }),
    {
        if self.index > self.steps {
            return None;
        }
        let point = (self.x, self.y);
        if self.index < self.steps {
            let (x, rest_x) = Self::advance(
                self.x,
                self.rest_x,
                self.x0,
                self.x1,
                self.steps,
                Ghost(self.index as int),
            );
            let (y, rest_y) = Self::advance(
                self.y,
                self.rest_y,
                self.y0,
                self.y1,
                self.steps,
                Ghost(self.index as int),
            );
            self.x = x;
            self.y = y;
            self.rest_x = rest_x;
            self.rest_y = rest_y;
        }
        self.index = self.index + 1;
        Some(point)
    }

    /// One step along one axis.
    fn advance(at: i32, rest: i64, from: i32, to: i32, steps: i64, Ghost(i): Ghost<int>) -> (next: (
        i32,
        i64,
    ))
        requires
            0 < steps <= 0xffff_ffff,
            0 <= i < steps,
            abs_diff(to as int, from as int) <= steps,
            0 <= rest < 2 * steps,
            2 * i * (to - from) + steps == 2 * steps * (at - from) + rest,
        ensures
            0 <= next.1 < 2 * steps,
            2 * (i + 1) * (to - from) + steps == 2 * steps * (next.0 - from) + next.1,
            next.0 == from + div_round((i + 1) * (to - from), steps as int),
    {
        let d: i64 = to as i64 - from as i64;
        proof {
            lemma_next_offset(i, d as int, steps as int, at - from, rest as int);
        }
        let grown = rest + 2 * d;
        if grown >= 2 * steps {
            (at + 1, grown - 2 * steps)
        } else if grown < 0 {
            (at - 1, grown + 2 * steps)
        } else {
            (at, grown)
        }
    }
}

/// The points of the line from `(x0, y0)` to `(x1, y1)`, in order.
pub fn line(x0: i32, y0: i32, x1: i32, y1: i32) -> (points: Vec<(i32, i32)>)
    requires
        line_steps(x0 as int, y0 as int, x1 as int, y1 as int) < usize::MAX,
    ensures
        points_of(points@) == line_points(x0 as int, y0 as int, x1 as int, y1 as int),
{
    let ghost steps = line_steps(x0 as int, y0 as int, x1 as int, y1 as int);
    let mut walk = LineIter::new(x0, y0, x1, y1);
    let mut points: Vec<(i32, i32)> = Vec::new();
    loop
        invariant
            walk.wf(),
            walk.ends() == (x0 as int, y0 as int, x1 as int, y1 as int),
            steps == line_steps(x0 as int, y0 as int, x1 as int, y1 as int),
            steps < usize::MAX,
            points@.len() == walk.given(),
            walk.given() <= steps + 1,
            forall|j: int|
                0 <= j < points@.len() ==> (#[trigger] points@[j].0 as int, points@[j].1 as int)
                    == line_point(x0 as int, y0 as int, x1 as int, y1 as int, j),
        ensures
            points@.len() == steps + 1,
            forall|j: int|
                0 <= j < points@.len() ==> (#[trigger] points@[j].0 as int, points@[j].1 as int)
                    == line_point(x0 as int, y0 as int, x1 as int, y1 as int, j),
        decreases steps + 1 - walk.given(),
    {
        match walk.next() {
            Some(point) => {
                points.push(point);
            },
            None => {
                break ;
            },
        }
    }
    assert(points_of(points@) =~= line_points(x0 as int, y0 as int, x1 as int, y1 as int));
    points
}

} // verus!
