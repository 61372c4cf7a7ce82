//! Integer square roots, distances and polyline lengths.
use vstd::prelude::*;
use crate::types::Vec2;

verus! {

/// Largest magnitude of a coordinate that the geometry handles without overflow.
pub const COORD_LIMIT: i64 = 1_000_000_000;

/// `r` is the integer square root of `n`.
pub open spec fn is_floor_sqrt(n: int, r: int) -> bool {
    0 <= r && r * r <= n && n < (r + 1) * (r + 1)
}

/// The integer square root `floor(sqrt(n))`.
pub open spec fn floor_sqrt(n: nat) -> nat {
    choose|r: nat| #[trigger] is_floor_sqrt(n as int, r as int)
}

proof fn lemma_sqrt_unique(n: int, r: int, s: int)
    requires
        is_floor_sqrt(n, r),
        is_floor_sqrt(n, s),
    ensures
        r == s,
{
    if r < s {
        assert((r + 1) * (r + 1) <= s * s) by (nonlinear_arith)
            requires
                0 <= r,
                r + 1 <= s,
        ;
    } else if s < r {
        assert((s + 1) * (s + 1) <= r * r) by (nonlinear_arith)
            requires
                0 <= s,
                s + 1 <= r,
        ;
    }
}

/// Any integer square root of `n` is the one `floor_sqrt` names.
pub proof fn lemma_floor_sqrt_is(n: nat, r: nat)
    requires
        is_floor_sqrt(n as int, r as int),
    ensures
        floor_sqrt(n) == r,
{
    assert(exists|k: nat| #[trigger] is_floor_sqrt(n as int, k as int));
    let c = floor_sqrt(n);
    lemma_sqrt_unique(n as int, r as int, c as int);
}

/// The square root of a square is its base.
pub proof fn lemma_floor_sqrt_of_square(a: nat)
    ensures
        floor_sqrt(a * a) == a,
{
    assert(is_floor_sqrt((a * a) as int, a as int)) by (nonlinear_arith);
    lemma_floor_sqrt_is(a * a, a);
}

/// The square root of `n` is at most any `b` with `n <= b * b`.
pub proof fn lemma_floor_sqrt_le(n: nat, b: nat)
    requires
        n <= b * b,
    ensures
        floor_sqrt(n) <= b,
{
    let r = floor_sqrt(n);
    assert(exists|k: nat| #[trigger] is_floor_sqrt(n as int, k as int)) by {
        lemma_floor_sqrt_exists(n);
    }
    if r > b {
        assert(b * b < r * r) by (nonlinear_arith)
            requires
                r > b,
                b >= 0,
        ;
    }
}

proof fn lemma_floor_sqrt_exists(n: nat)
    ensures
        exists|k: nat| #[trigger] is_floor_sqrt(n as int, k as int),
    decreases n,
{
    if n == 0 {
        assert(is_floor_sqrt(0, 0));
    } else {
        lemma_floor_sqrt_exists((n - 1) as nat);
        let k: nat = choose|k: nat| #[trigger] is_floor_sqrt((n - 1) as int, k as int);
        if n < (k + 1) * (k + 1) {
            assert(is_floor_sqrt(n as int, k as int));
        } else {
            assert(is_floor_sqrt(n as int, (k + 1) as int)) by (nonlinear_arith)
                requires
                    n == (k + 1) * (k + 1),
            ;
        }
    }
}

/// Integer square root by bisection.
pub fn isqrt(n: u64) -> (r: u64)
    ensures
        r as nat == floor_sqrt(n as nat),
        is_floor_sqrt(n as int, r as int),
{
    let mut lo: u64 = 0;
    let mut hi: u64 = 4_294_967_296;
    assert(n < hi * hi) by (nonlinear_arith)
        requires
            hi == 4_294_967_296u64,
            n <= u64::MAX,
    ;
    while hi - lo > 1
        invariant
            lo < hi <= 4_294_967_296,
            lo * lo <= n,
            n < hi * hi,
        decreases hi - lo,
    {
        let mid = lo + (hi - lo) / 2;
        assert(mid * mid <= 4_294_967_295 * 4_294_967_295) by (nonlinear_arith)
            requires
                mid < 4_294_967_296,
        ;
        if mid * mid <= n {
            lo = mid;
        } else {
            hi = mid;
        }
    }
    proof {
        lemma_floor_sqrt_is(n as nat, lo as nat);
    }
    lo
}

/// Both coordinates of a point lie within the handled range.
pub open spec fn point_in_range(p: Vec2) -> bool {
    -COORD_LIMIT <= p.x <= COORD_LIMIT && -COORD_LIMIT <= p.y <= COORD_LIMIT
}

/// Squared Euclidean distance.
pub open spec fn sq_dist(a: Vec2, b: Vec2) -> nat {
    ((b.x - a.x) * (b.x - a.x) + (b.y - a.y) * (b.y - a.y)) as nat
}

/// Euclidean distance rounded down to whole millipixels.
pub open spec fn dist_spec(a: Vec2, b: Vec2) -> nat {
    floor_sqrt(sq_dist(a, b))
}

/// Upper bound on the distance between two in-range points.
pub open spec fn max_dist() -> nat {
    4 * COORD_LIMIT as nat
}

/// Points on a common vertical or horizontal line are as far apart as their
/// coordinates differ.
pub proof fn lemma_axis_dist(a: Vec2, b: Vec2)
    requires
        a.x == b.x || a.y == b.y,
    ensures
        a.x == b.x ==> dist_spec(a, b) == if b.y >= a.y { b.y - a.y } else { a.y - b.y },
        a.y == b.y ==> dist_spec(a, b) == if b.x >= a.x { b.x - a.x } else { a.x - b.x },
{
    if a.x == b.x {
        let d: nat = (if b.y >= a.y { b.y - a.y } else { a.y - b.y }) as nat;
        assert(sq_dist(a, b) == d * d) by (nonlinear_arith)
            requires
                a.x == b.x,
                d == (if b.y >= a.y { b.y - a.y } else { a.y - b.y }),
        ;
        lemma_floor_sqrt_of_square(d);
    }
    if a.y == b.y {
        let d: nat = (if b.x >= a.x { b.x - a.x } else { a.x - b.x }) as nat;
        assert(sq_dist(a, b) == d * d) by (nonlinear_arith)
            requires
                a.y == b.y,
                d == (if b.x >= a.x { b.x - a.x } else { a.x - b.x }),
        ;
        lemma_floor_sqrt_of_square(d);
    }
}

/// The distance between in-range points is bounded.
pub proof fn lemma_dist_bounded(a: Vec2, b: Vec2)
    requires
        point_in_range(a),
        point_in_range(b),
    ensures
        dist_spec(a, b) <= max_dist(),
{
    let m = max_dist();
    assert(sq_dist(a, b) <= m * m) by (nonlinear_arith)
        requires
            -COORD_LIMIT <= a.x <= COORD_LIMIT,
            -COORD_LIMIT <= a.y <= COORD_LIMIT,
            -COORD_LIMIT <= b.x <= COORD_LIMIT,
            -COORD_LIMIT <= b.y <= COORD_LIMIT,
            m == 4 * COORD_LIMIT,
    ;
    lemma_floor_sqrt_le(sq_dist(a, b), m);
}

/// Distance between two in-range points.
pub fn dist(a: Vec2, b: Vec2) -> (d: u64)
    requires
        point_in_range(a),
        point_in_range(b),
    ensures
        d as nat == dist_spec(a, b),
        d as nat <= max_dist(),
{
    let dx = b.x - a.x;
    let dy = b.y - a.y;
    assert(dx * dx <= 4_000_000_000_000_000_000 && dy * dy <= 4_000_000_000_000_000_000)
        by (nonlinear_arith)
        requires
            -2_000_000_000 <= dx <= 2_000_000_000,
            -2_000_000_000 <= dy <= 2_000_000_000,
    ;
    assert(0 <= dx * dx && 0 <= dy * dy) by (nonlinear_arith);
    let sx = (dx * dx) as u64;
    let sy = (dy * dy) as u64;
    let r = isqrt(sx + sy);
    proof {
        lemma_dist_bounded(a, b);
    }
    r
}

/// Total length of a polyline: the sum of its segment lengths.
pub open spec fn polyline_length(s: Seq<Vec2>) -> nat
    decreases s.len(),
{
    if s.len() < 2 {
        0
    } else {
        polyline_length(s.drop_last()) + dist_spec(s[s.len() - 2], s[s.len() - 1])
    }
}

/// Every point of the sequence is in range.
pub open spec fn all_in_range(s: Seq<Vec2>) -> bool {
    forall|i: int| 0 <= i < s.len() ==> point_in_range(#[trigger] s[i])
}

/// A polyline's length is bounded by its number of points.
pub proof fn lemma_polyline_bounded(s: Seq<Vec2>)
    requires
        all_in_range(s),
    ensures
        polyline_length(s) <= s.len() * max_dist(),
    decreases s.len(),
{
    if s.len() >= 2 {
        assert(all_in_range(s.drop_last()));
        lemma_polyline_bounded(s.drop_last());
        lemma_dist_bounded(s[s.len() - 2], s[s.len() - 1]);
        assert(polyline_length(s) <= (s.len() - 1) * max_dist() + max_dist());
        assert((s.len() - 1) * max_dist() + max_dist() == s.len() * max_dist())
            by (nonlinear_arith);
    }
}

} // verus!
