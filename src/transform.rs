//! Fixed-point 2D transforms and smoothstep easing.

use vstd::prelude::*;

verus! {

/// Fixed-point time; `TIME_PER_BEAT` units make one beat.
pub type Time = i64;

/// Fixed-point coordinate; `COORD_ONE` is the unit length (and unit scale).
pub type Coord = i64;

pub const TIME_PER_BEAT: i64 = 1000;

pub const COORD_ONE: i64 = 1000;

/// One full turn in angle units (millidegrees).
pub const FULL_TURN: i64 = 360000;

pub const HALF_TURN: i64 = 180000;

/// Fixed-point value of an easing factor of one.
pub const EASE_ONE: i64 = 65536;

/// Largest magnitude of a single coordinate or scale that a transform holds.
pub const MAX_COORD: i64 = 1099511627776;

/// Largest magnitude of one duration (fade or frame).
pub const MAX_DURATION: i64 = 16777216;

/// The smoothstep curve `3t^2 - 2t^3` of `t = n / d`, clamped into `[0, 1]`,
/// as a multiple of `EASE_ONE`. A non-positive `d` counts as fully eased.
pub open spec fn smoothstep(n: int, d: int) -> int {
    if d <= 0 {
        EASE_ONE as int
    } else {
        let c = if n < 0 {
            0
        } else if n > d {
            d
        } else {
            n
        };
        (3 * c * c * d - 2 * c * c * c) * EASE_ONE / (d * d * d)
    }
}

proof fn lemma_cubic_bounds(c: int, d: int)
    requires
        0 <= c <= d,
        0 < d,
    ensures
        0 <= 3 * c * c * d - 2 * c * c * c <= d * d * d,
{
    assert(3 * c * c * d - 2 * c * c * c == c * c * (3 * d - 2 * c)) by (nonlinear_arith);
    assert(c * c * (3 * d - 2 * c) >= 0) by (nonlinear_arith)
        requires
            0 <= c <= d,
    ;
    assert(d * d * d - (3 * c * c * d - 2 * c * c * c) == (d - c) * (d - c) * (d + 2 * c))
        by (nonlinear_arith);
    assert((d - c) * (d - c) * (d + 2 * c) >= 0) by (nonlinear_arith)
        requires
            0 <= c <= d,
    ;
}

pub proof fn lemma_smoothstep_range(n: int, d: int)
    ensures
        0 <= smoothstep(n, d) <= EASE_ONE,
        d > 0 && n <= 0 ==> smoothstep(n, d) == 0,
        n >= d ==> smoothstep(n, d) == EASE_ONE,
{
    if d > 0 {
        let c = if n < 0 {
            0
        } else if n > d {
            d
        } else {
            n
        };
        lemma_cubic_bounds(c, d);
        let num = 3 * c * c * d - 2 * c * c * c;
        let d3 = d * d * d;
        let e = EASE_ONE as int;
        assert(d3 > 0) by (nonlinear_arith)
            requires
                d > 0,
                d3 == d * d * d,
        ;
        assert(num * e / d3 <= e) by (nonlinear_arith)
            requires
                d3 > 0,
                e > 0,
                0 <= num <= d3,
        ;
        assert(num * e / d3 >= 0) by (nonlinear_arith)
            requires
                d3 > 0,
                e > 0,
                num >= 0,
        ;
        assert(d3 * e / d3 == e) by (nonlinear_arith)
            requires
                d3 > 0,
        ;
        assert(0 * e / d3 == 0) by (nonlinear_arith)
            requires
                d3 > 0,
        ;
        if n >= d {
            assert(num == d3) by (nonlinear_arith)
                requires
                    c == d,
                    num == 3 * c * c * d - 2 * c * c * c,
                    d3 == d * d * d,
            ;
        }
        if n <= 0 {
            assert(num == 0) by (nonlinear_arith)
                requires
                    c == 0,
                    num == 3 * c * c * d - 2 * c * c * c,
            ;
        }
    }
}

/// Smoothstep easing of `n / d` (see `smoothstep`).
pub fn ease(n: Time, d: Time) -> (r: i64)
    requires
        d <= MAX_DURATION,
    ensures
        r == smoothstep(n as int, d as int),
        0 <= r <= EASE_ONE,
{
    proof {
        lemma_smoothstep_range(n as int, d as int);
    }
    if d <= 0 {
        return EASE_ONE;
    }
    let c: i64 = if n < 0 {
        0
    } else if n > d {
        d
    } else {
        n
    };
    let c2 = c as i128;
    let d2 = d as i128;
    assert(0 <= c2 * c2 <= d2 * d2) by (nonlinear_arith)
        requires
            0 <= c2 <= d2,
    ;
    assert(0 <= c2 * c2 * c2 <= d2 * d2 * d2) by (nonlinear_arith)
        requires
            0 <= c2 <= d2,
            0 <= c2 * c2 <= d2 * d2,
    ;
    assert(d2 * d2 <= 0x1000000000000) by (nonlinear_arith)
        requires
            0 < d2 <= 0x1000000,
    ;
    assert(d2 * d2 * d2 <= 0x1000000000000000000) by (nonlinear_arith)
        requires
            0 < d2 <= 0x1000000,
            d2 * d2 <= 0x1000000000000,
    ;
    assert(c2 * c2 * d2 <= d2 * d2 * d2) by (nonlinear_arith)
        requires
            0 <= c2 <= d2,
            0 <= c2 * c2 <= d2 * d2,
    ;
    assert(c2 * c2 * d2 >= 0) by (nonlinear_arith)
        requires
            0 <= c2 <= d2,
    ;
    proof {
        lemma_cubic_bounds(c as int, d as int);
    }
    assert(0 <= 3 * c2 * c2 <= 3 * 0x1000000000000) by (nonlinear_arith)
        requires
            0 <= c2 * c2 <= d2 * d2,
            d2 * d2 <= 0x1000000000000,
    ;
    assert(0 <= 3 * c2 * c2 * d2 <= 3 * 0x1000000000000000000) by (nonlinear_arith)
        requires
            0 <= c2 * c2 * d2 <= d2 * d2 * d2,
            d2 * d2 * d2 <= 0x1000000000000000000,
    ;
    assert(0 <= 2 * c2 * c2 * c2 <= 2 * 0x1000000000000000000) by (nonlinear_arith)
        requires
            0 <= c2 * c2 * c2 <= d2 * d2 * d2,
            d2 * d2 * d2 <= 0x1000000000000000000,
    ;
    assert(0 <= 2 * c2 * c2 <= 2 * 0x1000000000000) by (nonlinear_arith)
        requires
            0 <= c2 * c2 <= d2 * d2,
            d2 * d2 <= 0x1000000000000,
    ;
    let d3 = d2 * d2 * d2;
    let num = 3 * c2 * c2 * d2 - 2 * c2 * c2 * c2;
    assert(num * 65536 <= 0x1000000000000000000 * 65536) by (nonlinear_arith)
        requires
            num <= d3,
            d3 <= 0x1000000000000000000,
    ;
    assert(num * 65536 >= 0) by (nonlinear_arith)
        requires
            num >= 0,
    ;
    assert(d3 > 0) by (nonlinear_arith)
        requires
            d2 > 0,
            d3 == d2 * d2 * d2,
    ;
    let r = num * (EASE_ONE as i128) / d3;
    r as i64
}

/// Moves `a` toward `b` by the eased fraction `s / EASE_ONE`, rounding toward `a`.
pub open spec fn mix(a: int, b: int, s: int) -> int {
    if b >= a {
        a + (b - a) * s / EASE_ONE as int
    } else {
        a - (a - b) * s / EASE_ONE as int
    }
}

pub proof fn lemma_mix_ends(a: int, b: int)
    ensures
        mix(a, b, 0) == a,
        mix(a, b, EASE_ONE as int) == b,
        mix(a, a, EASE_ONE as int) == a,
{
    let e = EASE_ONE as int;
    assert((b - a) * e / e == b - a) by (nonlinear_arith)
        requires
            e > 0,
    ;
    assert((a - b) * e / e == a - b) by (nonlinear_arith)
        requires
            e > 0,
    ;
    assert((b - a) * 0 / e == 0) by (nonlinear_arith)
        requires
            e > 0,
    ;
    assert((a - b) * 0 / e == 0) by (nonlinear_arith)
        requires
            e > 0,
    ;
}

pub proof fn lemma_mix_between(a: int, b: int, s: int)
    requires
        0 <= s <= EASE_ONE,
    ensures
        a <= b ==> a <= mix(a, b, s) <= b,
        b <= a ==> b <= mix(a, b, s) <= a,
        mix(a, a, s) == a,
        0 < s < EASE_ONE && a < b ==> a <= mix(a, b, s) < b,
{
    let e = EASE_ONE as int;
    if b >= a {
        assert(0 <= (b - a) * s <= (b - a) * e) by (nonlinear_arith)
            requires
                b >= a,
                0 <= s <= e,
        ;
        assert((b - a) * s / e <= (b - a)) by (nonlinear_arith)
            requires
                0 <= (b - a) * s <= (b - a) * e,
                e > 0,
        ;
        assert((b - a) * s / e >= 0) by (nonlinear_arith)
            requires
                0 <= (b - a) * s,
                e > 0,
        ;
        if 0 < s < e && a < b {
            assert((b - a) * s < (b - a) * e) by (nonlinear_arith)
                requires
                    b > a,
                    s < e,
            ;
            assert((b - a) * s / e < (b - a)) by (nonlinear_arith)
                requires
                    (b - a) * s < (b - a) * e,
                    e > 0,
            ;
        }
    } else {
        assert(0 <= (a - b) * s <= (a - b) * e) by (nonlinear_arith)
            requires
                a > b,
                0 <= s <= e,
        ;
        assert((a - b) * s / e <= (a - b)) by (nonlinear_arith)
            requires
                0 <= (a - b) * s <= (a - b) * e,
                e > 0,
        ;
        assert((a - b) * s / e >= 0) by (nonlinear_arith)
            requires
                0 <= (a - b) * s,
                e > 0,
        ;
    }
}

/// Brings an angle of `(-FULL_TURN, 2 * FULL_TURN)` into `[0, FULL_TURN)`.
pub open spec fn wrap_angle(a: int) -> int {
    if a < 0 {
        a + FULL_TURN
    } else if a >= FULL_TURN {
        a - FULL_TURN
    } else {
        a
    }
}

/// The signed turn of least magnitude from `a` to `b`, in `(-HALF_TURN, HALF_TURN]`.
pub open spec fn angle_to(a: int, b: int) -> int {
    let d = if b >= a {
        b - a
    } else {
        b - a + FULL_TURN
    };
    if d > HALF_TURN {
        d - FULL_TURN
    } else {
        d
    }
}

/// Turns `a` toward `b` along the shorter path by the eased fraction `s / EASE_ONE`.
pub open spec fn mix_angle(a: int, b: int, s: int) -> int {
    let d = angle_to(a, b);
    wrap_angle(
        if d >= 0 {
            a + d * s / EASE_ONE as int
        } else {
            a - (-d) * s / EASE_ONE as int
        },
    )
}

pub proof fn lemma_mix_angle(a: int, b: int, s: int)
    requires
        0 <= a < FULL_TURN,
        0 <= b < FULL_TURN,
        0 <= s <= EASE_ONE,
    ensures
        0 <= mix_angle(a, b, s) < FULL_TURN,
        mix_angle(a, b, 0) == a,
        mix_angle(a, b, EASE_ONE as int) == b,
        mix_angle(a, a, s) == a,
{
    let d = angle_to(a, b);
    let e = EASE_ONE as int;
    if d >= 0 {
        assert(0 <= d * s <= d * e) by (nonlinear_arith)
            requires
                d >= 0,
                0 <= s <= e,
        ;
        assert(0 <= d * s / e <= d) by (nonlinear_arith)
            requires
                0 <= d * s <= d * e,
                e > 0,
        ;
    } else {
        assert(0 <= (-d) * s <= (-d) * e) by (nonlinear_arith)
            requires
                d < 0,
                0 <= s <= e,
        ;
        assert(0 <= (-d) * s / e <= -d) by (nonlinear_arith)
            requires
                0 <= (-d) * s <= (-d) * e,
                e > 0,
        ;
    }
    assert(d * e / e == d) by (nonlinear_arith)
        requires
            e > 0,
    ;
    assert((-d) * e / e == -d) by (nonlinear_arith)
        requires
            e > 0,
    ;
    assert(d * 0 / e == 0) by (nonlinear_arith)
        requires
            e > 0,
    ;
    assert((-d) * 0 / e == 0) by (nonlinear_arith)
        requires
            e > 0,
    ;
}

/// Rotation, translation and scale of a shape, in fixed point.
#[derive(Debug, Clone, Copy, PartialEq, Eq, Structural)]
pub struct Transform {
    pub x: Coord,
    pub y: Coord,
    /// Angle in `[0, FULL_TURN)`.
    pub rotation: i64,
    pub scale: Coord,
}

/// A transform whose fields lie within `bound` and whose angle is normalized.
pub open spec fn transform_within(t: Transform, bound: int) -> bool {
    &&& -bound <= t.x <= bound
    &&& -bound <= t.y <= bound
    &&& -bound <= t.scale <= bound
    &&& 0 <= t.rotation < FULL_TURN
}

/// The transform with the same placement and a scale of zero.
pub open spec fn zero_scale(t: Transform) -> Transform {
    Transform { scale: 0, ..t }
}

/// Componentwise eased interpolation, turning along the shorter path.
pub open spec fn lerp_spec(a: Transform, b: Transform, s: int) -> Transform {
    Transform {
        x: mix(a.x as int, b.x as int, s) as i64,
        y: mix(a.y as int, b.y as int, s) as i64,
        rotation: mix_angle(a.rotation as int, b.rotation as int, s) as i64,
        scale: mix(a.scale as int, b.scale as int, s) as i64,
    }
}

/// `lerp_spec` after easing `n / d` with `smoothstep`.
pub open spec fn ease_between(a: Transform, b: Transform, n: int, d: int) -> Transform {
    lerp_spec(a, b, smoothstep(n, d))
}

/// Bound under which lerping two transforms cannot overflow.
pub const LERP_BOUND: i64 = 0x1000000000000000;

pub proof fn lemma_lerp_ends(a: Transform, b: Transform)
    requires
        transform_within(a, LERP_BOUND as int),
        transform_within(b, LERP_BOUND as int),
    ensures
        lerp_spec(a, b, 0) == a,
        lerp_spec(a, b, EASE_ONE as int) == b,
{
    lemma_mix_ends(a.x as int, b.x as int);
    lemma_mix_ends(a.y as int, b.y as int);
    lemma_mix_ends(a.scale as int, b.scale as int);
    lemma_mix_angle(a.rotation as int, b.rotation as int, 0);
}

fn mix_coord(a: i64, b: i64, s: i64) -> (r: i64)
    requires
        -LERP_BOUND <= a <= LERP_BOUND,
        -LERP_BOUND <= b <= LERP_BOUND,
        0 <= s <= EASE_ONE,
    ensures
        r == mix(a as int, b as int, s as int),
{
    proof {
        lemma_mix_between(a as int, b as int, s as int);
    }
    let a2 = a as i128;
    let b2 = b as i128;
    let s2 = s as i128;
    if b >= a {
        assert(0 <= (b2 - a2) * s2 <= 0x2000000000000000 * 65536) by (nonlinear_arith)
            requires
                0 <= b2 - a2 <= 0x2000000000000000,
                0 <= s2 <= 65536,
        ;
        (a2 + (b2 - a2) * s2 / 65536) as i64
    } else {
        assert(0 <= (a2 - b2) * s2 <= 0x2000000000000000 * 65536) by (nonlinear_arith)
            requires
                0 <= a2 - b2 <= 0x2000000000000000,
                0 <= s2 <= 65536,
        ;
        (a2 - (a2 - b2) * s2 / 65536) as i64
    }
}

fn mix_rotation(a: i64, b: i64, s: i64) -> (r: i64)
    requires
        0 <= a < FULL_TURN,
        0 <= b < FULL_TURN,
        0 <= s <= EASE_ONE,
    ensures
        r == mix_angle(a as int, b as int, s as int),
{
    proof {
        lemma_mix_angle(a as int, b as int, s as int);
    }
    let d0: i64 = if b >= a {
        b - a
    } else {
        b - a + FULL_TURN
    };
    let d: i64 = if d0 > HALF_TURN {
        d0 - FULL_TURN
    } else {
        d0
    };
    let moved: i64 = if d >= 0 {
        assert(0 <= d * s <= 180000 * 65536) by (nonlinear_arith)
            requires
                0 <= d <= 180000,
                0 <= s <= 65536,
        ;
        a + d * s / EASE_ONE
    } else {
        assert(0 <= (-d) * s <= 180000 * 65536) by (nonlinear_arith)
            requires
                0 <= -d <= 180000,
                0 <= s <= 65536,
        ;
        a - (-d) * s / EASE_ONE
    };
    if moved < 0 {
        moved + FULL_TURN
    } else if moved >= FULL_TURN {
        moved - FULL_TURN
    } else {
        moved
    }
}

impl Transform {
    /// Zero translation, zero rotation, unit scale.
    pub fn identity() -> (r: Transform)
        ensures
            r == (Transform { x: 0, y: 0, rotation: 0, scale: COORD_ONE }),
    {
        Transform { x: 0, y: 0, rotation: 0, scale: COORD_ONE }
    }

    /// Interpolates toward `target` by the eased fraction `s / EASE_ONE`.
    pub fn lerp(&self, target: &Transform, s: i64) -> (r: Transform)
        requires
            transform_within(*self, LERP_BOUND as int),
            transform_within(*target, LERP_BOUND as int),
            0 <= s <= EASE_ONE,
        ensures
            r == lerp_spec(*self, *target, s as int),
    {
        Transform {
            x: mix_coord(self.x, target.x, s),
            y: mix_coord(self.y, target.y, s),
            rotation: mix_rotation(self.rotation, target.rotation, s),
            scale: mix_coord(self.scale, target.scale, s),
        }
    }
}

impl Default for Transform {
    fn default() -> (r: Transform)
        ensures
            r == (Transform { x: 0, y: 0, rotation: 0, scale: COORD_ONE }),
    {
        Transform::identity()
    }
}

} // verus!
