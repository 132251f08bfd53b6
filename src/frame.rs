//! Stereo frames and the fixed-point arithmetic on them.
use vstd::prelude::*;

verus! {

/// The fixed-point representation of 1.0.
pub const UNIT: i64 = 1_000_000;

/// The smallest and largest sample value a frame channel holds.
pub open spec fn sample_min() -> int {
    i32::MIN as int
}

pub open spec fn sample_max() -> int {
    i32::MAX as int
}

/// Saturates a mathematical sample value into the range of a channel.
pub open spec fn clip(v: int) -> int {
    if v < sample_min() {
        sample_min()
    } else if v > sample_max() {
        sample_max()
    } else {
        v
    }
}

/// Division rounding toward zero (the rounding of Rust's `/`).
pub open spec fn div_trunc(a: int, d: int) -> int
    recommends
        d > 0,
{
    if a >= 0 {
        a / d
    } else {
        -((-a) / d)
    }
}

/// A sample multiplied by a fixed-point factor, rounded toward zero.
pub open spec fn mul_fx(a: int, g: int) -> int {
    div_trunc(a * g, UNIT as int)
}

/// Executable saturation of a wide value into a channel.
pub fn clip_i128(v: i128) -> (r: i32)
    ensures
        r as int == clip(v as int),
{
    if v < i32::MIN as i128 {
        i32::MIN
    } else if v > i32::MAX as i128 {
        i32::MAX
    } else {
        v as i32
    }
}

/// Executable division rounding toward zero, for a positive divisor.
pub fn div_trunc_i128(a: i128, d: i128) -> (r: i128)
    requires
        d > 0,
        a > i128::MIN,
    ensures
        r as int == div_trunc(a as int, d as int),
{
    if a >= 0 {
        a / d
    } else {
        let n: i128 = -a;
        -(n / d)
    }
}

/// A stereo sample: a left and a right channel value in micro-units.
#[derive(Clone, Copy, Debug, PartialEq, Eq, Structural)]
pub struct Frame {
    pub left: i32,
    pub right: i32,
}

/// A frame with both channels multiplied by `g`, saturating.
pub open spec fn scaled(f: Frame, g: int) -> Frame {
    Frame { left: clip(mul_fx(f.left as int, g)) as i32, right: clip(mul_fx(f.right as int, g)) as i32 }
}

/// A frame with each channel multiplied by its own factor, saturating.
pub open spec fn scaled_each(f: Frame, gl: int, gr: int) -> Frame {
    Frame {
        left: clip(mul_fx(f.left as int, gl)) as i32,
        right: clip(mul_fx(f.right as int, gr)) as i32,
    }
}

/// The channel-wise sum of two frames, saturating.
pub open spec fn sum(a: Frame, b: Frame) -> Frame {
    Frame { left: clip(a.left + b.left) as i32, right: clip(a.right + b.right) as i32 }
}

impl Frame {
    pub fn new(left: i32, right: i32) -> (r: Frame)
        ensures
            r.left == left,
            r.right == right,
    {
        Frame { left, right }
    }

    /// The frame that carries a mono value on both channels.
    pub fn from_mono(value: i32) -> (r: Frame)
        ensures
            r.left == value,
            r.right == value,
    {
        Frame { left: value, right: value }
    }

    /// The silent frame.
    pub fn silent() -> (r: Frame)
        ensures
            r.left == 0,
            r.right == 0,
            r == Frame::spec_silent(),
    {
        Frame { left: 0, right: 0 }
    }

    pub open spec fn spec_silent() -> Frame {
        Frame { left: 0, right: 0 }
    }

    /// Channel-wise sum, saturating.
    pub fn add(self, other: Frame) -> (r: Frame)
        ensures
            r.left == clip(self.left + other.left),
            r.right == clip(self.right + other.right),
            r == sum(self, other),
    {
        Frame {
            left: clip_i128(self.left as i128 + other.left as i128),
            right: clip_i128(self.right as i128 + other.right as i128),
        }
    }

    /// Channel-wise difference, saturating.
    pub fn sub(self, other: Frame) -> (r: Frame)
        ensures
            r.left == clip(self.left - other.left),
            r.right == clip(self.right - other.right),
    {
        Frame {
            left: clip_i128(self.left as i128 - other.left as i128),
            right: clip_i128(self.right as i128 - other.right as i128),
        }
    }

    /// Both channels multiplied by the fixed-point factor `g`, saturating.
    pub fn scale(self, g: i64) -> (r: Frame)
        ensures
            r.left == clip(mul_fx(self.left as int, g as int)),
            r.right == clip(mul_fx(self.right as int, g as int)),
            r == scaled(self, g as int),
    {
        Frame { left: scale_sample(self.left, g), right: scale_sample(self.right, g) }
    }

    /// Each channel multiplied by its own fixed-point factor, saturating.
    pub fn scale_each(self, gl: i64, gr: i64) -> (r: Frame)
        ensures
            r.left == clip(mul_fx(self.left as int, gl as int)),
            r.right == clip(mul_fx(self.right as int, gr as int)),
            r == scaled_each(self, gl as int, gr as int),
    {
        Frame { left: scale_sample(self.left, gl), right: scale_sample(self.right, gr) }
    }
}

/// One sample multiplied by a fixed-point factor, saturating.
pub fn scale_sample(a: i32, g: i64) -> (r: i32)
    ensures
        r == clip(mul_fx(a as int, g as int)),
{
    assert(-0x8000_0000 * 0x8000_0000_0000_0000 <= (a as int) * (g as int)
        <= 0x8000_0000 * 0x8000_0000_0000_0000) by (nonlinear_arith)
        requires
            -0x8000_0000 <= a < 0x8000_0000,
            -0x8000_0000_0000_0000 <= g < 0x8000_0000_0000_0000,
    ;
    let p: i128 = a as i128 * g as i128;
    clip_i128(div_trunc_i128(p, UNIT as i128))
}

/// The numerator of the 4-point cubic Hermite interpolation at fractional
/// position `x / UNIT` between `y1` and `y2`, over the denominator
/// `2 * UNIT^3`. Written in Horner form with the coefficients doubled:
/// `2*c1 = y2 - y0`, `2*c2 = 2*y0 - 5*y1 + 4*y2 - y3`,
/// `2*c3 = (y3 - y0) + 3*(y1 - y2)`.
pub open spec fn cubic_numer(y0: int, y1: int, y2: int, y3: int, x: int) -> int {
    let u = UNIT as int;
    let c1 = y2 - y0;
    let c2 = 2 * y0 - 5 * y1 + 4 * y2 - y3;
    let c3 = (y3 - y0) + 3 * (y1 - y2);
    ((c3 * x + c2 * u) * x + c1 * (u * u)) * x + 2 * y1 * (u * u * u)
}

/// The cubic Hermite interpolation of four neighbouring samples at the
/// fractional position `x / UNIT` past `y1`, rounded toward zero.
pub open spec fn cubic(y0: int, y1: int, y2: int, y3: int, x: int) -> int {
    let u = UNIT as int;
    clip(div_trunc(cubic_numer(y0, y1, y2, y3, x), 2 * (u * u * u)))
}

pub proof fn lemma_cubic_at_zero(y0: int, y1: int, y2: int, y3: int)
    ensures
        cubic(y0, y1, y2, y3, 0) == clip(y1),
{
    let u = UNIT as int;
    let k: int = 2 * (u * u * u);
    let c1 = y2 - y0;
    let c2 = 2 * y0 - 5 * y1 + 4 * y2 - y3;
    let c3 = (y3 - y0) + 3 * (y1 - y2);
    assert(((c3 * 0 + c2 * u) * 0 + c1 * (u * u)) * 0 + 2 * y1 * (u * u * u) == y1 * k)
        by (nonlinear_arith)
        requires
            k == 2 * (u * u * u),
    ;
    assert(k > 0);
    if y1 >= 0 {
        vstd::arithmetic::div_mod::lemma_div_by_multiple(y1, k);
    } else {
        vstd::arithmetic::div_mod::lemma_div_by_multiple(-y1, k);
        assert(-(y1 * k) == (-y1) * k) by (nonlinear_arith);
    }
}

/// Interpolates one channel from four neighbours at fractional position
/// `x / UNIT`; at `x == 0` it is exactly `y1`.
pub fn cubic_sample(y0: i32, y1: i32, y2: i32, y3: i32, x: i64) -> (r: i32)
    requires
        0 <= x < UNIT,
    ensures
        r == cubic(y0 as int, y1 as int, y2 as int, y3 as int, x as int),
        x == 0 ==> r == y1,
{
    proof {
        lemma_cubic_at_zero(y0 as int, y1 as int, y2 as int, y3 as int);
    }
    let u: i128 = UNIT as i128;
    let a0: i128 = y0 as i128;
    let a1: i128 = y1 as i128;
    let a2: i128 = y2 as i128;
    let a3: i128 = y3 as i128;
    let xx: i128 = x as i128;
    let c1: i128 = a2 - a0;
    let c2: i128 = 2 * a0 - 5 * a1 + 4 * a2 - a3;
    let c3: i128 = (a3 - a0) + 3 * (a1 - a2);
    let ghost lim: int = 0x1_0000_0000;
    assert(-8 * lim <= c3 <= 8 * lim && -12 * lim <= c2 <= 12 * lim && -lim <= c1 <= lim);
    assert(-8 * lim * 1_000_000 <= c3 * xx <= 8 * lim * 1_000_000) by (nonlinear_arith)
        requires
            -8 * lim <= c3 <= 8 * lim,
            0 <= xx < 1_000_000,
    ;
    assert(-12 * lim * 1_000_000 <= c2 * u <= 12 * lim * 1_000_000) by (nonlinear_arith)
        requires
            -12 * lim <= c2 <= 12 * lim,
            u == 1_000_000,
    ;
    let t3: i128 = c3 * xx + c2 * u;
    assert(-20 * lim * 1_000_000_000_000 <= t3 * xx <= 20 * lim * 1_000_000_000_000)
        by (nonlinear_arith)
        requires
            -20 * lim * 1_000_000 <= t3 <= 20 * lim * 1_000_000,
            0 <= xx < 1_000_000,
    ;
    assert(-lim * 1_000_000_000_000 <= c1 * (u * u) <= lim * 1_000_000_000_000)
        by (nonlinear_arith)
        requires
            -lim <= c1 <= lim,
            u == 1_000_000,
    ;
    let t2: i128 = t3 * xx + c1 * (u * u);
    assert(-21 * lim * 1_000_000_000_000_000_000 <= t2 * xx <= 21 * lim
        * 1_000_000_000_000_000_000) by (nonlinear_arith)
        requires
            -21 * lim * 1_000_000_000_000 <= t2 <= 21 * lim * 1_000_000_000_000,
            0 <= xx < 1_000_000,
    ;
    assert(-2 * lim * 1_000_000_000_000_000_000 <= 2 * a1 * (u * u * u) <= 2 * lim
        * 1_000_000_000_000_000_000) by (nonlinear_arith)
        requires
            -lim <= a1 <= lim,
            u == 1_000_000,
    ;
    let numer: i128 = t2 * xx + 2 * a1 * (u * u * u);
    let q: i128 = div_trunc_i128(numer, 2 * (u * u * u));
    clip_i128(q)
}

/// Channel-wise cubic interpolation of four neighbouring frames.
pub fn cubic_frame(y0: Frame, y1: Frame, y2: Frame, y3: Frame, x: i64) -> (r: Frame)
    requires
        0 <= x < UNIT,
    ensures
        r.left == cubic(y0.left as int, y1.left as int, y2.left as int, y3.left as int, x as int),
        r.right == cubic(
            y0.right as int,
            y1.right as int,
            y2.right as int,
            y3.right as int,
            x as int,
        ),
        x == 0 ==> r == y1,
{
    Frame {
        left: cubic_sample(y0.left, y1.left, y2.left, y3.left, x),
        right: cubic_sample(y0.right, y1.right, y2.right, y3.right, x),
    }
}

/// `r` is the square root of `n`, rounded down.
pub open spec fn is_floor_sqrt(r: int, n: int) -> bool {
    0 <= r && r * r <= n < (r + 1) * (r + 1)
}

/// The square root of `n`, rounded down.
pub open spec fn sqrt_floor(n: int) -> int {
    choose|r: int| is_floor_sqrt(r, n)
}

/// The left gain of a panning value.
pub open spec fn pan_left(pan: int) -> int {
    sqrt_floor(2 * (UNIT - pan) * UNIT)
}

/// The right gain of a panning value.
pub open spec fn pan_right(pan: int) -> int {
    sqrt_floor(2 * pan * UNIT)
}

/// A rounded-down square root is unique.
pub proof fn lemma_sqrt_floor_is(r: int, n: int)
    requires
        is_floor_sqrt(r, n),
    ensures
        sqrt_floor(n) == r,
{
    let s = sqrt_floor(n);
    assert(is_floor_sqrt(s, n));
    if s < r {
        assert((s + 1) * (s + 1) <= r * r) by (nonlinear_arith)
            requires
                0 <= s < r,
        ;
    }
    if r < s {
        assert((r + 1) * (r + 1) <= s * s) by (nonlinear_arith)
            requires
                0 <= r < s,
        ;
    }
}

/// The square root of `n`, rounded down, for `n` up to `4 * UNIT^2`.
pub fn floor_sqrt(n: u64) -> (r: u64)
    requires
        n <= 4 * UNIT * UNIT,
    ensures
        is_floor_sqrt(r as int, n as int),
{
    let mut lo: u64 = 0;
    let mut hi: u64 = 2 * UNIT as u64 + 1;
    assert(n < hi * hi) by (nonlinear_arith)
        requires
            n <= 4_000_000_000_000,
            hi == 2_000_001,
    ;
    while lo + 1 < hi
        invariant
            lo < hi <= 2_000_001,
            lo * lo <= n < hi * hi,
        decreases hi - lo,
    {
        let mid: u64 = lo + (hi - lo) / 2;
        assert(mid * mid <= 2_000_001 * 2_000_001) by (nonlinear_arith)
            requires
                mid <= 2_000_001,
        ;
        if mid * mid <= n {
            lo = mid;
        } else {
            hi = mid;
        }
    }
    lo
}

/// The only square root of `UNIT^2` is `UNIT`.
pub proof fn lemma_sqrt_unit_squared(r: int)
    requires
        is_floor_sqrt(r, UNIT * UNIT),
    ensures
        r == UNIT,
{
    let u = UNIT as int;
    if r < u {
        assert((r + 1) * (r + 1) <= u * u) by (nonlinear_arith)
            requires
                0 <= r < u,
        ;
    }
    if r > u {
        assert(r * r > u * u) by (nonlinear_arith)
            requires
                r > u,
                u > 0,
        ;
    }
}

/// The fixed-point channel gains of a panning value `pan` in `[0, UNIT]`:
/// `sqrt(2 * (1 - pan))` on the left and `sqrt(2 * pan)` on the right, each
/// rounded down. The center leaves a frame unchanged, and the squared gains
/// always sum to (nearly) `2 * UNIT^2`: the power stays constant across the
/// stereo field.
pub fn pan_gains(pan: i64) -> (r: (i64, i64))
    requires
        0 <= pan <= UNIT,
    ensures
        is_floor_sqrt(r.0 as int, 2 * (UNIT - pan) * UNIT),
        is_floor_sqrt(r.1 as int, 2 * pan * UNIT),
        r.0 == pan_left(pan as int),
        r.1 == pan_right(pan as int),
{
    assert(2 * (UNIT - pan) * UNIT <= 4 * UNIT * UNIT && 2 * pan * UNIT <= 4 * UNIT * UNIT)
        by (nonlinear_arith)
        requires
            0 <= pan <= 1_000_000,
    ;
    let l: u64 = floor_sqrt((2 * (UNIT - pan) * UNIT) as u64);
    let r: u64 = floor_sqrt((2 * pan * UNIT) as u64);
    assert(l <= 2 * UNIT && r <= 2 * UNIT) by (nonlinear_arith)
        requires
            l * l <= 4_000_000_000_000,
            r * r <= 4_000_000_000_000,
    ;
    proof {
        lemma_sqrt_floor_is(l as int, 2 * (UNIT - pan) * UNIT);
        lemma_sqrt_floor_is(r as int, 2 * pan * UNIT);
    }
    (l as i64, r as i64)
}

/// Equal-power panning: for every panning value in `[0, UNIT]`, the squares
/// of the two channel gains sum to `2 * UNIT^2` up to the rounding of the
/// square roots, and at the center both gains are exactly `UNIT`.
pub proof fn law_equal_power(pan: int, gl: int, gr: int)
    requires
        0 <= pan <= UNIT,
        is_floor_sqrt(gl, 2 * (UNIT - pan) * UNIT),
        is_floor_sqrt(gr, 2 * pan * UNIT),
    ensures
        gl * gl + gr * gr <= 2 * UNIT * UNIT,
        gl * gl + gr * gr > 2 * UNIT * UNIT - 2 * (gl + gr) - 2,
        pan == UNIT / 2 ==> gl == UNIT && gr == UNIT,
{
    assert(2 * (UNIT - pan) * UNIT + 2 * pan * UNIT == 2 * UNIT * UNIT) by (nonlinear_arith);
    assert((gl + 1) * (gl + 1) == gl * gl + 2 * gl + 1) by (nonlinear_arith);
    assert((gr + 1) * (gr + 1) == gr * gr + 2 * gr + 1) by (nonlinear_arith);
    if pan == UNIT / 2 {
        lemma_sqrt_unit_squared(gl);
        lemma_sqrt_unit_squared(gr);
    }
}

/// Multiplying by the fixed-point 1.0 changes nothing.
pub proof fn lemma_mul_unit(a: int)
    ensures
        mul_fx(a, UNIT as int) == a,
{
    let u = UNIT as int;
    if a >= 0 {
        vstd::arithmetic::div_mod::lemma_div_by_multiple(a, u);
    } else {
        vstd::arithmetic::div_mod::lemma_div_by_multiple(-a, u);
        assert(-(a * u) == (-a) * u) by (nonlinear_arith);
    }
}

proof fn lemma_falling_cubic(x1: int, x2: int, u: int)
    requires
        0 < x1 <= x2 < u,
    ensures
        ({
            let n1 = x1 * x1 * x1 - 2 * u * x1 * x1 + u * u * u;
            let n2 = x2 * x2 * x2 - 2 * u * x2 * x2 + u * u * u;
            0 <= n2 <= n1 < u * u * u
        }),
{
    let n1 = x1 * x1 * x1 - 2 * u * x1 * x1 + u * u * u;
    let n2 = x2 * x2 * x2 - 2 * u * x2 * x2 + u * u * u;
    let d = x1 * x1 + x1 * x2 + x2 * x2 - 2 * u * (x1 + x2);
    let e = x1 - x2;
    let c = x1 * x1 + x1 * x2 + x2 * x2;
    let b = x1 + x2;
    assert(x1 * x1 * x1 - x2 * x2 * x2 == e * c) by (nonlinear_arith)
        requires
            e == x1 - x2,
            c == x1 * x1 + x1 * x2 + x2 * x2,
    ;
    assert(x1 * x1 - x2 * x2 == e * b) by (nonlinear_arith)
        requires
            e == x1 - x2,
            b == x1 + x2,
    ;
    assert(2 * u * x1 * x1 - 2 * u * x2 * x2 == 2 * u * (x1 * x1 - x2 * x2)) by (nonlinear_arith);
    assert(2 * u * (e * b) == e * (2 * u * b)) by (nonlinear_arith);
    assert(e * c - e * (2 * u * b) == e * (c - 2 * u * b)) by (nonlinear_arith);
    assert(d == c - 2 * u * b);
    assert(n1 - n2 == e * d);
    assert(x1 * x1 <= u * x1 && x1 * x2 <= u * x1 && x2 * x2 <= u * x2) by (nonlinear_arith)
        requires
            0 < x1 <= x2 < u,
    ;
    assert(2 * u * (x1 + x2) == 2 * (u * x1) + 2 * (u * x2)) by (nonlinear_arith);
    assert(u * x2 > 0) by (nonlinear_arith)
        requires
            0 < x2 < u,
    ;
    assert(d < 0);
    assert(e * d >= 0) by (nonlinear_arith)
        requires
            e <= 0,
            d < 0,
    ;
    assert(n2 == (u - x2) * (u * u + u * x2 - x2 * x2)) by (nonlinear_arith)
        requires
            n2 == x2 * x2 * x2 - 2 * u * x2 * x2 + u * u * u,
    ;
    assert(u * x2 >= x2 * x2) by (nonlinear_arith)
        requires
            0 < x2 < u,
    ;
    assert(u * u > 0) by (nonlinear_arith)
        requires
            u > 0,
    ;
    assert(n2 >= 0) by (nonlinear_arith)
        requires
            n2 == (u - x2) * (u * u + u * x2 - x2 * x2),
            x2 < u,
            u * u + u * x2 - x2 * x2 > 0,
    ;
    assert(x1 * x1 * x1 < 2 * u * x1 * x1) by (nonlinear_arith)
        requires
            0 < x1 < u,
    ;
}

/// Past the midpoint between a peak and a zero crossing the interpolation
/// falls: for the samples `0, UNIT, 0, -UNIT` the curve between the middle
/// two is non-increasing from `x = UNIT / 2` on, and stays in `[0, UNIT)`.
pub proof fn law_cubic_falls_past_peak(x1: int, x2: int)
    requires
        UNIT / 2 <= x1 <= x2 < UNIT,
    ensures
        0 <= cubic(0, UNIT as int, 0, -UNIT, x2) <= cubic(0, UNIT as int, 0, -UNIT, x1) < UNIT,
{
    let u = UNIT as int;
    let k = 2 * (u * u * u);
    lemma_falling_cubic(x1, x2, u);
    let n1 = x1 * x1 * x1 - 2 * u * x1 * x1 + u * u * u;
    let n2 = x2 * x2 * x2 - 2 * u * x2 * x2 + u * u * u;
    assert(cubic_numer(0, u, 0, -u, x1) == ((2 * u * x1 + (-4 * u) * u) * x1 + 0 * (u * u)) * x1
        + 2 * u * (u * u * u));
    assert(cubic_numer(0, u, 0, -u, x2) == ((2 * u * x2 + (-4 * u) * u) * x2 + 0 * (u * u)) * x2
        + 2 * u * (u * u * u));
    assert(((2 * u * x1 + (-4 * u) * u) * x1 + 0 * (u * u)) * x1 + 2 * u * (u * u * u) == 2 * u
        * n1) by (nonlinear_arith)
        requires
            n1 == x1 * x1 * x1 - 2 * u * x1 * x1 + u * u * u,
    ;
    assert(((2 * u * x2 + (-4 * u) * u) * x2 + 0 * (u * u)) * x2 + 2 * u * (u * u * u) == 2 * u
        * n2) by (nonlinear_arith)
        requires
            n2 == x2 * x2 * x2 - 2 * u * x2 * x2 + u * u * u,
    ;
    let a1 = 2 * u * n1;
    let a2 = 2 * u * n2;
    assert(0 <= a2 <= a1 < k * u) by (nonlinear_arith)
        requires
            a1 == 2 * u * n1,
            a2 == 2 * u * n2,
            0 <= n2 <= n1 < u * u * u,
            k == 2 * (u * u * u),
            u > 0,
    ;
    vstd::arithmetic::div_mod::lemma_div_is_ordered(a2, a1, k);
    vstd::arithmetic::div_mod::lemma_div_pos_is_pos(a2, k);
    vstd::arithmetic::div_mod::lemma_fundamental_div_mod(a1, k);
    vstd::arithmetic::div_mod::lemma_mod_pos_bound(a1, k);
    if a1 / k >= u {
        assert(k * (a1 / k) >= k * u) by (nonlinear_arith)
            requires
                a1 / k >= u,
                k > 0,
        ;
    }
}

} // verus!
