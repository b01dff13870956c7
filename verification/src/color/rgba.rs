use vstd::prelude::*;
use vstd::std_specs::convert::FromSpecImpl;
use vstd::std_specs::ops::AddSpecImpl;
use vstd::std_specs::ops::SubSpecImpl;

verus! {

/// RGB tuple
pub type RGB = (u8, u8, u8);

/// Tuple of Red, Green, Blue, Alpha components 0-255.
#[derive(Copy, Clone, Debug, PartialEq, Eq, Structural)]
pub struct RGBA(pub u8, pub u8, pub u8, pub u8);

/// White color
pub fn white() -> (c: RGBA)
    ensures
        c == RGBA(255, 255, 255, 255),
{
    RGBA(255, 255, 255, 255)
}

/// Black color
pub fn black() -> (c: RGBA)
    ensures
        c == RGBA(0, 0, 0, 255),
{
    RGBA(0, 0, 0, 255)
}

/// `c1` multiplied by `c2`, each component of `c2` taken as a fraction of
/// 255; alpha is 255.
pub open spec fn multiplied(c1: RGBA, c2: RGBA) -> RGBA {
    RGBA((c1.0 * c2.0 / 255) as u8, (c1.1 * c2.1 / 255) as u8, (c1.2 * c2.2 / 255) as u8, 255)
}

/// The half-way mix of two colors, each component truncated.
pub open spec fn mixed(c1: RGBA, c2: RGBA) -> RGBA {
    RGBA(
        ((c1.0 + c2.0) / 2) as u8,
        ((c1.1 + c2.1) / 2) as u8,
        ((c1.2 + c2.2) / 2) as u8,
        ((c1.3 + c2.3) / 2) as u8,
    )
}

/// The squared distance between the RGB parts of two colors.
pub open spec fn distance_of(c1: RGBA, c2: RGBA) -> int {
    (c1.0 - c2.0) * (c1.0 - c2.0) + (c1.1 - c2.1) * (c1.1 - c2.1) + (c1.2 - c2.2) * (c1.2 - c2.2)
}

/// The color with its RGB components inverted and its alpha kept.
pub open spec fn inverted(c: RGBA) -> RGBA {
    RGBA((255 - c.0) as u8, (255 - c.1) as u8, (255 - c.2) as u8, c.3)
}

/// Inverting a color twice gives it back.
pub proof fn lemma_invert_twice(c: RGBA)
    ensures
        inverted(inverted(c)) == c,
{
}

/// Mixing and multiplying do not depend on the order of the two colors.
pub proof fn lemma_mix_multiply_commute(c1: RGBA, c2: RGBA)
    ensures
        mixed(c1, c2) == mixed(c2, c1),
        multiplied(c1, c2) == multiplied(c2, c1),
{
    assert(c1.0 * c2.0 == c2.0 * c1.0) by (nonlinear_arith);
    assert(c1.1 * c2.1 == c2.1 * c1.1) by (nonlinear_arith);
    assert(c1.2 * c2.2 == c2.2 * c1.2) by (nonlinear_arith);
}

proof fn lemma_square_of_negation(a: int)
    by (nonlinear_arith)
    ensures
        a * a == (-a) * (-a),
{
}

/// The distance between two colors is symmetric, never negative, and zero
/// exactly when their RGB parts agree.
pub proof fn lemma_distance_metric(c1: RGBA, c2: RGBA)
    ensures
        distance_of(c1, c2) == distance_of(c2, c1),
        distance_of(c1, c2) >= 0,
        distance_of(c1, c2) == 0 <==> (c1.0 == c2.0 && c1.1 == c2.1 && c1.2 == c2.2),
{
    let dr = c1.0 - c2.0;
    let dg = c1.1 - c2.1;
    let db = c1.2 - c2.2;
    assert(dr * dr >= 0 && dg * dg >= 0 && db * db >= 0) by (nonlinear_arith);
    lemma_square_of_negation(dr);
    lemma_square_of_negation(dg);
    lemma_square_of_negation(db);
    assert(dr != 0 ==> dr * dr > 0) by (nonlinear_arith);
    assert(dg != 0 ==> dg * dg > 0) by (nonlinear_arith);
    assert(db != 0 ==> db * db > 0) by (nonlinear_arith);
}

/// `a + b`, saturating at 255.
pub open spec fn sat_add(a: u8, b: u8) -> u8 {
    if a + b > 255 {
        255
    } else {
        (a + b) as u8
    }
}

/// `a - b`, saturating at 0.
pub open spec fn sat_sub(a: u8, b: u8) -> u8 {
    if a < b {
        0
    } else {
        (a - b) as u8
    }
}

/// `x / 255` rounded to the nearest integer (no value sits halfway).
pub open spec fn div255_round(x: int) -> int {
    (2 * x + 255) / 510
}

/// Component of `alpha_mix`: `base` weighted by `255 - w`, `with` by `w`, each
/// rounded, added with saturation.
pub open spec fn alpha_mix_component(base: u8, with: u8, w: u8) -> u8 {
    let lo = div255_round(base * (255 - w));
    let hi = div255_round(with * w);
    if lo + hi > 255 {
        255
    } else {
        (lo + hi) as u8
    }
}

/// Component of a slide from `a` towards `b` by `q` quarters, truncated.
pub open spec fn lerp_quarter_component(a: u8, b: u8, q: u8) -> u8 {
    (((4 - q) * a + q * b) / 4) as u8
}

/// `c1` slid towards `c2` by `q` quarters of the way, each component truncated.
pub open spec fn lerp_quarters_spec(c1: RGBA, c2: RGBA, q: u8) -> RGBA {
    RGBA(
        lerp_quarter_component(c1.0, c2.0, q),
        lerp_quarter_component(c1.1, c2.1, q),
        lerp_quarter_component(c1.2, c2.2, q),
        lerp_quarter_component(c1.3, c2.3, q),
    )
}

impl RGBA {
    /// Constructs an empty RGBA (0,0,0,0).
    pub fn new() -> (c: RGBA)
        ensures
            c == RGBA(0, 0, 0, 0),
    {
        RGBA(0, 0, 0, 0)
    }

    /// Constructs an RGBA from R,G,B components (alpha is 255).
    pub fn rgb(r: u8, g: u8, b: u8) -> (c: RGBA)
        ensures
            c == RGBA(r, g, b, 255),
    {
        RGBA(r, g, b, 255)
    }

    /// Constructs an RGBA from R,G,B,A components.
    pub fn rgba(r: u8, g: u8, b: u8, a: u8) -> (c: RGBA)
        ensures
            c == RGBA(r, g, b, a),
    {
        RGBA(r, g, b, a)
    }

    /// True when the color is fully transparent.
    pub fn is_empty(&self) -> (b: bool)
        ensures
            b == (self.3 == 0),
    {
        self.a() == 0
    }

    /// The red component
    pub fn r(&self) -> (v: u8)
        ensures
            v == self.0,
    {
        self.0
    }

    /// The green component
    pub fn g(&self) -> (v: u8)
        ensures
            v == self.1,
    {
        self.1
    }

    /// The blue component
    pub fn b(&self) -> (v: u8)
        ensures
            v == self.2,
    {
        self.2
    }

    /// The alpha component
    pub fn a(&self) -> (v: u8)
        ensures
            v == self.3,
    {
        self.3
    }

    /// Multiplies `c1` by `c2`, using each component of `c2` as a fraction of
    /// 255; alpha is 255.
    pub fn multiply(c1: &RGBA, c2: &RGBA) -> (c: RGBA)
        ensures
            c == multiplied(*c1, *c2),
    {
        RGBA(mul_div255(c1.0, c2.0), mul_div255(c1.1, c2.1), mul_div255(c1.2, c2.2), 255)
    }

    /// Returns 50% c1 + 50% c2 (each component truncated).
    pub fn mix(c1: &RGBA, c2: &RGBA) -> (c: RGBA)
        ensures
            c == mixed(*c1, *c2),
    {
        RGBA(
            ((c1.0 as u16 + c2.0 as u16) / 2) as u8,
            ((c1.1 as u16 + c2.1 as u16) / 2) as u8,
            ((c1.2 as u16 + c2.2 as u16) / 2) as u8,
            ((c1.3 as u16 + c2.3 as u16) / 2) as u8,
        )
    }

    /// Lays `with` over `base` according to the alpha of `with`.
    pub fn alpha_mix(base: &RGBA, with: &RGBA) -> (c: RGBA)
        ensures
            base.3 == 0 ==> c == *with,
            base.3 != 0 && with.3 == 0 ==> c == *base,
            base.3 != 0 && with.3 == 255 ==> c == *with,
            base.3 != 0 && 0 < with.3 < 255 ==> c == RGBA(
                alpha_mix_component(base.0, with.0, with.3),
                alpha_mix_component(base.1, with.1, with.3),
                alpha_mix_component(base.2, with.2, with.3),
                sat_add(base.3, with.3),
            ),
    {
        if base.a() == 0 {
            return *with;
        }
        if with.a() == 0 {
            return *base;
        }
        if with.a() == 255 {
            return *with;
        }
        let w = with.a();
        RGBA(
            alpha_mix_channel(base.0, with.0, w),
            alpha_mix_channel(base.1, with.1, w),
            alpha_mix_channel(base.2, with.2, w),
            base.3.saturating_add(with.3),
        )
    }

    /// Computes the squared distance between the RGB parts of two colors.
    pub fn distance(c1: &RGBA, c2: &RGBA) -> (d: i32)
        ensures
            d == distance_of(*c1, *c2),
    {
        let dr = c1.0 as i32 - c2.0 as i32;
        let dg = c1.1 as i32 - c2.1 as i32;
        let db = c1.2 as i32 - c2.2 as i32;
        assert(dr * dr <= 65025 && dg * dg <= 65025 && db * db <= 65025) by (nonlinear_arith)
            requires
                -255 <= dr <= 255,
                -255 <= dg <= 255,
                -255 <= db <= 255,
        ;
        assert(dr * dr >= 0 && dg * dg >= 0 && db * db >= 0) by (nonlinear_arith);
        dr * dr + dg * dg + db * db
    }

    /// Inverts the RGB components, keeping alpha.
    pub fn invert(base: &RGBA) -> (c: RGBA)
        ensures
            c == inverted(*base),
    {
        RGBA::rgba(255 - base.r(), 255 - base.g(), 255 - base.b(), base.a())
    }

    /// Sets each RGB component to 255 when it is below 128 and to 0 otherwise,
    /// keeping alpha.
    pub fn binary_inverse(base: &RGBA) -> (c: RGBA)
        ensures
            c == RGBA(
                if base.0 < 128 {
                    255u8
                } else {
                    0u8
                },
                if base.1 < 128 {
                    255u8
                } else {
                    0u8
                },
                if base.2 < 128 {
                    255u8
                } else {
                    0u8
                },
                base.3,
            ),
    {
        let r: u8 = if base.r() < 128 {
            255
        } else {
            0
        };
        let g: u8 = if base.g() < 128 {
            255
        } else {
            0
        };
        let b: u8 = if base.b() < 128 {
            255
        } else {
            0
        };
        RGBA::rgba(r, g, b, base.a())
    }

    /// Slides every component of `c1` towards `c2` by `q` quarters of the way,
    /// truncating (the quarter steps of a linear interpolation).
    pub fn lerp_quarters(c1: &RGBA, c2: &RGBA, q: u8) -> (c: RGBA)
        requires
            q <= 4,
        ensures
            c == lerp_quarters_spec(*c1, *c2, q),
    {
        RGBA(
            lerp_channel(c1.0, c2.0, q),
            lerp_channel(c1.1, c2.1, q),
            lerp_channel(c1.2, c2.2, q),
            lerp_channel(c1.3, c2.3, q),
        )
    }
}

/// `a * b / 255` for one component.
fn mul_div255(a: u8, b: u8) -> (r: u8)
    ensures
        r == a * b / 255,
{
    assert(a * b <= 255 * 255) by (nonlinear_arith)
        requires
            a <= 255,
            b <= 255,
    ;
    assert(a * b >= 0) by (nonlinear_arith);
    ((a as u32 * b as u32) / 255) as u8
}

/// One component of `alpha_mix`.
fn alpha_mix_channel(base: u8, with: u8, w: u8) -> (r: u8)
    ensures
        r == alpha_mix_component(base, with, w),
{
    let bw: u32 = 255 - w as u32;
    let ww: u32 = w as u32;
    assert(0 <= (base as u32) * bw <= 255 * 255) by (nonlinear_arith)
        requires
            base <= 255,
            bw <= 255,
    ;
    assert(0 <= (with as u32) * ww <= 255 * 255) by (nonlinear_arith)
        requires
            with <= 255,
            ww <= 255,
    ;
    let pl: u32 = (base as u32) * bw;
    let ph: u32 = (with as u32) * ww;
    let lo = (2 * pl + 255) / 510;
    let hi = (2 * ph + 255) / 510;
    assert(lo + hi <= 1000);
    if lo + hi > 255 {
        255
    } else {
        (lo + hi) as u8
    }
}

/// One component of `lerp_quarters`.
fn lerp_channel(a: u8, b: u8, q: u8) -> (r: u8)
    requires
        q <= 4,
    ensures
        r == lerp_quarter_component(a, b, q),
{
    assert(0 <= (4 - q) * a <= 4 * 255 && 0 <= q * b <= 4 * 255) by (nonlinear_arith)
        requires
            q <= 4,
            a <= 255,
            b <= 255,
    ;
    assert(((4 - q) * a + q * b) / 4 <= 255) by (nonlinear_arith)
        requires
            q <= 4,
            a <= 255,
            b <= 255,
    ;
    (((4 - q as u32) * a as u32 + q as u32 * b as u32) / 4) as u8
}

impl Default for RGBA {
    /// The empty color (0,0,0,0).
    fn default() -> (c: RGBA)
        ensures
            c == RGBA(0, 0, 0, 0),
    {
        RGBA(0, 0, 0, 0)
    }
}

/// Adds all components, saturating.
impl core::ops::Add<RGBA> for RGBA {
    type Output = RGBA;

    fn add(self, rhs: RGBA) -> (c: RGBA) {
        RGBA(
            self.0.saturating_add(rhs.0),
            self.1.saturating_add(rhs.1),
            self.2.saturating_add(rhs.2),
            self.3.saturating_add(rhs.3),
        )
    }
}

impl AddSpecImpl<RGBA> for RGBA {
    open spec fn obeys_add_spec() -> bool {
        true
    }

    open spec fn add_req(self, rhs: RGBA) -> bool {
        true
    }

    open spec fn add_spec(self, rhs: RGBA) -> RGBA {
        RGBA(
            sat_add(self.0, rhs.0),
            sat_add(self.1, rhs.1),
            sat_add(self.2, rhs.2),
            sat_add(self.3, rhs.3),
        )
    }
}

/// Subtracts all components, saturating at 0.
impl core::ops::Sub<RGBA> for RGBA {
    type Output = RGBA;

    fn sub(self, rhs: RGBA) -> (c: RGBA) {
        RGBA(
            self.0.saturating_sub(rhs.0),
            self.1.saturating_sub(rhs.1),
            self.2.saturating_sub(rhs.2),
            self.3.saturating_sub(rhs.3),
        )
    }
}

impl SubSpecImpl<RGBA> for RGBA {
    open spec fn obeys_sub_spec() -> bool {
        true
    }

    open spec fn sub_req(self, rhs: RGBA) -> bool {
        true
    }

    open spec fn sub_spec(self, rhs: RGBA) -> RGBA {
        RGBA(
            sat_sub(self.0, rhs.0),
            sat_sub(self.1, rhs.1),
            sat_sub(self.2, rhs.2),
            sat_sub(self.3, rhs.3),
        )
    }
}

/// Convert from RGB to RGBA (alpha is 255).
impl From<RGB> for RGBA {
    fn from(d: RGB) -> (c: RGBA) {
        RGBA(d.0, d.1, d.2, 255)
    }
}

impl FromSpecImpl<RGB> for RGBA {
    open spec fn obeys_from_spec() -> bool {
        true
    }

    open spec fn from_spec(d: RGB) -> RGBA {
        RGBA(d.0, d.1, d.2, 255)
    }
}

/// Convert from a tuple of u8 to RGBA.
impl From<(u8, u8, u8, u8)> for RGBA {
    fn from(d: (u8, u8, u8, u8)) -> (c: RGBA) {
        RGBA(d.0, d.1, d.2, d.3)
    }
}

impl FromSpecImpl<(u8, u8, u8, u8)> for RGBA {
    open spec fn obeys_from_spec() -> bool {
        true
    }

    open spec fn from_spec(d: (u8, u8, u8, u8)) -> RGBA {
        RGBA(d.0, d.1, d.2, d.3)
    }
}

/// Convert from RGBA to a tuple of u8.
impl From<RGBA> for (u8, u8, u8, u8) {
    fn from(d: RGBA) -> (t: (u8, u8, u8, u8)) {
        (d.0, d.1, d.2, d.3)
    }
}

impl FromSpecImpl<RGBA> for (u8, u8, u8, u8) {
    open spec fn obeys_from_spec() -> bool {
        true
    }

    open spec fn from_spec(d: RGBA) -> (u8, u8, u8, u8) {
        (d.0, d.1, d.2, d.3)
    }
}

/// One component of a slide: it stays between the two ends, starts at the
/// first (no quarter), ends at the second (four quarters), and a slide between
/// equal values stays put; toward a smaller end, more quarters never give a
/// larger value, and toward a larger end never a smaller one.
pub proof fn lemma_lerp_component(a: u8, b: u8, q: u8, q2: u8)
    requires
        q <= 4,
        q2 <= 4,
    ensures
        (if a <= b { a } else { b }) <= lerp_quarter_component(a, b, q) <= (if a <= b { b } else { a }),
        lerp_quarter_component(a, b, 0) == a,
        lerp_quarter_component(a, b, 4) == b,
        a == b ==> lerp_quarter_component(a, b, q) == a,
        (b <= a && q <= q2) ==> lerp_quarter_component(a, b, q2) <= lerp_quarter_component(a, b, q),
        (a <= b && q <= q2) ==> lerp_quarter_component(a, b, q) <= lerp_quarter_component(a, b, q2),
{
    let x = (4 - q) * a + q * b;
    assert((if a <= b { a } else { b }) * 4 <= x <= (if a <= b { b } else { a }) * 4) by (nonlinear_arith)
        requires
            q <= 4,
            x == (4 - q) * a + q * b,
    ;
    assert(x / 4 <= 255);
    assert((if a <= b { a } else { b }) <= x / 4 <= (if a <= b { b } else { a }));
    assert(((4 - 0) * a + 0 * b) / 4 == a as int);
    assert(((4 - 4) * a + 4 * b) / 4 == b as int);
    if a == b {
        assert((4 - q) * a + q * b == 4 * a) by (nonlinear_arith)
            requires
                a == b,
        ;
    }
    let y = (4 - q2) * a + q2 * b;
    assert(y / 4 <= 255) by {
        assert((if a <= b { a } else { b }) * 4 <= y <= (if a <= b { b } else { a }) * 4) by (nonlinear_arith)
            requires
                q2 <= 4,
                y == (4 - q2) * a + q2 * b,
        ;
    }
    if b <= a && q <= q2 {
        assert(y <= x) by (nonlinear_arith)
            requires
                b <= a,
                q <= q2,
                x == (4 - q) * a + q * b,
                y == (4 - q2) * a + q2 * b,
        ;
        assert(y / 4 <= x / 4) by (nonlinear_arith)
            requires
                y <= x,
                0 <= y,
        ;
    }
    if a <= b && q <= q2 {
        assert(x <= y) by (nonlinear_arith)
            requires
                a <= b,
                q <= q2,
                x == (4 - q) * a + q * b,
                y == (4 - q2) * a + q2 * b,
        ;
        assert(x / 4 <= y / 4) by (nonlinear_arith)
            requires
                x <= y,
                0 <= x,
        ;
    }
}

} // verus!
