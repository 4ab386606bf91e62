use vstd::prelude::*;
use vstd::arithmetic::div_mod::{lemma_fundamental_div_mod, lemma_mod_bound};

use crate::geometry::{Coord, ScreenPoint, WorldPoint};
use crate::transform::{MAX_SCALE, Transform};

verus! {

/// Fixed-point unit of a heading: `cos` and `sin` are scaled by this.
pub const HEADING_UNIT: i32 = 16384;

/// Sub-pixel screen units per pixel: the heading unit times the world units
/// per degree, so that a zoom in pixels per degree maps world units to whole
/// sub-pixels.
pub const SUBPIXEL: i128 = 163_840_000_000;

/// Largest pixel offset from the viewport origin that a projection takes.
pub const PIXEL_REACH: i128 = 0x4_0000_0000;

/// Largest sub-pixel distance from a projection's offset that `invert` takes.
pub const SCREEN_REACH: i128 = 0x400_0000_0000_0000_0000_0000;

/// Direction of the rotation as a fixed-point unit vector (`cos`, `sin`) in
/// units of `HEADING_UNIT`. Trigonometry is left to the caller.
#[derive(Clone, Copy, Debug, PartialEq, Eq, Structural)]
pub struct Heading {
    pub cos: i32,
    pub sin: i32,
}

impl Heading {
    pub open spec fn wf(self) -> bool {
        -HEADING_UNIT <= self.cos <= HEADING_UNIT && -HEADING_UNIT <= self.sin <= HEADING_UNIT
            && (self.cos != 0 || self.sin != 0)
    }

    /// Heading zero: the unrotated frame.
    pub fn north() -> (r: Heading)
        ensures
            r.wf(),
            r.cos == HEADING_UNIT && r.sin == 0,
    {
        Heading { cos: HEADING_UNIT, sin: 0 }
    }
}

/// A world-to-screen similarity fixed for one frame: world points are taken
/// relative to `origin`, rotated and zoomed by the linear part `(a, b)`
/// (the matrix `[[a, -b], [b, a]]`), and moved to `offset` in sub-pixels.
#[derive(Clone, Copy, Debug, PartialEq, Eq, Structural)]
pub struct Projection {
    pub origin: Coord,
    pub offset: ScreenPoint,
    pub a: i128,
    pub b: i128,
}

/// A sub-pixel value that stays within `PIXEL_REACH` pixels of zero.
pub open spec fn in_pixel_reach(v: int) -> bool {
    -PIXEL_REACH * SUBPIXEL <= v <= PIXEL_REACH * SUBPIXEL
}

/// A screen point that `invert` takes relative to `offset`.
pub open spec fn in_screen_reach(q: ScreenPoint, offset: ScreenPoint) -> bool {
    -SCREEN_REACH <= q.x - offset.x <= SCREEN_REACH && -SCREEN_REACH <= q.y - offset.y
        <= SCREEN_REACH
}

impl Projection {
    pub open spec fn wf(self) -> bool {
        let m = MAX_SCALE * HEADING_UNIT;
        -m <= self.a <= m && -m <= self.b <= m && self.norm() > 0 && in_pixel_reach(
            self.offset.x as int,
        ) && in_pixel_reach(self.offset.y as int)
    }

    /// Squared zoom of the linear part.
    pub open spec fn norm(self) -> int {
        self.a * self.a + self.b * self.b
    }

    pub open spec fn apply_spec(self, p: WorldPoint) -> ScreenPoint {
        let u = p.x - self.origin.x;
        let v = p.y - self.origin.y;
        ScreenPoint {
            x: (self.a * u - self.b * v + self.offset.x) as i128,
            y: (self.b * u + self.a * v + self.offset.y) as i128,
        }
    }

    /// The exact inverse of `apply_spec`, rounded down to whole world units.
    pub open spec fn invert_spec(self, q: ScreenPoint) -> WorldPoint {
        let dx = q.x - self.offset.x;
        let dy = q.y - self.offset.y;
        WorldPoint {
            x: (self.origin.x + (self.a * dx + self.b * dy) / self.norm()) as i128,
            y: (self.origin.y + (self.a * dy - self.b * dx) / self.norm()) as i128,
        }
    }

    /// The numerators of `invert_spec`, before division by `norm`.
    pub open spec fn inv_num_x(self, q: ScreenPoint) -> int {
        self.a * (q.x - self.offset.x) + self.b * (q.y - self.offset.y)
    }

    pub open spec fn inv_num_y(self, q: ScreenPoint) -> int {
        self.a * (q.y - self.offset.y) - self.b * (q.x - self.offset.x)
    }

    /// Within reach, `invert_spec` is the exact rounded-down quotient: the
    /// conversions to `i128` lose nothing.
    pub proof fn lemma_invert_exact(self, q: ScreenPoint)
        requires
            self.wf(),
            in_screen_reach(q, self.offset),
        ensures
            self.invert_spec(q).x == self.origin.x + self.inv_num_x(q) / self.norm(),
            self.invert_spec(q).y == self.origin.y + self.inv_num_y(q) / self.norm(),
    {
        let dx = q.x - self.offset.x;
        let dy = q.y - self.offset.y;
        let m: int = MAX_SCALE * HEADING_UNIT;
        let a = self.a as int;
        let b = self.b as int;
        assert(-m * SCREEN_REACH <= a * dx <= m * SCREEN_REACH) by (nonlinear_arith)
            requires -m <= a <= m, -SCREEN_REACH <= dx <= SCREEN_REACH;
        assert(-m * SCREEN_REACH <= b * dy <= m * SCREEN_REACH) by (nonlinear_arith)
            requires -m <= b <= m, -SCREEN_REACH <= dy <= SCREEN_REACH;
        assert(-m * SCREEN_REACH <= a * dy <= m * SCREEN_REACH) by (nonlinear_arith)
            requires -m <= a <= m, -SCREEN_REACH <= dy <= SCREEN_REACH;
        assert(-m * SCREEN_REACH <= b * dx <= m * SCREEN_REACH) by (nonlinear_arith)
            requires -m <= b <= m, -SCREEN_REACH <= dx <= SCREEN_REACH;
        lemma_div_toward_zero(self.inv_num_x(q), self.norm());
        lemma_div_toward_zero(self.inv_num_y(q), self.norm());
    }

    /// The projection that `new` builds.
    pub open spec fn of(t: Transform, heading: Heading, origin: Coord, center: ScreenPoint) -> Projection {
        Projection {
            origin,
            offset: ScreenPoint {
                x: (center.x + t.pan().0 * SUBPIXEL) as i128,
                y: (center.y + t.pan().1 * SUBPIXEL) as i128,
            },
            a: (t.scale_spec() * heading.cos) as i128,
            b: (t.scale_spec() * heading.sin) as i128,
        }
    }

    /// The projection for one frame: zoom and pan from `t`, rotation from
    /// `heading`, with `origin` drawn at `center` (in sub-pixels).
    pub fn new(t: &Transform, heading: Heading, origin: Coord, center: ScreenPoint) -> (r:
        Projection)
        requires
            t.wf(),
            heading.wf(),
            in_pixel_reach(center.x as int) && in_pixel_reach(center.y as int),
            -PIXEL_REACH * SUBPIXEL <= center.x + t.pan().0 * SUBPIXEL <= PIXEL_REACH * SUBPIXEL,
            -PIXEL_REACH * SUBPIXEL <= center.y + t.pan().1 * SUBPIXEL <= PIXEL_REACH * SUBPIXEL,
        ensures
            r.wf(),
            r == Projection::of(*t, heading, origin, center),
            r.origin == origin,
            r.a == t.scale_spec() * heading.cos,
            r.b == t.scale_spec() * heading.sin,
            r.offset.x == center.x + t.pan().0 * SUBPIXEL,
            r.offset.y == center.y + t.pan().1 * SUBPIXEL,
    {
        let s = t.get_scale();
        let (px, py) = t.get_translation();
        let s128 = s as i128;
        let c = heading.cos as i128;
        let d = heading.sin as i128;
        assert(1 <= s128 <= MAX_SCALE);
        assert(-MAX_SCALE * HEADING_UNIT <= s128 * c <= MAX_SCALE * HEADING_UNIT) by (
        nonlinear_arith)
            requires
                1 <= s128 <= MAX_SCALE,
                -HEADING_UNIT <= c <= HEADING_UNIT,
        ;
        assert(-MAX_SCALE * HEADING_UNIT <= s128 * d <= MAX_SCALE * HEADING_UNIT) by (
        nonlinear_arith)
            requires
                1 <= s128 <= MAX_SCALE,
                -HEADING_UNIT <= d <= HEADING_UNIT,
        ;
        let a = s128 * c;
        let b = s128 * d;
        assert(a * a + b * b > 0) by (nonlinear_arith)
            requires
                s128 >= 1,
                c != 0 || d != 0,
                a == s128 * c,
                b == s128 * d,
        ;
        Projection {
            origin,
            offset: ScreenPoint {
                x: center.x + (px as i128) * SUBPIXEL,
                y: center.y + (py as i128) * SUBPIXEL,
            },
            a,
            b,
        }
    }

    /// Projects a world position to the screen.
    pub fn apply(&self, p: &Coord) -> (r: ScreenPoint)
        requires
            self.wf(),
        ensures
            r == self.apply_spec(p.world()),
            in_screen_reach(r, self.offset),
    {
        let u = p.x as i128 - self.origin.x as i128;
        let v = p.y as i128 - self.origin.y as i128;
        let m: i128 = MAX_SCALE as i128 * HEADING_UNIT as i128;
        let lim: i128 = 0x1_0000_0000;
        assert(-m * lim <= self.a * u <= m * lim) by (nonlinear_arith)
            requires
                -m <= self.a <= m,
                -lim <= u <= lim,
        ;
        assert(-m * lim <= self.b * v <= m * lim) by (nonlinear_arith)
            requires
                -m <= self.b <= m,
                -lim <= v <= lim,
        ;
        assert(-m * lim <= self.b * u <= m * lim) by (nonlinear_arith)
            requires
                -m <= self.b <= m,
                -lim <= u <= lim,
        ;
        assert(-m * lim <= self.a * v <= m * lim) by (nonlinear_arith)
            requires
                -m <= self.a <= m,
                -lim <= v <= lim,
        ;
        ScreenPoint {
            x: self.a * u - self.b * v + self.offset.x,
            y: self.b * u + self.a * v + self.offset.y,
        }
    }

    /// Maps a screen point back to the world, rounding down.
    pub fn invert(&self, q: &ScreenPoint) -> (r: WorldPoint)
        requires
            self.wf(),
            in_screen_reach(*q, self.offset),
        ensures
            r == self.invert_spec(*q),
    {
        let dx = q.x - self.offset.x;
        let dy = q.y - self.offset.y;
        let m: i128 = MAX_SCALE as i128 * HEADING_UNIT as i128;
        assert(-m * SCREEN_REACH <= self.a * dx <= m * SCREEN_REACH) by (nonlinear_arith)
            requires
                -m <= self.a <= m,
                -SCREEN_REACH <= dx <= SCREEN_REACH,
        ;
        assert(-m * SCREEN_REACH <= self.b * dy <= m * SCREEN_REACH) by (nonlinear_arith)
            requires
                -m <= self.b <= m,
                -SCREEN_REACH <= dy <= SCREEN_REACH,
        ;
        assert(-m * SCREEN_REACH <= self.a * dy <= m * SCREEN_REACH) by (nonlinear_arith)
            requires
                -m <= self.a <= m,
                -SCREEN_REACH <= dy <= SCREEN_REACH,
        ;
        assert(-m * SCREEN_REACH <= self.b * dx <= m * SCREEN_REACH) by (nonlinear_arith)
            requires
                -m <= self.b <= m,
                -SCREEN_REACH <= dx <= SCREEN_REACH,
        ;
        assert(self.a * self.a <= m * m) by (nonlinear_arith)
            requires
                -m <= self.a <= m,
        ;
        assert(self.b * self.b <= m * m) by (nonlinear_arith)
            requires
                -m <= self.b <= m,
        ;
        let n = self.a * self.a + self.b * self.b;
        let qx = floor_div(self.a * dx + self.b * dy, n);
        let qy = floor_div(self.a * dy - self.b * dx, n);
        WorldPoint { x: self.origin.x as i128 + qx, y: self.origin.y as i128 + qy }
    }
}

/// A quotient by a positive divisor lies between zero and the dividend.
proof fn lemma_div_toward_zero(n: int, d: int)
    requires
        d > 0,
    ensures
        n < 0 ==> n <= n / d <= 0,
        n >= 0 ==> 0 <= n / d <= n,
{
    lemma_fundamental_div_mod(n, d);
    lemma_mod_bound(n, d);
    let q = n / d;
    let k = n % d;
    assert(n < 0 ==> n <= q <= 0) by (nonlinear_arith)
        requires
            n == d * q + k,
            0 <= k < d,
    ;
    assert(n >= 0 ==> 0 <= q <= n) by (nonlinear_arith)
        requires
            n == d * q + k,
            0 <= k < d,
    ;
}

/// Division rounding toward negative infinity, for a positive divisor.
fn floor_div(n: i128, d: i128) -> (r: i128)
    requires
        d > 0,
        -0x4000_0000_0000_0000_0000_0000_0000_0000 <= n <= 0x4000_0000_0000_0000_0000_0000_0000_0000,
    ensures
        r == n / d,
        -0x4000_0000_0000_0000_0000_0000_0000_0000 <= r <= 0x4000_0000_0000_0000_0000_0000_0000_0000,
{
    proof {
        lemma_div_toward_zero(n as int, d as int);
    }
    match n.checked_div_euclid(d) {
        Some(v) => v,
        None => 0,
    }
}

/// With the rotation reset (a heading without sine, such as north),
/// projecting is a pure zoom and pan: each axis is scaled by the zoom and
/// moved, with no mixing of axes.
pub proof fn lemma_unrotated_is_scale_translate(t: Transform, h: Heading, origin: Coord, center: ScreenPoint, p: Coord)
    requires
        t.wf(),
        h.wf(),
        h.sin == 0,
        in_pixel_reach(center.x + t.pan().0 * SUBPIXEL),
        in_pixel_reach(center.y + t.pan().1 * SUBPIXEL),
    ensures
        ({
            let proj = Projection::of(t, h, origin, center);
            let s = t.scale_spec() * h.cos;
            &&& proj.b == 0
            &&& proj.apply_spec(p.world()).x == s * (p.x - origin.x) + center.x + t.pan().0 * SUBPIXEL
            &&& proj.apply_spec(p.world()).y == s * (p.y - origin.y) + center.y + t.pan().1 * SUBPIXEL
        }),
{
    let proj = Projection::of(t, h, origin, center);
    let s = t.scale_spec() * h.cos;
    let u = p.x - origin.x;
    let v = p.y - origin.y;
    let m: int = MAX_SCALE * HEADING_UNIT;
    assert(1 <= t.scale_spec() <= MAX_SCALE);
    assert(-m <= s <= m) by (nonlinear_arith)
        requires
            1 <= t.scale_spec() <= MAX_SCALE,
            -HEADING_UNIT <= h.cos <= HEADING_UNIT,
            s == t.scale_spec() * h.cos,
            m == MAX_SCALE * HEADING_UNIT,
    ;
    assert(proj.a == s);
    assert(-m * 0x1_0000_0000 <= s * u <= m * 0x1_0000_0000) by (nonlinear_arith)
        requires
            -m <= s <= m,
            -0x1_0000_0000 <= u <= 0x1_0000_0000,
    ;
    assert(-m * 0x1_0000_0000 <= s * v <= m * 0x1_0000_0000) by (nonlinear_arith)
        requires
            -m <= s <= m,
            -0x1_0000_0000 <= v <= 0x1_0000_0000,
    ;
    assert(t.scale_spec() * 0 == 0);
    assert(proj.b == 0);
    assert(proj.b * v == 0 && proj.b * u == 0) by (nonlinear_arith)
        requires
            proj.b == 0,
    ;
}

/// Back-projecting a projected world position gives that position exactly.
pub proof fn lemma_round_trip(proj: Projection, p: Coord)
    requires
        proj.wf(),
    ensures
        proj.invert_spec(proj.apply_spec(p.world())) == p.world(),
{
    let u = p.x - proj.origin.x;
    let v = p.y - proj.origin.y;
    let a = proj.a as int;
    let b = proj.b as int;
    let n = proj.norm();
    let q = proj.apply_spec(p.world());
    let m: int = MAX_SCALE * HEADING_UNIT;
    assert(-m * 0x1_0000_0000 <= a * u <= m * 0x1_0000_0000) by (nonlinear_arith)
        requires
            -m <= a <= m,
            -0x1_0000_0000 <= u <= 0x1_0000_0000,
    ;
    assert(-m * 0x1_0000_0000 <= b * v <= m * 0x1_0000_0000) by (nonlinear_arith)
        requires
            -m <= b <= m,
            -0x1_0000_0000 <= v <= 0x1_0000_0000,
    ;
    assert(-m * 0x1_0000_0000 <= b * u <= m * 0x1_0000_0000) by (nonlinear_arith)
        requires
            -m <= b <= m,
            -0x1_0000_0000 <= u <= 0x1_0000_0000,
    ;
    assert(-m * 0x1_0000_0000 <= a * v <= m * 0x1_0000_0000) by (nonlinear_arith)
        requires
            -m <= a <= m,
            -0x1_0000_0000 <= v <= 0x1_0000_0000,
    ;
    let dx = q.x - proj.offset.x;
    let dy = q.y - proj.offset.y;
    assert(dx == a * u - b * v);
    assert(dy == b * u + a * v);
    assert(a * dx + b * dy == n * u) by (nonlinear_arith)
        requires
            dx == a * u - b * v,
            dy == b * u + a * v,
            n == a * a + b * b,
    ;
    assert(a * dy - b * dx == n * v) by (nonlinear_arith)
        requires
            dx == a * u - b * v,
            dy == b * u + a * v,
            n == a * a + b * b,
    ;
    assert((n * u) / n == u) by (nonlinear_arith)
        requires
            n > 0,
    ;
    assert((n * v) / n == v) by (nonlinear_arith)
        requires
            n > 0,
    ;
}

} // verus!
