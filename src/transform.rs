use vstd::prelude::*;

verus! {

/// Default zoom, in screen pixels per degree.
pub const DEF_SCALE: u64 = 100_000;

/// Largest zoom that gestures can reach: ten times the default.
pub const MAX_SCALE: u64 = 1_000_000;

/// Smallest zoom that gestures can reach: a tenth of the default.
pub const MIN_SCALE: u64 = 10_000;

/// The zoom that `reset_scale` restores: a unit multiplier, not `DEF_SCALE`.
pub const UNIT_SCALE: u64 = 1;

/// Rotation angles count microradians.
pub const MICRORAD_PER_RAD: i64 = 1_000_000;

/// The accumulated view of a pan/zoom/rotate gesture session: rotation angle,
/// uniform zoom and a screen-space pan. Together they describe a similarity
/// (see `projection::Projection` for the map itself).
#[derive(Clone, Copy, Debug, PartialEq, Eq, Structural)]
pub struct Transform {
    rotation: i64,
    scale: u64,
    tx: i32,
    ty: i32,
}

pub open spec fn clamp_scale(s: int) -> int {
    if s < MIN_SCALE {
        MIN_SCALE as int
    } else if s > MAX_SCALE {
        MAX_SCALE as int
    } else {
        s
    }
}

/// The zoom after multiplying `s` by `num / den` (rounded down) and clamping.
pub open spec fn scaled(s: int, num: int, den: int) -> int {
    clamp_scale((s * num) / den)
}

/// The zoom after one `scale` call: unchanged for a factor of one, else
/// `scaled`.
pub open spec fn scale_step(s: int, num: int, den: int) -> int {
    if num == den {
        s
    } else {
        scaled(s, num, den)
    }
}

/// The rotation after adding `rad`, saturated at the bounds of `i64`.
pub open spec fn rotated(r: int, rad: int) -> int {
    if r + rad > i64::MAX {
        i64::MAX as int
    } else if r + rad < i64::MIN {
        i64::MIN as int
    } else {
        r + rad
    }
}

/// The zoom after `n` gesture steps of the same factor `num / den`.
pub open spec fn scaled_times(s: int, num: int, den: int, n: nat) -> int
    decreases n,
{
    if n == 0 {
        s
    } else {
        scale_step(scaled_times(s, num, den, (n - 1) as nat), num, den)
    }
}

/// However many times one factor other than one is applied, from any zoom,
/// the result stays within `[MIN_SCALE, MAX_SCALE]`: ten-fold zooms stop at
/// `MAX_SCALE`, tenth-fold zooms at `MIN_SCALE`.
pub proof fn lemma_repeated_scale_in_bounds(s: int, num: int, den: int, n: nat)
    requires
        n >= 1,
        num != den,
    ensures
        MIN_SCALE <= scaled_times(s, num, den, n) <= MAX_SCALE,
        num > den > 0 && n >= 2 && scaled_times(s, num, den, (n - 1) as nat) == MAX_SCALE
            ==> scaled_times(s, num, den, n) == MAX_SCALE,
        0 < num < den && n >= 2 && scaled_times(s, num, den, (n - 1) as nat) == MIN_SCALE
            ==> scaled_times(s, num, den, n) == MIN_SCALE,
{
    let prev = scaled_times(s, num, den, (n - 1) as nat);
    if num > den > 0 && prev == MAX_SCALE {
        assert(prev * num >= prev * den) by (nonlinear_arith)
            requires
                prev > 0,
                num > den,
        ;
        vstd::arithmetic::div_mod::lemma_div_is_ordered(prev * den, prev * num, den);
        vstd::arithmetic::div_mod::lemma_div_multiples_vanish(prev, den);
    }
    if 0 < num < den && prev == MIN_SCALE {
        assert(prev * num <= prev * den) by (nonlinear_arith)
            requires
                prev > 0,
                num < den,
        ;
        vstd::arithmetic::div_mod::lemma_div_is_ordered(prev * num, prev * den, den);
        vstd::arithmetic::div_mod::lemma_div_multiples_vanish(prev, den);
    }
}

impl Transform {
    /// The zoom is a gesture result in range, or the unit zoom after a reset;
    /// the pan fits in `i32` pixels.
    pub open spec fn wf(self) -> bool {
        &&& (MIN_SCALE <= self.scale_spec() <= MAX_SCALE) || self.scale_spec() == UNIT_SCALE
        &&& i32::MIN <= self.pan().0 <= i32::MAX
        &&& i32::MIN <= self.pan().1 <= i32::MAX
    }

    pub closed spec fn rotation_spec(self) -> int {
        self.rotation as int
    }

    pub closed spec fn scale_spec(self) -> int {
        self.scale as int
    }

    pub closed spec fn pan(self) -> (int, int) {
        (self.tx as int, self.ty as int)
    }

    /// The state of a new session: no rotation, default zoom, no pan.
    pub open spec fn is_initial(self) -> bool {
        self.rotation_spec() == 0 && self.scale_spec() == DEF_SCALE && self.pan() == (0int, 0int)
    }

    /// No rotation, default zoom, no pan.
    pub fn new() -> (r: Transform)
        ensures
            r.is_initial(),
            r.wf(),
            r.rotation_spec() == 0,
            r.scale_spec() == DEF_SCALE,
            r.pan() == (0int, 0int),
    {
        Transform { rotation: 0, scale: DEF_SCALE, tx: 0, ty: 0 }
    }

    /// Pans by `(dx, dy)` screen pixels, after rotation and zoom.
    pub fn translate(&mut self, dx: i32, dy: i32)
        requires
            i32::MIN <= old(self).pan().0 + dx <= i32::MAX,
            i32::MIN <= old(self).pan().1 + dy <= i32::MAX,
        ensures
            final(self).pan() == (old(self).pan().0 + dx, old(self).pan().1 + dy),
            final(self).rotation_spec() == old(self).rotation_spec(),
            final(self).scale_spec() == old(self).scale_spec(),
            old(self).wf() ==> final(self).wf(),
    {
        self.tx = self.tx + dx;
        self.ty = self.ty + dy;
    }

    /// Multiplies the zoom by `num / den`, rounding down, then clamps it into
    /// `[MIN_SCALE, MAX_SCALE]`. A factor of one is a no-op, also on the unit
    /// zoom that `reset_scale` leaves.
    pub fn scale(&mut self, num: u64, den: u64)
        requires
            old(self).wf(),
            num > 0,
            den > 0,
        ensures
            final(self).scale_spec() == scale_step(old(self).scale_spec(), num as int, den as int),
            num == den ==> final(self).scale_spec() == old(self).scale_spec(),
            num != den ==> MIN_SCALE <= final(self).scale_spec() <= MAX_SCALE,
            final(self).wf(),
            final(self).rotation_spec() == old(self).rotation_spec(),
            final(self).pan() == old(self).pan(),
    {
        if num == den {
            return;
        }
        assert((self.scale as int) * (num as int) <= (MAX_SCALE as int) * (u64::MAX as int))
            by (nonlinear_arith)
            requires
                self.scale <= MAX_SCALE,
                num <= u64::MAX,
        ;
        let s: u128 = (self.scale as u128) * (num as u128) / (den as u128);
        self.scale = if s < MIN_SCALE as u128 {
            MIN_SCALE
        } else if s > MAX_SCALE as u128 {
            MAX_SCALE
        } else {
            s as u64
        };
    }

    /// Adds `rad` microradians to the rotation. The sum saturates at the
    /// bounds of `i64`, far beyond any angle a gesture session produces.
    pub fn rotate(&mut self, rad: i64)
        ensures
            final(self).rotation_spec() == rotated(old(self).rotation_spec(), rad as int),
            final(self).scale_spec() == old(self).scale_spec(),
            final(self).pan() == old(self).pan(),
            old(self).wf() ==> final(self).wf(),
    {
        let sum: i128 = self.rotation as i128 + rad as i128;
        self.rotation = if sum > i64::MAX as i128 {
            i64::MAX
        } else if sum < i64::MIN as i128 {
            i64::MIN
        } else {
            sum as i64
        };
    }

    /// The rotation that `rotate(rad)` would leave, in microradians.
    pub fn rotation_after(&self, rad: i64) -> (r: i64)
        ensures
            r == rotated(self.rotation_spec(), rad as int),
    {
        let mut t = *self;
        t.rotate(rad);
        t.rotation
    }

    /// Turns back by the accumulated rotation, so the heading is zero again.
    pub fn reset_rotation(&mut self)
        ensures
            final(self).rotation_spec() == 0,
            final(self).scale_spec() == old(self).scale_spec(),
            final(self).pan() == old(self).pan(),
            old(self).wf() ==> final(self).wf(),
    {
        if self.rotation == i64::MIN {
            self.rotate(i64::MAX);
            self.rotate(1);
        } else {
            self.rotate(-self.rotation);
        }
    }

    /// Undoes the zoom multiplier: the zoom becomes `UNIT_SCALE` (one pixel
    /// per degree), not `DEF_SCALE`.
    pub fn reset_scale(&mut self)
        ensures
            final(self).scale_spec() == UNIT_SCALE,
            final(self).wf(),
            final(self).rotation_spec() == old(self).rotation_spec(),
            final(self).pan() == old(self).pan(),
    {
        self.scale = UNIT_SCALE;
    }

    /// The accumulated rotation, in microradians.
    pub fn get_rotation(&self) -> (r: i64)
        ensures
            r == self.rotation_spec(),
    {
        self.rotation
    }

    /// The zoom, in pixels per degree.
    pub fn get_scale(&self) -> (r: u64)
        ensures
            r == self.scale_spec(),
    {
        self.scale
    }

    /// The screen pan, in pixels.
    pub fn get_translation(&self) -> (r: (i32, i32))
        ensures
            r.0 == self.pan().0 && r.1 == self.pan().1,
    {
        (self.tx, self.ty)
    }
}

} // verus!
