//! Wrapped angles in microradians.

use crate::source::draw_inclusive;
use rand::rngs::StdRng;
use vstd::prelude::*;
use vstd::arithmetic::div_mod::lemma_fundamental_div_mod_converse;

verus! {

/// Half a turn, in microradians.
pub const PI: i64 = 3_141_593;

/// A full turn, in microradians: exactly twice [`PI`].
pub const TAU: i64 = 6_283_186;

/// The fixed-point scale: one whole is this many millionths.
pub const MICRO: i64 = 1_000_000;

/// The representative of `x` modulo a full turn that lies in `[-PI, PI)`.
pub open spec fn wrap(x: int) -> int {
    (x + PI as int) % (TAU as int) - PI as int
}

/// The representative of `x` modulo a full turn that lies in `(-PI, PI]`.
pub open spec fn wrap_upper(x: int) -> int {
    if wrap(x) == -(PI as int) {
        PI as int
    } else {
        wrap(x)
    }
}

/// `t` held to the unit interval `[0, MICRO]`.
pub open spec fn clamp_unit(t: int) -> int {
    if t < 0 {
        0
    } else if t > MICRO as int {
        MICRO as int
    } else {
        t
    }
}

/// A number without its sign.
pub open spec fn size(x: int) -> int {
    if x < 0 {
        -x
    } else {
        x
    }
}

/// `value * factor / MICRO`, rounded toward zero.
pub open spec fn scaled(value: int, factor: int) -> int {
    if (value < 0) == (factor < 0) {
        size(value) * size(factor) / (MICRO as int)
    } else {
        -(size(value) * size(factor) / (MICRO as int))
    }
}

/// The value reached from `from` after the fraction `t`, in millionths, of
/// the way to `to`.
pub open spec fn blend(from: int, to: int, t: int) -> int {
    from + scaled(to - from, t)
}

/// The angle reached from `from` after the fraction `t` of the shorter arc to `to`.
pub open spec fn lerp_spec(from: int, to: int, t: int) -> int {
    from + scaled(wrap(to - from), clamp_unit(t))
}

/// `wrap` for a machine integer.
pub fn wrap_exec(x: i128) -> (r: i64)
    requires
        -0x1_0000_0000_0000_0000 <= x <= 0x1_0000_0000_0000_0000,
    ensures
        r as int == wrap(x as int),
        -PI <= r < PI,
{
    // A multiple of the full turn large enough to lift every admitted input above zero.
    let lift: i128 = 0x1_0000_0000_0000 * (TAU as i128);
    let shifted: u128 = (x + PI as i128 + lift) as u128;
    let rem: u128 = shifted % (TAU as u128);
    proof {
        let q = (shifted as int) / (TAU as int);
        assert(shifted as int == (TAU as int) * q + rem as int) by {
            vstd::arithmetic::div_mod::lemma_fundamental_div_mod(shifted as int, TAU as int);
        }
        assert(x + PI as int == (TAU as int) * (q - 0x1_0000_0000_0000) + rem as int)
            by (nonlinear_arith)
            requires
                shifted as int == x + PI + 0x1_0000_0000_0000 * TAU,
                shifted as int == (TAU as int) * q + rem as int,
                TAU == 6_283_186,
                PI == 3_141_593,
        ;
        lemma_fundamental_div_mod_converse(
            x + PI as int,
            TAU as int,
            q - 0x1_0000_0000_0000,
            rem as int,
        );
    }
    (rem as i64) - PI
}

/// `wrap_upper` for a machine integer.
pub fn wrap_upper_exec(x: i128) -> (r: i64)
    requires
        -0x1_0000_0000_0000_0000 <= x <= 0x1_0000_0000_0000_0000,
    ensures
        r as int == wrap_upper(x as int),
        -PI < r <= PI,
{
    let w: i64 = wrap_exec(x);
    if w == -PI {
        PI
    } else {
        w
    }
}

/// The signed turn that leads from the direction `a` to the direction `b`,
/// taken the short way round: a value in `(-PI, PI]`.
pub fn angle_difference(a: Angle, b: Angle) -> (r: Angle)
    ensures
        r.microradians == wrap_upper(b.microradians - a.microradians),
        -PI < r.microradians <= PI,
{
    Angle { microradians: wrap_upper_exec(b.microradians as i128 - a.microradians as i128) }
}

/// A plane angle, as a whole number of microradians.
///
/// Arithmetic on angles is raw: a sum or a multiple may leave the canonical
/// range, and the caller normalizes where the meaning requires it.
#[derive(Debug, Copy, Clone, PartialEq, Eq, Structural)]
pub struct Angle {
    pub microradians: i64,
}

impl Angle {
    /// The angle of the given size.
    pub fn new(microradians: i64) -> (r: Self)
        ensures
            r.microradians == microradians,
    {
        Self { microradians }
    }

    /// An angle drawn from `low..high`, the upper end left out.
    pub fn new_random(rng: &mut StdRng, low: i64, high: i64) -> (r: Self)
        requires
            low < high,
        ensures
            low <= r.microradians < high,
    {
        Self { microradians: draw_inclusive(rng, low, high - 1) }
    }

    /// The zero angle.
    pub fn zero() -> (r: Self)
        ensures
            r.microradians == 0,
    {
        Self { microradians: 0 }
    }

    /// Half a turn.
    pub fn half() -> (r: Self)
        ensures
            r.microradians == PI,
    {
        Self { microradians: PI }
    }

    /// A full turn.
    pub fn full() -> (r: Self)
        ensures
            r.microradians == TAU,
    {
        Self { microradians: TAU }
    }

    /// Brings the angle into `[-PI, PI)` without changing its direction.
    pub fn normalize(&mut self)
        ensures
            final(self).microradians == wrap(old(self).microradians as int),
            -PI <= final(self).microradians < PI,
    {
        self.microradians = wrap_exec(self.microradians as i128);
    }

    /// The angle brought into `[-PI, PI)`.
    pub fn normalized(self) -> (r: Self)
        ensures
            r.microradians == wrap(self.microradians as int),
            -PI <= r.microradians < PI,
    {
        Self { microradians: wrap_exec(self.microradians as i128) }
    }

    /// The size of the angle without its sign.
    pub fn abs(self) -> (r: Self)
        requires
            self.microradians > i64::MIN,
        ensures
            r.microradians >= 0,
            r.microradians == self.microradians || r.microradians == -self.microradians,
    {
        if self.microradians < 0 {
            Self { microradians: -self.microradians }
        } else {
            self
        }
    }

    /// The angle turned the other way.
    pub fn neg(self) -> (r: Self)
        requires
            self.microradians > i64::MIN,
        ensures
            r.microradians == -self.microradians,
    {
        Self { microradians: -self.microradians }
    }

    /// The raw sum of two angles.
    pub fn add(self, rhs: Self) -> (r: Self)
        requires
            i64::MIN <= self.microradians + rhs.microradians <= i64::MAX,
        ensures
            r.microradians == self.microradians + rhs.microradians,
    {
        Self { microradians: self.microradians + rhs.microradians }
    }

    /// The raw difference of two angles.
    pub fn sub(self, rhs: Self) -> (r: Self)
        requires
            i64::MIN <= self.microradians - rhs.microradians <= i64::MAX,
        ensures
            r.microradians == self.microradians - rhs.microradians,
    {
        Self { microradians: self.microradians - rhs.microradians }
    }

    /// The raw multiple of the angle by `factor`, in millionths.
    pub fn scale(self, factor: i64) -> (r: Self)
        requires
            size(self.microradians as int) * size(factor as int) / (MICRO as int) <= i64::MAX,
        ensures
            r.microradians == scaled(self.microradians as int, factor as int),
    {
        Self { microradians: scaled_exec(self.microradians, factor) }
    }

    /// Moves from this angle toward `to` along the shorter arc, by the
    /// fraction `t` in millionths, which is first held to `[0, MICRO]`.
    pub fn lerp(self, to: Self, t: i64) -> (r: Self)
        requires
            i64::MIN + PI <= self.microradians <= i64::MAX - PI,
        ensures
            r.microradians == lerp_spec(self.microradians as int, to.microradians as int, t as int),
    {
        let diff: i64 = wrap_exec(to.microradians as i128 - self.microradians as i128);
        let t_clamped: i64 = if t < 0 {
            0
        } else if t > MICRO {
            MICRO
        } else {
            t
        };
        let step: i128 = portion_exec(diff as i128, t_clamped);
        Self { microradians: (self.microradians as i128 + step) as i64 }
    }
}

/// `scaled` for a wide amount and a factor in the unit interval.
pub fn portion_exec(amount: i128, t: i64) -> (r: i128)
    requires
        0 <= t <= MICRO,
        -0x1_0000_0000_0000_0000 <= amount <= 0x1_0000_0000_0000_0000,
    ensures
        r as int == scaled(amount as int, t as int),
        amount >= 0 ==> 0 <= r <= amount,
        amount <= 0 ==> amount <= r <= 0,
{
    let size: u128 = if amount >= 0 {
        amount as u128
    } else {
        (-amount) as u128
    };
    assert(size * t <= 0x1_0000_0000_0000_0000 * 1_000_000) by (nonlinear_arith)
        requires
            0 <= size <= 0x1_0000_0000_0000_0000,
            0 <= t <= 1_000_000,
    ;
    let product: u128 = size * (t as u128);
    let scaled: u128 = product / (MICRO as u128);
    proof {
        lemma_portion_bounded(size as int, t as int);
    }
    if amount >= 0 {
        scaled as i128
    } else {
        -(scaled as i128)
    }
}

/// `scaled` for machine integers.
pub fn scaled_exec(value: i64, factor: i64) -> (r: i64)
    requires
        size(value as int) * size(factor as int) / (MICRO as int) <= i64::MAX,
    ensures
        r as int == scaled(value as int, factor as int),
{
    let v: u128 = if value < 0 {
        (-(value as i128)) as u128
    } else {
        value as u128
    };
    let f: u128 = if factor < 0 {
        (-(factor as i128)) as u128
    } else {
        factor as u128
    };
    assert(0 <= v * f <= 0x8000_0000_0000_0000 * 0x8000_0000_0000_0000) by (nonlinear_arith)
        requires
            0 <= v <= 0x8000_0000_0000_0000,
            0 <= f <= 0x8000_0000_0000_0000,
    ;
    let quotient: u128 = (v * f) / (MICRO as u128);
    if (value < 0) == (factor < 0) {
        quotient as i64
    } else {
        -(quotient as i64)
    }
}

/// A scaled product is no larger than the product of bounds on its
/// factors, scaled; and it is negative only where the factors' signs differ.
pub proof fn lemma_scaled_bound(value: int, factor: int, a: int, b: int)
    requires
        size(value) <= a,
        size(factor) <= b,
    ensures
        size(value) * size(factor) / (MICRO as int) <= a * b / (MICRO as int),
        size(scaled(value, factor)) <= a * b / (MICRO as int),
        (value >= 0 && factor >= 0) ==> scaled(value, factor) >= 0,
{
    let p = size(value) * size(factor);
    assert(0 <= p <= a * b) by (nonlinear_arith)
        requires
            0 <= size(value) <= a,
            0 <= size(factor) <= b,
            p == size(value) * size(factor),
    ;
    vstd::arithmetic::div_mod::lemma_div_is_ordered(p, a * b, MICRO as int);
    vstd::arithmetic::div_mod::lemma_div_pos_is_pos(p, MICRO as int);
}

/// Moving from `from` toward `to` by a fraction between nothing and all
/// never leaves the stretch between the two.
pub proof fn lemma_lerp_between(from: int, to: int, t: int)
    requires
        0 <= t <= MICRO,
    ensures
        from <= to ==> from <= blend(from, to, t) <= to,
        to <= from ==> to <= blend(from, to, t) <= from,
{
    if from <= to {
        lemma_portion_bounded(to - from, t);
    } else {
        lemma_portion_bounded(from - to, t);
    }
}

/// A normalized angle lies in `[-PI, PI)`, and differs from the angle it
/// came from by whole turns only.
pub proof fn lemma_wrap_range(x: int)
    ensures
        -PI <= wrap(x) < PI,
        (x - wrap(x)) % (TAU as int) == 0,
{
    let q = (x + PI) / (TAU as int);
    vstd::arithmetic::div_mod::lemma_fundamental_div_mod(x + PI, TAU as int);
    assert(x - wrap(x) == (TAU as int) * q);
    vstd::arithmetic::div_mod::lemma_mod_multiples_basic(q, TAU as int);
    assert((TAU as int) * q == q * (TAU as int)) by (nonlinear_arith);
}

/// Every angle but those that point exactly backwards normalizes into
/// `(-PI, PI]`. One that points exactly backwards normalizes to `-PI`.
pub proof fn lemma_normalize_half_open(x: int)
    requires
        (x + PI) % (TAU as int) != 0,
    ensures
        -PI < wrap(x) <= PI,
{
    lemma_wrap_range(x);
}

/// Normalizing twice is normalizing once.
pub proof fn lemma_wrap_idempotent(x: int)
    ensures
        wrap(wrap(x)) == wrap(x),
{
    lemma_wrap_range(x);
    vstd::arithmetic::div_mod::lemma_small_mod((wrap(x) + PI) as nat, TAU as nat);
}

/// Interpolation takes the shorter arc: it never moves by more than half
/// a turn, however far apart the two raw values are.
pub proof fn lemma_lerp_short(from: int, to: int, t: int)
    ensures
        -PI <= lerp_spec(from, to, t) - from <= PI,
        clamp_unit(t) == 0 ==> lerp_spec(from, to, t) == from,
        clamp_unit(t) == MICRO ==> lerp_spec(from, to, t) == from + wrap(to - from),
{
    lemma_wrap_range(to - from);
    let d = wrap(to - from);
    let c = clamp_unit(t);
    if d >= 0 {
        lemma_portion_bounded(d, c);
    } else {
        lemma_portion_bounded(-d, c);
    }
    if c == 0 {
        assert(d * 0 == 0 && (-d) * 0 == 0) by (nonlinear_arith);
    }
    if c == MICRO {
        vstd::arithmetic::div_mod::lemma_div_multiples_vanish(d, MICRO as int);
        vstd::arithmetic::div_mod::lemma_div_multiples_vanish(-d, MICRO as int);
        assert(d * MICRO == MICRO * d && (-d) * MICRO == MICRO * (-d)) by (nonlinear_arith);
    }
}

/// A share of a non-negative amount is non-negative and no larger than the amount.
pub proof fn lemma_portion_bounded(amount: int, t: int)
    requires
        amount >= 0,
        0 <= t <= MICRO,
    ensures
        0 <= amount * t / (MICRO as int) <= amount,
{
    assert(0 <= amount * t <= amount * MICRO) by (nonlinear_arith)
        requires
            amount >= 0,
            0 <= t <= MICRO,
    ;
    assert(amount * t / (MICRO as int) <= amount) by {
        vstd::arithmetic::div_mod::lemma_div_is_ordered(amount * t, amount * MICRO, MICRO as int);
        vstd::arithmetic::div_mod::lemma_div_multiples_vanish(amount, MICRO as int);
    }
    assert(0 <= amount * t / (MICRO as int)) by {
        vstd::arithmetic::div_mod::lemma_div_pos_is_pos(amount * t, MICRO as int);
    }
}

} // verus!
