//! Floating-point values as their bit patterns.
//!
//! The arithmetic on readings is done elsewhere; this library only orders
//! them and tells whether they are numbers. That it does on the bits of the
//! IEEE 754 formats.

use vstd::arithmetic::power2::*;
use vstd::prelude::*;

verus! {

/// A single-precision value: one sign bit, eight exponent bits, twenty-three
/// fraction bits.
#[derive(Debug, Clone, Copy, Default, PartialEq, Eq, Structural)]
pub struct Single {
    pub bits: u32,
}

/// The bits of an infinite magnitude.
pub const SINGLE_INFINITY: u32 = 0x7f80_0000;

/// The sign bit alone.
pub const SINGLE_SIGN: u32 = 0x8000_0000;

/// What a magnitude's bits denote, in units of the smallest positive single,
/// two to the power of minus 149. An infinity is taken as the value that its
/// bits would denote if its exponent were an ordinary one, which is above
/// every finite value.
pub open spec fn magnitude_units(bits: nat) -> nat {
    let exponent = bits / 0x80_0000;
    let fraction = bits % 0x80_0000;
    if exponent == 0 {
        fraction
    } else {
        (0x80_0000 + fraction) * pow2((exponent - 1) as nat)
    }
}

impl Single {
    pub open spec fn negative(self) -> bool {
        self.bits >= SINGLE_SIGN
    }

    /// The bits without the sign.
    pub open spec fn magnitude(self) -> nat {
        if self.negative() {
            (self.bits - SINGLE_SIGN) as nat
        } else {
            self.bits as nat
        }
    }

    pub open spec fn nan(self) -> bool {
        self.magnitude() > SINGLE_INFINITY
    }

    pub open spec fn finite(self) -> bool {
        self.magnitude() < SINGLE_INFINITY
    }

    /// The value in units of two to the power of minus 149.
    pub open spec fn units(self) -> int {
        if self.negative() {
            -magnitude_units(self.magnitude())
        } else {
            magnitude_units(self.magnitude()) as int
        }
    }

    /// `self >= other`, which no value that is not a number satisfies.
    pub open spec fn ge(self, other: Single) -> bool {
        !self.nan() && !other.nan() && self.units() >= other.units()
    }

    /// `self >= n` for a whole number `n`.
    pub open spec fn reaches(self, n: int) -> bool {
        !self.nan() && self.units() >= n * pow2(149)
    }

    /// `self < 0`.
    pub open spec fn below_zero(self) -> bool {
        !self.nan() && self.units() < 0
    }
}

/// Of two magnitudes the one with the smaller bits denotes the smaller value.
pub proof fn lemma_units_monotonic(a: nat, b: nat)
    requires
        a < b,
    ensures
        magnitude_units(a) < magnitude_units(b),
    decreases b / 0x80_0000,
{
    let ea = a / 0x80_0000;
    let eb = b / 0x80_0000;
    let fa = a % 0x80_0000;
    let fb = b % 0x80_0000;
    if ea == eb {
        if ea > 0 {
            lemma_pow2_pos((ea - 1) as nat);
            let p = pow2((ea - 1) as nat);
            assert((0x80_0000 + fa) * p < (0x80_0000 + fb) * p) by (nonlinear_arith)
                requires
                    fa < fb,
                    p > 0,
            ;
        }
    } else {
        lemma_exponent_step(ea, fa, (eb - ea) as nat);
        lemma_pow2_pos((eb - 1) as nat);
        let p = pow2((eb - 1) as nat);
        assert(0x80_0000 * p <= (0x80_0000 + fb) * p) by (nonlinear_arith)
            requires
                fb >= 0,
        ;
    }
}

/// A value lies below the first value of every later exponent.
proof fn lemma_exponent_step(exponent: nat, fraction: nat, step: nat)
    requires
        fraction < 0x80_0000,
        step >= 1,
    ensures
        magnitude_units(exponent * 0x80_0000 + fraction) < 0x80_0000 * pow2(
            (exponent + step - 1) as nat,
        ),
    decreases step,
{
    let bits = exponent * 0x80_0000 + fraction;
    assert(bits / 0x80_0000 == exponent && bits % 0x80_0000 == fraction);
    if step == 1 {
        if exponent == 0 {
            lemma2_to64();
        } else {
            lemma_pow2_unfold(exponent);
            lemma_pow2_pos((exponent - 1) as nat);
            let p = pow2((exponent - 1) as nat);
            assert((0x80_0000 + fraction) * p < 0x80_0000 * (2 * p)) by (nonlinear_arith)
                requires
                    fraction < 0x80_0000,
                    p > 0,
            ;
        }
    } else {
        lemma_exponent_step(exponent, fraction, (step - 1) as nat);
        lemma_pow2_unfold((exponent + step - 1) as nat);
    }
}

/// The order of two singles by their signs and magnitudes.
proof fn lemma_order_by_bits(a: Single, b: Single)
    ensures
        a.units() >= b.units() <==> (if a.negative() {
            if b.negative() {
                a.magnitude() <= b.magnitude()
            } else {
                a.magnitude() == 0 && b.magnitude() == 0
            }
        } else {
            if b.negative() {
                true
            } else {
                a.magnitude() >= b.magnitude()
            }
        }),
{
    let m = a.magnitude();
    let n = b.magnitude();
    if m < n {
        lemma_units_monotonic(m, n);
    }
    if n < m {
        lemma_units_monotonic(n, m);
    }
    assert(magnitude_units(0) == 0);
    if m > 0 {
        lemma_units_monotonic(0, m);
    }
    if n > 0 {
        lemma_units_monotonic(0, n);
    }
}

impl Single {
    fn magnitude_bits(&self) -> (r: u32)
        ensures
            r == self.magnitude(),
    {
        if self.bits >= SINGLE_SIGN {
            self.bits - SINGLE_SIGN
        } else {
            self.bits
        }
    }

    pub fn is_nan(&self) -> (r: bool)
        ensures
            r == self.nan(),
    {
        self.magnitude_bits() > SINGLE_INFINITY
    }

    pub fn is_finite(&self) -> (r: bool)
        ensures
            r == self.finite(),
    {
        self.magnitude_bits() < SINGLE_INFINITY
    }

    /// Whether the value is below zero. Negative zero is not.
    pub fn is_below_zero(&self) -> (r: bool)
        ensures
            r == self.below_zero(),
    {
        proof {
            assert(magnitude_units(0) == 0);
            if self.magnitude() > 0 {
                lemma_units_monotonic(0, self.magnitude());
            }
        }
        let m = self.magnitude_bits();
        self.bits >= SINGLE_SIGN && 0 < m && m <= SINGLE_INFINITY
    }

    /// Whether the value is at least another.
    pub fn at_least(&self, other: &Single) -> (r: bool)
        ensures
            r == self.ge(*other),
    {
        proof {
            lemma_order_by_bits(*self, *other);
        }
        if self.is_nan() || other.is_nan() {
            return false;
        }
        let m = self.magnitude_bits();
        let n = other.magnitude_bits();
        if self.bits >= SINGLE_SIGN {
            if other.bits >= SINGLE_SIGN {
                m <= n
            } else {
                m == 0 && n == 0
            }
        } else {
            other.bits >= SINGLE_SIGN || m >= n
        }
    }
}

/// A mantissa that `shift` doublings have brought up to its leading bit denotes
/// the whole number that it started as.
proof fn lemma_whole_units(n: nat, mantissa: nat, shift: nat)
    requires
        mantissa == n * pow2(shift),
        0x80_0000 <= mantissa < 0x100_0000,
        shift <= 23,
    ensures
        magnitude_units((150 - shift) as nat * 0x80_0000 + (mantissa - 0x80_0000) as nat) == n
            * pow2(149),
{
    let exponent = (150 - shift) as nat;
    let fraction = (mantissa - 0x80_0000) as nat;
    let bits = exponent * 0x80_0000 + fraction;
    assert(bits / 0x80_0000 == exponent && bits % 0x80_0000 == fraction);
    let a = pow2(shift);
    let b = pow2((exponent - 1) as nat);
    lemma_pow2_adds(shift, (exponent - 1) as nat);
    assert((n * a) * b == n * (a * b)) by (nonlinear_arith);
}

impl Single {
    /// A whole number, which a single holds exactly up to its mantissa.
    pub fn whole(n: u32) -> (r: Single)
        requires
            n < 0x100_0000,
        ensures
            r.finite(),
            r.units() == n * pow2(149),
    {
        if n == 0 {
            assert(magnitude_units(0) == 0);
            return Single { bits: 0 };
        }
        let mut mantissa: u32 = n;
        let mut shift: u32 = 0;
        proof {
            lemma2_to64();
        }
        while mantissa < 0x80_0000
            invariant
                0 < mantissa < 0x100_0000,
                n > 0,
                shift <= 23,
                mantissa == n * pow2(shift as nat),
                pow2(23) == 0x80_0000,
            decreases 0x100_0000 - mantissa,
        {
            proof {
                let p = pow2(shift as nat);
                lemma_pow2_unfold((shift + 1) as nat);
                assert(n * (2 * p) == 2 * (n * p)) by (nonlinear_arith);
                if shift == 23 {
                    assert(n * p >= p) by (nonlinear_arith)
                        requires
                            n >= 1,
                    ;
                }
            }
            mantissa = mantissa * 2;
            shift = shift + 1;
        }
        proof {
            lemma_whole_units(n as nat, mantissa as nat, shift as nat);
        }
        Single { bits: (150 - shift) * 0x80_0000 + (mantissa - 0x80_0000) }
    }

    /// Whether the value is at least a whole number.
    pub fn reaches_whole(&self, n: u32) -> (r: bool)
        requires
            n < 0x100_0000,
        ensures
            r == self.reaches(n as int),
    {
        self.at_least(&Single::whole(n))
    }
}

/// The bits of the single nearest to nine tenths.
pub const NINE_TENTHS: u32 = 0x3f66_6666;

/// The bits of the single nearest to six tenths.
pub const SIX_TENTHS: u32 = 0x3f19_999a;

pub open spec fn distance(a: int, b: int) -> int {
    if a >= b {
        a - b
    } else {
        b - a
    }
}

/// No finite single is nearer to `tenths` tenths.
pub open spec fn nearest_to_tenths(s: Single, tenths: int) -> bool {
    forall|o: Single| #[trigger]
        o.finite() ==> distance(s.units() * 10, tenths * pow2(149)) <= distance(
            o.units() * 10,
            tenths * pow2(149),
        )
}

proof fn lemma_nearest_tenths(bits: u32, tenths: int, mantissa: nat)
    requires
        bits == 126 * 0x80_0000 + (mantissa - 0x80_0000),
        0x80_0000 < mantissa < 0xff_ffff,
        distance(mantissa as int * 10, tenths * 0x100_0000) <= 5,
    ensures
        nearest_to_tenths(Single { bits }, tenths),
{
    let s = Single { bits };
    let p = pow2(125);
    lemma_pow2_pos(125);
    lemma_pow2_adds(24, 125);
    lemma2_to64();
    assert(bits as nat / 0x80_0000 == 126 && bits as nat % 0x80_0000 == mantissa - 0x80_0000);
    assert(s.units() == mantissa * p);
    let below = (bits - 1) as nat;
    let above = (bits + 1) as nat;
    assert(below / 0x80_0000 == 126 && below % 0x80_0000 == mantissa - 1 - 0x80_0000);
    assert(above / 0x80_0000 == 126 && above % 0x80_0000 == mantissa + 1 - 0x80_0000);
    assert(magnitude_units(below) == (mantissa - 1) * p);
    assert(magnitude_units(above) == (mantissa + 1) * p);
    let t = tenths * 0x100_0000;
    assert(tenths * pow2(149) == t * p) by (nonlinear_arith)
        requires
            pow2(149) == 0x100_0000 * p,
            t == tenths * 0x100_0000,
    ;
    let m = mantissa as int;
    assert forall|o: Single| #[trigger] o.finite() implies distance(
        s.units() * 10,
        tenths * pow2(149),
    ) <= distance(o.units() * 10, tenths * pow2(149)) by {
        let u = o.units();
        let n = o.magnitude();
        if o.negative() {
            assert(u <= 0);
            assert(u <= (m - 1) * p) by (nonlinear_arith)
                requires
                    u <= 0,
                    m > 1,
                    p > 0,
            ;
        } else if n < bits {
            if n < below {
                lemma_units_monotonic(n, below);
            }
        } else if n > bits {
            if n > above {
                lemma_units_monotonic(above, n);
            }
        }
        if u <= (m - 1) * p {
            assert(distance(m * p * 10, t * p) <= distance(u * 10, t * p)) by (nonlinear_arith)
                requires
                    u <= (m - 1) * p,
                    p > 0,
                    -5 <= m * 10 - t <= 5,
            ;
        } else if u >= (m + 1) * p {
            assert(distance(m * p * 10, t * p) <= distance(u * 10, t * p)) by (nonlinear_arith)
                requires
                    u >= (m + 1) * p,
                    p > 0,
                    -5 <= m * 10 - t <= 5,
            ;
        }
    }
}

/// The two bounds of the utilization bands are the singles nearest to nine and
/// to six tenths.
pub proof fn law_band_bounds()
    ensures
        nearest_to_tenths(Single { bits: NINE_TENTHS }, 9),
        nearest_to_tenths(Single { bits: SIX_TENTHS }, 6),
{
    lemma_nearest_tenths(NINE_TENTHS, 9, 0xe6_6666);
    lemma_nearest_tenths(SIX_TENTHS, 6, 0x99_999a);
}

/// A double-precision value: one sign bit, eleven exponent bits, fifty-two
/// fraction bits.
#[derive(Debug, Clone, Copy, PartialEq, Eq, Structural)]
pub struct Double {
    pub bits: u64,
}

/// The bits of an infinite magnitude.
pub const DOUBLE_INFINITY: u64 = 0x7ff0_0000_0000_0000;

/// The sign bit alone.
pub const DOUBLE_SIGN: u64 = 0x8000_0000_0000_0000;

impl Double {
    pub open spec fn negative(self) -> bool {
        self.bits >= DOUBLE_SIGN
    }

    /// The bits without the sign.
    pub open spec fn magnitude(self) -> nat {
        if self.negative() {
            (self.bits - DOUBLE_SIGN) as nat
        } else {
            self.bits as nat
        }
    }

    pub open spec fn finite(self) -> bool {
        self.magnitude() < DOUBLE_INFINITY
    }

    /// A number, and not below zero: negative zero counts as zero.
    pub open spec fn ge_zero(self) -> bool {
        self.magnitude() <= DOUBLE_INFINITY && (!self.negative() || self.magnitude() == 0)
    }

    /// Whether the value is a finite number that is not below zero.
    pub fn is_finite_from_zero(&self) -> (r: bool)
        ensures
            r == (self.finite() && self.ge_zero()),
    {
        self.bits < DOUBLE_INFINITY || self.bits == DOUBLE_SIGN
    }
}

} // verus!
