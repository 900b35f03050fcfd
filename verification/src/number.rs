use vstd::prelude::*;

verus! {

/// The bit that carries the sign of a number.
pub const SIGN_BIT: u64 = 0x8000_0000_0000_0000;

/// The bit pattern of positive infinity; every larger magnitude is not a number.
pub const INFINITY_BITS: u64 = 0x7ff0_0000_0000_0000;

/// The bit pattern that stands for every not-a-number when numbers are used as keys.
pub const CANONICAL_NAN_BITS: u64 = 0x7ff8_0000_0000_0000;

/// Two to the 52nd: one unit of the exponent field, and the hidden bit of the
/// significand.
pub const EXPONENT_UNIT: u64 = 0x0010_0000_0000_0000;

/// The exponent field of a number whose significand counts units of one.
pub const UNIT_EXPONENT: u64 = 1075;

/// Two to the power `k`.
pub open spec fn two_to(k: nat) -> nat
    decreases k,
{
    if k == 0 {
        1
    } else {
        2 * two_to((k - 1) as nat)
    }
}

/// The number `significand * 2^(exponent - 1075)` for a significand below
/// two to the 53rd: the significand is doubled until its hidden bit is set.
pub open spec fn scaled_up(significand: nat, exponent: nat) -> Number
    decreases 2 * EXPONENT_UNIT - significand,
{
    if significand >= EXPONENT_UNIT {
        Number { bits: (exponent * EXPONENT_UNIT + (significand - EXPONENT_UNIT)) as u64 }
    } else if exponent == 0 || significand == 0 {
        Number { bits: significand as u64 }
    } else {
        scaled_up(significand * 2, (exponent - 1) as nat)
    }
}

/// The number nearest to `significand * 2^(exponent - 1075) + lost / unit * 2^(exponent - 1075)`:
/// the significand is halved until it fits 53 bits, and what the halving
/// lost decides the rounding, ties going to the even significand.
pub open spec fn scaled_down(significand: nat, exponent: nat, lost: nat, unit: nat) -> Number
    decreases significand,
{
    if significand < 2 * EXPONENT_UNIT {
        let up: nat = if 2 * lost > unit || (2 * lost == unit && significand % 2 == 1) {
            1
        } else {
            0
        };
        Number { bits: (exponent * EXPONENT_UNIT + (significand - EXPONENT_UNIT) + up) as u64 }
    } else {
        scaled_down(significand / 2, exponent + 1, lost + (significand % 2) * unit, unit * 2)
    }
}

/// A number of the language, held as the bit pattern of a 64-bit IEEE 754
/// binary float. Ordering, equality and negation are decided on the bits;
/// arithmetic proper is left to the host of the machine.
#[derive(Debug, Clone, Copy, PartialEq, Eq, Structural)]
pub struct Number {
    pub bits: u64,
}

impl Number {
    /// The pattern without its sign bit.
    pub open spec fn magnitude(self) -> int {
        if self.bits >= SIGN_BIT {
            self.bits - SIGN_BIT
        } else {
            self.bits as int
        }
    }

    pub open spec fn is_negative(self) -> bool {
        self.bits >= SIGN_BIT
    }

    pub open spec fn is_nan(self) -> bool {
        self.magnitude() > INFINITY_BITS
    }

    /// Where the number stands among all numbers that are not NaN: the signed
    /// magnitude, so that both zeros share rank 0.
    pub open spec fn rank(self) -> int {
        if self.is_negative() {
            -self.magnitude()
        } else {
            self.magnitude()
        }
    }

    /// Numeric equality: NaN equals nothing, and the two zeros are equal.
    pub open spec fn equals(self, other: Number) -> bool {
        !self.is_nan() && !other.is_nan() && self.rank() == other.rank()
    }

    /// Numeric `>`: false whenever either side is NaN.
    pub open spec fn exceeds(self, other: Number) -> bool {
        !self.is_nan() && !other.is_nan() && self.rank() > other.rank()
    }

    /// The number with its sign flipped.
    pub open spec fn negated(self) -> Number {
        if self.bits >= SIGN_BIT {
            Number { bits: (self.bits - SIGN_BIT) as u64 }
        } else {
            Number { bits: (self.bits + SIGN_BIT) as u64 }
        }
    }

    /// The pattern under which the number is filed as a dictionary key: all
    /// NaNs are one key and the two zeros are one key.
    pub open spec fn key_bits(self) -> u64 {
        if self.is_nan() {
            CANONICAL_NAN_BITS
        } else if self.magnitude() == 0 {
            0
        } else {
            self.bits
        }
    }

    /// The index that the number stands for: its integer part, with
    /// everything below zero and NaN at 0 and everything too large at the
    /// largest index.
    pub open spec fn to_index(self) -> int {
        let exponent = self.magnitude() / (EXPONENT_UNIT as int);
        let significand = EXPONENT_UNIT + self.magnitude() % (EXPONENT_UNIT as int);
        if self.is_nan() || self.is_negative() || exponent < 1023 {
            0
        } else if exponent >= 1087 {
            usize::MAX as int
        } else {
            let whole = if exponent >= UNIT_EXPONENT {
                significand * two_to((exponent - UNIT_EXPONENT) as nat)
            } else {
                significand / (two_to((UNIT_EXPONENT - exponent) as nat) as int)
            };
            if whole > usize::MAX {
                usize::MAX as int
            } else {
                whole
            }
        }
    }

    /// The number that stands for a count of things, rounded to the nearest
    /// number where the count has more than 53 bits.
    pub open spec fn of_count(n: nat) -> Number {
        if n < 2 * EXPONENT_UNIT {
            scaled_up(n, UNIT_EXPONENT as nat)
        } else {
            scaled_down(n, UNIT_EXPONENT as nat, 0, 1)
        }
    }

    pub fn from_bits(bits: u64) -> (r: Number)
        ensures
            r.bits == bits,
    {
        Number { bits }
    }

    pub fn to_bits(&self) -> (r: u64)
        ensures
            r == self.bits,
    {
        self.bits
    }

    fn magnitude_bits(&self) -> (r: u64)
        ensures
            r == self.magnitude(),
    {
        if self.bits >= SIGN_BIT {
            self.bits - SIGN_BIT
        } else {
            self.bits
        }
    }

    pub fn nan(&self) -> (r: bool)
        ensures
            r == self.is_nan(),
    {
        self.magnitude_bits() > INFINITY_BITS
    }

    pub fn same(&self, other: &Number) -> (r: bool)
        ensures
            r == self.equals(*other),
    {
        if self.nan() || other.nan() {
            return false;
        }
        let a: u64 = self.magnitude_bits();
        let b: u64 = other.magnitude_bits();
        if a == 0 && b == 0 {
            true
        } else {
            self.bits == other.bits
        }
    }

    pub fn greater(&self, other: &Number) -> (r: bool)
        ensures
            r == self.exceeds(*other),
    {
        if self.nan() || other.nan() {
            return false;
        }
        let a: u64 = self.magnitude_bits();
        let b: u64 = other.magnitude_bits();
        let a_negative: bool = self.bits >= SIGN_BIT;
        let b_negative: bool = other.bits >= SIGN_BIT;
        if a_negative {
            if b_negative {
                a < b
            } else {
                false
            }
        } else {
            if b_negative {
                a > 0 || b > 0
            } else {
                a > b
            }
        }
    }

    pub fn negate(&self) -> (r: Number)
        ensures
            r == self.negated(),
    {
        if self.bits >= SIGN_BIT {
            Number { bits: self.bits - SIGN_BIT }
        } else {
            Number { bits: self.bits + SIGN_BIT }
        }
    }

    pub fn key(&self) -> (r: u64)
        ensures
            r == self.key_bits(),
    {
        if self.nan() {
            CANONICAL_NAN_BITS
        } else if self.magnitude_bits() == 0 {
            0
        } else {
            self.bits
        }
    }
}

/// Two to the power `k` for a `k` small enough that it fits.
fn power_of_two(k: u64) -> (r: u64)
    requires
        k < 64,
    ensures
        r == two_to(k as nat),
        1 <= r,
{
    let mut r: u64 = 1;
    let mut i: u64 = 0;
    proof {
        lemma_two_to_values();
        lemma_two_to_increases(0, 62);
    }
    while i < k
        invariant
            i <= k < 64,
            r == two_to(i as nat),
            1 <= r,
            r <= two_to(62) || i == k,
            two_to(62) == 0x4000_0000_0000_0000,
        decreases k - i,
    {
        proof {
            reveal_with_fuel(two_to, 2);
            lemma_two_to_increases((i + 1) as nat, 63);
            assert(two_to(63) == 2 * two_to(62));
            if i + 1 < k {
                lemma_two_to_increases((i + 1) as nat, 62);
            }
        }
        r = r * 2;
        i = i + 1;
    }
    r
}

/// A larger exponent gives no smaller power.
pub proof fn lemma_two_to_increases(a: nat, b: nat)
    requires
        a <= b,
    ensures
        two_to(a) <= two_to(b),
    decreases b,
{
    if a < b {
        lemma_two_to_increases(a, (b - 1) as nat);
    }
}

proof fn lemma_two_to_values()
    ensures
        two_to(11) == 2048,
        two_to(52) == 0x0010_0000_0000_0000,
        two_to(62) == 0x4000_0000_0000_0000,
{
    reveal_with_fuel(two_to, 12);
    assert(two_to(11) == 2048);
    assert(two_to(22) == 2048 * two_to(11));
    assert(two_to(33) == 2048 * two_to(22));
    assert(two_to(44) == 2048 * two_to(33));
    assert(two_to(52) == 256 * two_to(44));
    assert(two_to(62) == 1024 * two_to(52));
}

impl Number {
    pub fn index(&self) -> (r: usize)
        ensures
            r == self.to_index(),
    {
        if self.nan() || self.bits >= SIGN_BIT {
            return 0;
        }
        let exponent: u64 = self.bits / EXPONENT_UNIT;
        let significand: u64 = EXPONENT_UNIT + self.bits % EXPONENT_UNIT;
        if exponent < 1023 {
            0
        } else if exponent >= 1087 {
            usize::MAX
        } else {
            proof {
                lemma_two_to_values();
            }
            let whole: u64 = if exponent >= UNIT_EXPONENT {
                let factor: u64 = power_of_two(exponent - UNIT_EXPONENT);
                proof {
                    lemma_two_to_increases((exponent - UNIT_EXPONENT) as nat, 11);
                    assert(significand * factor <= 0x001f_ffff_ffff_ffff * 2048) by (nonlinear_arith)
                        requires
                            significand <= 0x001f_ffff_ffff_ffff,
                            factor <= 2048,
                    ;
                }
                significand * factor
            } else {
                significand / power_of_two(UNIT_EXPONENT - exponent)
            };
            if whole > usize::MAX as u64 {
                usize::MAX
            } else {
                whole as usize
            }
        }
    }

    pub fn from_count(n: usize) -> (r: Number)
        ensures
            r == Number::of_count(n as nat),
    {
        let count: u64 = n as u64;
        if count < 2 * EXPONENT_UNIT {
            let mut significand: u64 = count;
            let mut exponent: u64 = UNIT_EXPONENT;
            while significand < EXPONENT_UNIT && exponent != 0 && significand != 0
                invariant
                    significand < 2 * EXPONENT_UNIT,
                    exponent <= UNIT_EXPONENT,
                    scaled_up(significand as nat, exponent as nat) == Number::of_count(n as nat),
                decreases 2 * EXPONENT_UNIT - significand,
            {
                significand = significand * 2;
                exponent = exponent - 1;
            }
            if significand >= EXPONENT_UNIT {
                assert(exponent * EXPONENT_UNIT <= 1075 * 0x0010_0000_0000_0000) by (nonlinear_arith)
                    requires
                        exponent <= 1075,
                        EXPONENT_UNIT == 0x0010_0000_0000_0000,
                ;
                Number { bits: exponent * EXPONENT_UNIT + (significand - EXPONENT_UNIT) }
            } else {
                Number { bits: significand }
            }
        } else {
            let mut significand: u64 = count;
            let mut exponent: u64 = UNIT_EXPONENT;
            let mut lost: u64 = 0;
            let mut unit: u64 = 1;
            while significand >= 2 * EXPONENT_UNIT
                invariant
                    significand >= EXPONENT_UNIT,
                    lost < unit,
                    significand * unit <= u64::MAX,
                    UNIT_EXPONENT <= exponent <= UNIT_EXPONENT + 11,
                    unit == two_to((exponent - UNIT_EXPONENT) as nat),
                    1 <= unit,
                    scaled_down(significand as nat, exponent as nat, lost as nat, unit as nat)
                        == Number::of_count(n as nat),
                decreases significand,
            {
                proof {
                    lemma_two_to_values();
                    assert(unit < 2048) by (nonlinear_arith)
                        requires
                            significand * unit <= u64::MAX,
                            significand >= 0x0020_0000_0000_0000,
                            unit >= 1,
                    ;
                    if exponent - UNIT_EXPONENT >= 11 {
                        lemma_two_to_increases(11, (exponent - UNIT_EXPONENT) as nat);
                    }
                    reveal_with_fuel(two_to, 2);
                    assert((significand / 2) * (unit * 2) <= significand * unit) by (nonlinear_arith)
                        requires
                            significand >= 0,
                            unit >= 0,
                    ;
                    assert((significand % 2) * unit <= unit) by (nonlinear_arith)
                        requires
                            significand % 2 <= 1,
                            unit >= 0,
                    ;
                }
                lost = lost + (significand % 2) * unit;
                unit = unit * 2;
                significand = significand / 2;
                exponent = exponent + 1;
            }
            proof {
                lemma_two_to_values();
                lemma_two_to_increases((exponent - UNIT_EXPONENT) as nat, 11);
            }
            let up: u64 = if 2 * lost > unit || (2 * lost == unit && significand % 2 == 1) {
                1
            } else {
                0
            };
            assert(exponent * EXPONENT_UNIT <= 1086 * 0x0010_0000_0000_0000) by (nonlinear_arith)
                requires
                    exponent <= 1086,
                    EXPONENT_UNIT == 0x0010_0000_0000_0000,
            ;
            Number { bits: exponent * EXPONENT_UNIT + (significand - EXPONENT_UNIT) + up }
        }
    }
}

/// Negating twice gives the number back.
pub proof fn lemma_negate_twice(n: Number)
    ensures
        n.negated().negated() == n,
{
}

/// Two numbers are filed under one key exactly when they are equal as
/// numbers or are both NaN.
pub proof fn lemma_key_bits_equal(a: Number, b: Number)
    ensures
        a.key_bits() == b.key_bits() <==> (a.equals(b) || (a.is_nan() && b.is_nan())),
{
}

} // verus!
