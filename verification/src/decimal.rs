//! Fixed-point decimal numbers.
//!
//! Money, share counts and percentages are held as a whole number of hundred-millionths.
//! A result that lies outside the range of the type is held at the nearest end of the range.
use vstd::arithmetic::power2::{
    lemma2_to64, lemma2_to64_rest, lemma_pow2_adds, lemma_pow2_pos, lemma_pow2_strictly_increases,
    lemma_pow2_unfold, pow2,
};
use vstd::prelude::*;

verus! {

/// How many units make up one.
pub const SCALE: i64 = 100_000_000;

/// How many units make up one cent.
pub const CENT: i64 = 1_000_000;

/// The largest whole number of shares that a `Decimal` can hold.
pub const MAX_WHOLE: i64 = 92_233_720_368;

/// A number with eight decimal places.
#[derive(Clone, Copy, Debug, PartialEq, Eq, Structural)]
pub struct Decimal {
    pub units: i64,
}

impl View for Decimal {
    type V = Decimal;

    open spec fn view(&self) -> Decimal {
        *self
    }
}

/// The end of the `i64` range nearest to `n`, or `n` itself where it lies inside.
pub open spec fn clamp(n: int) -> int {
    if n < i64::MIN {
        i64::MIN as int
    } else if n > i64::MAX {
        i64::MAX as int
    } else {
        n
    }
}

pub open spec fn abs(n: int) -> int {
    if n < 0 {
        -n
    } else {
        n
    }
}

/// `n / d` rounded to the nearest integer, a tie going to the even neighbour.
pub open spec fn round_half_even(n: int, d: int) -> int {
    let q = n / d;
    let r = n % d;
    if 2 * r < d {
        q
    } else if 2 * r > d {
        q + 1
    } else {
        q + q % 2
    }
}

/// `n / d` rounded to the nearest integer, a tie going away from zero.
pub open spec fn round_half_away(n: int, d: int) -> int {
    let magnitude = (abs(n) + d / 2) / d;
    if n < 0 {
        -magnitude
    } else {
        magnitude
    }
}

/// The greatest integer not above `n / d`, for a divisor of either sign.
pub open spec fn floor_div(n: int, d: int) -> int {
    if d > 0 {
        n / d
    } else {
        (-n) / (-d)
    }
}

/// The units of the binary floating-point number (64 bits, IEEE 754) with this bit pattern,
/// rounded to the nearest unit. An infinity is held at the end of the range; a pattern that
/// stands for no number has no units.
pub open spec fn binary64_units(bits: u64) -> Option<int> {
    let negative = bits >= 0x8000_0000_0000_0000u64;
    let exponent = (bits as int / 0x10_0000_0000_0000) % 2048;
    let fraction = bits as int % 0x10_0000_0000_0000;
    if exponent == 2047 {
        if fraction != 0 {
            None
        } else if negative {
            Some(i64::MIN as int)
        } else {
            Some(i64::MAX as int)
        }
    } else {
        let significand = if exponent == 0 {
            fraction
        } else {
            fraction + 0x10_0000_0000_0000
        };
        let power = (if exponent == 0 {
            1
        } else {
            exponent
        }) - 1075;
        let magnitude = if power >= 0 {
            significand * pow2(power as nat) * SCALE
        } else {
            round_half_even(significand * SCALE, pow2((-power) as nat) as int)
        };
        Some(
            clamp(
                if negative {
                    -magnitude
                } else {
                    magnitude
                },
            ),
        )
    }
}

/// The binary floating-point number with this bit pattern, rounded to the nearest integer, a tie
/// going away from zero, and held within the range of `i64`. A pattern that stands for no number
/// counts as zero.
pub open spec fn binary64_integer(bits: u64) -> int {
    let negative = bits >= 0x8000_0000_0000_0000u64;
    let exponent = (bits as int / 0x10_0000_0000_0000) % 2048;
    let fraction = bits as int % 0x10_0000_0000_0000;
    if exponent == 2047 {
        if fraction != 0 {
            0
        } else if negative {
            i64::MIN as int
        } else {
            i64::MAX as int
        }
    } else {
        let significand = if exponent == 0 {
            fraction
        } else {
            fraction + 0x10_0000_0000_0000
        };
        let power = (if exponent == 0 {
            1
        } else {
            exponent
        }) - 1075;
        let magnitude = if power >= 0 {
            significand * pow2(power as nat)
        } else {
            round_half_away(significand, pow2((-power) as nat) as int)
        };
        clamp(
            if negative {
                -magnitude
            } else {
                magnitude
            },
        )
    }
}

/// How many whole shares `amount` buys at `price`, in units. A zero price stands for a
/// quantity without bound.
pub open spec fn whole_shares(amount: Decimal, price: Decimal) -> int {
    if amount.units <= 0 {
        0
    } else if price.units == 0 {
        MAX_WHOLE * SCALE
    } else {
        let count = floor_div(amount.units as int, price.units as int);
        if count > MAX_WHOLE {
            MAX_WHOLE * SCALE
        } else if count < -MAX_WHOLE {
            -MAX_WHOLE * SCALE
        } else {
            count * SCALE
        }
    }
}

/// The `i64` nearest to `n`.
pub(crate) fn saturate(n: i128) -> (r: i64)
    ensures
        r == clamp(n as int),
{
    if n < i64::MIN as i128 {
        i64::MIN
    } else if n > i64::MAX as i128 {
        i64::MAX
    } else {
        n as i64
    }
}

/// `n / d` for `n` not negative, a tie going to the even neighbour.
pub(crate) fn divide_half_even(n: u128, d: u128) -> (q: u128)
    requires
        0 < d < 0x8000_0000_0000_0000_0000_0000_0000_0000,
        d > 1 || n < u128::MAX,
    ensures
        q == round_half_even(n as int, d as int),
{
    let q: u128 = n / d;
    let r: u128 = n % d;
    proof {
        if d > 1 {
            assert(n / d <= n / 2) by (nonlinear_arith)
                requires
                    d > 1,
            ;
        }
    }
    if 2 * r < d {
        q
    } else if 2 * r > d {
        q + 1
    } else {
        q + q % 2
    }
}

/// Rounding half to even treats a number and its negation alike.
proof fn lemma_round_half_even_negates(n: int, d: int)
    requires
        d > 0,
    ensures
        round_half_even(-n, d) == -round_half_even(n, d),
{
    let q = n / d;
    let r = n % d;
    vstd::arithmetic::div_mod::lemma_fundamental_div_mod(n, d);
    if r == 0 {
        assert(-n == (-q) * d) by (nonlinear_arith)
            requires
                n == d * q,
        ;
        vstd::arithmetic::div_mod::lemma_fundamental_div_mod_converse(-n, d, -q, 0);
    } else {
        assert(-n == (-q - 1) * d + (d - r)) by (nonlinear_arith)
            requires
                n == d * q + r,
        ;
        vstd::arithmetic::div_mod::lemma_fundamental_div_mod_converse(-n, d, -q - 1, d - r);
    }
}

/// `2` to the power `k`, for the powers that a `u128` comfortably holds.
fn power_of_two(k: u32) -> (p: u128)
    requires
        k <= 80,
    ensures
        p == pow2(k as nat),
        p < 0x8000_0000_0000_0000_0000_0000_0000_0000,
{
    proof {
        lemma2_to64();
    }
    let mut p: u128 = 1;
    let mut i: u32 = 0;
    while i < k
        invariant
            i <= k <= 80,
            p == pow2(i as nat),
        decreases k - i,
    {
        proof {
            lemma_pow2_below_2_to_82(i as nat + 1);
            lemma_pow2_unfold(i as nat + 1);
        }
        p = p * 2;
        i = i + 1;
    }
    proof {
        lemma_pow2_below_2_to_82(k as nat);
    }
    p
}

proof fn lemma_pow2_below_2_to_82(k: nat)
    requires
        k <= 81,
    ensures
        0 < pow2(k) <= 0x2_0000_0000_0000_0000_0000,
{
    lemma_pow2_81();
    lemma_pow2_pos(k);
    if k < 81 {
        lemma_pow2_strictly_increases(k, 81);
    }
}

proof fn lemma_pow2_81()
    ensures
        pow2(81) == 0x2_0000_0000_0000_0000_0000,
{
    lemma2_to64();
    lemma2_to64_rest();
    lemma_pow2_adds(64, 17);
    assert(pow2(64) == 0x1_0000_0000_0000_0000);
    assert(pow2(17) == 0x2_0000);
}

/// The integer nearest to the binary floating-point number with this bit pattern.
pub fn integer_from_binary64(bits: u64) -> (r: i64)
    ensures
        r == binary64_integer(bits),
{
    let negative: bool = bits >= 0x8000_0000_0000_0000u64;
    let exponent: u64 = (bits / 0x10_0000_0000_0000u64) % 2048;
    let fraction: u64 = bits % 0x10_0000_0000_0000u64;
    let end: i64 = if negative {
        i64::MIN
    } else {
        i64::MAX
    };
    if exponent == 2047 {
        return if fraction != 0 {
            0
        } else {
            end
        };
    }
    let significand: u64 = if exponent == 0 {
        fraction
    } else {
        fraction + 0x10_0000_0000_0000u64
    };
    let shift: u32 = if exponent == 0 {
        1
    } else {
        exponent as u32
    };
    if shift >= 1075 {
        let up: u32 = shift - 1075;
        if up > 11 {
            proof {
                lemma2_to64();
                lemma_pow2_strictly_increases(11, up as nat);
                assert(significand * pow2(up as nat) >= 0x10_0000_0000_0000 * 2048)
                    by (nonlinear_arith)
                    requires
                        significand >= 0x10_0000_0000_0000,
                        pow2(up as nat) >= 2048,
                ;
            }
            return end;
        }
        let factor: u128 = power_of_two(up);
        proof {
            lemma2_to64();
            if up < 11 {
                lemma_pow2_strictly_increases(up as nat, 11);
            }
            assert(significand * factor <= 0x20_0000_0000_0000 * 2048) by (nonlinear_arith)
                requires
                    significand <= 0x20_0000_0000_0000,
                    factor <= 2048,
            ;
        }
        let size: u128 = significand as u128 * factor;
        return if negative {
            saturate(-(size as i128))
        } else {
            saturate(size as i128)
        };
    }
    let down: u32 = 1075 - shift;
    let size: u128 = if down > 80 {
        proof {
            lemma_pow2_81();
            if down > 81 {
                lemma_pow2_strictly_increases(81, down as nat);
            }
            let p = pow2(down as nat) as int;
            vstd::arithmetic::div_mod::lemma_basic_div(significand + p / 2, p);
        }
        0
    } else {
        let p: u128 = power_of_two(down);
        proof {
            lemma_pow2_pos(down as nat);
            assert((significand + p / 2) / p as int <= significand + p / 2) by (nonlinear_arith)
                requires
                    p > 0,
                    significand >= 0,
            ;
        }
        (significand as u128 + p / 2) / p
    };
    proof {
        lemma_rounded_size(significand as int, pow2(down as nat) as int);
    }
    if negative {
        saturate(-(size as i128))
    } else {
        saturate(size as i128)
    }
}

proof fn lemma_rounded_size(n: int, d: int)
    requires
        0 <= n < 0x40_0000_0000_0000,
        d > 0,
    ensures
        0 <= round_half_away(n, d) <= n + 1,
{
    assert(0 <= (n + d / 2) / d <= n + 1) by (nonlinear_arith)
        requires
            0 <= n,
            d > 0,
    ;
}

impl Decimal {
    pub fn zero() -> (r: Decimal)
        ensures
            r.units == 0,
    {
        Decimal { units: 0 }
    }

    pub fn from_units(units: i64) -> (r: Decimal)
        ensures
            r.units == units,
    {
        Decimal { units }
    }

    pub fn from_integer(n: i64) -> (r: Decimal)
        ensures
            r.units == clamp(n * SCALE),
    {
        Decimal { units: saturate(n as i128 * 100_000_000) }
    }

    /// The number nearest to the binary floating-point number with this bit pattern.
    pub fn from_binary64(bits: u64) -> (r: Option<Decimal>)
        ensures
            match binary64_units(bits) {
                Some(units) => r matches Some(d) && d.units == units,
                None => r is None,
            },
    {
        let negative: bool = bits >= 0x8000_0000_0000_0000u64;
        let exponent: u64 = (bits / 0x10_0000_0000_0000u64) % 2048;
        let fraction: u64 = bits % 0x10_0000_0000_0000u64;
        let ends: Decimal = Decimal {
            units: if negative {
                i64::MIN
            } else {
                i64::MAX
            },
        };
        if exponent == 2047 {
            return if fraction != 0 {
                None
            } else {
                Some(ends)
            };
        }
        let significand: u64 = if exponent == 0 {
            fraction
        } else {
            fraction + 0x10_0000_0000_0000u64
        };
        let shift: u32 = if exponent == 0 {
            1
        } else {
            exponent as u32
        };
        if shift >= 1075 {
            proof {
                let power = (shift - 1075) as nat;
                lemma_pow2_pos(power);
                assert(significand * pow2(power) * SCALE >= 0x10_0000_0000_0000 * SCALE)
                    by (nonlinear_arith)
                    requires
                        significand >= 0x10_0000_0000_0000,
                        pow2(power) >= 1,
                        SCALE == 100_000_000,
                ;
            }
            return Some(ends);
        }
        let down: u32 = 1075 - shift;
        let scaled: u128 = significand as u128 * SCALE as u128;
        let magnitude: u128 = if down > 80 {
            proof {
                lemma_pow2_81();
                if down > 81 {
                    lemma_pow2_strictly_increases(81, down as nat);
                }
                vstd::arithmetic::div_mod::lemma_basic_div(scaled as int, pow2(down as nat) as int);
                vstd::arithmetic::div_mod::lemma_small_mod(scaled as nat, pow2(down as nat));
            }
            0
        } else {
            proof {
                lemma2_to64();
                if down == 1 {
                    lemma_pow2_below_2_to_82(1);
                } else {
                    lemma_pow2_strictly_increases(1, down as nat);
                }
            }
            divide_half_even(scaled, power_of_two(down))
        };
        let units: i64 = if magnitude > 0x8000_0000_0000_0000u128 {
            ends.units
        } else if negative {
            saturate(-(magnitude as i128))
        } else {
            saturate(magnitude as i128)
        };
        Some(Decimal { units })
    }

    pub fn plus(self, other: Decimal) -> (r: Decimal)
        ensures
            r.units == clamp(self.units + other.units),
    {
        Decimal { units: saturate(self.units as i128 + other.units as i128) }
    }

    pub fn minus(self, other: Decimal) -> (r: Decimal)
        ensures
            r.units == clamp(self.units - other.units),
    {
        Decimal { units: saturate(self.units as i128 - other.units as i128) }
    }

    /// The size of the number, without its sign.
    pub(crate) fn magnitude(self) -> (r: u128)
        ensures
            r == abs(self.units as int),
    {
        if self.units < 0 {
            (-(self.units as i128)) as u128
        } else {
            self.units as u128
        }
    }

    /// The product with the magnitude of `other`, rounded to the nearest unit.
    pub fn times_magnitude(self, other: Decimal) -> (r: Decimal)
        ensures
            r.units == clamp(
                round_half_even(self.units * abs(other.units as int), SCALE as int),
            ),
    {
        let a: u128 = self.magnitude();
        let b: u128 = other.magnitude();
        proof {
            lemma_product_bound(a as int, b as int);
        }
        let size: u128 = divide_half_even(a * b, SCALE as u128);
        let r: Decimal = signed_from_magnitude(self.units < 0, size);
        proof {
            let n = (a * b) as int;
            lemma_round_half_even_negates(n, SCALE as int);
            assert(self.units * abs(other.units as int) == (if self.units < 0 {
                -n
            } else {
                n
            })) by (nonlinear_arith)
                requires
                    n == a * b,
                    a == abs(self.units as int),
                    b == abs(other.units as int),
            ;
        }
        r
    }

    /// The quotient by the magnitude of `other`, rounded to the nearest unit.
    pub fn over_magnitude(self, other: Decimal) -> (r: Decimal)
        requires
            other.units != 0,
        ensures
            r.units == clamp(
                round_half_even(self.units * 100_000_000, abs(other.units as int)),
            ),
    {
        let a: u128 = self.magnitude();
        let b: u128 = other.magnitude();
        let size: u128 = divide_half_even(a * 100_000_000, b);
        let r: Decimal = signed_from_magnitude(self.units < 0, size);
        proof {
            lemma_round_half_even_negates(a * 100_000_000, b as int);
        }
        r
    }

    /// The nearest whole number of cents, a tie going away from zero.
    pub fn to_cents(self) -> (r: Decimal)
        ensures
            r.units == clamp(round_half_away(self.units as int, CENT as int) * CENT),
    {
        let cents: i128 = ((self.magnitude() + 500_000) / 1_000_000) as i128;
        let signed: i128 = if self.units < 0 {
            -cents
        } else {
            cents
        };
        Decimal { units: saturate(signed * 1_000_000) }
    }

    /// How many whole shares `self` buys at `price`.
    pub fn shares_at(self, price: Decimal) -> (r: Decimal)
        ensures
            r.units == whole_shares(self, price),
    {
        if self.units <= 0 {
            return Decimal { units: 0 };
        }
        if price.units == 0 {
            return Decimal { units: MAX_WHOLE * SCALE };
        }
        let n: i128 = self.units as i128;
        let d: i128 = price.units as i128;
        let count: i128 = if d > 0 {
            n / d
        } else {
            let size: i128 = -d;
            -((n + size - 1) / size)
        };
        proof {
            if d < 0 {
                lemma_ceiling(n as int, -d);
            }
            if d > 0 {
                assert(0 <= n / d <= n) by (nonlinear_arith)
                    requires
                        n > 0,
                        d > 0,
                ;
            }
        }
        if count > MAX_WHOLE as i128 {
            Decimal { units: MAX_WHOLE * SCALE }
        } else if count < -(MAX_WHOLE as i128) {
            Decimal { units: -MAX_WHOLE * SCALE }
        } else {
            Decimal { units: (count * SCALE as i128) as i64 }
        }
    }
}

proof fn lemma_product_bound(a: int, b: int)
    requires
        0 <= a <= 0x8000_0000_0000_0000,
        0 <= b <= 0x8000_0000_0000_0000,
    ensures
        0 <= a * b <= 0x4000_0000_0000_0000_0000_0000_0000_0000,
{
    assert(0 <= a * b <= 0x8000_0000_0000_0000 * 0x8000_0000_0000_0000) by (nonlinear_arith)
        requires
            0 <= a <= 0x8000_0000_0000_0000,
            0 <= b <= 0x8000_0000_0000_0000,
    ;
}

proof fn lemma_ceiling(n: int, d: int)
    requires
        n > 0,
        d > 0,
    ensures
        (-n) / d == -((n + d - 1) / d),
        0 <= (n + d - 1) / d <= n,
{
    let q = (n + d - 1) / d;
    let r = (n + d - 1) % d;
    vstd::arithmetic::div_mod::lemma_fundamental_div_mod(n + d - 1, d);
    assert(-n == (-q) * d + (d - 1 - r)) by (nonlinear_arith)
        requires
            n + d - 1 == d * q + r,
    ;
    vstd::arithmetic::div_mod::lemma_fundamental_div_mod_converse(-n, d, -q, d - 1 - r);
    assert(0 <= q <= n) by (nonlinear_arith)
        requires
            n > 0,
            d > 0,
            n + d - 1 == d * q + r,
            0 <= r < d,
    ;
}

fn signed_from_magnitude(negative: bool, size: u128) -> (r: Decimal)
    ensures
        r.units == clamp(
            if negative {
                -(size as int)
            } else {
                size as int
            },
        ),
{
    let units: i64 = if size > 0x8000_0000_0000_0000u128 {
        if negative {
            i64::MIN
        } else {
            i64::MAX
        }
    } else if negative {
        saturate(-(size as i128))
    } else {
        saturate(size as i128)
    };
    Decimal { units }
}

/// What a number buys in whole shares never costs more than the number, as long as the price is
/// positive.
pub proof fn law_whole_shares_are_affordable(amount: Decimal, price: Decimal)
    requires
        amount.units > 0,
        price.units > 0,
    ensures
        whole_shares(amount, price) * price.units <= amount.units * SCALE,
{
    let n = amount.units as int;
    let d = price.units as int;
    vstd::arithmetic::div_mod::lemma_fundamental_div_mod(n, d);
    let count = n / d;
    assert(count * d <= n) by (nonlinear_arith)
        requires
            n == d * count + n % d,
            n % d >= 0,
    ;
    let held = if count > MAX_WHOLE {
        MAX_WHOLE as int
    } else {
        count
    };
    assert(held * d <= n) by (nonlinear_arith)
        requires
            held <= count,
            count * d <= n,
            d > 0,
    ;
    assert(0 <= count) by (nonlinear_arith)
        requires
            count == n / d,
            n > 0,
            d > 0,
    ;
    assert((held * SCALE) * d == (held * d) * SCALE) by (nonlinear_arith);
}

/// A number in the range of the type is held as it is, and any other at the nearest end.
pub proof fn law_clamp_holds_the_range(n: int)
    ensures
        -0x8000_0000_0000_0000 <= n <= 0x7fff_ffff_ffff_ffff ==> clamp(n) == n,
        n > 0x7fff_ffff_ffff_ffff ==> clamp(n) == 0x7fff_ffff_ffff_ffff,
        n < -0x8000_0000_0000_0000 ==> clamp(n) == -0x8000_0000_0000_0000,
{
}

/// Rounding gives an integer no further than one half from the quotient; at just one half the even
/// one of the two.
pub proof fn law_round_half_even_is_nearest(n: int, d: int)
    requires
        d > 0,
    ensures
        -d <= 2 * (round_half_even(n, d) * d - n) <= d,
        2 * (round_half_even(n, d) * d - n) == d || 2 * (n - round_half_even(n, d) * d) == d
            ==> round_half_even(n, d) % 2 == 0,
{
    let q = n / d;
    let r = n % d;
    vstd::arithmetic::div_mod::lemma_fundamental_div_mod(n, d);
    assert(q * d == n - r) by (nonlinear_arith)
        requires
            n == d * q + r,
    ;
    assert((q + 1) * d == n - r + d) by (nonlinear_arith)
        requires
            q * d == n - r,
    ;
}

/// Rounding gives an integer no further than one half from the quotient; at just one half the one
/// further from zero.
pub proof fn law_round_half_away_is_nearest(n: int, d: int)
    requires
        d > 0,
    ensures
        -d <= 2 * (round_half_away(n, d) * d - n) <= d,
        2 * (round_half_away(n, d) * d - n) == d ==> n > 0,
        2 * (n - round_half_away(n, d) * d) == d ==> n < 0,
{
    let size = if n < 0 {
        -n
    } else {
        n
    };
    let h = d / 2;
    let q = (size + h) / d;
    let r = (size + h) % d;
    vstd::arithmetic::div_mod::lemma_fundamental_div_mod(size + h, d);
    assert(q * d == size + h - r) by (nonlinear_arith)
        requires
            size + h == d * q + r,
    ;
    assert((-q) * d == -(q * d)) by (nonlinear_arith);
    assert(2 * h == d || 2 * h + 1 == d);
    assert(2 * (r - h) != d);
    if n == 0 {
        vstd::arithmetic::div_mod::lemma_small_mod(h as nat, d as nat);
    }
    assert(round_half_away(n, d) == if n < 0 {
        -q
    } else {
        q
    });
    if n < 0 {
        assert(round_half_away(n, d) * d == -(q * d));
        assert(round_half_away(n, d) * d - n == r - h);
    } else {
        assert(round_half_away(n, d) * d == q * d);
        assert(round_half_away(n, d) * d - n == h - r);
    }
}

/// The whole shares that an amount buys are the most that it pays for: one more would cost more
/// than the amount, as far as so many can be held.
pub proof fn law_whole_shares_are_the_most(amount: Decimal, price: Decimal)
    requires
        amount.units > 0,
        price.units > 0,
    ensures
        0 <= whole_shares(amount, price) <= 92_233_720_368 * 100_000_000,
        whole_shares(amount, price) % 100_000_000 == 0,
        whole_shares(amount, price) * price.units <= amount.units * 100_000_000,
        whole_shares(amount, price) < 92_233_720_368 * 100_000_000 ==> (whole_shares(amount, price)
            + 100_000_000) * price.units > amount.units * 100_000_000,
{
    law_whole_shares_are_affordable(amount, price);
    let n = amount.units as int;
    let d = price.units as int;
    let count = n / d;
    vstd::arithmetic::div_mod::lemma_fundamental_div_mod(n, d);
    assert(0 <= count) by (nonlinear_arith)
        requires
            count == n / d,
            n > 0,
            d > 0,
    ;
    assert((count + 1) * d > n) by (nonlinear_arith)
        requires
            n == d * count + n % d,
            n % d < d,
    ;
    assert((count * 100_000_000 + 100_000_000) * d == ((count + 1) * d) * 100_000_000)
        by (nonlinear_arith);
    assert(forall|k: int| #[trigger] (k * 100_000_000) % 100_000_000 == 0);
}

/// An amount that is not positive buys nothing, whatever the price, and an amount at no price buys
/// as much as can be held. At a negative price the count is the next whole number below the
/// quotient.
pub proof fn law_whole_shares_at_the_edges(amount: Decimal, price: Decimal)
    ensures
        amount.units <= 0 ==> whole_shares(amount, price) == 0,
        amount.units > 0 && price.units == 0 ==> whole_shares(amount, price) == 92_233_720_368
            * 100_000_000,
        amount.units > 0 && price.units < 0 ==> whole_shares(amount, price) % 100_000_000 == 0
            && whole_shares(amount, price) < 0,
        amount.units > 0 && price.units < 0 && whole_shares(amount, price) > -92_233_720_368
            * 100_000_000 ==> whole_shares(amount, price) * price.units >= amount.units
            * 100_000_000 && (whole_shares(amount, price) + 100_000_000) * price.units
            < amount.units * 100_000_000,
{
    if amount.units > 0 && price.units < 0 {
        let n = amount.units as int;
        let d = -(price.units as int);
        let count = (-n) / d;
        vstd::arithmetic::div_mod::lemma_fundamental_div_mod(-n, d);
        assert(count < 0) by (nonlinear_arith)
            requires
                -n == d * count + (-n) % d,
                (-n) % d >= 0,
                n > 0,
                d > 0,
        ;
        assert(count * d <= -n && (count + 1) * d > -n) by (nonlinear_arith)
            requires
                -n == d * count + (-n) % d,
                0 <= (-n) % d < d,
        ;
        assert((count * 100_000_000) * (-d) == -(count * d) * 100_000_000) by (nonlinear_arith);
        assert((count * 100_000_000 + 100_000_000) * (-d) == -((count + 1) * d) * 100_000_000)
            by (nonlinear_arith);
        assert(forall|k: int| #[trigger] (k * 100_000_000) % 100_000_000 == 0);
    }
}

/// The bit pattern of a binary floating-point number: its sign, its exponent and its fraction.
pub open spec fn binary64_bits(negative: bool, exponent: int, fraction: int) -> int {
    (if negative {
        0x8000_0000_0000_0000int
    } else {
        0int
    }) + exponent * 0x10_0000_0000_0000 + fraction
}

proof fn lemma_binary64_parts(bits: u64, negative: bool, exponent: int, fraction: int)
    requires
        0 <= exponent < 2048,
        0 <= fraction < 0x10_0000_0000_0000,
        bits == binary64_bits(negative, exponent, fraction),
    ensures
        bits >= 0x8000_0000_0000_0000u64 <==> negative,
        (bits as int / 0x10_0000_0000_0000) % 2048 == exponent,
        bits as int % 0x10_0000_0000_0000 == fraction,
{
}

/// Two infinities are held at the ends of the range, and what stands for no number has no units and
/// counts as zero among the integers.
pub proof fn law_infinities_are_held(bits: u64, negative: bool, fraction: int)
    requires
        0 <= fraction < 0x10_0000_0000_0000,
        bits == binary64_bits(negative, 2047, fraction),
    ensures
        fraction != 0 ==> binary64_units(bits) is None && binary64_integer(bits) == 0,
        fraction == 0 && negative ==> binary64_units(bits) == Some(-0x8000_0000_0000_0000int)
            && binary64_integer(bits) == -0x8000_0000_0000_0000,
        fraction == 0 && !negative ==> binary64_units(bits) == Some(0x7fff_ffff_ffff_ffffint)
            && binary64_integer(bits) == 0x7fff_ffff_ffff_ffff,
{
    lemma_binary64_parts(bits, negative, 2047, fraction);
}

/// A number is held to the nearest unit, an even one at a tie, or at the end of the range where it
/// lies beyond. Its value is its significand times a power of two: with an exponent of zero the
/// fraction alone, and otherwise the fraction behind a leading one.
pub proof fn law_binary_numbers_are_near(
    bits: u64,
    negative: bool,
    exponent: int,
    fraction: int,
    significand: int,
    down: nat,
)
    requires
        0 <= exponent < 1075,
        0 <= fraction < 0x10_0000_0000_0000,
        bits == binary64_bits(negative, exponent, fraction),
        exponent == 0 ==> significand == fraction && down == 1074,
        exponent > 0 ==> significand == 0x10_0000_0000_0000 + fraction && down == 1075 - exponent,
    ensures
        binary64_units(bits) matches Some(units) && {
            let size = if negative {
                -units
            } else {
                units
            };
            let step = pow2(down) as int;
            let scaled = significand * 100_000_000;
            let over = 2 * (size * step - scaled);
            ||| -step <= over <= step && (over == step || over == -step ==> size % 2 == 0)
            ||| negative && size == 0x8000_0000_0000_0000 && scaled > size * step
            ||| !negative && size == 0x7fff_ffff_ffff_ffff && scaled > size * step
        },
        ({
            let n = binary64_integer(bits);
            let size = if negative {
                -n
            } else {
                n
            };
            let step = pow2(down) as int;
            -step < 2 * (size * step - significand) <= step
        }),
{
    lemma_binary64_parts(bits, negative, exponent, fraction);
    let step = pow2(down) as int;
    lemma_pow2_pos(down);
    let scaled = significand * 100_000_000;
    let near = round_half_even(scaled, step);
    law_round_half_even_is_nearest(scaled, step);
    let end = if negative {
        0x8000_0000_0000_0000int
    } else {
        0x7fff_ffff_ffff_ffffint
    };
    if near > end {
        assert(scaled > end * step) by (nonlinear_arith)
            requires
                2 * (near * step - scaled) <= step,
                near >= end + 1,
                step > 0,
        ;
    }
    assert(near >= 0) by (nonlinear_arith)
        requires
            -step <= 2 * (near * step - scaled),
            scaled >= 0,
            step > 0,
    ;
    law_round_half_away_is_nearest(significand, step);
    lemma_rounded_size(significand, step);
}

/// A number too large for a fraction is beyond the range; among the integers it is itself, or the
/// end of the range.
pub proof fn law_large_binary_numbers(
    bits: u64,
    negative: bool,
    exponent: int,
    fraction: int,
)
    requires
        1075 <= exponent < 2047,
        0 <= fraction < 0x10_0000_0000_0000,
        bits == binary64_bits(negative, exponent, fraction),
    ensures
        negative ==> binary64_units(bits) == Some(-0x8000_0000_0000_0000int),
        !negative ==> binary64_units(bits) == Some(0x7fff_ffff_ffff_ffffint),
        ({
            let n = binary64_integer(bits);
            let size = (0x10_0000_0000_0000 + fraction) * pow2((exponent - 1075) as nat);
            ||| negative && n == -size
            ||| !negative && n == size
            ||| negative && n == -0x8000_0000_0000_0000 && size > 0x8000_0000_0000_0000
            ||| !negative && n == 0x7fff_ffff_ffff_ffff && size > 0x7fff_ffff_ffff_ffff
        }),
{
    lemma_binary64_parts(bits, negative, exponent, fraction);
    let power = (exponent - 1075) as nat;
    lemma_pow2_pos(power);
    let m = 0x10_0000_0000_0000 + fraction;
    assert(m * pow2(power) >= m) by (nonlinear_arith)
        requires
            m > 0,
            pow2(power) >= 1,
    ;
}

} // verus!
