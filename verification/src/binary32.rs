//! World coordinates read from binary32 numbers.
//!
//! A projection hands out world coordinates as IEEE 754 binary32 numbers.
//! Such a number is read here from its 32 bits: one bit of sign, eight bits
//! of exponent and 23 bits of fraction. A fixed-point coordinate cannot hold
//! every such number, but it can always tell on which side of a line between
//! tiles the number lies: a number that falls between two neighbouring
//! fixed-point positions is rounded to the odd one of the two, and lines lie
//! on even positions only.

use vstd::prelude::*;
use vstd::arithmetic::div_mod::{lemma_fundamental_div_mod, lemma_fundamental_div_mod_converse};
use vstd::arithmetic::power2::{lemma2_to64, lemma_pow2_adds, lemma_pow2_pos, lemma_pow2_strictly_increases, lemma_pow2_unfold, pow2};
use crate::coord::{WorldCoord, WorldPoint, UNIT};

verus! {

/// The sign bit is set.
pub open spec fn is_negative(bits: u32) -> bool {
    bits >= 0x8000_0000
}

/// The eight bits of exponent.
pub open spec fn exponent_field(bits: u32) -> int {
    (bits as int / 0x80_0000) % 0x100
}

/// The 23 bits of fraction.
pub open spec fn fraction_field(bits: u32) -> int {
    bits as int % 0x80_0000
}

/// The bits stand for a number, not for an infinity or for the result of an
/// undefined operation.
pub open spec fn is_finite(bits: u32) -> bool {
    exponent_field(bits) != 0xff
}

/// The digits of the number, as an integer: its absolute value is
/// `significand * 2^(shift - 32)` world units.
pub open spec fn significand(bits: u32) -> int {
    if exponent_field(bits) == 0 {
        fraction_field(bits)
    } else {
        fraction_field(bits) + 0x80_0000
    }
}

/// The power of two by which the significand is scaled to count parts of a
/// world unit: the absolute value of the number is `significand * 2^shift`
/// parts.
pub open spec fn shift(bits: u32) -> int {
    if exponent_field(bits) == 0 {
        -117
    } else {
        exponent_field(bits) - 118
    }
}

/// The absolute value of the number in parts of a world unit. Where that is
/// no integer, it is the odd one of the two integers next to it.
pub open spec fn magnitude(bits: u32) -> int {
    let m = significand(bits);
    let s = shift(bits);
    if s >= 0 {
        m * pow2(s as nat)
    } else {
        let d = pow2((-s) as nat) as int;
        let q = m / d;
        if m % d == 0 || q % 2 == 1 {
            q
        } else {
            q + 1
        }
    }
}

/// The largest position that a coordinate can hold, in parts.
pub open spec fn most() -> int {
    i64::MAX * UNIT + (UNIT - 1)
}

/// The smallest position that a coordinate can hold, in parts.
pub open spec fn least() -> int {
    i64::MIN * UNIT
}

/// The position that stands for the number, in parts: its magnitude with its
/// sign, or the nearest position that a coordinate can hold.
pub open spec fn parts_of(bits: u32) -> int {
    let signed = if is_negative(bits) {
        -magnitude(bits)
    } else {
        magnitude(bits)
    };
    if signed > most() {
        most()
    } else if signed < least() {
        least()
    } else {
        signed
    }
}

/// The number lies above `bound`, a position in parts.
pub open spec fn lies_above(bits: u32, bound: int) -> bool {
    let m = if is_negative(bits) {
        -significand(bits)
    } else {
        significand(bits)
    };
    if shift(bits) >= 0 {
        bound < m * pow2(shift(bits) as nat)
    } else {
        bound * pow2((-shift(bits)) as nat) < m
    }
}

/// The number lies below `bound`, a position in parts.
pub open spec fn lies_below(bits: u32, bound: int) -> bool {
    let m = if is_negative(bits) {
        -significand(bits)
    } else {
        significand(bits)
    };
    if shift(bits) >= 0 {
        m * pow2(shift(bits) as nat) < bound
    } else {
        m < bound * pow2((-shift(bits)) as nat)
    }
}

/// Rounding to the odd neighbour keeps a number on its side of every even
/// bound: `m / d`, rounded so, lies above an even `bound` exactly when
/// `m / d` itself does, and below it exactly when `m / d` itself does.
proof fn lemma_odd_rounding_keeps_sides(m: int, d: int, bound: int)
    requires
        0 <= m,
        0 < d,
        bound % 2 == 0,
    ensures
        ({
            let q = m / d;
            let rounded = if m % d == 0 || q % 2 == 1 {
                q
            } else {
                q + 1
            };
            &&& bound < rounded <==> bound * d < m
            &&& rounded < bound <==> m < bound * d
        }),
{
    let q: int = m / d;
    let r: int = m % d;
    lemma_fundamental_div_mod(m, d);
    assert(bound <= q ==> bound * d <= q * d) by (nonlinear_arith)
        requires
            0 < d,
    ;
    assert(bound >= q + 1 ==> bound * d >= q * d + d) by (nonlinear_arith)
        requires
            0 < d,
    ;
    assert(bound <= q - 1 ==> bound * d <= q * d - d) by (nonlinear_arith)
        requires
            0 < d,
    ;
}

/// Reading a coordinate from a number keeps the number on its side of every
/// line of whole world units: the coordinate lies above the line exactly
/// when the number does, and below it exactly when the number does. So it
/// lies on the line exactly when the number does. This holds of every line
/// that a coordinate can lie below and above.
pub proof fn reading_keeps_the_side_of_every_line(bits: u32, line: int)
    requires
        is_finite(bits),
        i64::MIN < line <= i64::MAX,
    ensures
        line * UNIT < parts_of(bits) <==> lies_above(bits, line * UNIT),
        parts_of(bits) < line * UNIT <==> lies_below(bits, line * UNIT),
{
    let m: int = significand(bits);
    let s: int = shift(bits);
    let bound: int = line * UNIT;
    assert(bound % 2 == 0) by {
        assert(bound == 2 * (line * 0x8000_0000));
    }
    if s >= 0 {
        let size: int = m * pow2(s as nat);
        assert((-m) * pow2(s as nat) == -size) by (nonlinear_arith)
            requires
                size == m * pow2(s as nat),
        ;
    } else {
        let d: int = pow2((-s) as nat) as int;
        lemma_pow2_pos((-s) as nat);
        lemma_fundamental_div_mod(m, d);
        assert(0 <= m / d <= m) by (nonlinear_arith)
            requires
                m == d * (m / d) + m % d,
                0 <= m % d < d,
                0 <= m,
                d >= 1,
        ;
        if is_negative(bits) {
            lemma_odd_rounding_keeps_sides(m, d, -bound);
            assert((-bound) * d == -(bound * d)) by (nonlinear_arith);
        } else {
            lemma_odd_rounding_keeps_sides(m, d, bound);
        }
    }
}

/// Some powers of two by their value.
proof fn lemma_pow2_marks()
    ensures
        pow2(23) == 0x80_0000,
        pow2(24) == 0x100_0000,
        pow2(32) == 0x1_0000_0000,
        pow2(71) == 0x80_0000_0000_0000_0000,
        pow2(72) == 0x100_0000_0000_0000_0000,
{
    lemma2_to64();
    lemma_pow2_adds(64, 7);
    lemma_pow2_adds(64, 8);
}

/// Powers of two grow with their exponent.
proof fn lemma_pow2_grows(a: nat, b: nat)
    requires
        a <= b,
    ensures
        pow2(a) <= pow2(b),
{
    if a < b {
        lemma_pow2_strictly_increases(a, b);
    }
}

/// Two to the power of `e`.
fn power_of_two(e: u32) -> (p: u128)
    requires
        e <= 71,
    ensures
        p == pow2(e as nat),
{
    let mut p: u128 = 1;
    let mut i: u32 = 0;
    proof {
        lemma2_to64();
    }
    while i < e
        invariant
            i <= e <= 71,
            p == pow2(i as nat),
        decreases e - i,
    {
        proof {
            lemma_pow2_unfold((i + 1) as nat);
            lemma_pow2_grows(i as nat, 70);
            lemma_pow2_marks();
            lemma_pow2_unfold(71);
        }
        p = p * 2;
        i = i + 1;
    }
    p
}

impl WorldCoord {
    /// Reads a coordinate from the bits of a binary32 number of world units.
    /// There is none for an infinity and none for what is not a number.
    pub fn from_binary32(bits: u32) -> (coord: Option<WorldCoord>)
        ensures
            coord is None <==> !is_finite(bits),
            coord matches Some(c) ==> c@ == parts_of(bits),
    {
        let negative: bool = bits >= 0x8000_0000;
        let exponent: u32 = (bits / 0x80_0000) % 0x100;
        let fraction: u32 = bits % 0x80_0000;
        if exponent == 0xff {
            return None;
        }
        let m: u64 = if exponent == 0 {
            fraction as u64
        } else {
            fraction as u64 + 0x80_0000
        };
        proof {
            lemma_pow2_marks();
        }
        if exponent >= 118 {
            let s: u32 = exponent - 118;
            if s >= 72 {
                proof {
                    lemma_pow2_grows(72, s as nat);
                    assert(m * pow2(s as nat) >= 0x80_0000 * 0x100_0000_0000_0000_0000) by (nonlinear_arith)
                        requires
                            m >= 0x80_0000,
                            pow2(s as nat) >= 0x100_0000_0000_0000_0000,
                    ;
                }
                return Some(
                    if negative {
                        WorldCoord { whole: i64::MIN, part: 0 }
                    } else {
                        WorldCoord { whole: i64::MAX, part: u32::MAX }
                    },
                );
            }
            let scale: u128 = power_of_two(s);
            proof {
                lemma_pow2_grows(s as nat, 71);
                lemma_pow2_pos(s as nat);
                assert(0 <= m * scale < 0x100_0000 * 0x80_0000_0000_0000_0000) by (nonlinear_arith)
                    requires
                        0 <= m < 0x100_0000,
                        0 < scale <= 0x80_0000_0000_0000_0000,
                ;
            }
            let size: u128 = m as u128 * scale;
            let whole: i64 = (size / 0x1_0000_0000) as i64;
            let part: u32 = (size % 0x1_0000_0000) as u32;
            Some(
                if !negative {
                    WorldCoord { whole, part }
                } else if part == 0 {
                    WorldCoord { whole: -whole, part: 0 }
                } else {
                    WorldCoord { whole: -whole - 1, part: (0x1_0000_0000u64 - part as u64) as u32 }
                },
            )
        } else {
            let j: u32 = if exponent == 0 {
                117
            } else {
                118 - exponent
            };
            let ghost d: int = pow2(j as nat) as int;
            let q: u64;
            let exact: bool;
            if j >= 24 {
                proof {
                    lemma_pow2_grows(24, j as nat);
                    lemma_fundamental_div_mod_converse(m as int, d, 0, m as int);
                }
                q = 0;
                exact = m == 0;
            } else {
                proof {
                    lemma_pow2_grows(j as nat, 23);
                    lemma_pow2_pos(j as nat);
                }
                let divisor: u64 = power_of_two(j) as u64;
                q = m / divisor;
                exact = m % divisor == 0;
            }
            let size: u64 = if exact || q % 2 == 1 {
                q
            } else {
                q + 1
            };
            proof {
                lemma_pow2_pos(j as nat);
                lemma_fundamental_div_mod(m as int, d);
                assert(q <= m) by (nonlinear_arith)
                    requires
                        m == d * q + (m as int) % d,
                        0 <= (m as int) % d,
                        d >= 1,
                        q >= 0,
                ;
            }
            Some(
                if !negative || size == 0 {
                    WorldCoord { whole: 0, part: size as u32 }
                } else {
                    WorldCoord { whole: -1, part: (0x1_0000_0000u64 - size) as u32 }
                },
            )
        }
    }
}

impl WorldPoint {
    /// Reads a point from the bits of two binary32 numbers of world units.
    /// There is none unless both are finite.
    pub fn from_binary32(x_bits: u32, y_bits: u32) -> (point: Option<WorldPoint>)
        ensures
            point is Some <==> is_finite(x_bits) && is_finite(y_bits),
            point matches Some(p) ==> p@.x == parts_of(x_bits) && p@.y == parts_of(y_bits),
    {
        match (WorldCoord::from_binary32(x_bits), WorldCoord::from_binary32(y_bits)) {
            (Some(x), Some(y)) => Some(WorldPoint { x, y }),
            _ => None,
        }
    }
}

} // verus!
