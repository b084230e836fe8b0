//! One axis of the field: equal cells laid end to end from zero.
//!
//! Cell `k` of a lattice with cells `size` world units long reaches from
//! `k * size` to `(k + 1) * size`. The lines between cells belong to no cell.

use vstd::prelude::*;
use vstd::arithmetic::div_mod::{lemma_fundamental_div_mod, lemma_fundamental_div_mod_converse};
use vstd::arithmetic::mul::lemma_mul_is_associative;
use crate::coord::{WorldCoord, UNIT};

verus! {

/// The position `x`, in parts of a world unit, lies strictly inside cell `k`.
pub open spec fn in_cell(x: int, size: nat, k: int) -> bool {
    (k * size) * UNIT < x < (k * size + size) * UNIT
}

/// The cell that has `x` strictly inside: the quotient of `x` by the length
/// of a cell, unless `x` lies on a line between cells. No cell has a point
/// inside when cells have no length.
pub open spec fn cell_of(x: int, size: nat) -> Option<int> {
    if size > 0 && x % (size * UNIT) != 0 {
        Some(x / (size * UNIT))
    } else {
        None
    }
}

/// A position lies inside cell `k` exactly when `cell_of` names `k`. So every
/// position lies in at most one cell, and in one unless it is on a line.
pub proof fn lemma_cell_of(x: int, size: nat, k: int)
    ensures
        in_cell(x, size, k) <==> cell_of(x, size) == Some(k),
{
    if size > 0 {
        let span: int = size * UNIT;
        assert(span > 0) by (nonlinear_arith)
            requires
                span == size * UNIT,
                size > 0,
                UNIT > 0,
        ;
        lemma_mul_is_associative(k, size as int, UNIT as int);
        assert((k * size + size) * UNIT == k * span + span) by (nonlinear_arith)
            requires
                span == size * UNIT,
                (k * size) * UNIT == k * span,
        ;
        lemma_fundamental_div_mod(x, span);
        if in_cell(x, size, k) {
            lemma_fundamental_div_mod_converse(x, span, k, x - k * span);
        }
        if cell_of(x, size) == Some(k) {
            assert(span * k == k * span) by (nonlinear_arith);
        }
    }
}

/// Where a coordinate of whole part `whole >= 0` falls: its cell is the
/// quotient of the whole part, and it is on a line exactly when the whole
/// part is a multiple of the cell length and nothing is left above it.
proof fn lemma_cell_of_parts(whole: int, part: int, size: nat)
    requires
        whole >= 0,
        0 <= part < UNIT,
        size > 0,
    ensures
        cell_of(whole * UNIT + part, size) == (if whole % (size as int) == 0 && part == 0 {
            None
        } else {
            Some(whole / (size as int))
        }),
{
    let x: int = whole * UNIT + part;
    let span: int = size * UNIT;
    let q: int = whole / (size as int);
    let r: int = whole % (size as int);
    lemma_fundamental_div_mod(whole, size as int);
    assert(x == q * span + (r * UNIT + part)) by (nonlinear_arith)
        requires
            x == whole * UNIT + part,
            span == size * UNIT,
            whole == size * q + r,
    ;
    assert(0 <= r * UNIT + part < span) by (nonlinear_arith)
        requires
            0 <= r < size,
            0 <= part < UNIT,
            span == size * UNIT,
    ;
    lemma_fundamental_div_mod_converse(x, span, q, r * UNIT + part);
}

/// The cell of a lattice with cells `size` world units long that `coord`
/// lies in. There is none on a line between cells, before zero, and when
/// cells have no length.
pub fn cell_index(coord: WorldCoord, size: u32) -> (cell: Option<u64>)
    ensures
        cell matches Some(k) ==> cell_of(coord@, size as nat) == Some(k as int),
        cell is None ==> !(cell_of(coord@, size as nat) matches Some(k) && k >= 0),
{
    if size == 0 {
        return None;
    }
    if coord.whole < 0 {
        proof {
            let span: int = size * UNIT;
            assert(span > 0) by (nonlinear_arith)
                requires
                    span == size * UNIT,
                    size > 0,
                    UNIT > 0,
            ;
            lemma_fundamental_div_mod(coord@, span);
            assert(coord@ / span < 0) by (nonlinear_arith)
                requires
                    coord@ == span * (coord@ / span) + coord@ % span,
                    0 <= coord@ % span < span,
                    coord@ < 0,
            ;
        }
        return None;
    }
    let whole: u64 = coord.whole as u64;
    let length: u64 = size as u64;
    proof {
        lemma_cell_of_parts(whole as int, coord.part as int, size as nat);
    }
    if whole % length == 0 && coord.part == 0 {
        None
    } else {
        Some(whole / length)
    }
}

} // verus!
