//! Conversion between the two row-addressing conventions for map tiles.
//!
//! At zoom level `z` a tile grid has `2^z` rows.  The XYZ convention counts
//! rows from the northern edge, the TMS convention from the southern edge,
//! so the two are related by `tms_row = 2^z - 1 - xyz_row`.  The same
//! formula maps a TMS row back to its XYZ row: the conversion is an
//! involution.

use vstd::prelude::*;

verus! {

/// `2^z`, the number of tile rows (and columns) at zoom level `z`.
pub open spec fn pow2(z: nat) -> nat
    decreases z,
{
    if z == 0 {
        1nat
    } else {
        2 * pow2((z - 1) as nat)
    }
}

/// The row opposite `row` at zoom `z`: `2^z - 1 - row`.  Converts an XYZ
/// row to its TMS row and a TMS row to its XYZ row.
pub open spec fn flip_row(z: nat, row: int) -> int {
    pow2(z) - 1 - row
}

/// Flipping a row twice gives the row back: the TMS/XYZ conversion is its
/// own inverse, so a round trip through either convention is the identity.
pub proof fn lemma_row_round_trip(z: nat, row: int)
    ensures
        flip_row(z, flip_row(z, row)) == row,
{
}

/// `2^31` written out, so that callers stay within `u32` range.
#[verifier::rlimit(50)]
proof fn lemma_pow2_31()
    ensures
        pow2(31) == 0x8000_0000,
{
    reveal_with_fuel(pow2, 32);
}

proof fn lemma_pow2_monotone(a: nat, b: nat)
    requires
        a <= b,
    ensures
        pow2(a) <= pow2(b),
    decreases b,
{
    if a < b {
        lemma_pow2_monotone(a, (b - 1) as nat);
    }
}

/// `2^z` as a run-time value.
pub fn pow2_exec(z: u32) -> (r: u64)
    requires
        z <= 31,
    ensures
        r == pow2(z as nat),
{
    let mut r: u64 = 1;
    let mut i: u32 = 0;
    while i < z
        invariant
            i <= z <= 31,
            r == pow2(i as nat),
        decreases z - i,
    {
        proof {
            lemma_pow2_monotone((i + 1) as nat, z as nat);
            lemma_pow2_monotone(z as nat, 31);
            lemma_pow2_31();
        }
        r = r * 2;
        i = i + 1;
    }
    r
}

/// The TMS row of XYZ row `row` at zoom `z` (and vice versa):
/// `2^z - 1 - row`, in exact integer arithmetic.
pub fn tms_row(z: u32, row: u32) -> (r: u32)
    requires
        z <= 31,
        row < pow2(z as nat),
    ensures
        r == flip_row(z as nat, row as int),
        r < pow2(z as nat),
{
    proof {
        lemma_pow2_monotone(z as nat, 31);
        lemma_pow2_31();
    }
    let n = pow2_exec(z);
    (n - 1 - row as u64) as u32
}

/// The XYZ row of TMS row `row` at zoom `z`; the same flip as [`tms_row`].
pub fn xyz_row(z: u32, row: u32) -> (r: u32)
    requires
        z <= 31,
        row < pow2(z as nat),
    ensures
        r == flip_row(z as nat, row as int),
        r < pow2(z as nat),
{
    tms_row(z, row)
}

} // verus!
