//! Cell selection for the repeating surface patterns.
//!
//! A stripe, ring or checker pattern paints a point with one of two colors
//! according to which unit cell of pattern space the point falls in. The
//! surrounding application maps the point into pattern space and takes the
//! floor of the relevant coordinates; this module decides, from those cell
//! coordinates alone, which of the two colors applies, and proves the
//! periodicity and alternation the patterns promise.

use vstd::prelude::*;
use vstd::arithmetic::div_mod::lemma_add_mod_noop;

verus! {

/// Index of the color a stripe or ring pattern paints in cell `n`: color 0
/// in even cells, color 1 in odd cells. `n` is `floor(x)` for a stripe and
/// `floor(sqrt(x*x + z*z))` for a ring; the remainder is Euclidean, so
/// negative cells alternate the same way.
pub fn cell_index(n: i64) -> (r: usize)
    ensures
        r == (n as int) % 2,
{
    if n % 2 == 0 {
        0
    } else {
        1
    }
}

/// Index of the color a checker pattern paints in the cell with coordinates
/// `(x, y, z)`: the parity of `floor(x) + floor(y) + floor(z)`, with
/// Euclidean remainder.
pub fn checker_index(x: i64, y: i64, z: i64) -> (r: usize)
    ensures
        r == (x + y + z) % 2,
{
    let px: usize = cell_index(x);
    let py: usize = cell_index(y);
    let pz: usize = cell_index(z);
    proof {
        lemma_add_mod_noop(x as int, y as int, 2);
        lemma_add_mod_noop((x + y) as int, z as int, 2);
    }
    (px + py + pz) % 2
}

/// Law: stripe and ring cells repeat with period two; moving two cells over
/// lands on the same color.
pub proof fn lemma_cell_period(n: int)
    ensures
        (n + 2) % 2 == n % 2,
{
}

/// Law: adjacent stripe and ring cells alternate; moving one cell over
/// always changes the color.
pub proof fn lemma_cell_alternates(n: int)
    ensures
        (n + 1) % 2 != n % 2,
{
}

/// Law: a checker pattern alternates across every unit boundary; changing
/// any one cell coordinate by one changes the color.
pub proof fn lemma_checker_alternates(x: int, y: int, z: int)
    ensures
        (x + 1 + y + z) % 2 != (x + y + z) % 2,
        (x + y + 1 + z) % 2 != (x + y + z) % 2,
        (x + y + z + 1) % 2 != (x + y + z) % 2,
{
}

} // verus!
