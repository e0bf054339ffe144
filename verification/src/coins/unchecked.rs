//! The unchecked minimum-coin-count kernel: the denomination count and
//! the subtraction `sum - denomination` are trusted. A count past the
//! denomination list reads out of range, and a negative denomination —
//! read as an enormous unsigned value — wraps the table index below
//! zero; the first hazard the scan meets is reported instead of an
//! answer. On hazard-free input the kernel computes the same table as
//! the checked class.

use vstd::prelude::*;

use crate::coins::coin_table;
use crate::errors::Fault;

verus! {

/// The first hazard the denomination scan `j = 0, 1, ...` meets before
/// `m`: a position past the list's end, or a negative denomination.
pub open spec fn first_hazard(coins: Seq<i32>, m: int, j: int) -> Option<Fault>
    decreases m - j,
{
    if j >= m {
        None
    } else if j >= coins.len() {
        Some(Fault::IndexOutOfRange)
    } else if coins[j] < 0 {
        Some(Fault::ArithmeticUnderflow)
    } else {
        first_hazard(coins, m, j + 1)
    }
}

/// The minimum coin count for the sum `v` over the first `m` trusted
/// denominations: for a positive sum the scan runs into the first
/// hazard, if there is one, and otherwise the result is the bottom-up
/// table's final entry; a zero sum never touches the denominations.
pub fn min_coins(coins: Vec<i32>, m: usize, v: usize) -> (r: Result<i32, Fault>)
    requires
        v < usize::MAX,
    ensures
        v == 0 ==> r == Ok::<i32, Fault>(0i32),
        v >= 1 ==> match first_hazard(coins@, m as int, 0) {
            Some(f) => r == Err::<i32, Fault>(f),
            None => r matches Ok(k) && k == coin_table(coins@.subrange(0, m as int), v as int),
        },
{
    if v == 0 {
        return Ok(0);
    }
    let mut j: usize = 0;
    while j < m
        invariant
            j <= m,
            v >= 1,
            first_hazard(coins@, m as int, 0) == first_hazard(coins@, m as int, j as int),
            forall|x: int| 0 <= x < j ==> x < coins@.len() && #[trigger] coins@[x] >= 0,
        decreases m - j,
    {
        if j >= coins.len() {
            return Err(Fault::IndexOutOfRange);
        }
        if coins[j] < 0 {
            return Err(Fault::ArithmeticUnderflow);
        }
        j = j + 1;
    }
    proof {
        if m >= 1 {
            assert(coins@[m - 1] >= 0);
        }
    }
    let r = crate::coins::checked::min_coins(coins, m, v);
    Ok(r)
}

} // verus!
