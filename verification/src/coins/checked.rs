//! The checked minimum-coin-count kernel: the table index formed by
//! subtracting a denomination from the current sum is validated before
//! use, so a denomination below one can never wrap it below zero.

use vstd::prelude::*;

use crate::coins::best_upto;
use crate::coins::coin_table;
use vstd::pervasive::VecAdditionalExecFns;

verus! {

/// The minimum number of coins drawn (with repetition) from the first
/// `m` denominations that sum exactly to `v`, or `i32::MAX` when no
/// combination reaches it: exactly the bottom-up table's final entry.
pub fn min_coins(coins: Vec<i32>, m: usize, v: usize) -> (r: i32)
    requires
        m <= coins@.len(),
        v < usize::MAX,
    ensures
        r == coin_table(coins@.subrange(0, m as int), v as int),
{
    let ghost cs = coins@.subrange(0, m as int);
    let mut table: Vec<i32> = Vec::new();
    let mut t: usize = 0;
    while t < v + 1
        invariant
            t <= v + 1,
            v < usize::MAX,
            table@.len() == t,
            forall|x: int| 0 <= x < t ==> table@[x] == i32::MAX,
        decreases v + 1 - t,
    {
        table.push(i32::MAX);
        t = t + 1;
    }
    table.set(0, 0);
    let mut i: usize = 1;
    while i <= v
        invariant
            1 <= i <= v + 1,
            v < usize::MAX,
            m <= coins@.len(),
            cs == coins@.subrange(0, m as int),
            table@.len() == v + 1,
            table@[0] == 0,
            forall|x: int| 1 <= x < i ==> table@[x] == coin_table(cs, x),
            forall|x: int| i <= x <= v ==> table@[x] == i32::MAX,
        decreases v + 1 - i,
    {
        let mut j: usize = 0;
        while j < m
            invariant
                j <= m <= coins@.len(),
                1 <= i <= v < usize::MAX,
                cs == coins@.subrange(0, m as int),
                table@.len() == v + 1,
                table@[0] == 0,
                table@[i as int] == best_upto(cs, i as int, j as int),
                forall|x: int| 1 <= x < i ==> table@[x] == coin_table(cs, x),
                forall|x: int| i < x <= v ==> table@[x] == i32::MAX,
            decreases m - j,
        {
            let c = coins[j];
            if c >= 1 && (c as usize) <= i {
                let sub_res = table[i - (c as usize)];
                proof {
                    assert(cs[j as int] == coins@[j as int]);
                    assert(sub_res == coin_table(cs, i - c));
                }
                if sub_res != i32::MAX {
                    let cand = sub_res + 1;
                    let cur = table[i];
                    if cand < cur {
                        table.set(i, cand);
                    }
                }
            }
            j = j + 1;
        }
        i = i + 1;
    }
    table[v]
}

} // verus!
