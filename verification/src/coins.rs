pub mod checked;
pub mod unchecked;

use vstd::prelude::*;

verus! {

/// The bottom-up minimum-coin-count table, entry by entry: the count
/// for a sum of zero is zero, and the count for a positive sum is the
/// best the denominations offer on top of an already reachable smaller
/// sum, `i32::MAX` standing for unreachable.
pub open spec fn coin_table(coins: Seq<i32>, s: int) -> int
    decreases s, 1int, 0int,
{
    if s <= 0 {
        if s == 0 {
            0
        } else {
            i32::MAX as int
        }
    } else {
        best_upto(coins, s, coins.len() as int)
    }
}

/// The best count for the sum `s` offered by the first `j`
/// denominations, starting from the unreachable sentinel: a denomination
/// improves the entry when it fits inside the sum, the remainder is
/// reachable, and one more coin beats the best so far.
pub open spec fn best_upto(coins: Seq<i32>, s: int, j: int) -> int
    decreases s, 0int, j,
{
    if s <= 0 || j <= 0 {
        i32::MAX as int
    } else {
        let prev = best_upto(coins, s, j - 1);
        let c = coins[j - 1] as int;
        if 1 <= c <= s {
            let sub = coin_table(coins, s - c);
            if sub != i32::MAX as int && sub + 1 < prev {
                sub + 1
            } else {
                prev
            }
        } else {
            prev
        }
    }
}

/// The sum of a selection of coins.
pub open spec fn sum_of(picks: Seq<i32>) -> int
    decreases picks.len(),
{
    if picks.len() == 0 {
        0
    } else {
        picks.last() + sum_of(picks.drop_last())
    }
}

/// The sum `v` is reachable with exactly `n` coins when some selection
/// of `n` denominations (with repetition) adds up to it.
pub open spec fn reachable(coins: Seq<i32>, v: int, n: int) -> bool {
    exists|picks: Seq<i32>|
        {
            &&& picks.len() == n
            &&& (forall|i: int| 0 <= i < picks.len() ==> coins.contains(#[trigger] picks[i]))
            &&& sum_of(picks) == v
        }
}

/// A selection drawn from denominations of at least one sums to at
/// least its own size.
proof fn lemma_combo_sum(coins: Seq<i32>, picks: Seq<i32>)
    requires
        forall|j: int| 0 <= j < coins.len() ==> #[trigger] coins[j] >= 1,
        forall|i: int| 0 <= i < picks.len() ==> coins.contains(#[trigger] picks[i]),
    ensures
        sum_of(picks) >= picks.len(),
    decreases picks.len(),
{
    if picks.len() > 0 {
        assert(coins.contains(picks.last()));
        assert(picks.last() >= 1);
        assert(forall|i: int|
            0 <= i < picks.drop_last().len() ==> coins.contains(#[trigger] picks.drop_last()[i]));
        lemma_combo_sum(coins, picks.drop_last());
    }
}

/// Every table entry lies between zero and the sentinel.
proof fn lemma_table_range(coins: Seq<i32>, s: int)
    ensures
        0 <= coin_table(coins, s) <= i32::MAX as int,
    decreases s, 1int, 0int,
{
    if s > 0 {
        lemma_best_range(coins, s, coins.len() as int);
    }
}

/// Every partial best lies between zero and the sentinel.
proof fn lemma_best_range(coins: Seq<i32>, s: int, j: int)
    ensures
        0 <= best_upto(coins, s, j) <= i32::MAX as int,
    decreases s, 0int, j,
{
    if s > 0 && j > 0 {
        lemma_best_range(coins, s, j - 1);
        let c = coins[j - 1] as int;
        if 1 <= c <= s {
            lemma_table_range(coins, s - c);
        }
    }
}

/// The partial best only improves as more denominations are scanned.
proof fn lemma_best_monotone(coins: Seq<i32>, s: int, j1: int, j2: int)
    requires
        0 <= j1 <= j2,
    ensures
        best_upto(coins, s, j2) <= best_upto(coins, s, j1),
    decreases j2 - j1,
{
    if j1 < j2 {
        lemma_best_monotone(coins, s, j1, j2 - 1);
    }
}

/// A partial best below the sentinel names a denomination that realizes
/// it on top of a reachable smaller sum.
proof fn lemma_best_sound(coins: Seq<i32>, s: int, j: int)
    requires
        s >= 1,
        0 <= j <= coins.len(),
        best_upto(coins, s, j) != i32::MAX as int,
    ensures
        exists|j0: int|
            {
                &&& 0 <= j0 < j
                &&& 1 <= #[trigger] coins[j0] <= s
                &&& coin_table(coins, s - coins[j0]) != i32::MAX as int
                &&& best_upto(coins, s, j) == coin_table(coins, s - coins[j0]) + 1
            },
    decreases j,
{
    let c = coins[j - 1] as int;
    let prev = best_upto(coins, s, j - 1);
    if 1 <= c <= s && coin_table(coins, s - c) != i32::MAX as int && coin_table(coins, s - c) + 1
        < prev {
        assert(1 <= coins[j - 1] <= s);
    } else {
        lemma_best_sound(coins, s, j - 1);
    }
}

/// One eligible denomination bounds the table entry from above.
proof fn lemma_step_upper(coins: Seq<i32>, s: int, j0: int)
    requires
        s >= 1,
        0 <= j0 < coins.len(),
        1 <= coins[j0] <= s,
        coin_table(coins, s - coins[j0]) != i32::MAX as int,
    ensures
        coin_table(coins, s) <= coin_table(coins, s - coins[j0]) + 1,
{
    lemma_best_monotone(coins, s, j0 + 1, coins.len() as int);
    lemma_table_range(coins, s - coins[j0]);
}

/// A table entry below the sentinel is realized by some selection of
/// exactly that many denominations.
proof fn lemma_table_sound(coins: Seq<i32>, v: int)
    requires
        forall|j: int| 0 <= j < coins.len() ==> #[trigger] coins[j] >= 1,
        v >= 0,
        coin_table(coins, v) != i32::MAX as int,
    ensures
        reachable(coins, v, coin_table(coins, v)),
    decreases v,
{
    if v == 0 {
        let picks = Seq::<i32>::empty();
        assert(sum_of(picks) == 0);
        assert(reachable(coins, 0, 0));
    } else {
        lemma_best_sound(coins, v, coins.len() as int);
        let j0 = choose|j0: int|
            {
                &&& 0 <= j0 < coins.len()
                &&& 1 <= #[trigger] coins[j0] <= v
                &&& coin_table(coins, v - coins[j0]) != i32::MAX as int
                &&& best_upto(coins, v, coins.len() as int) == coin_table(coins, v - coins[j0]) + 1
            };
        let c = coins[j0];
        lemma_table_sound(coins, v - c);
        let picks0 = choose|picks: Seq<i32>|
            {
                &&& picks.len() == coin_table(coins, v - c)
                &&& (forall|i: int| 0 <= i < picks.len() ==> coins.contains(#[trigger] picks[i]))
                &&& sum_of(picks) == v - c
            };
        let picks = picks0.push(c);
        assert(picks.drop_last() =~= picks0);
        assert(picks.last() == c);
        assert(sum_of(picks) == v);
        assert(coins.contains(c));
        assert(forall|i: int| 0 <= i < picks.len() ==> coins.contains(#[trigger] picks[i])) by {
            assert(forall|i: int| 0 <= i < picks0.len() ==> picks[i] == picks0[i]);
        }
        assert(picks.len() == coin_table(coins, v));
        assert(reachable(coins, v, coin_table(coins, v)));
    }
}

/// Any selection reaching the sum bounds the table entry from above.
proof fn lemma_reach_bound(coins: Seq<i32>, v: int, n: int)
    requires
        forall|j: int| 0 <= j < coins.len() ==> #[trigger] coins[j] >= 1,
        v >= 0,
        0 <= n,
        reachable(coins, v, n),
    ensures
        coin_table(coins, v) <= n,
    decreases n,
{
    if n >= i32::MAX as int {
        lemma_table_range(coins, v);
    } else {
        let picks = choose|picks: Seq<i32>|
            {
                &&& picks.len() == n
                &&& (forall|i: int| 0 <= i < picks.len() ==> coins.contains(#[trigger] picks[i]))
                &&& sum_of(picks) == v
            };
        if n == 0 {
            assert(sum_of(picks) == 0);
        } else {
            let c = picks.last();
            assert(coins.contains(c));
            let j0 = choose|j0: int| 0 <= j0 < coins.len() && coins[j0] == c;
            let drop = picks.drop_last();
            assert(forall|i: int| 0 <= i < drop.len() ==> coins.contains(#[trigger] drop[i]));
            lemma_combo_sum(coins, drop);
            assert(sum_of(drop) == v - c);
            assert(v - c >= n - 1 >= 0);
            assert(c >= 1);
            assert(reachable(coins, v - c, n - 1));
            lemma_reach_bound(coins, v - c, n - 1);
            lemma_table_range(coins, v - c);
            assert(coin_table(coins, v - c) != i32::MAX as int);
            lemma_step_upper(coins, v, j0);
        }
    }
}

/// The table entry is the minimum coin count. For denominations of at
/// least one and a non-negative target, an entry below the sentinel is
/// realized by a selection of exactly that many coins, and no smaller
/// selection reaches the target; counts at or past the sentinel itself
/// are beyond what the saturating table distinguishes.
pub proof fn lemma_coin_table_minimal(coins: Seq<i32>, v: int)
    requires
        forall|j: int| 0 <= j < coins.len() ==> #[trigger] coins[j] >= 1,
        v >= 0,
    ensures
        coin_table(coins, v) != i32::MAX as int ==> reachable(coins, v, coin_table(coins, v)),
        forall|n: int| 0 <= n < coin_table(coins, v) ==> !reachable(coins, v, n),
{
    if coin_table(coins, v) != i32::MAX as int {
        lemma_table_sound(coins, v);
    }
    assert forall|n: int| 0 <= n < coin_table(coins, v) implies !reachable(coins, v, n) by {
        if reachable(coins, v, n) {
            lemma_reach_bound(coins, v, n);
        }
    }
}

} // verus!
