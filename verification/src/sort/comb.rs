//! The comb sort kernel: adjacent comparison generalized to a shrinking
//! gap. The gap schedule halves (floor) each outer pass and
//! stops after the single pass at gap one, rather than sweeping until a
//! pass makes no exchange — so the result is a permutation of the input
//! that is *not* guaranteed to be fully sorted, and that incompleteness
//! is kept on purpose.

use vstd::prelude::*;

use crate::parse::lenient_i32;
use crate::parse::lenient_i32_spec;
use crate::sort::sorted;

verus! {

/// One compare-exchange of the pair at distance `g`: the two elements
/// trade places exactly when they are out of order.
pub open spec fn comb_exchange(s: Seq<i32>, i: int, g: int) -> Seq<i32> {
    if s[i] > s[i + g] {
        s.update(i, s[i + g]).update(i + g, s[i])
    } else {
        s
    }
}

/// One left-to-right sweep at gap `g`, starting at position `i`:
/// every pair at distance `g` is compare-exchanged in turn.
pub open spec fn comb_pass(s: Seq<i32>, g: int, i: int) -> Seq<i32>
    decreases s.len() - g - i,
{
    if 0 <= i && 1 <= g && i + g < s.len() {
        comb_pass(comb_exchange(s, i, g), g, i + 1)
    } else {
        s
    }
}

/// The halving gap schedule run to completion from `gap`: the gap is
/// floor-halved, the buffer swept at that gap, and the schedule stops
/// after the sweep at gap one.
pub open spec fn comb_schedule(s: Seq<i32>, gap: int) -> Seq<i32>
    decreases gap,
{
    if gap > 1 {
        comb_schedule(comb_pass(s, gap / 2, 0), gap / 2)
    } else {
        s
    }
}

/// What one run of the comb kernel leaves in the buffer: the full
/// halving schedule started from the buffer's length.
pub open spec fn comb_trace(s: Seq<i32>) -> Seq<i32> {
    comb_schedule(s, s.len() as int)
}

/// `comb_trace` applied `n` times over.
pub open spec fn comb_iter(s: Seq<i32>, n: int) -> Seq<i32>
    decreases n,
{
    if n <= 0 {
        s
    } else {
        comb_trace(comb_iter(s, n - 1))
    }
}

/// One shrinking-gap sweep schedule over the whole buffer: the result
/// is exactly what the halving schedule's compare-exchanges leave
/// behind. The elements are permuted, never lost, and a buffer that is
/// already sorted comes back unchanged, because no pair at any gap is
/// out of order.
pub fn sort(numbers: &mut Vec<i32>)
    ensures
        final(numbers)@ == comb_trace(old(numbers)@),
        final(numbers)@.len() == old(numbers)@.len(),
        final(numbers)@.to_multiset() == old(numbers)@.to_multiset(),
        sorted(old(numbers)@) ==> final(numbers)@ == old(numbers)@,
{
    let size = numbers.len();
    let mut gap = size;
    while gap > 1
        invariant
            gap <= size == numbers@.len(),
            comb_schedule(old(numbers)@, size as int) == comb_schedule(numbers@, gap as int),
            numbers@.to_multiset() == old(numbers)@.to_multiset(),
            sorted(old(numbers)@) ==> numbers@ == old(numbers)@,
        decreases gap,
    {
        let ghost gap_before = gap as int;
        gap = gap / 2;
        let ghost entry = numbers@;
        let mut i: usize = 0;
        while i < size - gap
            invariant
                1 <= gap <= size == numbers@.len(),
                i <= size,
                comb_pass(entry, gap as int, 0) == comb_pass(numbers@, gap as int, i as int),
                numbers@.to_multiset() == old(numbers)@.to_multiset(),
                sorted(old(numbers)@) ==> numbers@ == old(numbers)@,
            decreases size - gap - i,
        {
            if numbers[i] > numbers[i + gap] {
                crate::sort::checked::swap(numbers, i, i + gap);
            }
            i = i + 1;
        }
        proof {
            assert(comb_pass(numbers@, gap as int, i as int) == numbers@);
            assert(comb_schedule(entry, gap_before) == comb_schedule(numbers@, gap as int));
        }
    }
    proof {
        assert(comb_schedule(numbers@, gap as int) == numbers@);
    }
}

/// Decode raw byte tokens into the numeric working buffer, leniently:
/// every token contributes a value, zero standing in for anything that
/// does not read as a trimmed decimal integer, and the element count is
/// handed back through the shared size binding.
pub fn create_array_from_args(args: &Vec<Vec<u8>>, size: &mut usize) -> (r: Vec<i32>)
    ensures
        *final(size) == args@.len(),
        r@.len() == args@.len(),
        forall|k: int| 0 <= k < args@.len() ==> r@[k] == lenient_i32_spec(args@[k]@),
{
    *size = args.len();
    let mut out: Vec<i32> = Vec::new();
    let mut k: usize = 0;
    while k < args.len()
        invariant
            k <= args@.len(),
            out@.len() == k,
            forall|j: int| 0 <= j < k ==> out@[j] == lenient_i32_spec(args@[j]@),
        decreases args@.len() - k,
    {
        let v = lenient_i32(&args[k]);
        out.push(v);
        k = k + 1;
    }
    out
}

} // verus!
