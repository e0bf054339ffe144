//! The checked sort kernels: every index is validated against the buffer
//! itself, so no input can drive an access out of range.

use vstd::prelude::*;

use crate::errors::arg_tokens;
use crate::errors::HarnessError;
use crate::parse::parse_i32;
use crate::parse::parse_i32_spec;
use crate::sort::lemma_swap_preserves_multiset;
use crate::sort::sorted;
use vstd::pervasive::VecAdditionalExecFns;

verus! {

/// Exchange the elements at positions `i` and `j`.
pub fn swap(arr: &mut Vec<i32>, i: usize, j: usize)
    requires
        i < old(arr).len(),
        j < old(arr).len(),
    ensures
        final(arr)@ == old(arr)@.update(i as int, old(arr)@[j as int]).update(
            j as int,
            old(arr)@[i as int],
        ),
        final(arr)@.to_multiset() == old(arr)@.to_multiset(),
{
    proof {
        lemma_swap_preserves_multiset(arr@, i as int, j as int);
    }
    let temp = arr[i];
    let arr_j = arr[j];
    arr.set(i, arr_j);
    arr.set(j, temp);
}

/// Repeated adjacent-pair sweeps, each pass shrinking the unsorted prefix
/// by one: the result is the buffer's elements in ascending order.
pub fn bubble_sort(arr: &mut Vec<i32>)
    ensures
        sorted(final(arr)@),
        final(arr)@.to_multiset() == old(arr)@.to_multiset(),
        final(arr)@.len() == old(arr)@.len(),
{
    let size = arr.len();
    for i in 0..size
        invariant
            arr@.len() == size,
            arr@.to_multiset() == old(arr)@.to_multiset(),
            forall|k1: int, k2: int|
                size - i <= k1 <= k2 < size ==> arr@[k1] <= arr@[k2],
            forall|k1: int, k2: int|
                0 <= k1 < size - i <= k2 < size ==> arr@[k1] <= arr@[k2],
    {
        for j in 0..size - 1 - i
            invariant
                i < size,
                arr@.len() == size,
                arr@.to_multiset() == old(arr)@.to_multiset(),
                forall|k1: int, k2: int|
                    size - i <= k1 <= k2 < size ==> arr@[k1] <= arr@[k2],
                forall|k1: int, k2: int|
                    0 <= k1 < size - i <= k2 < size ==> arr@[k1] <= arr@[k2],
                forall|k: int| 0 <= k <= j ==> arr@[k] <= arr@[j as int],
        {
            if arr[j] > arr[j + 1] {
                swap(arr, j, j + 1);
            }
        }
    }
}

/// Decode an argument vector into the numeric working buffer: the count
/// past the program name must match exactly, and every token must parse
/// as a decimal integer; the first token that does not parse is named in
/// the report.
pub fn create_array_from_args(args: &Vec<String>, expected: usize) -> (r: Result<
    Vec<i32>,
    HarnessError,
>)
    requires
        expected < usize::MAX,
    ensures
        r is Ok <==> (args@.len() == expected + 1 && forall|k: int|
            1 <= k <= expected ==> parse_i32_spec(args@[k]@) is Some),
        match r {
            Ok(v) => {
                &&& v@.len() == expected
                &&& forall|k: int|
                    0 <= k < expected ==> Some(v@[k]) == parse_i32_spec(args@[k + 1]@)
            },
            Err(e) => {
                if args@.len() != expected + 1 {
                    e == (HarnessError::ArgumentCountMismatch {
                        expected,
                        actual: arg_tokens(args@) as usize,
                    })
                } else {
                    exists|k: int|
                        {
                            &&& 1 <= k <= expected
                            &&& parse_i32_spec(args@[k]@) is None
                            &&& e == (HarnessError::TokenParseFailure { index: k as usize })
                            &&& forall|k2: int|
                                1 <= k2 < k ==> parse_i32_spec(#[trigger] args@[k2]@) is Some
                        }
                }
            },
        },
{
    if args.len() != expected + 1 {
        let actual: usize = if args.len() >= 1 {
            args.len() - 1
        } else {
            0
        };
        return Err(HarnessError::ArgumentCountMismatch { expected, actual });
    }
    let mut out: Vec<i32> = Vec::new();
    let mut k: usize = 1;
    while k <= expected
        invariant
            1 <= k <= expected + 1,
            expected < usize::MAX,
            args@.len() == expected + 1,
            out@.len() == k - 1,
            forall|j: int| 0 <= j < k - 1 ==> Some(out@[j]) == parse_i32_spec(args@[j + 1]@),
            forall|k2: int| 1 <= k2 < k ==> parse_i32_spec(#[trigger] args@[k2]@) is Some,
        decreases expected + 1 - k,
    {
        match parse_i32(args[k].as_str()) {
            Some(v) => {
                out.push(v);
            },
            None => {
                return Err(HarnessError::TokenParseFailure { index: k });
            },
        }
        k = k + 1;
    }
    Ok(out)
}

/// For each position of the prefix `[0, size)`, scan the remaining part
/// of the prefix for its minimum and exchange it into place: the prefix
/// ends up ascending, and the rest of the buffer is not touched.
pub fn selection_sort(arr: &mut Vec<i32>, size: usize)
    requires
        size <= old(arr).len(),
    ensures
        final(arr)@.len() == old(arr)@.len(),
        sorted(final(arr)@.subrange(0, size as int)),
        final(arr)@.subrange(0, size as int).to_multiset() == old(arr)@.subrange(
            0,
            size as int,
        ).to_multiset(),
        final(arr)@.subrange(size as int, final(arr)@.len() as int) == old(arr)@.subrange(
            size as int,
            old(arr)@.len() as int,
        ),
{
    let ghost n = old(arr)@.len() as int;
    let mut i: usize = 0;
    while size - i > 1
        invariant
            i <= size <= arr@.len() == n,
            arr@.subrange(0, size as int).to_multiset() == old(arr)@.subrange(
                0,
                size as int,
            ).to_multiset(),
            arr@.subrange(size as int, n) == old(arr)@.subrange(size as int, n),
            forall|k1: int, k2: int| 0 <= k1 <= k2 < i ==> arr@[k1] <= arr@[k2],
            forall|k1: int, k2: int| 0 <= k1 < i <= k2 < size ==> arr@[k1] <= arr@[k2],
        decreases size - i,
    {
        let mut min_index = i;
        let mut j = i + 1;
        while j < size
            invariant
                i <= min_index < j <= size <= arr@.len(),
                forall|k: int| i <= k < j ==> arr@[min_index as int] <= arr@[k],
            decreases size - j,
        {
            if arr[j] < arr[min_index] {
                min_index = j;
            }
            j = j + 1;
        }
        if min_index != i {
            let ghost before = arr@;
            swap(arr, i, min_index);
            proof {
                assert(arr@.subrange(0, size as int) =~= before.subrange(0, size as int).update(
                    i as int,
                    before[min_index as int],
                ).update(min_index as int, before[i as int]));
                lemma_swap_preserves_multiset(
                    before.subrange(0, size as int),
                    i as int,
                    min_index as int,
                );
                assert(arr@.subrange(size as int, n) =~= before.subrange(size as int, n));
            }
        }
        i = i + 1;
    }
}

} // verus!
