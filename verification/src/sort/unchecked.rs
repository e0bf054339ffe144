//! The unchecked sort kernels: the caller passes the element count
//! separately from the buffer, and nothing re-derives it, so the two can
//! desynchronize. Where the trusted count would drive an index out of the
//! buffer, or the pass arithmetic would wrap below zero, the kernel
//! reports the [`Fault`] it ran into instead of an answer; on a count
//! that agrees with the buffer it behaves exactly like the checked class.

use vstd::prelude::*;

use crate::errors::Fault;
use crate::errors::HarnessError;
use crate::parse::parse_i32;
use crate::parse::parse_i32_spec;
use crate::sort::lemma_swap_in_prefix;
use crate::sort::sorted;

verus! {

/// Exchange the two referenced values.
pub fn swap(first: &mut i32, second: &mut i32)
    ensures
        *final(first) == *old(second),
        *final(second) == *old(first),
{
    let temp = *first;
    *first = *second;
    *second = temp;
}

/// Adjacent-pair sweeps over the prefix `[0, size)` of the buffer, where
/// `size` is trusted. A zero count wraps the pass bound below zero; a
/// count beyond the buffer's length drives the pair index out of range.
pub fn bubble_sort(arr: &mut Vec<i32>, size: usize) -> (r: Result<(), Fault>)
    ensures
        final(arr)@.len() == old(arr)@.len(),
        r is Err <==> (size == 0 || size > old(arr)@.len()),
        match r {
            Ok(()) => {
                &&& sorted(final(arr)@.subrange(0, size as int))
                &&& final(arr)@.subrange(0, size as int).to_multiset() == old(arr)@.subrange(
                    0,
                    size as int,
                ).to_multiset()
                &&& final(arr)@.subrange(size as int, final(arr)@.len() as int) == old(
                    arr,
                )@.subrange(size as int, old(arr)@.len() as int)
            },
            Err(f) => {
                &&& final(arr)@ == old(arr)@
                &&& f == (if size == 0 {
                    Fault::ArithmeticUnderflow
                } else {
                    Fault::IndexOutOfRange
                })
            },
        },
{
    if size == 0 {
        return Err(Fault::ArithmeticUnderflow);
    }
    if size > arr.len() {
        return Err(Fault::IndexOutOfRange);
    }
    let ghost n = old(arr)@.len() as int;
    for i in 0..size - 1
        invariant
            1 <= size <= arr@.len() == n,
            arr@.subrange(0, size as int).to_multiset() == old(arr)@.subrange(
                0,
                size as int,
            ).to_multiset(),
            arr@.subrange(size as int, n) == old(arr)@.subrange(size as int, n),
            forall|k1: int, k2: int| size - i <= k1 <= k2 < size ==> arr@[k1] <= arr@[k2],
            forall|k1: int, k2: int| 0 <= k1 < size - i <= k2 < size ==> arr@[k1] <= arr@[k2],
    {
        for j in 0..size - 1 - i
            invariant
                0 <= i < size <= arr@.len() == n,
                arr@.subrange(0, size as int).to_multiset() == old(arr)@.subrange(
                    0,
                    size as int,
                ).to_multiset(),
                arr@.subrange(size as int, n) == old(arr)@.subrange(size as int, n),
                forall|k1: int, k2: int| size - i <= k1 <= k2 < size ==> arr@[k1] <= arr@[k2],
                forall|k1: int, k2: int| 0 <= k1 < size - i <= k2 < size ==> arr@[k1] <= arr@[k2],
                forall|k: int| 0 <= k <= j ==> arr@[k] <= arr@[j as int],
        {
            if arr[j] > arr[j + 1] {
                let ghost before = arr@;
                crate::sort::checked::swap(arr, j, j + 1);
                proof {
                    lemma_swap_in_prefix(before, arr@, size as int, j as int, j + 1);
                }
            }
        }
    }
    Ok(())
}

/// Minimum-selection passes over the prefix `[0, size)` of the buffer,
/// with the same trusted-count fault surface as the unchecked bubble
/// sort.
pub fn selection_sort(arr: &mut Vec<i32>, size: usize) -> (r: Result<(), Fault>)
    ensures
        final(arr)@.len() == old(arr)@.len(),
        r is Err <==> (size == 0 || size > old(arr)@.len()),
        match r {
            Ok(()) => {
                &&& sorted(final(arr)@.subrange(0, size as int))
                &&& final(arr)@.subrange(0, size as int).to_multiset() == old(arr)@.subrange(
                    0,
                    size as int,
                ).to_multiset()
                &&& final(arr)@.subrange(size as int, final(arr)@.len() as int) == old(
                    arr,
                )@.subrange(size as int, old(arr)@.len() as int)
            },
            Err(f) => {
                &&& final(arr)@ == old(arr)@
                &&& f == (if size == 0 {
                    Fault::ArithmeticUnderflow
                } else {
                    Fault::IndexOutOfRange
                })
            },
        },
{
    if size == 0 {
        return Err(Fault::ArithmeticUnderflow);
    }
    if size > arr.len() {
        return Err(Fault::IndexOutOfRange);
    }
    let ghost n = old(arr)@.len() as int;
    for i in 0..size - 1
        invariant
            1 <= size <= arr@.len() == n,
            arr@.subrange(0, size as int).to_multiset() == old(arr)@.subrange(
                0,
                size as int,
            ).to_multiset(),
            arr@.subrange(size as int, n) == old(arr)@.subrange(size as int, n),
            forall|k1: int, k2: int| 0 <= k1 <= k2 < i ==> arr@[k1] <= arr@[k2],
            forall|k1: int, k2: int| 0 <= k1 < i <= k2 < size ==> arr@[k1] <= arr@[k2],
    {
        let mut min_index = i;
        let mut j = i + 1;
        while j < size
            invariant
                i <= min_index < j <= size <= arr@.len(),
                forall|k: int| i <= k < j ==> arr@[min_index as int] <= arr@[k],
            decreases size - j,
        {
            if arr[min_index] > arr[j] {
                min_index = j;
            }
            j = j + 1;
        }
        if min_index != i {
            let ghost before = arr@;
            crate::sort::checked::swap(arr, i, min_index);
            proof {
                lemma_swap_in_prefix(before, arr@, size as int, i as int, min_index as int);
            }
        }
    }
    Ok(())
}

/// Decode an argument vector into the numeric working buffer without
/// validating its count first: the element count is taken on trust from
/// the vector's length. An empty vector wraps that count below zero,
/// and a token that does not parse aborts the run unstructured; both
/// are reported instead.
pub fn create_array_from_args(args: &Vec<String>, size: &mut usize) -> (r: Result<
    Vec<i32>,
    HarnessError,
>)
    ensures
        args@.len() == 0 ==> *final(size) == *old(size),
        args@.len() >= 1 ==> *final(size) == args@.len() - 1,
        r is Ok <==> (args@.len() >= 1 && forall|k: int|
            1 <= k < args@.len() ==> parse_i32_spec(#[trigger] args@[k]@) is Some),
        match r {
            Ok(v) => {
                &&& v@.len() == args@.len() - 1
                &&& forall|j: int|
                    0 <= j < v@.len() ==> Some(v@[j]) == parse_i32_spec(args@[j + 1]@)
            },
            Err(e) => {
                if args@.len() == 0 {
                    e == HarnessError::KernelFault(Fault::ArithmeticUnderflow)
                } else {
                    exists|k: int|
                        {
                            &&& 1 <= k < args@.len()
                            &&& parse_i32_spec(args@[k]@) is None
                            &&& e == (HarnessError::TokenParseFailure { index: k as usize })
                            &&& forall|k2: int|
                                1 <= k2 < k ==> parse_i32_spec(#[trigger] args@[k2]@) is Some
                        }
                }
            },
        },
{
    if args.len() == 0 {
        return Err(HarnessError::KernelFault(Fault::ArithmeticUnderflow));
    }
    *size = args.len() - 1;
    let mut out: Vec<i32> = Vec::new();
    let mut k: usize = 1;
    while k < args.len()
        invariant
            1 <= k <= args@.len(),
            *size == args@.len() - 1,
            out@.len() == k - 1,
            forall|j: int| 0 <= j < k - 1 ==> Some(out@[j]) == parse_i32_spec(args@[j + 1]@),
            forall|k2: int| 1 <= k2 < k ==> parse_i32_spec(#[trigger] args@[k2]@) is Some,
        decreases args@.len() - k,
    {
        match parse_i32(args[k].as_str()) {
            Some(v) => {
                out.push(v);
            },
            None => {
                return Err(HarnessError::TokenParseFailure { index: k });
            },
        }
        k = k + 1;
    }
    Ok(out)
}

} // verus!
