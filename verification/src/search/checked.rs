//! The checked search kernel: the bisection interval is kept half-open,
//! so its bounds never need a subtraction that could wrap and every read
//! stays inside the buffer.

use vstd::prelude::*;

use crate::sort::sorted;

verus! {

/// The position the half-open bisection settles on, probe by probe: the
/// first exact match the midpoints hit, or `-1` once the window is
/// exhausted or the probe at the window's left edge is already too
/// large.
pub open spec fn bisect_trace(arr: Seq<i32>, l: int, r: int, x: i32) -> int
    decreases r - l,
{
    if l >= r {
        -1
    } else {
        let m = l + (r - l) / 2;
        if arr[m] == x {
            m
        } else if arr[m] < x {
            bisect_trace(arr, m + 1, r, x)
        } else if l == m {
            -1
        } else {
            bisect_trace(arr, l, m, x)
        }
    }
}

/// Bounded binary search for `x` over the half-open window `[l, r)` of
/// the buffer: the result is exactly the position the bisection's
/// probes settle on. That position is `-1` or a window position holding
/// `x`; on a sorted buffer `-1` means `x` is nowhere in the window.
pub fn binarysearch2(arr: &Vec<i32>, l: usize, r: usize, x: i32) -> (res: i32)
    requires
        r <= arr@.len(),
        arr@.len() <= i32::MAX,
    ensures
        res == bisect_trace(arr@, l as int, r as int, x),
        res == -1 || (l <= res < r && arr@[res as int] == x),
        sorted(arr@) ==> (res == -1 <==> forall|i: int| l <= i < r ==> arr@[i] != x),
{
    let mut lo = l;
    let mut hi = r;
    while lo < hi
        invariant
            l <= lo,
            hi <= r <= arr@.len() <= i32::MAX,
            bisect_trace(arr@, l as int, r as int, x) == bisect_trace(
                arr@,
                lo as int,
                hi as int,
                x,
            ),
            sorted(arr@) ==> forall|i: int|
                l <= i < r && arr@[i] == x ==> lo as int <= i < hi as int,
        ensures
            bisect_trace(arr@, l as int, r as int, x) == -1,
            sorted(arr@) ==> forall|i: int| l <= i < r ==> arr@[i] != x,
        decreases hi - lo,
    {
        let m = lo + (hi - lo) / 2;
        if arr[m] == x {
            return m as i32;
        }
        if arr[m] < x {
            lo = m + 1;
        } else {
            if lo == m {
                break;
            }
            hi = m;
        }
    }
    -1
}

} // verus!
