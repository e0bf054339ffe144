//! The unchecked search kernel: the bisection interval is kept closed on
//! both ends, so narrowing the right bound subtracts one — which wraps
//! below zero at position zero — and a right bound at or past the
//! buffer's length sends the probe out of range. Both faults stay
//! reachable and are reported exactly where the trusted arithmetic goes
//! wrong.

use vstd::prelude::*;

use crate::errors::Fault;

verus! {

/// What the closed-interval bisection does on the window `[l, r]`, probe
/// by probe: it either finds `x`, exhausts the window, or runs into the
/// out-of-range read or the wrapping decrement of the right bound.
pub open spec fn search_trace(arr: Seq<i32>, l: int, r: int, x: i32) -> Result<i32, Fault>
    decreases r - l + 1,
{
    if l > r {
        Ok(-1i32)
    } else {
        let m = l + (r - l) / 2;
        if m >= arr.len() {
            Err(Fault::IndexOutOfRange)
        } else if arr[m] == x {
            Ok(m as i32)
        } else if arr[m] < x {
            search_trace(arr, m + 1, r, x)
        } else if m == 0 {
            Err(Fault::ArithmeticUnderflow)
        } else {
            search_trace(arr, l, m - 1, x)
        }
    }
}

/// Bounded binary search for `x` over the closed window `[l, r]`,
/// trusting the window to lie inside the buffer. The result is exactly
/// what the bisection trace says; when it is a position, that position
/// holds `x`.
pub fn binarysearch2(arr: &Vec<i32>, l: usize, r: usize, x: i32) -> (res: Result<i32, Fault>)
    requires
        arr@.len() <= i32::MAX,
    ensures
        res == search_trace(arr@, l as int, r as int, x),
        res matches Ok(k) ==> k == -1 || (0 <= k < arr@.len() && arr@[k as int] == x),
{
    let mut lo = l;
    let mut hi = r;
    while lo <= hi
        invariant
            arr@.len() <= i32::MAX,
            search_trace(arr@, l as int, r as int, x) == search_trace(
                arr@,
                lo as int,
                hi as int,
                x,
            ),
        decreases hi - lo + 1,
    {
        let m = lo + (hi - lo) / 2;
        if m >= arr.len() {
            return Err(Fault::IndexOutOfRange);
        }
        if arr[m] == x {
            return Ok(m as i32);
        }
        if arr[m] < x {
            lo = m + 1;
        } else {
            if m == 0 {
                return Err(Fault::ArithmeticUnderflow);
            }
            hi = m - 1;
        }
    }
    Ok(-1)
}

/// Copy the decoded numeric arguments into the kernel's working buffer,
/// element by element and in order.
pub fn create_array_from_args(args: Vec<i32>) -> (r: Vec<i32>)
    ensures
        r@ == args@,
{
    let size = args.len();
    let mut res: Vec<i32> = Vec::new();
    let mut i: usize = 0;
    while i < size
        invariant
            i <= size == args@.len(),
            res@ == args@.subrange(0, i as int),
        decreases size - i,
    {
        res.push(args[i]);
        i = i + 1;
    }
    proof {
        assert(args@.subrange(0, args@.len() as int) =~= args@);
    }
    res
}

} // verus!
