//! The unchecked reversal kernel: the last position is formed by
//! subtracting one from the length, which wraps below zero on an empty
//! buffer — that fault stays reachable and is reported instead of an
//! answer.

use vstd::prelude::*;

use crate::errors::Fault;
use crate::errors::HarnessError;
use crate::reverse::one_char;
use vstd::pervasive::VecAdditionalExecFns;

verus! {

/// Reverse the buffer in place, trusting `len - 1` to be a valid last
/// index; on an empty buffer that subtraction wraps, so the kernel
/// reports the underflow and leaves the buffer alone.
pub fn reverse(s: &mut Vec<char>) -> (r: Result<(), Fault>)
    ensures
        r is Err <==> old(s)@.len() == 0,
        match r {
            Ok(()) => final(s)@ == old(s)@.reverse(),
            Err(f) => f == Fault::ArithmeticUnderflow && final(s)@ == old(s)@,
        },
{
    if s.len() == 0 {
        return Err(Fault::ArithmeticUnderflow);
    }
    let ghost n = old(s)@.len() as int;
    let mut i: usize = 0;
    let mut j: usize = s.len() - 1;
    while i < j
        invariant
            i + j == n - 1,
            i <= j + 1 <= s@.len() == n,
            forall|k: int| 0 <= k < i ==> s@[k] == old(s)@[n - 1 - k],
            forall|k: int| j < k < n ==> s@[k] == old(s)@[n - 1 - k],
            forall|k: int| i <= k <= j ==> s@[k] == old(s)@[k],
        decreases j,
    {
        let c = s[i];
        let d = s[j];
        s.set(i, d);
        s.set(j, c);
        i = i + 1;
        j = j - 1;
    }
    proof {
        assert(s@ =~= old(s)@.reverse());
    }
    Ok(())
}

/// Decode a token list into a character buffer, rejecting the whole list
/// as soon as some token is not a single byte: the report names the
/// first such token.
pub fn create_array_from_args(args: &Vec<String>) -> (r: Result<Vec<char>, HarnessError>)
    ensures
        r is Ok <==> (forall|k: int| 0 <= k < args@.len() ==> one_char(args@[k]@)),
        match r {
            Ok(v) => {
                &&& v@.len() == args@.len()
                &&& forall|k: int| 0 <= k < args@.len() ==> v@[k] == args@[k]@[0]
            },
            Err(e) => exists|k: int|
                {
                    &&& 0 <= k < args@.len()
                    &&& !one_char(args@[k]@)
                    &&& e == (HarnessError::TokenParseFailure { index: k as usize })
                    &&& forall|k2: int| 0 <= k2 < k ==> one_char(args@[k2]@)
                },
        },
{
    let mut out: Vec<char> = Vec::new();
    let mut k: usize = 0;
    while k < args.len()
        invariant
            k <= args@.len(),
            out@.len() == k,
            forall|k2: int| 0 <= k2 < k ==> one_char(args@[k2]@),
            forall|k2: int| 0 <= k2 < k ==> out@[k2] == args@[k2]@[0],
        decreases args@.len() - k,
    {
        let a = args[k].as_str();
        if a.unicode_len() != 1 {
            return Err(HarnessError::TokenParseFailure { index: k });
        }
        let c = a.get_char(0);
        if (c as u32) >= 128 {
            return Err(HarnessError::TokenParseFailure { index: k });
        }
        out.push(c);
        k = k + 1;
    }
    Ok(out)
}

} // verus!
