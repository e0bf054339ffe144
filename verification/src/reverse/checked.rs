//! The checked reversal kernel: the two converging positions are kept as
//! a validated pair of bounds, so an empty buffer is handled without any
//! subtraction that could wrap.

use vstd::prelude::*;

use crate::errors::HarnessError;
use crate::reverse::kept_chars;
use crate::reverse::one_char;
use vstd::pervasive::VecAdditionalExecFns;

verus! {

/// Reverse the buffer in place with a two-pointer exchange converging
/// from both ends.
pub fn reverse(s: &mut Vec<char>)
    ensures
        final(s)@ == old(s)@.reverse(),
{
    let ghost n = old(s)@.len() as int;
    let mut i: usize = 0;
    let mut j: usize = s.len();
    while j - i > 1
        invariant
            i <= j <= s@.len() == n,
            i + j == n,
            forall|k: int| 0 <= k < i ==> s@[k] == old(s)@[n - 1 - k],
            forall|k: int| j <= k < n ==> s@[k] == old(s)@[n - 1 - k],
            forall|k: int| i <= k < j ==> s@[k] == old(s)@[k],
        decreases j - i,
    {
        let c = s[i];
        let d = s[j - 1];
        s.set(i, d);
        s.set(j - 1, c);
        i = i + 1;
        j = j - 1;
    }
    proof {
        assert(s@ =~= old(s)@.reverse());
    }
}

/// Decode a token list into a character buffer: every single-byte token
/// contributes its character, in order, and any other token is dropped;
/// the run is rejected when what remains is not exactly the expected
/// count of characters. Dropping rather than naming a wide token is
/// this decoder's own policy; under the driver, which demands the
/// expected count both of raw tokens and of kept characters, a list
/// holding any wide token is always rejected.
pub fn create_array_from_args(args: &Vec<String>, expected: usize) -> (r: Result<
    Vec<char>,
    HarnessError,
>)
    ensures
        r is Ok <==> kept_chars(args@).len() == expected,
        match r {
            Ok(v) => v@ == kept_chars(args@),
            Err(e) => e == (HarnessError::ArgumentCountMismatch {
                expected,
                actual: kept_chars(args@).len() as usize,
            }),
        },
{
    let mut out: Vec<char> = Vec::new();
    let mut k: usize = 0;
    while k < args.len()
        invariant
            k <= args@.len(),
            out@ == kept_chars(args@.subrange(0, k as int)),
        decreases args@.len() - k,
    {
        let a = args[k].as_str();
        let ghost sub0 = args@.subrange(0, k as int);
        let ghost sub1 = args@.subrange(0, k as int + 1);
        proof {
            assert(sub1.drop_last() =~= sub0);
            assert(sub1.last() == args@[k as int]);
        }
        if a.unicode_len() == 1 {
            let c = a.get_char(0);
            if (c as u32) < 128 {
                out.push(c);
                proof {
                    assert(one_char(args@[k as int]@));
                    assert(kept_chars(sub1) == kept_chars(sub0).push(c));
                }
            } else {
                proof {
                    assert(!one_char(args@[k as int]@));
                    assert(kept_chars(sub1) == kept_chars(sub0));
                }
            }
        } else {
            proof {
                assert(!one_char(args@[k as int]@));
                assert(kept_chars(sub1) == kept_chars(sub0));
            }
        }
        k = k + 1;
    }
    proof {
        assert(args@.subrange(0, args@.len() as int) =~= args@);
    }
    if out.len() != expected {
        let actual = out.len();
        return Err(HarnessError::ArgumentCountMismatch { expected, actual });
    }
    Ok(out)
}

} // verus!
