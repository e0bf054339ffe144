//! The harness driver: validate the argument count, decode the argument
//! vector into a typed buffer, apply the chosen kernel a fixed number of
//! repetitions — each repetition to the buffer the previous one left
//! behind — and hand back the final buffer or scalar result. On any
//! validation or decoding failure the driver answers the error instead,
//! and no kernel logic runs.

use vstd::prelude::*;

use crate::coins::coin_table;
use crate::errors::arg_tokens;
use crate::errors::HarnessError;
use crate::parse::parse_i32_spec;
use crate::reverse::kept_chars;
use crate::reverse::lemma_reverse_round_trip;
use crate::sort::sorted;

verus! {

/// Which numeric kernel a run executes, with the kernel's own fixed
/// parameters.
#[derive(Clone, Copy, Debug, PartialEq, Eq, Structural)]
pub enum NumericKernel {
    BubbleSort,
    SelectionSort,
    CombSort,
    BinarySearch { target: i32 },
    MinCoins { sum: usize },
}

/// What a numeric run reports: the final buffer for an in-place kernel,
/// or a single scalar for search and the coin count.
#[derive(Debug)]
pub enum NumericOutcome {
    Buffer(Vec<i32>),
    Scalar(i32),
}

/// The argument vector decodes when it has exactly one token per
/// expected element after the program name, and every token reads as a
/// decimal integer.
pub open spec fn decode_ok(args: Seq<String>, expected: int) -> bool {
    &&& args.len() == expected + 1
    &&& forall|k: int| 1 <= k <= expected ==> parse_i32_spec(#[trigger] args[k]@) is Some
}

/// The numeric buffer the argument vector decodes to.
pub open spec fn decoded_ints(args: Seq<String>, expected: int) -> Seq<i32> {
    Seq::new(expected as nat, |k: int| parse_i32_spec(args[k + 1]@).unwrap())
}

/// Check that the argument vector carries exactly the expected count of
/// tokens past the program name.
pub fn validate_arg_count(args: &Vec<String>, expected_argc: usize) -> (r: Result<
    (),
    HarnessError,
>)
    requires
        expected_argc < usize::MAX,
    ensures
        r is Ok <==> args@.len() == expected_argc + 1,
        r matches Err(e) ==> e == (HarnessError::ArgumentCountMismatch {
            expected: expected_argc,
            actual: arg_tokens(args@) as usize,
        }),
{
    if args.len() == expected_argc + 1 {
        Ok(())
    } else {
        let actual: usize = if args.len() >= 1 {
            args.len() - 1
        } else {
            0
        };
        Err(HarnessError::ArgumentCountMismatch { expected: expected_argc, actual })
    }
}

/// Run a numeric kernel: decode, execute `reps` times, report. A wrong
/// argument count or an undecodable token is answered before any kernel
/// logic runs; after that the outcome is determined by the kernel alone,
/// since every numeric kernel either sorts (reaching its fixed point
/// after the first repetition) or is deterministic in the buffer.
pub fn run_numeric(kernel: NumericKernel, args: &Vec<String>, expected: usize, reps: usize) -> (r:
    Result<NumericOutcome, HarnessError>)
    requires
        expected < usize::MAX,
        expected <= i32::MAX,
        kernel matches NumericKernel::MinCoins { sum } ==> sum < usize::MAX,
    ensures
        args@.len() != expected + 1 ==> r == Err::<NumericOutcome, HarnessError>(
            HarnessError::ArgumentCountMismatch { expected, actual: arg_tokens(args@) as usize },
        ),
        !decode_ok(args@, expected as int) ==> r is Err,
        (args@.len() == expected + 1 && !decode_ok(args@, expected as int)) ==> exists|k: int|
            {
                &&& 1 <= k <= expected
                &&& parse_i32_spec(args@[k]@) is None
                &&& r == Err::<NumericOutcome, HarnessError>(HarnessError::TokenParseFailure {
                    index: k as usize,
                })
                &&& forall|k2: int| 1 <= k2 < k ==> parse_i32_spec(#[trigger] args@[k2]@) is Some
            },
        decode_ok(args@, expected as int) ==> {
            let b = decoded_ints(args@, expected as int);
            match kernel {
                NumericKernel::BubbleSort | NumericKernel::SelectionSort => r matches Ok(
                    NumericOutcome::Buffer(out),
                ) && (if reps == 0 {
                    out@ == b
                } else {
                    sorted(out@) && out@.to_multiset() == b.to_multiset()
                }),
                NumericKernel::CombSort => r matches Ok(NumericOutcome::Buffer(out)) && out@
                    == crate::sort::comb::comb_iter(b, reps as int) && out@.to_multiset()
                    == b.to_multiset() && (sorted(b) ==> out@ == b),
                NumericKernel::BinarySearch { target } => r matches Ok(NumericOutcome::Scalar(k))
                    && (if reps == 0 {
                    k == 0
                } else {
                    &&& k == crate::search::checked::bisect_trace(
                        b,
                        0,
                        if b.len() >= 1 {
                            b.len() - 1
                        } else {
                            0
                        },
                        target,
                    )
                    &&& (k == -1 || (0 <= k < b.len() && b[k as int] == target))
                    &&& (sorted(b) ==> (k == -1 <==> forall|i: int|
                        0 <= i < b.len() - 1 ==> b[i] != target))
                }),
                NumericKernel::MinCoins { sum } => r matches Ok(NumericOutcome::Scalar(k)) && (
                if reps == 0 {
                    k == 0
                } else {
                    k == coin_table(b, sum as int)
                }),
            }
        },
{
    let mut buf = match crate::sort::checked::create_array_from_args(args, expected) {
        Ok(v) => v,
        Err(e) => {
            return Err(e);
        },
    };
    let ghost b = decoded_ints(args@, expected as int);
    proof {
        assert(buf@ =~= b);
    }
    match kernel {
        NumericKernel::BubbleSort => {
            let mut t: usize = 0;
            while t < reps
                invariant
                    t <= reps,
                    buf@.len() == b.len(),
                    t == 0 ==> buf@ == b,
                    t >= 1 ==> sorted(buf@) && buf@.to_multiset() == b.to_multiset(),
                decreases reps - t,
            {
                crate::sort::checked::bubble_sort(&mut buf);
                t = t + 1;
            }
            Ok(NumericOutcome::Buffer(buf))
        },
        NumericKernel::SelectionSort => {
            let mut t: usize = 0;
            while t < reps
                invariant
                    t <= reps,
                    buf@.len() == b.len(),
                    t == 0 ==> buf@ == b,
                    t >= 1 ==> sorted(buf@) && buf@.to_multiset() == b.to_multiset(),
                decreases reps - t,
            {
                let n = buf.len();
                let ghost before = buf@;
                crate::sort::checked::selection_sort(&mut buf, n);
                proof {
                    assert(buf@.subrange(0, n as int) =~= buf@);
                    assert(before.subrange(0, n as int) =~= before);
                }
                t = t + 1;
            }
            Ok(NumericOutcome::Buffer(buf))
        },
        NumericKernel::CombSort => {
            let mut t: usize = 0;
            while t < reps
                invariant
                    t <= reps,
                    buf@.len() == b.len(),
                    buf@ == crate::sort::comb::comb_iter(b, t as int),
                    buf@.to_multiset() == b.to_multiset(),
                    sorted(b) ==> buf@ == b,
                decreases reps - t,
            {
                crate::sort::comb::sort(&mut buf);
                t = t + 1;
            }
            Ok(NumericOutcome::Buffer(buf))
        },
        NumericKernel::BinarySearch { target } => {
            let win: usize = if buf.len() >= 1 {
                buf.len() - 1
            } else {
                0
            };
            let mut k: i32 = 0;
            let mut t: usize = 0;
            while t < reps
                invariant
                    t <= reps,
                    buf@ == b,
                    buf@.len() <= i32::MAX,
                    win == (if b.len() >= 1 {
                        b.len() - 1
                    } else {
                        0
                    }),
                    t == 0 ==> k == 0,
                    t >= 1 ==> {
                        &&& k == crate::search::checked::bisect_trace(b, 0, win as int, target)
                        &&& (k == -1 || (0 <= k < b.len() && b[k as int] == target))
                        &&& (sorted(b) ==> (k == -1 <==> forall|i: int|
                            0 <= i < b.len() - 1 ==> b[i] != target))
                    },
                decreases reps - t,
            {
                k = crate::search::checked::binarysearch2(&buf, 0, win, target);
                t = t + 1;
            }
            Ok(NumericOutcome::Scalar(k))
        },
        NumericKernel::MinCoins { sum } => {
            let mut k: i32 = 0;
            let mut t: usize = 0;
            while t < reps
                invariant
                    t <= reps,
                    buf@ == b,
                    buf@.len() == expected,
                    sum < usize::MAX,
                    t == 0 ==> k == 0,
                    t >= 1 ==> k == coin_table(b, sum as int),
                decreases reps - t,
            {
                let mut copy: Vec<i32> = Vec::new();
                let mut x: usize = 0;
                while x < buf.len()
                    invariant
                        x <= buf@.len(),
                        copy@ == buf@.subrange(0, x as int),
                    decreases buf@.len() - x,
                {
                    copy.push(buf[x]);
                    x = x + 1;
                }
                proof {
                    assert(copy@ =~= buf@);
                    assert(copy@.subrange(0, expected as int) =~= b);
                }
                k = crate::coins::checked::min_coins(copy, expected, sum);
                t = t + 1;
            }
            Ok(NumericOutcome::Scalar(k))
        },
    }
}

/// Run the reversal kernel: validate the token count, decode the tokens
/// into a character buffer, reverse it `reps` times, report. The final
/// buffer is the decoded one when the repetition count is even, its
/// reverse when odd.
pub fn run_reversal(args: &Vec<String>, expected: usize, reps: usize) -> (r: Result<
    Vec<char>,
    HarnessError,
>)
    ensures
        args@.len() != expected ==> r == Err::<Vec<char>, HarnessError>(
            HarnessError::ArgumentCountMismatch { expected, actual: args@.len() as usize },
        ),
        args@.len() == expected ==> match r {
            Ok(out) => {
                &&& kept_chars(args@).len() == expected
                &&& (if reps % 2 == 0 {
                    out@ == kept_chars(args@)
                } else {
                    out@ == kept_chars(args@).reverse()
                })
            },
            Err(e) => {
                &&& kept_chars(args@).len() != expected
                &&& e == (HarnessError::ArgumentCountMismatch {
                    expected,
                    actual: kept_chars(args@).len() as usize,
                })
            },
        },
{
    if args.len() != expected {
        let actual = args.len();
        return Err(HarnessError::ArgumentCountMismatch { expected, actual });
    }
    let mut buf = match crate::reverse::checked::create_array_from_args(args, expected) {
        Ok(v) => v,
        Err(e) => {
            return Err(e);
        },
    };
    let ghost b0 = buf@;
    let mut t: usize = 0;
    while t < reps
        invariant
            t <= reps,
            b0 == kept_chars(args@),
            b0.len() == expected,
            t % 2 == 0 ==> buf@ == b0,
            t % 2 == 1 ==> buf@ == b0.reverse(),
        decreases reps - t,
    {
        crate::reverse::checked::reverse(&mut buf);
        proof {
            if t % 2 == 1 {
                lemma_reverse_round_trip(b0);
            }
        }
        t = t + 1;
    }
    Ok(buf)
}

} // verus!
