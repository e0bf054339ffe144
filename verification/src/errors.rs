use vstd::prelude::*;

verus! {

/// A runtime fault that only the unchecked kernel class can reach: either
/// an index leaves the buffer, or a subtraction on an unsigned size would
/// wrap below zero. The checked kernels make both structurally
/// unreachable.
#[derive(Clone, Copy, Debug, PartialEq, Eq, Structural)]
pub enum Fault {
    IndexOutOfRange,
    ArithmeticUnderflow,
}

/// Why a harness run terminated without a result: the argument vector had
/// the wrong length, a token did not decode to the expected element type,
/// or an unchecked kernel ran into a fault.
#[derive(Clone, Copy, Debug, PartialEq, Eq, Structural)]
pub enum HarnessError {
    /// The argument count did not match the kernel's expected count.
    ArgumentCountMismatch { expected: usize, actual: usize },
    /// The token at this position of the argument vector did not decode.
    TokenParseFailure { index: usize },
    /// An unchecked kernel reported a fault instead of a result.
    KernelFault(Fault),
}

/// How many tokens an argument vector carries beyond the program name
/// in its first slot: one less than its length, or none at all when even
/// that slot is missing.
pub open spec fn arg_tokens(args: Seq<String>) -> int {
    if args.len() >= 1 {
        args.len() - 1
    } else {
        0
    }
}

} // verus!
