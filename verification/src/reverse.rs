pub mod checked;
pub mod unchecked;

use vstd::prelude::*;

verus! {

/// A token that decodes to one character element: exactly one character,
/// and an ASCII one, which is the same as saying the token is a single
/// byte.
pub open spec fn one_char(t: Seq<char>) -> bool {
    t.len() == 1 && (t[0] as u32) < 128
}

/// The characters that the filtering reversal decoder keeps from a token
/// list: the character of every single-byte token, in order.
pub open spec fn kept_chars(args: Seq<String>) -> Seq<char>
    decreases args.len(),
{
    if args.len() == 0 {
        Seq::empty()
    } else if one_char(args.last()@) {
        kept_chars(args.drop_last()).push(args.last()@[0])
    } else {
        kept_chars(args.drop_last())
    }
}

/// Reversal is its own inverse: applying it twice to any buffer gives
/// the original buffer back, so the final buffer of a run is determined
/// by the parity of the repetition count alone.
pub proof fn lemma_reverse_round_trip(s: Seq<char>)
    ensures
        s.reverse().reverse() == s,
{
    assert(s.reverse().reverse() =~= s);
}

} // verus!
