use kernel_harness::errors::Fault;
use kernel_harness::errors::HarnessError;

fn strings(tokens: &[&str]) -> Vec<String> {
    tokens.iter().map(|t| t.to_string()).collect()
}

#[test]
fn bubble_sort_orders_ascending() {
    let mut v = vec![5, 3, 1, 4, 1];
    kernel_harness::sort::checked::bubble_sort(&mut v);
    assert_eq!(v, vec![1, 1, 3, 4, 5]);
}

#[test]
fn bubble_sort_handles_empty_and_single() {
    let mut v: Vec<i32> = vec![];
    kernel_harness::sort::checked::bubble_sort(&mut v);
    assert_eq!(v, Vec::<i32>::new());
    let mut w = vec![7];
    kernel_harness::sort::checked::bubble_sort(&mut w);
    assert_eq!(w, vec![7]);
}

#[test]
fn selection_sort_orders_prefix() {
    let mut v = vec![9, -2, 4, 9, 0];
    kernel_harness::sort::checked::selection_sort(&mut v, 5);
    assert_eq!(v, vec![-2, 0, 4, 9, 9]);
    let mut w = vec![3, 1, 2, 0];
    kernel_harness::sort::checked::selection_sort(&mut w, 3);
    assert_eq!(w, vec![1, 2, 3, 0]);
}

#[test]
fn checked_swap_exchanges_positions() {
    let mut v = vec![1, 2, 3];
    kernel_harness::sort::checked::swap(&mut v, 0, 2);
    assert_eq!(v, vec![3, 2, 1]);
}

#[test]
fn unchecked_swap_exchanges_values() {
    let mut a = 5;
    let mut b = -7;
    kernel_harness::sort::unchecked::swap(&mut a, &mut b);
    assert_eq!((a, b), (-7, 5));
}

#[test]
fn unchecked_bubble_sort_agrees_on_valid_count() {
    let mut v = vec![4, 2, 8, 1];
    assert_eq!(kernel_harness::sort::unchecked::bubble_sort(&mut v, 4), Ok(()));
    assert_eq!(v, vec![1, 2, 4, 8]);
}

#[test]
fn unchecked_bubble_sort_faults_on_desynchronized_size() {
    let mut v = vec![3, 1, 2];
    assert_eq!(
        kernel_harness::sort::unchecked::bubble_sort(&mut v, 5),
        Err(Fault::IndexOutOfRange)
    );
    assert_eq!(v, vec![3, 1, 2]);
    assert_eq!(
        kernel_harness::sort::unchecked::bubble_sort(&mut v, 0),
        Err(Fault::ArithmeticUnderflow)
    );
    assert_eq!(v, vec![3, 1, 2]);
}

#[test]
fn unchecked_selection_sort_faults_like_bubble() {
    let mut v = vec![2, 1];
    assert_eq!(kernel_harness::sort::unchecked::selection_sort(&mut v, 2), Ok(()));
    assert_eq!(v, vec![1, 2]);
    assert_eq!(
        kernel_harness::sort::unchecked::selection_sort(&mut v, 9),
        Err(Fault::IndexOutOfRange)
    );
    assert_eq!(
        kernel_harness::sort::unchecked::selection_sort(&mut v, 0),
        Err(Fault::ArithmeticUnderflow)
    );
}

#[test]
fn sort_classes_agree_on_valid_input() {
    // On a count that matches the buffer, every sorting kernel that
    // completes produces the same buffer.
    let input = vec![5, -1, 3, 3, 0];
    let mut a = input.clone();
    kernel_harness::sort::checked::bubble_sort(&mut a);
    let mut b = input.clone();
    kernel_harness::sort::checked::selection_sort(&mut b, 5);
    let mut c = input.clone();
    assert_eq!(kernel_harness::sort::unchecked::bubble_sort(&mut c, 5), Ok(()));
    let mut d = input.clone();
    assert_eq!(kernel_harness::sort::unchecked::selection_sort(&mut d, 5), Ok(()));
    assert_eq!(a, vec![-1, 0, 3, 3, 5]);
    assert_eq!(b, a);
    assert_eq!(c, a);
    assert_eq!(d, a);
}

#[test]
fn comb_sort_runs_its_fixed_schedule() {
    // One halving schedule is not a complete sort: it ends with the
    // single gap-one pass, so [3, 2, 1] comes out as [2, 1, 3].
    let mut v = vec![3, 2, 1];
    kernel_harness::sort::comb::sort(&mut v);
    assert_eq!(v, vec![2, 1, 3]);
}

#[test]
fn comb_sort_keeps_sorted_input_unchanged() {
    let mut v = vec![-4, 0, 0, 9];
    kernel_harness::sort::comb::sort(&mut v);
    assert_eq!(v, vec![-4, 0, 0, 9]);
}

#[test]
fn checked_search_finds_present_target() {
    let v = vec![1, 3, 5, 7, 9];
    let r = kernel_harness::search::checked::binarysearch2(&v, 0, 5, 7);
    assert_eq!(r, 3);
}

#[test]
fn checked_search_answers_minus_one_when_absent() {
    let v = vec![1, 3, 5, 7, 9];
    assert_eq!(kernel_harness::search::checked::binarysearch2(&v, 0, 5, 4), -1);
    assert_eq!(kernel_harness::search::checked::binarysearch2(&v, 0, 5, 100), -1);
    assert_eq!(kernel_harness::search::checked::binarysearch2(&v, 0, 0, 1), -1);
}

#[test]
fn unchecked_search_finds_present_target() {
    let v = vec![1, 3, 5, 7, 9];
    assert_eq!(
        kernel_harness::search::unchecked::binarysearch2(&v, 0, 4, 9),
        Ok(4)
    );
}

#[test]
fn unchecked_search_underflows_below_window() {
    // The target is smaller than everything, so the right bound is
    // decremented at position zero and wraps.
    let v = vec![1, 2, 3];
    assert_eq!(
        kernel_harness::search::unchecked::binarysearch2(&v, 0, 2, 0),
        Err(Fault::ArithmeticUnderflow)
    );
}

#[test]
fn unchecked_search_reads_past_buffer_with_wide_window() {
    // A window bound equal to the length sends the probe out of range
    // when the target is larger than everything.
    let v = vec![1, 2, 3];
    assert_eq!(
        kernel_harness::search::unchecked::binarysearch2(&v, 0, 3, 9),
        Err(Fault::IndexOutOfRange)
    );
}

#[test]
fn search_decoder_copies_the_arguments() {
    let args = vec![4, -1, 0];
    let out = kernel_harness::search::unchecked::create_array_from_args(args);
    assert_eq!(out, vec![4, -1, 0]);
}

#[test]
fn min_coins_answers_three_for_eleven() {
    let r = kernel_harness::coins::checked::min_coins(vec![1, 2, 5], 3, 11);
    assert_eq!(r, 3);
}

#[test]
fn min_coins_answers_sentinel_when_unreachable() {
    let r = kernel_harness::coins::checked::min_coins(vec![2, 4], 2, 7);
    assert_eq!(r, i32::MAX);
}

#[test]
fn min_coins_edge_sums() {
    assert_eq!(kernel_harness::coins::checked::min_coins(vec![1, 2, 5], 3, 0), 0);
    assert_eq!(kernel_harness::coins::checked::min_coins(vec![5], 1, 5), 1);
    assert_eq!(kernel_harness::coins::checked::min_coins(vec![], 0, 3), i32::MAX);
}

#[test]
fn unchecked_min_coins_agrees_on_clean_input() {
    let r = kernel_harness::coins::unchecked::min_coins(vec![1, 2, 5], 3, 11);
    assert_eq!(r, Ok(3));
}

#[test]
fn unchecked_min_coins_underflows_on_negative_denomination() {
    let r = kernel_harness::coins::unchecked::min_coins(vec![-1, 2], 2, 5);
    assert_eq!(r, Err(Fault::ArithmeticUnderflow));
}

#[test]
fn unchecked_min_coins_reads_past_denomination_list() {
    let r = kernel_harness::coins::unchecked::min_coins(vec![1], 3, 2);
    assert_eq!(r, Err(Fault::IndexOutOfRange));
}

#[test]
fn unchecked_min_coins_never_scans_for_sum_zero() {
    let r = kernel_harness::coins::unchecked::min_coins(vec![-1], 5, 0);
    assert_eq!(r, Ok(0));
}

#[test]
fn checked_reverse_reverses_in_place() {
    let mut v = vec!['a', 'b', 'c', 'd'];
    kernel_harness::reverse::checked::reverse(&mut v);
    assert_eq!(v, vec!['d', 'c', 'b', 'a']);
}

#[test]
fn checked_reverse_twice_restores_the_buffer() {
    let mut v = vec!['x', 'y', 'z'];
    kernel_harness::reverse::checked::reverse(&mut v);
    kernel_harness::reverse::checked::reverse(&mut v);
    assert_eq!(v, vec!['x', 'y', 'z']);
}

#[test]
fn checked_reverse_handles_empty_buffer() {
    let mut v: Vec<char> = vec![];
    kernel_harness::reverse::checked::reverse(&mut v);
    assert_eq!(v, Vec::<char>::new());
}

#[test]
fn unchecked_reverse_underflows_on_empty_buffer() {
    let mut v: Vec<char> = vec![];
    assert_eq!(
        kernel_harness::reverse::unchecked::reverse(&mut v),
        Err(Fault::ArithmeticUnderflow)
    );
}

#[test]
fn unchecked_reverse_agrees_on_nonempty_buffer() {
    let mut v = vec!['1', '2', '3'];
    assert_eq!(kernel_harness::reverse::unchecked::reverse(&mut v), Ok(()));
    assert_eq!(v, vec!['3', '2', '1']);
}

#[test]
fn numeric_decoder_accepts_exact_count() {
    let args = strings(&["prog", "10", "-3", "0"]);
    let r = kernel_harness::sort::checked::create_array_from_args(&args, 3);
    assert_eq!(r, Ok(vec![10, -3, 0]));
}

#[test]
fn numeric_decoder_rejects_wrong_count() {
    let args = strings(&["prog", "10", "-3"]);
    let r = kernel_harness::sort::checked::create_array_from_args(&args, 3);
    assert_eq!(
        r,
        Err(HarnessError::ArgumentCountMismatch { expected: 3, actual: 2 })
    );
}

#[test]
fn numeric_decoder_names_first_bad_token() {
    let args = strings(&["prog", "1", "x", "nope"]);
    let r = kernel_harness::sort::checked::create_array_from_args(&args, 3);
    assert_eq!(r, Err(HarnessError::TokenParseFailure { index: 2 }));
}

#[test]
fn unchecked_numeric_decoder_trusts_the_count() {
    let args = strings(&["prog", "5", "6"]);
    let mut size = 0;
    let r = kernel_harness::sort::unchecked::create_array_from_args(&args, &mut size);
    assert_eq!(r, Ok(vec![5, 6]));
    assert_eq!(size, 2);
}

#[test]
fn unchecked_numeric_decoder_underflows_on_empty_vector() {
    let args: Vec<String> = vec![];
    let mut size = 9;
    let r = kernel_harness::sort::unchecked::create_array_from_args(&args, &mut size);
    assert_eq!(r, Err(HarnessError::KernelFault(Fault::ArithmeticUnderflow)));
    assert_eq!(size, 9);
}

#[test]
fn byte_decoder_is_lenient() {
    let args: Vec<Vec<u8>> = vec![
        b" 42 ".to_vec(),
        b"-7\n".to_vec(),
        b"oops".to_vec(),
        b"".to_vec(),
        vec![0xff, 0x35],
    ];
    let mut size = 0;
    let out = kernel_harness::sort::comb::create_array_from_args(&args, &mut size);
    assert_eq!(out, vec![42, -7, 0, 0, 0]);
    assert_eq!(size, 5);
}

#[test]
fn parse_reads_signed_decimals() {
    assert_eq!(kernel_harness::parse::parse_i32("123"), Some(123));
    assert_eq!(kernel_harness::parse::parse_i32("+7"), Some(7));
    assert_eq!(kernel_harness::parse::parse_i32("-0"), Some(0));
    assert_eq!(kernel_harness::parse::parse_i32("-2147483648"), Some(i32::MIN));
    assert_eq!(kernel_harness::parse::parse_i32("2147483647"), Some(i32::MAX));
    assert_eq!(kernel_harness::parse::parse_i32("0000123"), Some(123));
}

#[test]
fn parse_rejects_malformed_and_overflowing_tokens() {
    assert_eq!(kernel_harness::parse::parse_i32(""), None);
    assert_eq!(kernel_harness::parse::parse_i32("-"), None);
    assert_eq!(kernel_harness::parse::parse_i32("+"), None);
    assert_eq!(kernel_harness::parse::parse_i32(" 1"), None);
    assert_eq!(kernel_harness::parse::parse_i32("12a"), None);
    assert_eq!(kernel_harness::parse::parse_i32("2147483648"), None);
    assert_eq!(kernel_harness::parse::parse_i32("-2147483649"), None);
    assert_eq!(kernel_harness::parse::parse_i32("99999999999999999999"), None);
}

#[test]
fn lenient_parse_substitutes_zero() {
    assert_eq!(kernel_harness::parse::lenient_i32(&b"\t-15 ".to_vec()), -15);
    assert_eq!(kernel_harness::parse::lenient_i32(&b"".to_vec()), 0);
    assert_eq!(kernel_harness::parse::lenient_i32(&b"12 34".to_vec()), 0);
}

#[test]
fn lenient_parse_trims_unicode_whitespace() {
    // A no-break space, then "7": the space is trimmed, the token parses.
    assert_eq!(kernel_harness::parse::lenient_i32(&"\u{a0}7".as_bytes().to_vec()), 7);
    // An ideographic space on each side.
    assert_eq!(
        kernel_harness::parse::lenient_i32(&"\u{3000}-9\u{3000}".as_bytes().to_vec()),
        -9
    );
    // A no-break space inside the digits still fails to parse.
    assert_eq!(kernel_harness::parse::lenient_i32(&"1\u{a0}2".as_bytes().to_vec()), 0);
}

#[test]
fn filtering_char_decoder_keeps_single_byte_tokens() {
    let args = strings(&["a", "bb", "c", "", "d"]);
    let r = kernel_harness::reverse::checked::create_array_from_args(&args, 3);
    assert_eq!(r, Ok(vec!['a', 'c', 'd']));
}

#[test]
fn filtering_char_decoder_rejects_wrong_kept_count() {
    let args = strings(&["a", "bb", "c"]);
    let r = kernel_harness::reverse::checked::create_array_from_args(&args, 3);
    assert_eq!(
        r,
        Err(HarnessError::ArgumentCountMismatch { expected: 3, actual: 2 })
    );
}

#[test]
fn strict_char_decoder_names_first_wide_token() {
    let args = strings(&["a", "bb", "c"]);
    let r = kernel_harness::reverse::unchecked::create_array_from_args(&args);
    assert_eq!(r, Err(HarnessError::TokenParseFailure { index: 1 }));
    let ok = kernel_harness::reverse::unchecked::create_array_from_args(&strings(&["x", "y"]));
    assert_eq!(ok, Ok(vec!['x', 'y']));
}
