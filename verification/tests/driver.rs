use kernel_harness::errors::HarnessError;
use kernel_harness::harness::run_numeric;
use kernel_harness::harness::run_reversal;
use kernel_harness::harness::validate_arg_count;
use kernel_harness::harness::NumericKernel;
use kernel_harness::harness::NumericOutcome;

fn strings(tokens: &[&str]) -> Vec<String> {
    tokens.iter().map(|t| t.to_string()).collect()
}

fn buffer_of(r: Result<NumericOutcome, HarnessError>) -> Vec<i32> {
    match r {
        Ok(NumericOutcome::Buffer(v)) => v,
        other => panic!("expected a buffer outcome, got {:?}", other),
    }
}

fn scalar_of(r: Result<NumericOutcome, HarnessError>) -> i32 {
    match r {
        Ok(NumericOutcome::Scalar(k)) => k,
        other => panic!("expected a scalar outcome, got {:?}", other),
    }
}

#[test]
fn driver_sorts_through_bubble_kernel() {
    let args = strings(&["prog", "3", "1", "2"]);
    let out = buffer_of(run_numeric(NumericKernel::BubbleSort, &args, 3, 2));
    assert_eq!(out, vec![1, 2, 3]);
}

#[test]
fn driver_sorts_through_selection_kernel() {
    let args = strings(&["prog", "0", "-5", "7", "7"]);
    let out = buffer_of(run_numeric(NumericKernel::SelectionSort, &args, 4, 1));
    assert_eq!(out, vec![-5, 0, 7, 7]);
}

#[test]
fn driver_with_zero_repetitions_reports_the_decoded_buffer() {
    let args = strings(&["prog", "3", "1", "2"]);
    let out = buffer_of(run_numeric(NumericKernel::BubbleSort, &args, 3, 0));
    assert_eq!(out, vec![3, 1, 2]);
}

#[test]
fn driver_runs_comb_schedule_each_repetition() {
    let args = strings(&["prog", "3", "2", "1"]);
    let out = buffer_of(run_numeric(NumericKernel::CombSort, &args, 3, 1));
    assert_eq!(out, vec![2, 1, 3]);
    let twice = buffer_of(run_numeric(NumericKernel::CombSort, &args, 3, 2));
    assert_eq!(twice, vec![1, 2, 3]);
}

#[test]
fn driver_rejects_one_missing_argument_before_any_kernel_runs() {
    // One token short: the run is rejected with the count report and no
    // kernel output exists.
    let args = strings(&["prog", "3", "1"]);
    let r = run_numeric(NumericKernel::BubbleSort, &args, 3, 5);
    assert_eq!(
        r.err(),
        Some(HarnessError::ArgumentCountMismatch { expected: 3, actual: 2 })
    );
}

#[test]
fn driver_rejects_undecodable_token() {
    let args = strings(&["prog", "3", "one", "2"]);
    let r = run_numeric(NumericKernel::BubbleSort, &args, 3, 5);
    assert_eq!(r.err(), Some(HarnessError::TokenParseFailure { index: 2 }));
}

#[test]
fn driver_searches_the_kernel_window() {
    let args = strings(&["prog", "1", "3", "5", "7"]);
    let k = scalar_of(run_numeric(NumericKernel::BinarySearch { target: 3 }, &args, 4, 3));
    assert_eq!(k, 1);
    // The kernel's window stops one short of the end, so the last
    // element is never probed.
    let last = scalar_of(run_numeric(NumericKernel::BinarySearch { target: 7 }, &args, 4, 3));
    assert_eq!(last, -1);
}

#[test]
fn driver_computes_minimum_coin_count() {
    let args = strings(&["prog", "1", "2", "5"]);
    let k = scalar_of(run_numeric(NumericKernel::MinCoins { sum: 11 }, &args, 3, 2));
    assert_eq!(k, 3);
    let none = strings(&["prog", "2", "4"]);
    let k2 = scalar_of(run_numeric(NumericKernel::MinCoins { sum: 7 }, &none, 2, 1));
    assert_eq!(k2, i32::MAX);
}

#[test]
fn reversal_run_depends_on_repetition_parity() {
    let args = strings(&["a", "b", "c"]);
    assert_eq!(run_reversal(&args, 3, 0), Ok(vec!['a', 'b', 'c']));
    assert_eq!(run_reversal(&args, 3, 1), Ok(vec!['c', 'b', 'a']));
    assert_eq!(run_reversal(&args, 3, 10000), Ok(vec!['a', 'b', 'c']));
    assert_eq!(run_reversal(&args, 3, 11), Ok(vec!['c', 'b', 'a']));
}

#[test]
fn reversal_run_rejects_wrong_token_count() {
    let args = strings(&["a", "b"]);
    assert_eq!(
        run_reversal(&args, 3, 4),
        Err(HarnessError::ArgumentCountMismatch { expected: 3, actual: 2 })
    );
}

#[test]
fn reversal_run_rejects_wide_tokens_by_their_kept_count() {
    let args = strings(&["a", "bb", "c"]);
    assert_eq!(
        run_reversal(&args, 3, 1),
        Err(HarnessError::ArgumentCountMismatch { expected: 3, actual: 2 })
    );
}

#[test]
fn argument_count_validation() {
    let args = strings(&["prog", "1", "2"]);
    assert_eq!(validate_arg_count(&args, 2), Ok(()));
    assert_eq!(
        validate_arg_count(&args, 4),
        Err(HarnessError::ArgumentCountMismatch { expected: 4, actual: 2 })
    );
    let empty: Vec<String> = vec![];
    assert_eq!(
        validate_arg_count(&empty, 1),
        Err(HarnessError::ArgumentCountMismatch { expected: 1, actual: 0 })
    );
}
