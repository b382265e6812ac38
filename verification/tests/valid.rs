use std::cell::Cell;

use tailcall_valid::{Cause, Valid, Validator};

#[test]
fn test_ok() {
    let result = Valid::<i32, (), ()>::succeed(1);
    assert_eq!(result, Valid::succeed(1));
}

#[test]
fn test_fail() {
    let result = Valid::<(), i32, ()>::fail(1);
    assert_eq!(result, Valid::fail(1));
}

#[test]
fn test_validate_or_both_ok() {
    let result1 = Valid::<bool, i32, ()>::succeed(true);
    let result2 = Valid::<u8, i32, ()>::succeed(3);

    assert_eq!(result1.and(result2), Valid::succeed(3u8));
}

#[test]
fn test_validate_or_first_fail() {
    let result1 = Valid::<bool, i32, ()>::fail(-1);
    let result2 = Valid::<u8, i32, ()>::succeed(3);

    assert_eq!(result1.and(result2), Valid::fail(-1));
}

#[test]
fn test_validate_or_second_fail() {
    let result1 = Valid::<bool, i32, ()>::succeed(true);
    let result2 = Valid::<u8, i32, ()>::fail(-2);

    assert_eq!(result1.and(result2), Valid::fail(-2));
}

#[test]
fn test_validate_all() {
    let input: Vec<i32> = [1, 2, 3].to_vec();
    let result: Valid<Vec<i32>, i32, ()> = Valid::from_iter(input, |a| Valid::fail(a * 2));
    assert_eq!(
        result,
        Valid::from_causes(vec![Cause::new(2), Cause::new(4), Cause::new(6)])
    );
}

#[test]
fn test_validate_all_ques() {
    let input: Vec<i32> = [1, 2, 3].to_vec();
    let result: Valid<Vec<i32>, i32, ()> = Valid::from_iter(input, |a| Valid::fail(a * 2));
    assert_eq!(
        result,
        Valid::from_causes(vec![Cause::new(2), Cause::new(4), Cause::new(6)])
    );
}

#[test]
fn test_ok_ok_cause() {
    let option: Option<i32> = None;
    let result: Valid<i32, i32, ()> = Valid::from_option(option, 1);
    assert_eq!(result, Valid::from_causes(vec![Cause::new(1)]));
}

#[test]
fn test_trace() {
    let result = Valid::<(), i32, String>::fail(1)
        .trace("A".to_string())
        .trace("B".to_string())
        .trace("C".to_string());

    let expected = Valid::from_causes(vec![Cause {
        error: 1,
        trace: vec!["C".to_string(), "B".to_string(), "A".to_string()],
    }]);
    assert_eq!(result, expected);
}

#[test]
fn test_validate_fold_err() {
    let valid = Valid::<(), i32, ()>::fail(1);
    let result = valid.fold(
        |_| Valid::<(), i32, ()>::fail(2),
        || Valid::<(), i32, ()>::fail(3),
    );
    assert_eq!(result, Valid::from_causes(vec![Cause::new(1), Cause::new(3)]));
}

#[test]
fn test_validate_fold_ok() {
    let valid = Valid::<i32, i32, i32>::succeed(1);
    let result = valid.fold(Valid::<i32, i32, i32>::fail, || {
        Valid::<i32, i32, i32>::fail(2)
    });
    assert_eq!(result, Valid::fail(1));
}

#[test]
fn test_to_result() {
    let result = Valid::<(), i32, i32>::fail(1).to_result().unwrap_err();
    assert_eq!(result, vec![Cause::new(1)]);
}

#[test]
fn test_validate_both_ok() {
    let result1 = Valid::<bool, i32, i32>::succeed(true);
    let result2 = Valid::<u8, i32, i32>::succeed(3);

    assert_eq!(result1.zip(result2), Valid::succeed((true, 3u8)));
}

#[test]
fn test_validate_both_first_fail() {
    let result1 = Valid::<bool, i32, i32>::fail(-1);
    let result2 = Valid::<u8, i32, i32>::succeed(3);

    assert_eq!(result1.zip(result2), Valid::fail(-1));
}

#[test]
fn test_validate_both_second_fail() {
    let result1 = Valid::<bool, i32, i32>::succeed(true);
    let result2 = Valid::<u8, i32, i32>::fail(-2);

    assert_eq!(result1.zip(result2), Valid::fail(-2));
}

#[test]
fn test_validate_both_both_fail() {
    let result1 = Valid::<bool, i32, i32>::fail(-1);
    let result2 = Valid::<u8, i32, i32>::fail(-2);

    assert_eq!(
        result1.zip(result2),
        Valid::from_causes(vec![Cause::new(-1), Cause::new(-2)])
    );
}

#[test]
fn test_and_then_success() {
    let result = Valid::<i32, i32, i32>::succeed(1).and_then(|a| Valid::succeed(a + 1));
    assert_eq!(result, Valid::succeed(2));
}

#[test]
fn test_and_then_fail() {
    let result =
        Valid::<i32, i32, i32>::succeed(1).and_then(|a| Valid::<i32, i32, i32>::fail(a + 1));
    assert_eq!(result, Valid::fail(2));
}

#[test]
fn test_foreach_succeed() {
    let a = Cell::new(0);
    let result = Valid::<i32, i32, i32>::succeed(1).foreach(|v| a.set(v));
    assert_eq!(result, Valid::succeed(1));
    assert_eq!(a.get(), 1);
}

#[test]
fn test_foreach_fail() {
    let a = Cell::new(0);
    let result = Valid::<i32, i32, i32>::fail(1).foreach(|v| a.set(v));
    assert_eq!(result, Valid::fail(1));
    assert_eq!(a.get(), 0);
}

#[test]
fn test_trace_owned_referenced() {
    let trace_value = "inner".to_string();

    let valid: Valid<((), ()), String, String> = Valid::fail("fail".to_string())
        .trace(trace_value.clone())
        .zip(Valid::fail("fail 2".to_string()).trace(trace_value))
        .trace("outer".to_string());

    let causes = valid.to_result().unwrap_err();

    assert_eq!(causes.len(), 2);
    assert_eq!(causes[0].render(), "[outer, inner] fail");
    assert_eq!(causes[1].render(), "[outer, inner] fail 2");
}

#[test]
fn test_from_result_vec_causes_ok() {
    let ok_result: Result<i32, Vec<Cause<&str, ()>>> = Ok(42);
    let valid = Valid::from_result(ok_result);
    assert_eq!(valid, Valid::succeed(42));
}

#[test]
fn test_from_result_vec_causes_err() {
    let err_result: Result<i32, Vec<Cause<&str, ()>>> =
        Err(vec![Cause::new("error1"), Cause::new("error2")]);
    let valid = Valid::from_result(err_result);
    let expected = Valid::from_causes(vec![Cause::new("error1"), Cause::new("error2")]);
    assert_eq!(valid, expected);
    assert!(valid.is_fail());
}

#[test]
fn test_from_result_vec_causes_empty_err() {
    let err_result: Result<i32, Vec<Cause<&str, ()>>> = Err(vec![]);
    let valid = Valid::from_result(err_result);
    let expected = Valid::from_causes(vec![]);
    assert_eq!(valid, expected);
    assert!(valid.is_fail());
}
