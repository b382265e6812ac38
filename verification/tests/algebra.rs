use tailcall_valid::{Cause, Valid, ValidFrom, ValidInto, Validator};

use tailcall_valid::{decimal_string, strip_location};

#[test]
fn test_zip_accumulation_is_associative() {
    let left = Valid::<bool, i32, ()>::fail(-1)
        .zip(Valid::<u8, i32, ()>::fail(-2).zip(Valid::<u16, i32, ()>::fail(-3)));
    let right = (Valid::<bool, i32, ()>::fail(-1).zip(Valid::<u8, i32, ()>::fail(-2)))
        .zip(Valid::<u16, i32, ()>::fail(-3));
    let expected = vec![Cause::new(-1), Cause::new(-2), Cause::new(-3)];
    assert_eq!(left.to_result().unwrap_err(), expected);
    assert_eq!(right.to_result().unwrap_err(), expected);
}

#[test]
fn test_from_iter_all_ok_keeps_order() {
    let input: Vec<i32> = vec![1, 2, 3];
    let result: Valid<Vec<i32>, i32, ()> = Valid::from_iter(input, |a| Valid::succeed(a * 10));
    assert_eq!(result, Valid::succeed(vec![10, 20, 30]));
}

#[test]
fn test_from_iter_mixed_discards_values() {
    let input: Vec<i32> = vec![1, 2, 3, 4];
    let result: Valid<Vec<i32>, i32, ()> = Valid::from_iter(input, |a| {
        if a % 2 == 0 {
            Valid::fail(a)
        } else {
            Valid::succeed(a)
        }
    });
    assert_eq!(result, Valid::from_causes(vec![Cause::new(2), Cause::new(4)]));
}

#[test]
fn test_from_iter_zero_cause_failures_leave_success() {
    let input: Vec<i32> = vec![1, 2];
    let result: Valid<Vec<i32>, i32, ()> = Valid::from_iter(input, |a| {
        if a == 2 {
            Valid::from_causes(vec![])
        } else {
            Valid::succeed(a)
        }
    });
    assert_eq!(result, Valid::succeed(vec![1]));
}

#[test]
fn test_map_success_and_failure() {
    let ok = Valid::<i32, (), ()>::succeed(1).map(|x| x.to_string());
    assert_eq!(ok, Valid::succeed("1".to_string()));
    let err = Valid::<i32, i32, ()>::fail(-1).map(|x| x.to_string());
    assert_eq!(err, Valid::fail(-1));
}

#[test]
fn test_unit_some_map_to() {
    let valid = Valid::<i32, i32, ()>::succeed(1);
    assert_eq!(valid.unit(), Valid::succeed(()));
    let valid = Valid::<i32, i32, ()>::succeed(1);
    assert_eq!(valid.some(), Valid::succeed(Some(1)));
    let valid = Valid::<i32, i32, ()>::succeed(1);
    assert_eq!(valid.map_to("ok"), Valid::succeed("ok"));
    let failing = Valid::<i32, i32, ()>::fail(-1);
    assert_eq!(failing.map_to("ok"), Valid::fail(-1));
}

#[test]
fn test_when_keeps_or_clears_validity() {
    let kept = Valid::<(), &str, ()>::fail("error").when(|| true);
    assert_eq!(kept, Valid::fail("error"));
    let cleared = Valid::<(), &str, ()>::fail("error").when(|| false);
    assert_eq!(cleared, Valid::succeed(()));
}

#[test]
fn test_none_and_from_option_some() {
    let absent: Valid<Option<i32>, &str, ()> = Valid::none();
    assert_eq!(absent, Valid::succeed(None));
    let present: Valid<i32, &str, ()> = Valid::from_option(Some(42), "error");
    assert_eq!(present, Valid::succeed(42));
}

#[test]
fn test_from_cause_and_cause_result() {
    let failing: Valid<(), &str, ()> = Valid::from_cause(Cause::new("boom"));
    assert_eq!(failing, Valid::fail("boom"));
    let ok: Valid<i32, &str, ()> = Valid::from_cause_result(Ok(42));
    assert_eq!(ok, Valid::succeed(42));
    let bad: Valid<i32, &str, ()> = Valid::from_cause_result(Err(Cause::new("boom")));
    assert_eq!(bad, Valid::fail("boom"));
}

#[test]
fn test_fuse_flattens_successes() {
    let v1: Valid<Vec<i32>, (), ()> = Valid::succeed(vec![1, 2]);
    let v2: Valid<Vec<i32>, (), ()> = Valid::succeed(vec![3, 4]);
    let fusion = v1.fuse(v2);
    assert_eq!(fusion.to_result().unwrap(), (vec![1, 2], vec![3, 4]));

    let a: Valid<i32, (), ()> = Valid::succeed(1);
    let b: Valid<bool, (), ()> = Valid::succeed(true);
    let c: Valid<&str, (), ()> = Valid::succeed("x");
    let chained = a.fuse(b).fuse(c);
    assert!(chained.is_succeed());
    assert_eq!(chained.to_result().unwrap(), (1, true, "x"));
}

#[test]
fn test_from_fusion_closes_the_chain() {
    let v1: Valid<Vec<i32>, (), ()> = Valid::succeed(vec![1]);
    let v2: Valid<Vec<i32>, (), ()> = Valid::succeed(vec![2]);
    let fusion = v1.fuse(v2);
    let result: Valid<(Vec<i32>, Vec<i32>), (), ()> = Valid::from_fusion(fusion);
    assert!(result.is_succeed());
    assert_eq!(result, Valid::succeed((vec![1], vec![2])));
}

#[test]
fn test_fuse_accumulates_failures() {
    let a: Valid<i32, i32, ()> = Valid::fail(-1);
    let b: Valid<bool, i32, ()> = Valid::succeed(true);
    let c: Valid<u8, i32, ()> = Valid::fail(-3);
    let chained = a.fuse(b).fuse(c);
    assert!(chained.is_fail());
    assert_eq!(
        chained.to_result().unwrap_err(),
        vec![Cause::new(-1), Cause::new(-3)]
    );
}

#[test]
fn test_strip_location_variants() {
    assert_eq!(strip_location("expected value at line 3 column 14"), "expected value");
    assert_eq!(strip_location("no annotation here"), "no annotation here");
    assert_eq!(strip_location(""), "");
    assert_eq!(strip_location(" at line 1 column 2 tail"), " at line 1 column 2 tail");
    assert_eq!(
        strip_location("x at line 1 column 2 at line 3 column 4"),
        "x at line 1 column 2"
    );
}

#[test]
fn test_decimal_string() {
    assert_eq!(decimal_string(0), "0");
    assert_eq!(decimal_string(7), "7");
    assert_eq!(decimal_string(907), "907");
    assert_eq!(decimal_string(120034), "120034");
}

#[derive(Debug)]
struct Even(i32);

impl ValidFrom<i32> for Even {
    type Error = String;
    type Trace = String;

    fn valid_from(a: i32) -> Valid<Even, String, String> {
        if a % 2 == 0 {
            Valid::succeed(Even(a))
        } else {
            Valid::fail(format!("{} is odd", a))
        }
    }
}

#[test]
fn test_valid_from_and_into() {
    let good: Valid<Even, String, String> = 4.valid_into();
    assert!(good.is_succeed());
    assert_eq!(good.to_result().map(|e| e.0), Ok(4));
    let bad = Even::valid_from(3);
    assert!(bad.is_fail());
    assert_eq!(
        bad.to_result().unwrap_err(),
        vec![Cause::new("3 is odd".to_string())]
    );
}
