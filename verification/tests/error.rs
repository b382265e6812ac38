use std::collections::HashMap;

use tailcall_valid::{Cause, PathSegment, ValidationError};

#[test]
fn test_display() {
    let cause = Cause::new("error".to_string())
        .trace("trace0".to_string())
        .trace("trace1".to_string());
    assert_eq!(cause.render(), "[trace1, trace0] error");
}

#[test]
fn test_cause_render_keeps_empty_brackets() {
    let cause = Cause::new("error".to_string());
    assert_eq!(cause.render(), "[] error");
}

#[test]
fn test_error_display_formatting() {
    let error = ValidationError::from_causes(vec![
        Cause::new("1".to_string())
            .trace("b".to_string())
            .trace("a".to_string()),
        Cause::new("2".to_string()),
        Cause::new("3".to_string()),
    ]);
    let expected_output = "Validation Error\n\u{2022} 1 [a, b]\n\u{2022} 2\n\u{2022} 3\n";
    assert_eq!(error.render(), expected_output);
}

#[test]
fn test_from_serde_error() {
    let foo = &mut serde_json::Deserializer::from_str("{ \"a\": true }");
    let actual = ValidationError::from_serde_error(
        serde_path_to_error::deserialize::<_, HashMap<String, i32>>(foo).unwrap_err(),
    );
    let expected = ValidationError::new(
        "Parsing failed because of invalid type: boolean `true`, expected i32".to_string(),
    )
    .trace("a");
    assert_eq!(actual, expected);
}

#[test]
fn test_from_header_error() {
    let header_error = http::HeaderValue::from_str("bad\nvalue").unwrap_err();
    let error = ValidationError::from_header_error(header_error);
    let causes = error.as_vec();
    assert_eq!(causes.len(), 1);
    assert_eq!(causes[0].error, "failed to parse header value");
    assert!(causes[0].trace.is_empty());
}

#[test]
fn test_from_parsing_parts_path_and_suffix() {
    let segments = vec![
        PathSegment::Key("a".to_string()),
        PathSegment::Index(2),
        PathSegment::Variant("V".to_string()),
        PathSegment::Unknown,
    ];
    let message = "expected value at line 3 column 14".to_string();
    let error = ValidationError::from_parsing_parts(segments, message);
    let causes = error.as_vec();
    assert_eq!(causes.len(), 1);
    assert_eq!(causes[0].error, "Parsing failed because of expected value");
    assert_eq!(causes[0].trace, vec!["a", "[2]", ".", "V", ".", "?"]);
}

#[test]
fn test_from_parsing_parts_no_dot_before_index() {
    let segments = vec![
        PathSegment::Key("a".to_string()),
        PathSegment::Index(2),
        PathSegment::Key("b".to_string()),
    ];
    let error = ValidationError::from_parsing_parts(segments, "oops".to_string());
    let causes = error.as_vec();
    assert_eq!(causes[0].trace, vec!["a", "[2]", ".", "b"]);
}

#[test]
fn test_combine_keeps_order_and_empty_is_identity() {
    let left = ValidationError::new(1).append(2);
    let right = ValidationError::new(3);
    let combined = left.combine(right);
    assert_eq!(
        combined,
        ValidationError::from_causes(vec![Cause::new(1), Cause::new(2), Cause::new(3)])
    );
    let alone = ValidationError::new(7);
    assert_eq!(
        ValidationError::empty().combine(alone.clone()),
        alone.clone()
    );
    assert_eq!(alone.clone().combine(ValidationError::empty()), alone);
}

#[test]
fn test_error_is_empty_and_default() {
    assert!(ValidationError::<i32>::empty().is_empty());
    assert!(ValidationError::<i32>::default().is_empty());
    assert!(!ValidationError::new(1).is_empty());
}

#[test]
fn test_error_trace_touches_every_cause() {
    let error = ValidationError::from_causes(vec![
        Cause::new(1).trace("x".to_string()),
        Cause::new(2),
    ])
    .trace("outer");
    let causes = error.as_vec();
    assert_eq!(causes[0].trace, vec!["outer", "x"]);
    assert_eq!(causes[1].trace, vec!["outer"]);
}

#[test]
fn test_error_transform_maps_every_payload() {
    let error = ValidationError::from_causes(vec![Cause::new(1), Cause::new(2)]);
    let mapped = error.transform(|n: i32| format!("e{}", n));
    assert_eq!(
        mapped,
        ValidationError::from_causes(vec![
            Cause::new("e1".to_string()),
            Cause::new("e2".to_string())
        ])
    );
}

#[test]
fn test_cause_transform_keeps_trace() {
    let cause = Cause::new(5).trace("t".to_string());
    let mapped = cause.transform(|n: i32| n * 10);
    assert_eq!(mapped.error, 50);
    assert_eq!(mapped.trace, vec!["t".to_string()]);
}

#[test]
fn test_render_omits_empty_trace_brackets() {
    let error = ValidationError::from_causes(vec![Cause::new("only".to_string())]);
    assert_eq!(error.render(), "Validation Error\n\u{2022} only\n");
    let empty: ValidationError<String> = ValidationError::empty();
    assert_eq!(empty.render(), "Validation Error\n");
}
