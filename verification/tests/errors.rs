//! Tests for the classification of remote error payloads.

use wp_api::{ApiError, JsonValue};

#[derive(Debug)]
struct Dummy;

fn error_payload() -> JsonValue {
    JsonValue::Obj(vec![
        ("code".to_string(), JsonValue::Str("rest_post_invalid_id".to_string())),
        ("message".to_string(), JsonValue::Str("Invalid post ID.".to_string())),
        (
            "data".to_string(),
            JsonValue::Obj(vec![("status".to_string(), JsonValue::Num("404".to_string()))]),
        ),
    ])
}

#[test]
fn wordpress_error() {
    let obj = error_payload();

    let err: ApiError<Dummy> = ApiError::from_json(obj);
    if let ApiError::WordPress {
        message,
        code,
        data: _data,
    } = err
    {
        assert_eq!(code, "rest_post_invalid_id");
        assert_eq!(message, "Invalid post ID.");
    } else {
        panic!("unexpected error: {:?}", err);
    }
}

#[test]
fn wordpress_unrecognized() {
    let err_obj = JsonValue::Obj(vec![("bob".to_string(), JsonValue::Str("loblaw".to_string()))]);

    let err: ApiError<Dummy> = ApiError::from_json(err_obj.clone());
    if let ApiError::WordPressUnrecognized { json: obj } = err {
        assert_eq!(obj, err_obj);
    } else {
        panic!("unexpected error: {:?}", err);
    }
}

#[test]
fn wordpress_error_keeps_data() {
    let err: ApiError<Dummy> = ApiError::from_json(error_payload());
    if let ApiError::WordPress { data, .. } = err {
        assert_eq!(
            data,
            JsonValue::Obj(vec![("status".to_string(), JsonValue::Num("404".to_string()))])
        );
    } else {
        panic!("expected an application error");
    }
}

#[test]
fn wordpress_error_needs_string_fields() {
    let obj = JsonValue::Obj(vec![
        ("code".to_string(), JsonValue::Num("7".to_string())),
        ("message".to_string(), JsonValue::Str("m".to_string())),
        ("data".to_string(), JsonValue::Null),
    ]);
    let err: ApiError<Dummy> = ApiError::from_json(obj.clone());
    assert!(matches!(err, ApiError::WordPressUnrecognized { json } if json == obj));
}

#[test]
fn client_error_wraps_the_source() {
    let err: ApiError<Dummy> = ApiError::client(Dummy);
    assert!(matches!(err, ApiError::Client { source: Dummy }));
}

#[test]
fn data_type_error_names_the_type() {
    let err: ApiError<Dummy> = ApiError::data_type("Post".to_string(), "missing field".to_string());
    if let ApiError::DataType { typename, detail } = err {
        assert_eq!(typename, "Post");
        assert_eq!(detail, "missing field");
    } else {
        panic!("expected a data-type error");
    }
}

#[test]
fn wordpress_error_needs_all_fields() {
    let obj = JsonValue::Obj(vec![
        ("code".to_string(), JsonValue::Str("c".to_string())),
        ("message".to_string(), JsonValue::Str("m".to_string())),
    ]);
    let err: ApiError<Dummy> = ApiError::from_json(obj.clone());
    assert!(matches!(err, ApiError::WordPressUnrecognized { json } if json == obj));
}
