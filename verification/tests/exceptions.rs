use stackring::api::{
    adapt_post_to_post_response, adapt_posts_to_list_posts_response,
    adapt_stacktracedb_to_stacktracemodel, error_message, error_status, stacktrace_error_for,
    InfraError, SimpleStacktraceModel, StacktraceDb, StacktraceError,
};
use stackring::throwable::{decode_throwable_text, decode_throwable_value, DecodeError};

#[test]
fn two_level_cause_chain_decodes_nested() {
    let text = r#"{
        "message": "outer",
        "suppressed": [],
        "stackTrace": [],
        "cause": {
            "message": "inner",
            "suppressed": [],
            "stackTrace": []
        }
    }"#;
    let outer = decode_throwable_text(text).unwrap();
    assert_eq!(outer.message, Some(String::from("outer")));
    let inner = outer.cause.expect("outer cause should be present");
    assert_eq!(inner.message, Some(String::from("inner")));
    assert!(inner.cause.is_none());
}

#[test]
fn missing_message_decodes_as_absent() {
    let text = r#"{"suppressed": [], "stackTrace": []}"#;
    let t = decode_throwable_text(text).unwrap();
    assert!(t.message.is_none());
    assert!(t.localized_message.is_none());
    assert!(t.cause.is_none());
}

#[test]
fn null_members_decode_as_absent() {
    let text = r#"{
        "message": null,
        "localizedMessage": null,
        "cause": null,
        "suppressed": [],
        "stackTrace": []
    }"#;
    let t = decode_throwable_text(text).unwrap();
    assert!(t.message.is_none());
    assert!(t.localized_message.is_none());
    assert!(t.cause.is_none());
}

#[test]
fn full_stack_frame_decodes_field_by_field() {
    let text = r#"{
        "message": "boom",
        "localizedMessage": "boom here",
        "suppressed": ["first note", "second note"],
        "stackTrace": [{
            "classLoaderName": "app",
            "moduleName": "base",
            "moduleVersion": "17.0",
            "methodName": "run",
            "fileName": "Main.java",
            "lineNumber": 42,
            "className": "com.example.Main",
            "nativeMethod": false
        }]
    }"#;
    let t = decode_throwable_text(text).unwrap();
    assert_eq!(t.message, Some(String::from("boom")));
    assert_eq!(t.localized_message, Some(String::from("boom here")));
    assert_eq!(
        t.suppressed,
        vec![String::from("first note"), String::from("second note")]
    );
    assert_eq!(t.stack_trace.len(), 1);
    let frame = &t.stack_trace[0];
    assert_eq!(frame.class_loader_name, Some(String::from("app")));
    assert_eq!(frame.module_name, Some(String::from("base")));
    assert_eq!(frame.module_version, Some(String::from("17.0")));
    assert_eq!(frame.method_name, Some(String::from("run")));
    assert_eq!(frame.file_name, Some(String::from("Main.java")));
    assert_eq!(frame.line_number, Some(42));
    assert_eq!(frame.class_name, Some(String::from("com.example.Main")));
    assert_eq!(frame.native_method, Some(false));
}

#[test]
fn frame_with_absent_fields_decodes() {
    let text = r#"{"suppressed": [], "stackTrace": [{}]}"#;
    let t = decode_throwable_text(text).unwrap();
    assert_eq!(t.stack_trace.len(), 1);
    let frame = &t.stack_trace[0];
    assert!(frame.method_name.is_none());
    assert!(frame.line_number.is_none());
    assert!(frame.native_method.is_none());
}

#[test]
fn unknown_members_are_ignored() {
    let text = r#"{"suppressed": [], "stackTrace": [], "somethingElse": 7}"#;
    assert!(decode_throwable_text(text).is_ok());
}

#[test]
fn malformed_json_is_a_syntax_failure() {
    let err = decode_throwable_text("{not json").unwrap_err();
    assert_eq!(err, DecodeError::Syntax);
}

#[test]
fn non_object_is_a_shape_failure() {
    let err = decode_throwable_text("[1, 2]").unwrap_err();
    assert_eq!(err, DecodeError::Shape);
}

#[test]
fn missing_suppressed_is_a_shape_failure() {
    let err = decode_throwable_text(r#"{"stackTrace": []}"#).unwrap_err();
    assert_eq!(err, DecodeError::Shape);
}

#[test]
fn non_string_suppressed_entry_is_a_shape_failure() {
    let err = decode_throwable_text(r#"{"suppressed": [3], "stackTrace": []}"#).unwrap_err();
    assert_eq!(err, DecodeError::Shape);
}

#[test]
fn fractional_line_number_is_a_shape_failure() {
    let text = r#"{"suppressed": [], "stackTrace": [{"lineNumber": 4.5}]}"#;
    let err = decode_throwable_text(text).unwrap_err();
    assert_eq!(err, DecodeError::Shape);
}

#[test]
fn line_number_past_u32_is_a_shape_failure() {
    let text = r#"{"suppressed": [], "stackTrace": [{"lineNumber": 4294967296}]}"#;
    let err = decode_throwable_text(text).unwrap_err();
    assert_eq!(err, DecodeError::Shape);
}

#[test]
fn ill_typed_message_is_a_shape_failure() {
    let err = decode_throwable_text(r#"{"message": 5, "suppressed": [], "stackTrace": []}"#)
        .unwrap_err();
    assert_eq!(err, DecodeError::Shape);
}

#[test]
fn string_cause_is_a_shape_failure() {
    let text = r#"{"suppressed": [], "stackTrace": [], "cause": "no"}"#;
    let err = decode_throwable_text(text).unwrap_err();
    assert_eq!(err, DecodeError::Shape);
}

#[test]
fn decode_works_on_a_parsed_value_too() {
    let v: serde_json::Value =
        serde_json::from_str(r#"{"message": "m", "suppressed": ["s"], "stackTrace": []}"#)
            .unwrap();
    let t = decode_throwable_value(&v).unwrap();
    assert_eq!(t.message, Some(String::from("m")));
    assert_eq!(t.suppressed, vec![String::from("s")]);
}

#[test]
fn post_response_carries_model_over() {
    let model = SimpleStacktraceModel { id: 5, stacktrace: String::from("trace text") };
    let response = adapt_post_to_post_response(model);
    assert_eq!(response.id, 5);
    assert_eq!(response.stacktrace, "trace text");
}

#[test]
fn listing_keeps_order_and_contents() {
    let posts = vec![
        SimpleStacktraceModel { id: 1, stacktrace: String::from("a") },
        SimpleStacktraceModel { id: 2, stacktrace: String::from("b") },
        SimpleStacktraceModel { id: 3, stacktrace: String::from("c") },
    ];
    let listing = adapt_posts_to_list_posts_response(posts);
    assert_eq!(listing.stacktraces.len(), 3);
    assert_eq!(listing.stacktraces[0].id, 1);
    assert_eq!(listing.stacktraces[0].stacktrace, "a");
    assert_eq!(listing.stacktraces[2].id, 3);
    assert_eq!(listing.stacktraces[2].stacktrace, "c");
}

#[test]
fn db_row_adapts_to_model() {
    let row = StacktraceDb { id: 9, stacktrace: String::from("row") };
    let model = adapt_stacktracedb_to_stacktracemodel(row);
    assert_eq!(model.id, 9);
    assert_eq!(model.stacktrace, "row");
}

#[test]
fn db_errors_map_onto_request_errors() {
    assert_eq!(
        stacktrace_error_for(InfraError::NotFound, 7),
        StacktraceError::NotFound(7)
    );
    assert_eq!(
        stacktrace_error_for(InfraError::InternalServerError, 7),
        StacktraceError::InternalServerError
    );
}

#[test]
fn error_messages_name_the_missing_row() {
    assert_eq!(
        error_message(&StacktraceError::NotFound(42)),
        "StacktraceModel with id 42 has not been found"
    );
    assert_eq!(
        error_message(&StacktraceError::NotFound(-7)),
        "StacktraceModel with id -7 has not been found"
    );
    assert_eq!(
        error_message(&StacktraceError::NotFound(0)),
        "StacktraceModel with id 0 has not been found"
    );
    assert_eq!(
        error_message(&StacktraceError::NotFound(1234567890)),
        "StacktraceModel with id 1234567890 has not been found"
    );
    assert_eq!(
        error_message(&StacktraceError::InternalServerError),
        "Internal server error"
    );
    assert_eq!(
        error_message(&StacktraceError::InfraError(InfraError::NotFound)),
        "Internal server error: Not found"
    );
}

#[test]
fn error_statuses_follow_the_error_kind() {
    assert_eq!(error_status(&StacktraceError::NotFound(1)), 404);
    assert_eq!(error_status(&StacktraceError::InternalServerError), 500);
    assert_eq!(error_status(&StacktraceError::InfraError(InfraError::NotFound)), 500);
}
