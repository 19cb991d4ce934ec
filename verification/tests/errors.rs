use datafusion::arrow::error::ArrowError;
use deadpool::managed::{BuildError, PoolError};
use opendal_table::error::{
    arrow_failure, pool_failure, report_of, send_failure, store_failure, OpenDALExecError,
};
use tokio::sync::mpsc::error::SendError;

#[test]
fn messages_have_no_variant() {
    let text = || "what happened".to_string();
    let errors = vec![
        OpenDALExecError::OpenDALErr(text()),
        OpenDALExecError::PoolErr(text()),
        OpenDALExecError::ArrowErr(text()),
        OpenDALExecError::InvalidSchema(text()),
        OpenDALExecError::OverwriteError(text()),
        OpenDALExecError::SendErr(text()),
    ];
    for error in errors {
        assert_eq!(error.message(), "what happened");
    }
}

#[test]
fn errors_of_a_store() {
    let error = opendal::Error::new(opendal::ErrorKind::NotFound, "it is gone");
    let expected = format!("{:?}", error);
    match OpenDALExecError::from(error) {
        OpenDALExecError::OpenDALErr(text) => {
            assert_eq!(text, expected);
            assert!(text.contains("it is gone"));
        }
        other => panic!("{:?}", other),
    }
}

#[test]
fn errors_of_a_pool() {
    match OpenDALExecError::from(PoolError::<OpenDALExecError>::Closed) {
        OpenDALExecError::PoolErr(text) => assert_eq!(text, "Closed"),
        other => panic!("{:?}", other),
    }
    let inner = OpenDALExecError::InvalidSchema("x".to_string());
    match OpenDALExecError::from(PoolError::Backend(inner)) {
        OpenDALExecError::PoolErr(text) => assert_eq!(text, "Backend(InvalidSchema(\"x\"))"),
        other => panic!("{:?}", other),
    }
    match OpenDALExecError::from(BuildError::NoRuntimeSpecified) {
        OpenDALExecError::PoolErr(text) => assert_eq!(text, "NoRuntimeSpecified"),
        other => panic!("{:?}", other),
    }
}

#[test]
fn errors_of_a_channel() {
    match OpenDALExecError::from(SendError(5)) {
        OpenDALExecError::SendErr(text) => assert_eq!(text, "SendError { .. }"),
        other => panic!("{:?}", other),
    }
}

#[test]
fn errors_of_arrays() {
    match OpenDALExecError::from(ArrowError::ParseError("x".to_string())) {
        OpenDALExecError::ArrowErr(text) => assert_eq!(text, "ParseError(\"x\")"),
        other => panic!("{:?}", other),
    }
}

#[test]
fn failures_keep_their_words() {
    let words = || "what happened".to_string();
    let store = store_failure(words());
    assert!(matches!(store, OpenDALExecError::OpenDALErr(text) if text == words()));
    assert!(matches!(pool_failure(words()), OpenDALExecError::PoolErr(text) if text == words()));
    assert!(matches!(arrow_failure(words()), OpenDALExecError::ArrowErr(text) if text == words()));
    assert!(matches!(send_failure(words()), OpenDALExecError::SendErr(text) if text == words()));
}

#[test]
fn reports_name_the_variant_and_quote_the_message() {
    let text = || "a \"b\"\nc".to_string();
    let errors = vec![
        (OpenDALExecError::OpenDALErr(text()), "OpenDALErr(\"a \\\"b\\\"\\nc\")"),
        (OpenDALExecError::PoolErr(text()), "PoolErr(\"a \\\"b\\\"\\nc\")"),
        (OpenDALExecError::ArrowErr(text()), "ArrowErr(\"a \\\"b\\\"\\nc\")"),
        (OpenDALExecError::InvalidSchema(text()), "InvalidSchema(\"a \\\"b\\\"\\nc\")"),
        (OpenDALExecError::OverwriteError(text()), "OverwriteError(\"a \\\"b\\\"\\nc\")"),
        (OpenDALExecError::SendErr(text()), "SendErr(\"a \\\"b\\\"\\nc\")"),
    ];
    for (error, expected) in errors {
        assert_eq!(error.report(), expected);
        assert_eq!(error.report(), format!("{:?}", error));
    }
    assert_eq!(report_of("name", "argument"), "name(argument)");
}
