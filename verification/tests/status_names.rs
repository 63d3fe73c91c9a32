use iggy_common::IggyError;
use iggy_dissector::status::label_status;
use iggy_dissector::status::status_name;

#[test]
fn status_zero_is_ok() {
    assert_eq!(status_name(0), "OK");
    assert_eq!(label_status(0, None), "OK");
    assert_eq!(label_status(0, Some("error")), "OK");
}

#[test]
fn error_codes_have_the_names_of_the_error_table() {
    assert_eq!(status_name(1), "error");
    assert_eq!(status_name(2), "invalid_configuration");
    assert_eq!(status_name(3), "invalid_command");
    assert_eq!(status_name(40), "unauthenticated");
    assert_eq!(status_name(42), "invalid_credentials");
    assert_eq!(status_name(IggyError::InvalidUtf8.as_code()), IggyError::InvalidUtf8.as_string());
    assert_eq!(
        status_name(IggyError::TopicIdNotFound(1, 2).as_code()),
        IggyError::TopicIdNotFound(1, 2).as_string()
    );
}

#[test]
fn codes_outside_the_error_table_are_unknown() {
    assert_eq!(status_name(17), "unknown");
    assert_eq!(status_name(999_999), "unknown");
    assert_eq!(status_name(u32::MAX), "unknown");
}

#[test]
fn label_follows_the_table_entry() {
    assert_eq!(label_status(7, Some("invalid_version")), "invalid_version");
    assert_eq!(label_status(7, None), "unknown");
    assert_eq!(label_status(u32::MAX, Some("x")), "x");
}
