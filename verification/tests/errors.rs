use komari::errors::{ErrorKind, JsonError, LinkError, PullsError};

#[test]
fn json_error_keeps_its_text() {
    let error = JsonError::new("json is empty".to_string());
    assert_eq!(error.description(), "json is empty");
}

#[test]
fn link_error_keeps_its_text() {
    let error = LinkError::new("link not found".to_string());
    assert_eq!(error.description(), "link not found");
}

#[test]
fn message_names_where_the_failure_arose() {
    let error = PullsError::MissingBoundary {
        error: JsonError::new("merged_at is not contained".to_string()),
    };
    assert_eq!(error.kind(), ErrorKind::MissingBoundary);
    assert_eq!(error.description(), "merged_at is not contained");
    assert_eq!(error.message(), "Json error: merged_at is not contained");
    let error = PullsError::PaginationExhausted {
        error: LinkError::new("link not found".to_string()),
    };
    assert_eq!(error.message(), "Link error: link not found");
}
