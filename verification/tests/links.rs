use komari::errors::ErrorKind;
use komari::link::{find_uri, relative_path, GroupMatch, LinkEntry};
use komari::pulls::Pulls;

fn a_client() -> Pulls {
    match Pulls::new(&"octo".to_string(), &"demo".to_string(), Some("secret".to_string())) {
        Ok(pulls) => pulls,
        Err(error) => panic!("{}", error.message()),
    }
}

#[test]
fn next_link_becomes_a_relative_path() {
    let header = "<https://api.github.com/repositories/41986369/pulls?state=closed&page=2>; rel=\"next\", <https://api.github.com/repositories/41986369/pulls?state=closed&page=14>; rel=\"last\"";
    let path = a_client().get_next_link(&Some(header.to_string())).unwrap();
    assert_eq!(path, "repositories/41986369/pulls?state=closed&page=2");
}

#[test]
fn next_link_is_found_wherever_it_stands() {
    let header = "<https://api.github.com/repos/octo/demo/pulls?page=1>; rel=\"prev\", <https://api.github.com/repos/octo/demo/pulls?page=3>; rel=\"next\", <https://api.github.com/repos/octo/demo/pulls?page=1>; rel=\"first\"";
    let path = a_client().get_next_link(&Some(header.to_string())).unwrap();
    assert_eq!(path, "repos/octo/demo/pulls?page=3");
}

#[test]
fn missing_header_ends_the_pages() {
    let error = a_client().get_next_link(&None).unwrap_err();
    assert_eq!(error.kind(), ErrorKind::PaginationExhausted);
    assert_eq!(error.description(), "link not found");
}

#[test]
fn header_without_next_ends_the_pages() {
    let header = "<https://api.github.com/repos/octo/demo/pulls?page=1>; rel=\"first\"";
    let error = a_client().get_next_link(&Some(header.to_string())).unwrap_err();
    assert_eq!(error.kind(), ErrorKind::PaginationExhausted);
    assert_eq!(error.description(), "link not found");
}

#[test]
fn unreadable_header_is_a_malformed_link() {
    let header = "<https://api.github.com/repos/octo/demo/pulls?page=2>; rel";
    let error = a_client().get_next_link(&Some(header.to_string())).unwrap_err();
    assert_eq!(error.kind(), ErrorKind::MalformedLink);
    assert_eq!(error.description(), "failed to parse");
    assert_eq!(error.message(), "Link error: failed to parse");
}

#[test]
fn next_page_elsewhere_is_a_malformed_link() {
    let header = "<https://example.com/repos/octo/demo/pulls?page=2>; rel=\"next\"";
    let error = a_client().get_next_link(&Some(header.to_string())).unwrap_err();
    assert_eq!(error.kind(), ErrorKind::MalformedLink);
    assert_eq!(error.description(), "could not found url");
}

#[test]
fn find_uri_takes_the_first_link_of_the_relation() {
    let entries = vec![
        LinkEntry { rel: Some("last".to_string()), uri: "a".to_string() },
        LinkEntry { rel: None, uri: "b".to_string() },
        LinkEntry { rel: Some("next".to_string()), uri: "c".to_string() },
        LinkEntry { rel: Some("next".to_string()), uri: "d".to_string() },
    ];
    assert_eq!(find_uri(&entries, "next"), Some("c".to_string()));
    assert_eq!(find_uri(&entries, "last"), Some("a".to_string()));
    assert_eq!(find_uri(&entries, "prev"), None);
    assert_eq!(find_uri(&Vec::new(), "next"), None);
}

#[test]
fn relative_path_reports_what_the_pattern_found() {
    assert_eq!(relative_path(GroupMatch::Group("repos/o/r".to_string())).unwrap(), "repos/o/r");
    let error = relative_path(GroupMatch::NoMatch).unwrap_err();
    assert_eq!(error.kind(), ErrorKind::MalformedLink);
    assert_eq!(error.description(), "could not found url");
    let error = relative_path(GroupMatch::NoGroup).unwrap_err();
    assert_eq!(error.kind(), ErrorKind::MalformedLink);
    assert_eq!(error.description(), "failed to parse url");
    let error = relative_path(GroupMatch::BadPattern).unwrap_err();
    assert_eq!(error.kind(), ErrorKind::MalformedLink);
    assert_eq!(error.description(), "failed to parse url");
}
