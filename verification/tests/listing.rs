use komari::errors::{ErrorKind, PullsError};
use komari::pulls::{Listing, Pulls};
use komari::record::{PullRequest, Response};

fn client() -> Pulls {
    match Pulls::new(&"octo".to_string(), &"demo".to_string(), Some("secret".to_string())) {
        Ok(pulls) => pulls,
        Err(error) => panic!("{}", error.message()),
    }
}

fn numbered(number: i64) -> PullRequest {
    PullRequest { number: Some(number), merged_at: None, html_url: None, title: None }
}

fn page(numbers: &[i64], link: Option<&str>) -> Response<Vec<PullRequest>> {
    Response {
        status: 200,
        link: link.map(|text| text.to_string()),
        body: Some(numbers.iter().map(|number| numbered(*number)).collect()),
    }
}

fn next_header(page: u32) -> String {
    format!(
        "<https://api.github.com/repos/octo/demo/pulls?state=closed&sort=updated&direction=desc&page={}>; rel=\"next\", <https://api.github.com/repos/octo/demo/pulls?state=closed&sort=updated&direction=desc&page=9>; rel=\"last\"",
        page
    )
}

fn path_of_page(page: u32) -> String {
    format!("repos/octo/demo/pulls?state=closed&sort=updated&direction=desc&page={}", page)
}

const FIRST: &str = "repos/octo/demo/pulls?state=closed&sort=updated&direction=desc";

/// Serves `pages` by path, as a listing asks for them, and counts the fetches.
fn fetch_until(
    pulls: &Pulls,
    since: i64,
    pages: Vec<(String, Response<Vec<PullRequest>>)>,
) -> (Result<Vec<PullRequest>, PullsError>, usize) {
    let mut served: Vec<(String, Option<Response<Vec<PullRequest>>>)> =
        pages.into_iter().map(|(path, response)| (path, Some(response))).collect();
    let mut listing = pulls.list_pulls_since(&since);
    let mut fetches = 0;
    loop {
        let url = match &listing {
            Listing::Complete { .. } => break,
            Listing::Pending { url, .. } => url.clone(),
        };
        let response = served
            .iter_mut()
            .find(|(path, _)| *path == url)
            .and_then(|(_, response)| response.take());
        let response = match response {
            Some(response) => response,
            None => panic!("nothing to serve at {}", url),
        };
        fetches += 1;
        listing = match pulls.list(listing, response) {
            Ok(next) => next,
            Err(error) => return (Err(error), fetches),
        };
    }
    match listing {
        Listing::Complete { pulls } => (Ok(pulls), fetches),
        Listing::Pending { .. } => unreachable!(),
    }
}

fn numbers_of(pulls: &[PullRequest]) -> Vec<Option<i64>> {
    pulls.iter().map(|pull| pull.number).collect()
}

#[test]
fn listing_starts_at_the_first_page() {
    let pulls = client();
    match pulls.list_pulls_since(&9) {
        Listing::Pending { since, url, pulls } => {
            assert_eq!(since, 9);
            assert_eq!(url, FIRST);
            assert!(pulls.is_empty());
        }
        Listing::Complete { .. } => panic!("nothing was fetched yet"),
    }
}

#[test]
fn target_on_the_first_page_ends_the_listing_there() {
    let pulls = client();
    let header = next_header(2);
    let pages = vec![
        (FIRST.to_string(), page(&[10, 9], Some(&header))),
        (path_of_page(2), page(&[8, 7], None)),
    ];
    let (listed, fetches) = fetch_until(&pulls, 9, pages);
    assert_eq!(numbers_of(&listed.unwrap()), vec![Some(10), Some(9)]);
    assert_eq!(fetches, 1);
}

#[test]
fn two_pages_are_joined_in_the_order_fetched() {
    let pulls = client();
    let header = next_header(2);
    let pages = vec![
        (FIRST.to_string(), page(&[12, 11], Some(&header))),
        (path_of_page(2), page(&[10, 9], None)),
    ];
    let (listed, fetches) = fetch_until(&pulls, 9, pages);
    assert_eq!(numbers_of(&listed.unwrap()), vec![Some(12), Some(11), Some(10), Some(9)]);
    assert_eq!(fetches, 2);
}

#[test]
fn target_on_the_third_page_takes_three_fetches() {
    let pulls = client();
    let second = next_header(2);
    let third = next_header(3);
    let fourth = next_header(4);
    let pages = vec![
        (FIRST.to_string(), page(&[20, 19], Some(&second))),
        (path_of_page(2), page(&[18], Some(&third))),
        (path_of_page(3), page(&[17, 16, 15], Some(&fourth))),
        (path_of_page(4), page(&[14], None)),
    ];
    let (listed, fetches) = fetch_until(&pulls, 16, pages);
    assert_eq!(
        numbers_of(&listed.unwrap()),
        vec![Some(20), Some(19), Some(18), Some(17), Some(16), Some(15)]
    );
    assert_eq!(fetches, 3);
}

#[test]
fn absent_target_fails_when_the_pages_run_out() {
    let pulls = client();
    let header = next_header(2);
    let pages = vec![
        (FIRST.to_string(), page(&[12, 11], Some(&header))),
        (path_of_page(2), page(&[10, 8], None)),
    ];
    let (listed, fetches) = fetch_until(&pulls, 9, pages);
    let error = listed.unwrap_err();
    assert_eq!(error.kind(), ErrorKind::PaginationExhausted);
    assert_eq!(error.description(), "link not found");
    assert_eq!(error.message(), "Link error: link not found");
    assert_eq!(fetches, 2);
}

#[test]
fn header_without_a_next_link_ends_the_pages() {
    let pulls = client();
    let header = "<https://api.github.com/repos/octo/demo/pulls?page=1>; rel=\"prev\"";
    let pages = vec![(FIRST.to_string(), page(&[12, 11], Some(header)))];
    let (listed, fetches) = fetch_until(&pulls, 9, pages);
    assert_eq!(listed.unwrap_err().kind(), ErrorKind::PaginationExhausted);
    assert_eq!(fetches, 1);
}

#[test]
fn failing_status_is_a_transport_failure() {
    let pulls = client();
    let listing = pulls.list_pulls_since(&9);
    let response = Response { status: 404, link: None, body: Some(vec![numbered(9)]) };
    let error = pulls.list(listing, response).unwrap_err();
    assert_eq!(error.kind(), ErrorKind::Transport);
    assert_eq!(error.description(), "Status code is 404");
    assert_eq!(error.message(), "Json error: Status code is 404");
}

#[test]
fn status_just_outside_success_fails() {
    let pulls = client();
    for status in [199u16, 300] {
        let listing = pulls.list_pulls_since(&9);
        let response = Response { status, link: None, body: Some(vec![numbered(9)]) };
        assert_eq!(pulls.list(listing, response).unwrap_err().kind(), ErrorKind::Transport);
    }
    for status in [200u16, 299] {
        let listing = pulls.list_pulls_since(&9);
        let response = Response { status, link: None, body: Some(vec![numbered(9)]) };
        assert!(pulls.list(listing, response).is_ok());
    }
}

#[test]
fn page_without_a_body_ends_the_listing_with_what_it_has() {
    let pulls = client();
    let listing = pulls.list_pulls_since(&9);
    let response = Response { status: 200, link: None, body: None };
    match pulls.list(listing, response).unwrap() {
        Listing::Complete { pulls } => assert!(pulls.is_empty()),
        Listing::Pending { .. } => panic!("an empty page ends the listing"),
    }
    let header = next_header(2);
    let pages = vec![
        (FIRST.to_string(), page(&[12, 11], Some(&header))),
        (path_of_page(2), Response { status: 200, link: None, body: None }),
    ];
    let (listed, fetches) = fetch_until(&pulls, 9, pages);
    assert_eq!(numbers_of(&listed.unwrap()), vec![Some(12), Some(11)]);
    assert_eq!(fetches, 2);
}

#[test]
fn ended_listing_takes_no_more_pages() {
    let pulls = client();
    let listing = pulls.list_pulls_since(&9);
    let ended = pulls.list(listing, page(&[10, 9], None)).unwrap();
    match pulls.list(ended, page(&[8, 7], None)).unwrap() {
        Listing::Complete { pulls } => assert_eq!(numbers_of(&pulls), vec![Some(10), Some(9)]),
        Listing::Pending { .. } => panic!("the listing had ended"),
    }
}

#[test]
fn advance_goes_on_at_the_path_it_is_given() {
    let pulls = client();
    let listing = pulls.list_pulls_since(&9);
    let next = pulls
        .advance(listing, 200, Some(vec![numbered(12)]), Ok("repos/octo/demo/pulls?page=2".to_string()))
        .unwrap();
    match next {
        Listing::Pending { since, url, pulls } => {
            assert_eq!(since, 9);
            assert_eq!(url, "repos/octo/demo/pulls?page=2");
            assert_eq!(numbers_of(&pulls), vec![Some(12)]);
        }
        Listing::Complete { .. } => panic!("the target was not seen"),
    }
}

#[test]
fn include_target_looks_for_the_exact_number() {
    let pulls = client();
    let array = vec![numbered(10), numbered(9), numbered(90)];
    assert!(pulls.include_target(&array, &9));
    assert!(pulls.include_target(&array, &90));
    assert!(!pulls.include_target(&array, &8));
    assert!(!pulls.include_target(&Vec::new(), &9));
    let unnumbered = PullRequest { number: None, merged_at: None, html_url: None, title: None };
    assert!(!pulls.include_target(&vec![unnumbered], &0));
}

#[test]
fn missing_credential_is_reported() {
    let error = match Pulls::new(&"octo".to_string(), &"demo".to_string(), None) {
        Ok(_) => panic!("there is no credential"),
        Err(error) => error,
    };
    assert_eq!(error.kind(), ErrorKind::CredentialMissing);
    assert_eq!(error.message(), "Env error: environment variable not found");
}

#[test]
fn client_keeps_what_it_was_made_with() {
    let pulls = client();
    assert_eq!(pulls.owner(), "octo");
    assert_eq!(pulls.repo(), "demo");
    assert_eq!(pulls.token(), "secret");
    assert_eq!(pulls.pull_url(&9), "repos/octo/demo/pulls/9");
    assert_eq!(pulls.pull_url(&-12), "repos/octo/demo/pulls/-12");
}

#[test]
fn malformed_link_stops_the_listing() {
    let pulls = client();
    let elsewhere = "<https://example.com/repos/octo/demo/pulls?page=2>; rel=\"next\"";
    let (listed, fetches) = fetch_until(&pulls, 9, vec![(FIRST.to_string(), page(&[12, 11], Some(elsewhere)))]);
    let error = listed.unwrap_err();
    assert_eq!(error.kind(), ErrorKind::MalformedLink);
    assert_eq!(error.description(), "could not found url");
    assert_eq!(fetches, 1);
    let unreadable = "<https://api.github.com/repos/octo/demo/pulls?page=2>; rel";
    let (listed, _) = fetch_until(&pulls, 9, vec![(FIRST.to_string(), page(&[12, 11], Some(unreadable)))]);
    assert_eq!(listed.unwrap_err().kind(), ErrorKind::MalformedLink);
}

#[test]
fn link_does_not_matter_once_the_target_is_found() {
    let pulls = client();
    let unreadable = "<https://api.github.com/repos/octo/demo/pulls?page=2>; rel";
    let (listed, fetches) = fetch_until(&pulls, 9, vec![(FIRST.to_string(), page(&[10, 9], Some(unreadable)))]);
    assert_eq!(numbers_of(&listed.unwrap()), vec![Some(10), Some(9)]);
    assert_eq!(fetches, 1);
}
