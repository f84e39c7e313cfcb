//! Listing the closed pull requests down to a target, and selecting those
//! merged after it.

pub use crate::errors::{JsonError, LinkError, PullsError};
use crate::errors::{failure, ErrorKind, PullsErrorView};
use crate::link::{
    capture_group, find_uri, lemma_uri_of_listed, next_link, parse_links, parsed_links,
    relative_path, text_outcome, API_PATTERN,
};
use crate::record::{includes, is_success, success, PullRequest, PullRequestView, Response, ResponseView};
use crate::text::{append_decimal, decimal};
use crate::time::{is_later, later, parse_rfc3339, rfc3339_instant, Instant};
use vstd::prelude::*;
use vstd::string::*;

verus! {

/// A repository whose pull requests are listed, and the credential to fetch
/// them with.
pub struct Pulls {
    owner: String,
    repo: String,
    token: String,
}

/// A `Pulls` as contracts speak of it.
pub struct PullsView {
    pub owner: Seq<char>,
    pub repo: Seq<char>,
    pub token: Seq<char>,
}

impl View for Pulls {
    type V = PullsView;

    closed spec fn view(&self) -> PullsView {
        PullsView { owner: self.owner@, repo: self.repo@, token: self.token@ }
    }
}

/// How far a listing has come.
#[derive(Debug)]
pub enum Listing {
    /// The target has not been seen: `url` is the page to fetch next, and
    /// `pulls` holds the pages fetched so far, in the order they came.
    Pending { since: i64, url: String, pulls: Vec<PullRequest> },
    /// The listing has ended: `pulls` holds every page fetched, in the order
    /// they came.
    Complete { pulls: Vec<PullRequest> },
}

/// A listing as contracts speak of it.
pub enum ListingView {
    Pending { since: i64, url: Seq<char>, pulls: Seq<PullRequestView> },
    Complete { pulls: Seq<PullRequestView> },
}

impl View for Listing {
    type V = ListingView;

    open spec fn view(&self) -> ListingView {
        match self {
            Listing::Pending { since, url, pulls } => ListingView::Pending {
                since: *since,
                url: url@,
                pulls: pulls.deep_view(),
            },
            Listing::Complete { pulls } => ListingView::Complete { pulls: pulls.deep_view() },
        }
    }
}

/// A listing or a failure, as contracts speak of it.
pub open spec fn listing_outcome(res: Result<Listing, PullsError>) -> Result<
    ListingView,
    PullsErrorView,
> {
    match res {
        Ok(listing) => Ok(listing@),
        Err(error) => Err(error@),
    }
}

/// The path of the first page of a repository's closed pull requests, the one
/// last updated first.
pub open spec fn first_page(owner: Seq<char>, repo: Seq<char>) -> Seq<char> {
    "repos/"@ + owner + "/"@ + repo + "/pulls?state=closed&sort=updated&direction=desc"@
}

/// The path of the pull request `number` of a repository.
pub open spec fn pull_path(owner: Seq<char>, repo: Seq<char>, number: i64) -> Seq<char> {
    "repos/"@ + owner + "/"@ + repo + "/pulls/"@ + decimal(number as int)
}

/// The failure that a status code other than success is reported with.
pub open spec fn status_failure(status: u16) -> PullsErrorView {
    failure(ErrorKind::Transport, "Status code is "@ + decimal(status as int))
}

/// Where a listing stands once a page has come in: `status` and `body` are
/// the page's, and `next` is the path of the page after it, or why there is
/// none.
///
/// A status other than success fails. A page without a body ends the listing
/// with what it has. A page that holds the target is taken and ends the
/// listing; any other page is taken, and the listing goes on at `next`, or
/// fails as `next` does. A listing that has ended stays as it is.
pub open spec fn advanced(
    listing: ListingView,
    status: u16,
    body: Option<Seq<PullRequestView>>,
    next: Result<Seq<char>, PullsErrorView>,
) -> Result<ListingView, PullsErrorView> {
    match listing {
        ListingView::Complete { pulls } => Ok(listing),
        ListingView::Pending { since, url, pulls } => if !success(status) {
            Err(status_failure(status))
        } else {
            match body {
                None => Ok(ListingView::Complete { pulls }),
                Some(page) => if includes(page, since) {
                    Ok(ListingView::Complete { pulls: pulls + page })
                } else {
                    match next {
                        Ok(path) => Ok(ListingView::Pending { since, url: path, pulls: pulls + page }),
                        Err(error) => Err(error),
                    }
                },
            }
        },
    }
}

/// Where a listing stands once the page it asked for has come in: the page
/// after it is the one that the page's link header names.
pub open spec fn listed(
    listing: ListingView,
    response: ResponseView<Seq<PullRequestView>>,
) -> Result<ListingView, PullsErrorView> {
    advanced(listing, response.status, response.body, next_link(response.link))
}

/// The record that the fetch of the pull request `number` brought, or why it
/// brought none: the status has to report success, and the body has to be
/// there and be the record of that number.
pub open spec fn got(number: i64, response: ResponseView<PullRequestView>) -> Result<
    PullRequestView,
    PullsErrorView,
> {
    if !success(response.status) {
        Err(status_failure(response.status))
    } else {
        match response.body {
            None => Err(failure(ErrorKind::Transport, "json is empty"@)),
            Some(pull) => if pull.number == Some(number) {
                Ok(pull)
            } else {
                Err(failure(ErrorKind::Transport, "number does not match"@))
            },
        }
    }
}

/// The instant at which a record says it was merged; `None` where it does not
/// say, or not readably.
pub open spec fn merged_instant(pull: PullRequestView) -> Option<Instant> {
    match pull.merged_at {
        Some(text) => rfc3339_instant(text),
        None => None,
    }
}

/// Whether a record was merged strictly later than `since`.
pub open spec fn merged_after(pull: PullRequestView, since: Instant) -> bool {
    later(since, merged_instant(pull))
}

/// The records of `array` that were merged strictly later than `since`, in the
/// order they have in `array`.
pub open spec fn selected(array: Seq<PullRequestView>, since: Instant) -> Seq<PullRequestView> {
    array.filter(|pull: PullRequestView| merged_after(pull, since))
}

/// The instants at which the records of `array` say they were merged, one
/// for each record.
pub open spec fn merged_instants(array: Seq<PullRequestView>) -> Seq<Option<Instant>> {
    array.map_values(|pull: PullRequestView| merged_instant(pull))
}

/// The records of `array` whose instant in `times`, the one at the record's
/// own place, is strictly later than `since`, in the order they have in
/// `array`. A record without an instant at its place is not among them.
pub open spec fn kept_later(
    array: Seq<PullRequestView>,
    times: Seq<Option<Instant>>,
    since: Instant,
) -> Seq<PullRequestView>
    decreases array.len(),
{
    if array.len() == 0 {
        Seq::empty()
    } else {
        let front = kept_later(array.drop_last(), times, since);
        if array.len() <= times.len() && later(since, times[array.len() - 1]) {
            front.push(array.last())
        } else {
            front
        }
    }
}

/// What selecting gives for a boundary: without one there is nothing to select
/// by, and that is the failure.
pub open spec fn selected_since(array: Seq<PullRequestView>, since: Option<Instant>) -> Result<
    Seq<PullRequestView>,
    PullsErrorView,
> {
    match since {
        Some(boundary) => Ok(selected(array, boundary)),
        None => Err(failure(ErrorKind::MissingBoundary, "merged_at is not contained"@)),
    }
}

/// What selecting gives once the fetch of the target has come in: the failure
/// of that fetch, or the selection by the instant at which the target was merged.
pub open spec fn select_result(
    array: Seq<PullRequestView>,
    number: i64,
    response: ResponseView<PullRequestView>,
) -> Result<Seq<PullRequestView>, PullsErrorView> {
    match got(number, response) {
        Ok(target) => selected_since(array, merged_instant(target)),
        Err(error) => Err(error),
    }
}

/// Records or a failure, as contracts speak of it.
pub open spec fn pulls_outcome(res: Result<Vec<PullRequest>, PullsError>) -> Result<
    Seq<PullRequestView>,
    PullsErrorView,
> {
    match res {
        Ok(pulls) => Ok(pulls.deep_view()),
        Err(error) => Err(error@),
    }
}

/// A record or a failure, as contracts speak of it.
pub open spec fn pull_outcome(res: Result<PullRequest, PullsError>) -> Result<
    PullRequestView,
    PullsErrorView,
> {
    match res {
        Ok(pull) => Ok(pull@),
        Err(error) => Err(error@),
    }
}

fn status_error(status: u16) -> (res: PullsError)
    ensures
        res@ == status_failure(status),
{
    let mut text: String = String::from_str("Status code is ");
    append_decimal(&mut text, status as i64);
    PullsError::Transport { error: JsonError::new(text) }
}

impl Pulls {
    /// A repository to list, with the credential to fetch with. Without a
    /// credential there is nothing to fetch with, and that is the failure.
    pub fn new(owner: &String, repo: &String, token: Option<String>) -> (res: Result<Pulls, PullsError>)
        ensures
            match token {
                Some(credential) => res matches Ok(pulls) && pulls@ == (PullsView {
                    owner: owner@,
                    repo: repo@,
                    token: credential@,
                }),
                None => res matches Err(error) && error@ == failure(
                    ErrorKind::CredentialMissing,
                    "environment variable not found"@,
                ),
            },
    {
        match token {
            Some(credential) => Ok(Pulls { owner: owner.clone(), repo: repo.clone(), token: credential }),
            None => Err(
                PullsError::CredentialMissing {
                    error: String::from_str("environment variable not found"),
                },
            ),
        }
    }

    /// The owner of the repository.
    pub fn owner(&self) -> (res: &str)
        ensures
            res@ == self@.owner,
    {
        self.owner.as_str()
    }

    /// The name of the repository.
    pub fn repo(&self) -> (res: &str)
        ensures
            res@ == self@.repo,
    {
        self.repo.as_str()
    }

    /// The credential to fetch with.
    pub fn token(&self) -> (res: &str)
        ensures
            res@ == self@.token,
    {
        self.token.as_str()
    }

    /// A listing that looks for the pull request `since`: nothing is fetched
    /// yet, and the page to fetch is the first page of the closed pull
    /// requests.
    pub fn list_pulls_since(&self, since: &i64) -> (res: Listing)
        ensures
            res@ == (ListingView::Pending {
                since: *since,
                url: first_page(self@.owner, self@.repo),
                pulls: Seq::empty(),
            }),
    {
        let mut url: String = String::from_str("repos/");
        url.append(self.owner.as_str());
        url.append("/");
        url.append(self.repo.as_str());
        url.append("/pulls?state=closed&sort=updated&direction=desc");
        let pulls: Vec<PullRequest> = Vec::new();
        assert(pulls.deep_view() =~= Seq::empty());
        Listing::Pending { since: *since, url, pulls }
    }

    /// Takes the page that a listing asked for and says where the listing
    /// stands then.
    pub fn list(&self, listing: Listing, response: Response<Vec<PullRequest>>) -> (res: Result<
        Listing,
        PullsError,
    >)
        ensures
            listing_outcome(res) == listed(listing@, response@),
    {
        let Response { status, link, body } = response;
        let next: Result<String, PullsError> = self.get_next_link(&link);
        self.advance(listing, status, body, next)
    }

    /// Takes a page into a listing and says where the listing stands then:
    /// `status` and `body` are the page's, and `next` is the path of the page
    /// after it, or why there is none.
    pub fn advance(
        &self,
        listing: Listing,
        status: u16,
        body: Option<Vec<PullRequest>>,
        next: Result<String, PullsError>,
    ) -> (res: Result<Listing, PullsError>)
        ensures
            listing_outcome(res) == advanced(
                listing@,
                status,
                body.deep_view(),
                text_outcome(next),
            ),
    {
        match listing {
            Listing::Complete { pulls } => Ok(Listing::Complete { pulls }),
            Listing::Pending { since, url, pulls } => {
                if !is_success(status) {
                    return Err(status_error(status));
                }
                match body {
                    None => Ok(Listing::Complete { pulls }),
                    Some(page) => {
                        let mut pulls = pulls;
                        let mut page = page;
                        let found: bool = self.include_target(&page, &since);
                        let ghost before = pulls.deep_view();
                        let ghost added = page.deep_view();
                        pulls.append(&mut page);
                        assert(pulls.deep_view() =~= before + added);
                        if found {
                            Ok(Listing::Complete { pulls })
                        } else {
                            match next {
                                Ok(path) => Ok(Listing::Pending { since, url: path, pulls }),
                                Err(error) => Err(error),
                            }
                        }
                    },
                }
            },
        }
    }

    /// Whether a record of `array` has the number `since`.
    pub fn include_target(&self, array: &Vec<PullRequest>, since: &i64) -> (res: bool)
        ensures
            res == includes(array.deep_view(), *since),
    {
        let mut i: usize = 0;
        while i < array.len()
            invariant
                i <= array.len(),
                forall|j: int| 0 <= j < i ==> (#[trigger] array.deep_view()[j]).number != Some(*since),
            decreases array.len() - i,
        {
            match array[i].number {
                Some(number) => {
                    if number == *since {
                        assert(array.deep_view()[i as int].number == Some(*since));
                        return true;
                    }
                },
                None => {},
            }
            i += 1;
        }
        false
    }

    /// The path of the next page that a page's link header names.
    pub fn get_next_link(&self, link: &Option<String>) -> (res: Result<String, PullsError>)
        ensures
            text_outcome(res) == next_link(link.deep_view()),
    {
        match link {
            None => Err(
                PullsError::PaginationExhausted {
                    error: LinkError::new(String::from_str("link not found")),
                },
            ),
            Some(header) => match parse_links(header.as_str()) {
                None => Err(
                    PullsError::MalformedLink {
                        error: LinkError::new(String::from_str("failed to parse")),
                    },
                ),
                Some(entries) => {
                    proof {
                        lemma_uri_of_listed(
                            entries.deep_view(),
                            parsed_links(header@)->0,
                            "next"@,
                        );
                    }
                    match find_uri(&entries, "next") {
                        None => Err(
                            PullsError::PaginationExhausted {
                                error: LinkError::new(String::from_str("link not found")),
                            },
                        ),
                        Some(uri) => relative_path(capture_group(API_PATTERN, uri.as_str(), 1)),
                    }
                },
            },
        }
    }

    /// The path to fetch the pull request `number` at.
    pub fn pull_url(&self, number: &i64) -> (res: String)
        ensures
            res@ == pull_path(self@.owner, self@.repo, *number),
    {
        let mut url: String = String::from_str("repos/");
        url.append(self.owner.as_str());
        url.append("/");
        url.append(self.repo.as_str());
        url.append("/pulls/");
        append_decimal(&mut url, *number);
        url
    }

    /// The record of the pull request `number`, from the answer to the fetch
    /// of it.
    pub fn get(&self, number: &i64, response: Response<PullRequest>) -> (res: Result<
        PullRequest,
        PullsError,
    >)
        ensures
            pull_outcome(res) == got(*number, response@),
    {
        if !is_success(response.status) {
            return Err(status_error(response.status));
        }
        match response.body {
            None => Err(
                PullsError::Transport { error: JsonError::new(String::from_str("json is empty")) },
            ),
            Some(pull) => {
                let same: bool = match pull.number {
                    Some(found) => found == *number,
                    None => false,
                };
                if same {
                    Ok(pull)
                } else {
                    Err(
                        PullsError::Transport {
                            error: JsonError::new(String::from_str("number does not match")),
                        },
                    )
                }
            },
        }
    }

    /// The records of `array` that were merged strictly later than the pull
    /// request `number` was, in the order they have in `array`; `response` is
    /// the answer to the fetch of that pull request.
    pub fn select(&self, array: &Vec<PullRequest>, number: &i64, response: Response<PullRequest>) -> (res:
        Result<Vec<PullRequest>, PullsError>)
        ensures
            pulls_outcome(res) == select_result(array.deep_view(), *number, response@),
            res matches Ok(kept) ==> forall|i: int|
                0 <= i < kept.len() ==> (#[trigger] kept.deep_view()[i]).merged_at is Some,
    {
        match self.get(number, response) {
            Ok(target) => {
                let since: Option<Instant> = match &target.merged_at {
                    Some(text) => parse_rfc3339(text.as_str()),
                    None => None,
                };
                self.select_since(array, since)
            },
            Err(error) => Err(error),
        }
    }

    /// The records of `array` that were merged strictly later than `since`, in
    /// the order they have in `array`; a failure where there is no `since`.
    pub fn select_since(&self, array: &Vec<PullRequest>, since: Option<Instant>) -> (res: Result<
        Vec<PullRequest>,
        PullsError,
    >)
        ensures
            pulls_outcome(res) == selected_since(array.deep_view(), since),
            res matches Ok(kept) ==> forall|i: int|
                0 <= i < kept.len() ==> (#[trigger] kept.deep_view()[i]).merged_at is Some,
    {
        match since {
            Some(boundary) => {
                let times: Vec<Option<Instant>> = self.merged_times(array);
                proof {
                    lemma_kept_later_selects(array.deep_view(), times@, boundary);
                    lemma_selected_are_merged_after(array.deep_view(), boundary);
                }
                Ok(self.keep_later(array, &times, boundary))
            },
            None => Err(
                PullsError::MissingBoundary {
                    error: JsonError::new(String::from_str("merged_at is not contained")),
                },
            ),
        }
    }

    /// The instants at which the records of `array` say they were merged, one
    /// for each record.
    pub fn merged_times(&self, array: &Vec<PullRequest>) -> (res: Vec<Option<Instant>>)
        ensures
            res@ == merged_instants(array.deep_view()),
    {
        let mut times: Vec<Option<Instant>> = Vec::new();
        let mut i: usize = 0;
        while i < array.len()
            invariant
                i <= array.len(),
                times@ == merged_instants(array.deep_view()).take(i as int),
            decreases array.len() - i,
        {
            let time: Option<Instant> = match &array[i].merged_at {
                Some(text) => parse_rfc3339(text.as_str()),
                None => None,
            };
            times.push(time);
            i += 1;
        }
        times
    }

    /// The records of `array` whose instant in `times`, the one at the record's
    /// own place, is strictly later than `since`, in the order they have in
    /// `array`.
    pub fn keep_later(&self, array: &Vec<PullRequest>, times: &Vec<Option<Instant>>, since: Instant) -> (res:
        Vec<PullRequest>)
        ensures
            res.deep_view() == kept_later(array.deep_view(), times@, since),
    {
        let mut kept: Vec<PullRequest> = Vec::new();
        let mut i: usize = 0;
        while i < array.len()
            invariant
                i <= array.len(),
                kept.deep_view() == kept_later(array.deep_view().take(i as int), times@, since),
            decreases array.len() - i,
        {
            let keep: bool = i < times.len() && is_later(since, times[i]);
            assert(array.deep_view().take(i + 1).drop_last() =~= array.deep_view().take(i as int));
            if keep {
                kept.push(array[i].clone());
            }
            i += 1;
        }
        assert(array.deep_view().take(i as int) =~= array.deep_view());
        kept
    }

    /// Whether `time` is written as an instant strictly later than `since`.
    pub fn time_diff(&self, since: Instant, time: &str) -> (res: bool)
        ensures
            res == later(since, rfc3339_instant(time@)),
    {
        is_later(since, parse_rfc3339(time))
    }
}

/// Keeping by the instants that the records themselves give is selecting.
pub proof fn lemma_kept_later_selects(array: Seq<PullRequestView>, times: Seq<Option<Instant>>, since: Instant)
    requires
        times == merged_instants(array),
    ensures
        kept_later(array, times, since) == selected(array, since),
    decreases array.len(),
{
    reveal(Seq::filter);
    if array.len() > 0 {
        let front = array.drop_last();
        lemma_kept_later_front(front, times, merged_instants(front), since);
        lemma_kept_later_selects(front, merged_instants(front), since);
    }
}

proof fn lemma_kept_later_front(
    array: Seq<PullRequestView>,
    times: Seq<Option<Instant>>,
    fewer: Seq<Option<Instant>>,
    since: Instant,
)
    requires
        array.len() <= fewer.len() <= times.len(),
        forall|i: int| 0 <= i < fewer.len() ==> fewer[i] == times[i],
    ensures
        kept_later(array, times, since) == kept_later(array, fewer, since),
    decreases array.len(),
{
    if array.len() > 0 {
        lemma_kept_later_front(array.drop_last(), times, fewer, since);
    }
}

/// How a listing ends, and how many pages it took to get there.
pub struct Run {
    pub end: Result<ListingView, PullsErrorView>,
    pub fetched: nat,
}

/// Where a listing stands once the pages of `responses` have come in, one
/// after the other, for as long as the listing asked for a page; and how many
/// of them it took.
pub open spec fn listed_all(listing: ListingView, responses: Seq<ResponseView<Seq<PullRequestView>>>) -> Run
    decreases responses.len(),
{
    if responses.len() == 0 || listing is Complete {
        Run { end: Ok(listing), fetched: 0 }
    } else {
        match listed(listing, responses[0]) {
            Ok(next) => {
                let rest = listed_all(next, responses.drop_first());
                Run { end: rest.end, fetched: rest.fetched + 1 }
            },
            Err(error) => Run { end: Err(error), fetched: 1 },
        }
    }
}

/// The records of the pages in `responses`, one page after the other.
pub open spec fn pages(responses: Seq<ResponseView<Seq<PullRequestView>>>) -> Seq<PullRequestView>
    decreases responses.len(),
{
    if responses.len() == 0 {
        Seq::empty()
    } else {
        match responses[0].body {
            Some(page) => page + pages(responses.drop_first()),
            None => pages(responses.drop_first()),
        }
    }
}

/// Whether a page came in with success, holds records, and none of them is
/// the pull request `since`.
pub open spec fn page_without(response: ResponseView<Seq<PullRequestView>>, since: i64) -> bool {
    &&& success(response.status)
    &&& response.body matches Some(page)
    &&& !includes(page, since)
}

/// Whether a page came in with success and holds the pull request `since`.
pub open spec fn page_with(response: ResponseView<Seq<PullRequestView>>, since: i64) -> bool {
    &&& success(response.status)
    &&& response.body matches Some(page)
    &&& includes(page, since)
}

/// Whether a page names no next page: it has no link header, or its header
/// can be read and has no link of the relation `next`.
pub open spec fn last_page(response: ResponseView<Seq<PullRequestView>>) -> bool {
    match response.link {
        None => true,
        Some(header) => parsed_links(header) matches Some(links) && !links.contains_key(
            Some("next"@),
        ),
    }
}

proof fn lemma_listed_until_found(
    since: i64,
    url: Seq<char>,
    pulls: Seq<PullRequestView>,
    responses: Seq<ResponseView<Seq<PullRequestView>>>,
    k: int,
)
    requires
        1 <= k <= responses.len(),
        forall|i: int| 0 <= i < k - 1 ==> page_without(#[trigger] responses[i], since),
        forall|i: int| 0 <= i < k - 1 ==> next_link((#[trigger] responses[i]).link) is Ok,
        page_with(responses[k - 1], since),
    ensures
        listed_all(ListingView::Pending { since, url, pulls }, responses) == (Run {
            end: Ok(ListingView::Complete { pulls: pulls + pages(responses.take(k)) }),
            fetched: k as nat,
        }),
    decreases k,
{
    let rest = responses.drop_first();
    let page = responses[0].body->0;
    assert(responses.take(k).drop_first() =~= rest.take(k - 1));
    if k == 1 {
        let ended = ListingView::Complete { pulls: pulls + page };
        assert(listed(ListingView::Pending { since, url, pulls }, responses[0]) == Ok::<
            ListingView,
            PullsErrorView,
        >(ended));
        assert(listed_all(ended, rest) == Run { end: Ok(ended), fetched: 0 });
    } else {
        let next = next_link(responses[0].link)->Ok_0;
        assert forall|i: int| 0 <= i < k - 2 implies page_without(#[trigger] rest[i], since) by {
            assert(rest[i] == responses[i + 1]);
        }
        assert forall|i: int| 0 <= i < k - 2 implies next_link((#[trigger] rest[i]).link) is Ok by {
            assert(rest[i] == responses[i + 1]);
        }
        lemma_listed_until_found(since, next, pulls + page, rest, k - 1);
        assert((pulls + page) + pages(rest.take(k - 1)) =~= pulls + (page + pages(rest.take(k - 1))));
    }
}

/// Where the target is on page `k` of the pages that come in, is on none
/// before it, and each page before it names a next page, a listing that starts
/// with nothing ends with exactly the records of the first `k` pages, in the
/// order they came, and takes exactly `k` pages to get there; pages that come
/// after are not looked at.
pub proof fn lemma_list_ends_at_target(
    since: i64,
    url: Seq<char>,
    responses: Seq<ResponseView<Seq<PullRequestView>>>,
    k: int,
)
    requires
        1 <= k <= responses.len(),
        forall|i: int| 0 <= i < k - 1 ==> page_without(#[trigger] responses[i], since),
        forall|i: int| 0 <= i < k - 1 ==> next_link((#[trigger] responses[i]).link) is Ok,
        page_with(responses[k - 1], since),
    ensures
        listed_all(ListingView::Pending { since, url, pulls: Seq::empty() }, responses) == (Run {
            end: Ok(ListingView::Complete { pulls: pages(responses.take(k)) }),
            fetched: k as nat,
        }),
{
    lemma_listed_until_found(since, url, Seq::empty(), responses, k);
}

proof fn lemma_listed_until_failure(
    since: i64,
    url: Seq<char>,
    pulls: Seq<PullRequestView>,
    responses: Seq<ResponseView<Seq<PullRequestView>>>,
)
    requires
        1 <= responses.len(),
        forall|i: int| 0 <= i < responses.len() ==> page_without(#[trigger] responses[i], since),
        forall|i: int|
            0 <= i < responses.len() - 1 ==> next_link((#[trigger] responses[i]).link) is Ok,
        next_link(responses.last().link) is Err,
    ensures
        listed_all(ListingView::Pending { since, url, pulls }, responses) == (Run {
            end: Err(next_link(responses.last().link)->Err_0),
            fetched: responses.len(),
        }),
    decreases responses.len(),
{
    let rest = responses.drop_first();
    if responses.len() > 1 {
        let page = responses[0].body->0;
        let next = next_link(responses[0].link)->Ok_0;
        assert forall|i: int| 0 <= i < rest.len() implies page_without(#[trigger] rest[i], since) by {
            assert(rest[i] == responses[i + 1]);
        }
        assert forall|i: int| 0 <= i < rest.len() - 1 implies next_link(
            (#[trigger] rest[i]).link,
        ) is Ok by {
            assert(rest[i] == responses[i + 1]);
        }
        lemma_listed_until_failure(since, next, pulls + page, rest);
    }
}

/// Where the target is on none of the pages that come in, each page but the
/// last names a next page and the last names none, the listing fails because
/// the pages ran out, and takes every page to get there.
pub proof fn lemma_list_fails_when_exhausted(
    since: i64,
    url: Seq<char>,
    responses: Seq<ResponseView<Seq<PullRequestView>>>,
)
    requires
        1 <= responses.len(),
        forall|i: int| 0 <= i < responses.len() ==> page_without(#[trigger] responses[i], since),
        forall|i: int|
            0 <= i < responses.len() - 1 ==> next_link((#[trigger] responses[i]).link) is Ok,
        last_page(responses.last()),
    ensures
        listed_all(ListingView::Pending { since, url, pulls: Seq::empty() }, responses) == (Run {
            end: Err(failure(ErrorKind::PaginationExhausted, "link not found"@)),
            fetched: responses.len(),
        }),
{
    lemma_listed_until_failure(since, url, Seq::empty(), responses);
}

/// Every record that selecting keeps has a merge time, and one that is
/// strictly later than the boundary.
pub proof fn lemma_selected_are_merged_after(array: Seq<PullRequestView>, since: Instant)
    ensures
        forall|i: int|
            0 <= i < selected(array, since).len() ==> {
                &&& (#[trigger] selected(array, since)[i]).merged_at is Some
                &&& merged_after(selected(array, since)[i], since)
            },
{
    let kept = |pull: PullRequestView| merged_after(pull, since);
    assert forall|i: int| 0 <= i < selected(array, since).len() implies {
        &&& (#[trigger] selected(array, since)[i]).merged_at is Some
        &&& merged_after(selected(array, since)[i], since)
    } by {
        array.lemma_filter_pred(kept, i);
    }
}

/// A record that was merged at the very instant of the boundary is not kept.
pub proof fn lemma_boundary_is_excluded(array: Seq<PullRequestView>, since: Instant, i: int)
    requires
        0 <= i < array.len(),
        merged_instant(array[i]) == Some(since),
    ensures
        !selected(array, since).contains(array[i]),
{
    lemma_selected_are_merged_after(array, since);
}

/// Whether `kept` holds records of `all` in the order they have there: `at`
/// gives for each record of `kept` a place in `all` where it stands, after the
/// place of the one before it.
pub open spec fn in_order_of(kept: Seq<PullRequestView>, all: Seq<PullRequestView>, at: Seq<int>) -> bool {
    &&& at.len() == kept.len()
    &&& forall|k: int| 0 <= k < kept.len() ==> 0 <= #[trigger] at[k] < all.len() && kept[k] == all[at[k]]
    &&& forall|j: int, k: int| 0 <= j < k < kept.len() ==> #[trigger] at[j] < #[trigger] at[k]
}

/// Selecting keeps the order: the records it keeps stand in the selection as
/// they stand in `array`, none before one that it followed there.
pub proof fn lemma_selected_keeps_order(array: Seq<PullRequestView>, since: Instant) -> (at: Seq<int>)
    ensures
        in_order_of(selected(array, since), array, at),
    decreases array.len(),
{
    reveal(Seq::filter);
    if array.len() == 0 {
        Seq::empty()
    } else {
        let front = array.drop_last();
        let before = lemma_selected_keeps_order(front, since);
        if merged_after(array.last(), since) {
            before.push(array.len() - 1)
        } else {
            before
        }
    }
}

/// Selecting depends on nothing but what it is given: two selections from the
/// same records, by the same number and the same answer, are the same.
pub proof fn lemma_select_repeats(
    array: Seq<PullRequestView>,
    number: i64,
    response: ResponseView<PullRequestView>,
    first: Result<Seq<PullRequestView>, PullsErrorView>,
    second: Result<Seq<PullRequestView>, PullsErrorView>,
)
    requires
        first == select_result(array, number, response),
        second == select_result(array, number, response),
    ensures
        first == second,
{
}

} // verus!
