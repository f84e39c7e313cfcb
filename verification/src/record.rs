//! Pull request records and the answers of the fetch that brings them.

use vstd::prelude::*;
use vstd::string::*;

verus! {

/// What the library reads of a pull request. A field that the record lacks, or
/// holds with another type, is `None`.
#[derive(Debug, PartialEq, Eq)]
pub struct PullRequest {
    /// The number that names the pull request within its repository.
    pub number: Option<i64>,
    /// When it was merged, as the record writes it; `None` where it was not.
    pub merged_at: Option<String>,
    /// The address of its page.
    pub html_url: Option<String>,
    /// Its title.
    pub title: Option<String>,
}

/// A pull request as contracts speak of it.
pub struct PullRequestView {
    pub number: Option<i64>,
    pub merged_at: Option<Seq<char>>,
    pub html_url: Option<Seq<char>>,
    pub title: Option<Seq<char>>,
}

impl View for PullRequest {
    type V = PullRequestView;

    open spec fn view(&self) -> PullRequestView {
        PullRequestView {
            number: self.number,
            merged_at: self.merged_at.deep_view(),
            html_url: self.html_url.deep_view(),
            title: self.title.deep_view(),
        }
    }
}

impl DeepView for PullRequest {
    type V = PullRequestView;

    open spec fn deep_view(&self) -> PullRequestView {
        self@
    }
}

fn clone_text(text: &Option<String>) -> (res: Option<String>)
    ensures
        res == *text,
{
    match text {
        Some(t) => Some(t.clone()),
        None => None,
    }
}

impl Clone for PullRequest {
    fn clone(&self) -> (res: PullRequest)
        ensures
            res == *self,
    {
        PullRequest {
            number: self.number,
            merged_at: clone_text(&self.merged_at),
            html_url: clone_text(&self.html_url),
            title: clone_text(&self.title),
        }
    }
}

/// One answer of the fetch: the status code, the link header where the answer
/// has one, and the body where it has one of the shape asked for.
#[derive(Debug)]
pub struct Response<B> {
    pub status: u16,
    pub link: Option<String>,
    pub body: Option<B>,
}

/// An answer as contracts speak of it.
pub struct ResponseView<B> {
    pub status: u16,
    pub link: Option<Seq<char>>,
    pub body: Option<B>,
}

impl<B: DeepView> View for Response<B> {
    type V = ResponseView<B::V>;

    open spec fn view(&self) -> ResponseView<B::V> {
        ResponseView {
            status: self.status,
            link: self.link.deep_view(),
            body: self.body.deep_view(),
        }
    }
}

impl<B: DeepView> DeepView for Response<B> {
    type V = ResponseView<B::V>;

    open spec fn deep_view(&self) -> ResponseView<B::V> {
        self@
    }
}

/// Whether a status code reports success.
pub open spec fn success(status: u16) -> bool {
    200 <= status < 300
}

/// Whether a status code reports success.
pub fn is_success(status: u16) -> (res: bool)
    ensures
        res == success(status),
{
    200 <= status && status < 300
}

/// Whether a record of `pulls` has the number `since`.
pub open spec fn includes(pulls: Seq<PullRequestView>, since: i64) -> bool {
    exists|i: int| 0 <= i < pulls.len() && (#[trigger] pulls[i]).number == Some(since)
}

} // verus!
