//! The link header of a page, and the path of the page that it names as next.

use crate::errors::{failure, ErrorKind, LinkError, PullsError, PullsErrorView};
use crate::text::same_text;
use regex::Regex;
use vstd::prelude::*;
use vstd::string::*;

verus! {

/// The pattern that a next page's address has to match; its one group is the
/// path that the next fetch asks for.
pub const API_PATTERN: &'static str = "^https://api\\.github\\.com/(.*)$";

/// One link of a link header: the relation it was given, if any, and its address.
#[derive(Debug)]
pub struct LinkEntry {
    pub rel: Option<String>,
    pub uri: String,
}

/// A link as contracts speak of it.
pub struct LinkEntryView {
    pub rel: Option<Seq<char>>,
    pub uri: Seq<char>,
}

impl View for LinkEntry {
    type V = LinkEntryView;

    open spec fn view(&self) -> LinkEntryView {
        LinkEntryView { rel: self.rel.deep_view(), uri: self.uri@ }
    }
}

impl DeepView for LinkEntry {
    type V = LinkEntryView;

    open spec fn deep_view(&self) -> LinkEntryView {
        self@
    }
}

/// What `parse_link_header::parse` makes of a link header: `None` where it
/// rejects the header, else the map it returns, from each relation that it
/// files a link under (`None` for a link without one) to that link's address,
/// as its parsed `uri` writes itself out.
pub uninterp spec fn parsed_links(header: Seq<char>) -> Option<Map<Option<Seq<char>>, Seq<char>>>;

/// Whether `entries` holds the links of `links` and no others, in any order.
pub open spec fn lists(entries: Seq<LinkEntryView>, links: Map<Option<Seq<char>>, Seq<char>>) -> bool {
    &&& forall|i: int|
        0 <= i < entries.len() ==> links.contains_pair((#[trigger] entries[i]).rel, entries[i].uri)
    &&& forall|rel: Option<Seq<char>>| #[trigger]
        links.contains_key(rel) ==> exists|i: int|
            0 <= i < entries.len() && (#[trigger] entries[i]).rel == rel
}

/// Calls `parse_link_header::parse` and hands back each link of the map it
/// returns: the relation the link is filed under, and its parsed `uri` written
/// out. Trusted: that the same header always gives the same map, and that the
/// entries are that map's links, in whatever order the map is walked. Nothing
/// is claimed of which headers are accepted or what they hold.
#[verifier::external_body]
pub(crate) fn parse_links(header: &str) -> (res: Option<Vec<LinkEntry>>)
    ensures
        match res {
            Some(entries) => parsed_links(header@) matches Some(links) && lists(
                entries.deep_view(),
                links,
            ),
            None => parsed_links(header@) is None,
        },
{
    match parse_link_header::parse(header) {
        Ok(links) => {
            let mut entries: Vec<LinkEntry> = Vec::new();
            for (rel, link) in links {
                entries.push(LinkEntry { rel, uri: link.uri.to_string() });
            }
            Some(entries)
        },
        Err(_) => None,
    }
}

/// The address of the first link at or after `from` whose relation is `rel`.
pub open spec fn uri_from(entries: Seq<LinkEntryView>, rel: Seq<char>, from: int) -> Option<Seq<char>>
    decreases entries.len() - from,
{
    if from < 0 || from >= entries.len() {
        None
    } else if entries[from].rel == Some(rel) {
        Some(entries[from].uri)
    } else {
        uri_from(entries, rel, from + 1)
    }
}

/// The address of the first link whose relation is `rel`.
pub open spec fn uri_of(entries: Seq<LinkEntryView>, rel: Seq<char>) -> Option<Seq<char>> {
    uri_from(entries, rel, 0)
}

/// The address of the first link whose relation is `rel`, if there is one.
pub fn find_uri(entries: &Vec<LinkEntry>, rel: &str) -> (res: Option<String>)
    ensures
        res.deep_view() == uri_of(entries.deep_view(), rel@),
{
    let mut i: usize = 0;
    while i < entries.len()
        invariant
            i <= entries.len(),
            uri_of(entries.deep_view(), rel@) == uri_from(entries.deep_view(), rel@, i as int),
        decreases entries.len() - i,
    {
        let found: bool = match &entries[i].rel {
            Some(name) => same_text(name, rel),
            None => false,
        };
        if found {
            return Some(entries[i].uri.clone());
        }
        i += 1;
    }
    None
}

/// Among the links of a map, the first with a relation is the one the map files
/// under it.
pub proof fn lemma_uri_of_listed(
    entries: Seq<LinkEntryView>,
    links: Map<Option<Seq<char>>, Seq<char>>,
    rel: Seq<char>,
)
    requires
        lists(entries, links),
    ensures
        uri_of(entries, rel) == if links.contains_key(Some(rel)) {
            Some(links[Some(rel)])
        } else {
            None
        },
{
    lemma_uri_from_listed(entries, links, rel, 0);
}

proof fn lemma_uri_from_listed(
    entries: Seq<LinkEntryView>,
    links: Map<Option<Seq<char>>, Seq<char>>,
    rel: Seq<char>,
    from: int,
)
    requires
        lists(entries, links),
        0 <= from <= entries.len(),
        forall|j: int| 0 <= j < from ==> (#[trigger] entries[j]).rel != Some(rel),
    ensures
        uri_from(entries, rel, from) == if links.contains_key(Some(rel)) {
            Some(links[Some(rel)])
        } else {
            None
        },
    decreases entries.len() - from,
{
    if from < entries.len() {
        if entries[from].rel != Some(rel) {
            lemma_uri_from_listed(entries, links, rel, from + 1);
        }
    }
}

/// How a pattern fared on a text, and what one of its groups took.
#[derive(Debug)]
pub enum GroupMatch {
    /// The pattern is no regular expression.
    BadPattern,
    /// The pattern matches nowhere in the text.
    NoMatch,
    /// The pattern matches, but the group took no part in the match.
    NoGroup,
    /// The part of the text that the group matched.
    Group(String),
}

/// A `GroupMatch` as contracts speak of it.
pub enum GroupMatchView {
    BadPattern,
    NoMatch,
    NoGroup,
    Group(Seq<char>),
}

impl View for GroupMatch {
    type V = GroupMatchView;

    open spec fn view(&self) -> GroupMatchView {
        match self {
            GroupMatch::BadPattern => GroupMatchView::BadPattern,
            GroupMatch::NoMatch => GroupMatchView::NoMatch,
            GroupMatch::NoGroup => GroupMatchView::NoGroup,
            GroupMatch::Group(part) => GroupMatchView::Group(part@),
        }
    }
}

/// How the `regex` crate's leftmost match of `pattern` in `text` fares, and
/// what its group number `group` took.
pub uninterp spec fn regex_group(pattern: Seq<char>, text: Seq<char>, group: nat) -> GroupMatchView;

/// Compiles `pattern` with `regex::Regex::new`, searches `text` with
/// `Regex::captures` and takes the group with `Captures::get`. Trusted: that the
/// same pattern, text and group always give the same answer. Nothing is claimed
/// of which patterns compile or what they match.
#[verifier::external_body]
pub(crate) fn capture_group(pattern: &str, text: &str, group: usize) -> (res: GroupMatch)
    ensures
        res@ == regex_group(pattern@, text@, group as nat),
{
    match Regex::new(pattern) {
        Err(_) => GroupMatch::BadPattern,
        Ok(compiled) => match compiled.captures(text) {
            None => GroupMatch::NoMatch,
            Some(found) => match found.get(group) {
                None => GroupMatch::NoGroup,
                Some(part) => GroupMatch::Group(part.as_str().to_string()),
            },
        },
    }
}

/// A result that holds a text, as contracts speak of it.
pub open spec fn text_outcome(res: Result<String, PullsError>) -> Result<Seq<char>, PullsErrorView> {
    match res {
        Ok(text) => Ok(text@),
        Err(error) => Err(error@),
    }
}

/// The path that a match of the address pattern gives, or why it gives none.
pub open spec fn relative_path_of(found: GroupMatchView) -> Result<Seq<char>, PullsErrorView> {
    match found {
        GroupMatchView::Group(path) => Ok(path),
        GroupMatchView::NoMatch => Err(failure(ErrorKind::MalformedLink, "could not found url"@)),
        GroupMatchView::NoGroup => Err(failure(ErrorKind::MalformedLink, "failed to parse url"@)),
        GroupMatchView::BadPattern => Err(failure(ErrorKind::MalformedLink, "failed to parse url"@)),
    }
}

/// The path to fetch, from what the address pattern found in a next page's
/// address: the group's text, or a malformed link.
pub fn relative_path(found: GroupMatch) -> (res: Result<String, PullsError>)
    ensures
        text_outcome(res) == relative_path_of(found@),
{
    match found {
        GroupMatch::Group(path) => Ok(path),
        GroupMatch::NoMatch => Err(
            PullsError::MalformedLink {
                error: LinkError::new(String::from_str("could not found url")),
            },
        ),
        GroupMatch::NoGroup => Err(
            PullsError::MalformedLink {
                error: LinkError::new(String::from_str("failed to parse url")),
            },
        ),
        GroupMatch::BadPattern => Err(
            PullsError::MalformedLink {
                error: LinkError::new(String::from_str("failed to parse url")),
            },
        ),
    }
}

/// The path of the next page that a page's link header names, if it has one:
/// a page without the header, or whose header names no next page, ends the
/// pages; a header that cannot be read, or a next page elsewhere than under the
/// address pattern, is a malformed link.
pub open spec fn next_link(link: Option<Seq<char>>) -> Result<Seq<char>, PullsErrorView> {
    match link {
        None => Err(failure(ErrorKind::PaginationExhausted, "link not found"@)),
        Some(header) => match parsed_links(header) {
            None => Err(failure(ErrorKind::MalformedLink, "failed to parse"@)),
            Some(links) => if links.contains_key(Some("next"@)) {
                relative_path_of(regex_group(API_PATTERN@, links[Some("next"@)], 1))
            } else {
                Err(failure(ErrorKind::PaginationExhausted, "link not found"@))
            },
        },
    }
}

} // verus!
