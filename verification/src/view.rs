//! Pull requests as lines of a list.

use crate::record::{PullRequest, PullRequestView};
use crate::text::{append_decimal, decimal};
use vstd::prelude::*;
use vstd::string::*;

verus! {

/// The line that shows a record: its number, its address and its title. A
/// record that lacks one of the three has no line.
pub open spec fn line(pull: PullRequestView) -> Option<Seq<char>> {
    match (pull.number, pull.html_url, pull.title) {
        (Some(number), Some(url), Some(title)) => Some(
            "- [#"@ + decimal(number as int) + "]("@ + url + ") "@ + title,
        ),
        _ => None,
    }
}

/// The lines of the records that have one, in the order of the records.
pub open spec fn lines(pulls: Seq<PullRequestView>) -> Seq<Seq<char>> {
    pulls.filter_map(|pull: PullRequestView| line(pull))
}

/// The line that shows a record, if it has one.
pub fn render(pull: &PullRequest) -> (res: Option<String>)
    ensures
        res.deep_view() == line(pull@),
{
    match (&pull.number, &pull.html_url, &pull.title) {
        (Some(number), Some(url), Some(title)) => {
            let mut text: String = String::from_str("- [#");
            append_decimal(&mut text, *number);
            text.append("](");
            text.append(url.as_str());
            text.append(") ");
            text.append(title.as_str());
            Some(text)
        },
        _ => None,
    }
}

/// The list that shows `pulls`: one line for each record that has a number, an
/// address and a title, in the order of the records.
pub fn display(pulls: &Vec<PullRequest>) -> (res: Vec<String>)
    ensures
        res.deep_view() == lines(pulls.deep_view()),
{
    let mut shown: Vec<String> = Vec::new();
    let mut i: usize = 0;
    while i < pulls.len()
        invariant
            i <= pulls.len(),
            shown.deep_view() == lines(pulls.deep_view().take(i as int)),
        decreases pulls.len() - i,
    {
        assert(pulls.deep_view().take(i + 1).drop_last() =~= pulls.deep_view().take(i as int));
        match render(&pulls[i]) {
            Some(text) => {
                shown.push(text);
            },
            None => {},
        }
        i += 1;
    }
    assert(pulls.deep_view().take(i as int) =~= pulls.deep_view());
    shown
}

} // verus!
