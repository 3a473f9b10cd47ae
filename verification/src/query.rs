//! The texts of the three queries that a run sends.

use crate::commit::Config;
use vstd::prelude::*;
use vstd::string::*;

verus! {

pub const QUERY_OWNER: &'static str = "query { repository(owner:\"";

pub const QUERY_NAME: &'static str = "\", name:\"";

pub const RELEASE_FIELDS: &'static str = "\") { latestRelease { tagCommit { committedDate } } } }";

pub const HISTORY_SINCE: &'static str =
    "\") { refs(refPrefix:\"refs/heads/\", query:\"main\", last:1) { edges { node { target { ... on Commit { history(since:\"";

pub const HISTORY_UNTIL: &'static str = "\", until: \"";

pub const HISTORY_FIELDS: &'static str =
    "\") { edges { node { author { user { login } } message authoredDate } } } } } } } } } }";

pub const LABELS_NUMBER: &'static str = "\") { pullRequest(number:";

pub const LABELS_FIELDS: &'static str = ") { labels(first: 10) { edges { node { name } } } } } }";

/// The opening of every query: the repository `owner`/`repo`.
pub open spec fn repository_text(owner: Seq<char>, repo: Seq<char>) -> Seq<char> {
    QUERY_OWNER@ + owner + QUERY_NAME@ + repo
}

/// The query for the date of the commit that the latest release tags.
pub open spec fn release_query_text(owner: Seq<char>, repo: Seq<char>) -> Seq<char> {
    repository_text(owner, repo) + RELEASE_FIELDS@
}

/// The query for the mainline history between `since` and `until`: the
/// author's login, the message and the authorship date of each entry.
pub open spec fn history_query_text(
    owner: Seq<char>,
    repo: Seq<char>,
    since: Seq<char>,
    until: Seq<char>,
) -> Seq<char> {
    repository_text(owner, repo) + HISTORY_SINCE@ + since + HISTORY_UNTIL@ + until
        + HISTORY_FIELDS@
}

/// The query for the names of the first ten labels of a pull request.
pub open spec fn labels_query_text(owner: Seq<char>, repo: Seq<char>, number: Seq<char>) -> Seq<
    char,
> {
    repository_text(owner, repo) + LABELS_NUMBER@ + number + LABELS_FIELDS@
}

fn repository(config: &Config) -> (text: String)
    ensures
        text@ == repository_text(config.owner@, config.repo@),
{
    let mut text = String::from_str(QUERY_OWNER);
    text.append(config.owner.as_str());
    text.append(QUERY_NAME);
    text.append(config.repo.as_str());
    text
}

/// The query for the date of the latest release of `config`'s repository.
pub fn release_query(config: &Config) -> (text: String)
    ensures
        text@ == release_query_text(config.owner@, config.repo@),
{
    let mut text = repository(config);
    text.append(RELEASE_FIELDS);
    text
}

/// The query for one page of history between `since` and `until`.
pub fn history_query(config: &Config, since: &str, until: &str) -> (text: String)
    ensures
        text@ == history_query_text(config.owner@, config.repo@, since@, until@),
{
    let mut text = repository(config);
    text.append(HISTORY_SINCE);
    text.append(since);
    text.append(HISTORY_UNTIL);
    text.append(until);
    text.append(HISTORY_FIELDS);
    text
}

/// The query for the labels of the pull request with this number.
pub fn labels_query(config: &Config, number: &str) -> (text: String)
    ensures
        text@ == labels_query_text(config.owner@, config.repo@, number@),
{
    let mut text = repository(config);
    text.append(LABELS_NUMBER);
    text.append(number);
    text.append(LABELS_FIELDS);
    text
}

} // verus!
