//! Commits and the parser that builds them from raw history entries.

use crate::json::{at_key, field, json_member, text, text_at, text_view};
use crate::text::{
    all_digits, chars_of, contains, find, first_at, is_number, occurs_at, position, slice_of,
    lemma_trimmed_is_part, trim_range, trimmed,
};
use crate::time::{parse_rfc3339, rfc3339_instant, Timestamp};
use serde_json::Value;
use vstd::prelude::*;
use vstd::string::*;

verus! {

/// The repository that a run reports on.
#[derive(Debug, Clone, PartialEq, Eq)]
pub struct Config {
    pub owner: String,
    pub repo: String,
}

/// What a history entry holds of the fields that the parser reads, each
/// `None` where the entry lacks it or holds no text there.
#[derive(Debug, Clone, PartialEq, Eq)]
pub struct RawEntry {
    pub login: Option<String>,
    pub message: Option<String>,
    pub authored_date: Option<String>,
}

/// One commit of the mainline branch that belongs to a pull request.
#[derive(Debug, Clone, PartialEq, Eq)]
pub struct Commit {
    pub author: String,
    pub message: String,
    pub pr_number: String,
    pub date: Timestamp,
}

/// A commit as plain values.
pub ghost struct CommitView {
    pub author: Seq<char>,
    pub message: Seq<char>,
    pub pr_number: Seq<char>,
    pub date: Timestamp,
}

impl View for Commit {
    type V = CommitView;

    open spec fn view(&self) -> CommitView {
        CommitView {
            author: self.author@,
            message: self.message@,
            pr_number: self.pr_number@,
            date: self.date,
        }
    }
}

/// The commits of a sequence as plain values.
pub open spec fn commit_views(commits: Seq<Commit>) -> Seq<CommitView> {
    commits.map_values(|c: Commit| c@)
}

/// The text that opens a pull-request reference.
pub open spec fn reference_mark() -> Seq<char> {
    seq![' ', '(', '#']
}

/// The text up to the first line feed, without a carriage return just
/// before it; the whole text where it holds no line feed.
pub open spec fn first_line(message: Seq<char>) -> Seq<char> {
    match position(message, seq!['\n']) {
        None => message,
        Some(k) => {
            let line = message.take(k);
            if line.len() > 0 && line.last() == '\r' {
                line.drop_last()
            } else {
                line
            }
        },
    }
}

/// The title and the pull-request number of a line: the trimmed text
/// before the first reference mark, and the text between that mark and
/// the first closing bracket after it.
pub open spec fn reference_of(line: Seq<char>) -> Option<(Seq<char>, Seq<char>)> {
    match position(line, reference_mark()) {
        None => None,
        Some(i) => match position(line.skip(i + 3), seq![')']) {
            None => None,
            Some(j) => Some((trimmed(line.take(i)), line.subrange(i + 3, i + 3 + j))),
        },
    }
}

/// The commit that an entry's three fields denote, if they denote one.
pub open spec fn parsed(
    login: Option<Seq<char>>,
    message: Option<Seq<char>>,
    authored_date: Option<Seq<char>>,
) -> Option<CommitView> {
    match (login, message, authored_date) {
        (Some(author), Some(text), Some(stamp)) => match reference_of(first_line(text)) {
            Some((title, number)) => match rfc3339_instant(stamp) {
                Some(date) => if all_digits(number) {
                    Some(CommitView { author, message: title, pr_number: number, date })
                } else {
                    None
                },
                None => None,
            },
            None => None,
        },
        _ => None,
    }
}

/// A message whose first line holds no reference mark denotes no commit,
/// whatever the other fields hold.
pub proof fn lemma_no_reference_no_commit(
    login: Option<Seq<char>>,
    message: Seq<char>,
    authored_date: Option<Seq<char>>,
)
    requires
        !contains(first_line(message), reference_mark()),
    ensures
        parsed(login, Some(message), authored_date) is None,
{
    let line = first_line(message);
    if position(line, reference_mark()) is Some {
        let i = choose|i: int| first_at(line, reference_mark(), i);
        assert(occurs_at(line, reference_mark(), i));
    }
}

/// The number of a parsed commit is made of decimal digits only, and its
/// title holds no reference mark.
pub proof fn lemma_parsed_commit_is_clean(
    login: Option<Seq<char>>,
    message: Option<Seq<char>>,
    authored_date: Option<Seq<char>>,
)
    ensures
        parsed(login, message, authored_date) matches Some(commit) ==> all_digits(
            commit.pr_number,
        ) && !contains(commit.message, reference_mark()),
{
    if parsed(login, message, authored_date) is Some {
        let commit = parsed(login, message, authored_date).unwrap();
        let line = first_line(message.unwrap());
        let mark = reference_mark();
        let i = choose|i: int| first_at(line, mark, i);
        assert(first_at(line, mark, i));
        let head = line.take(i);
        let (a, b) = lemma_trimmed_is_part(head);
        assert(commit.message == head.subrange(a, b));
        assert forall|k: int| !occurs_at(commit.message, mark, k) by {
            if occurs_at(commit.message, mark, k) {
                assert forall|q: int| 0 <= q < mark.len() implies line[a + k + q] == #[trigger] mark[q] by {
                    assert(commit.message[k + q] == mark[q]);
                    assert(commit.message[k + q] == head[a + k + q]);
                }
                assert(occurs_at(line, mark, a + k));
                assert(a + k < i);
            }
        }
    }
}

/// The login of an entry's author in a response document.
pub open spec fn entry_login(value: Value) -> Option<Seq<char>> {
    text_at(at_key(at_key(at_key(json_member(value, "node"@), "author"@), "user"@), "login"@))
}

/// The commit message of an entry in a response document.
pub open spec fn entry_message(value: Value) -> Option<Seq<char>> {
    text_at(at_key(json_member(value, "node"@), "message"@))
}

/// The authorship date of an entry in a response document.
pub open spec fn entry_date(value: Value) -> Option<Seq<char>> {
    text_at(at_key(json_member(value, "node"@), "authoredDate"@))
}

impl RawEntry {
    /// The commit that the entry denotes, if it denotes one.
    pub open spec fn commit(self) -> Option<CommitView> {
        parsed(text_view(self.login), text_view(self.message), text_view(self.authored_date))
    }

    /// A message, where there is one, is not empty.
    pub open spec fn well_formed(self) -> bool {
        self.message matches Some(m) ==> m@.len() > 0
    }

    /// Whether the entry's message, if it has one, is not empty.
    pub fn is_well_formed(&self) -> (ok: bool)
        ensures
            ok == self.well_formed(),
    {
        match &self.message {
            Some(m) => m.as_str().unicode_len() > 0,
            None => true,
        }
    }

    /// Reads the three fields out of one history entry of a response.
    pub fn from_value(value: &Value) -> (entry: RawEntry)
        ensures
            text_view(entry.login) == entry_login(*value),
            text_view(entry.message) == entry_message(*value),
            text_view(entry.authored_date) == entry_date(*value),
    {
        let node = field(Some(value), "node");
        let login = text(field(field(field(node, "author"), "user"), "login"));
        let message = text(field(node, "message"));
        let authored_date = text(field(node, "authoredDate"));
        RawEntry { login, message, authored_date }
    }

    /// Parses the entry: the author, the first line of the message split
    /// into title and pull-request number, and the date. Fails where a
    /// field is missing, the first line holds no reference, the number is
    /// not made of digits, or the date is no RFC 3339 text.
    pub fn parse(&self) -> (result: Result<Commit, ()>)
        requires
            self.well_formed(),
        ensures
            match result {
                Ok(commit) => self.commit() == Some(commit@) && all_digits(commit.pr_number@),
                Err(_) => self.commit() is None,
            },
    {
        let author = match &self.login {
            Some(a) => a,
            None => {
                return Err(());
            },
        };
        let message = match &self.message {
            Some(m) => m,
            None => {
                return Err(());
            },
        };
        let stamp = match &self.authored_date {
            Some(s) => s,
            None => {
                return Err(());
            },
        };
        let chars = chars_of(message.as_str());
        let feed: Vec<char> = vec!['\n'];
        let end: usize = match find(&chars, &feed) {
            None => chars.len(),
            Some(k) => if k > 0 && chars[k - 1] == '\r' {
                k - 1
            } else {
                k
            },
        };
        let line = slice_of(&chars, 0, end);
        proof {
            assert(feed@ =~= seq!['\n']);
            assert(line@ =~= first_line(message@));
            assert(line@ =~= message@.subrange(0, end as int));
        }
        let mark: Vec<char> = vec![' ', '(', '#'];
        proof {
            assert(mark@ =~= reference_mark());
        }
        let start: usize = match find(&line, &mark) {
            Some(i) => i,
            None => {
                return Err(());
            },
        };
        let rest = slice_of(&line, start + 3, line.len());
        let bracket: Vec<char> = vec![')'];
        proof {
            assert(bracket@ =~= seq![')']);
            assert(rest@ =~= line@.skip(start + 3));
        }
        let close: usize = match find(&rest, &bracket) {
            Some(j) => j,
            None => {
                return Err(());
            },
        };
        let number = slice_of(&rest, 0, close);
        proof {
            assert(number@ =~= line@.subrange(start + 3, start + 3 + close));
            assert(number@ =~= message@.subrange(start + 3, start + 3 + close));
        }
        let date = match parse_rfc3339(stamp.as_str()) {
            Some(d) => d,
            None => {
                return Err(());
            },
        };
        if !is_number(&number) {
            return Err(());
        }
        let bounds = trim_range(&line, start);
        proof {
            assert(line@.take(start as int).subrange(bounds.0 as int, bounds.1 as int)
                =~= message@.subrange(bounds.0 as int, bounds.1 as int));
        }
        let title = String::from_str(message.as_str().substring_char(bounds.0, bounds.1));
        let pr_number = String::from_str(
            message.as_str().substring_char(start + 3, start + 3 + close),
        );
        Ok(Commit { author: author.clone(), message: title, pr_number, date })
    }
}

/// The date of the latest release in a response to the release query.
pub open spec fn release_date(response: Value) -> Option<Seq<char>> {
    let release = at_key(at_key(json_member(response, "data"@), "repository"@), "latestRelease"@);
    text_at(at_key(at_key(release, "tagCommit"@), "committedDate"@))
}

impl Commit {
    /// Whether the commit's author is the dependency bot, whose commits
    /// stay out of the report.
    pub fn by_dependabot(&self) -> (bot: bool)
        ensures
            bot == contains(self.author@, "dependabot"@),
    {
        let author = chars_of(self.author.as_str());
        let name = chars_of("dependabot");
        let found = find(&author, &name);
        proof {
            if found is Some {
                assert(occurs_at(self.author@, "dependabot"@, found.unwrap() as int));
            }
        }
        found.is_some()
    }
}

impl Config {
    /// The date of the latest release, read out of the response to the
    /// release query. Fails where the response cannot be navigated.
    pub fn get_date_last_release(&self, response: &Value) -> (result: Result<String, ()>)
        ensures
            match result {
                Ok(date) => release_date(*response) == Some(date@),
                Err(_) => release_date(*response) is None,
            },
    {
        let release = field(field(field(Some(response), "data"), "repository"), "latestRelease");
        match text(field(field(release, "tagCommit"), "committedDate")) {
            Some(date) => Ok(date),
            None => Err(()),
        }
    }

    /// Builds the commit that one history entry of a response denotes.
    pub fn build_commit(&self, value: &Value) -> (result: Result<Commit, ()>)
        requires
            entry_message(*value) matches Some(m) ==> m.len() > 0,
        ensures
            match result {
                Ok(commit) => parsed(entry_login(*value), entry_message(*value), entry_date(*value))
                    == Some(commit@),
                Err(_) => parsed(entry_login(*value), entry_message(*value), entry_date(*value))
                    is None,
            },
    {
        let entry = RawEntry::from_value(value);
        entry.parse()
    }

    /// Builds the commit that one history entry denotes, unless the
    /// entry's message is empty: then nothing is built and the result is
    /// `None`.
    pub fn try_build_commit(&self, value: &Value) -> (result: Option<Result<Commit, ()>>)
        ensures
            result is None <==> (entry_message(*value) matches Some(m) && m.len() == 0),
            result matches Some(built) ==> match built {
                Ok(commit) => parsed(entry_login(*value), entry_message(*value), entry_date(*value))
                    == Some(commit@),
                Err(_) => parsed(entry_login(*value), entry_message(*value), entry_date(*value))
                    is None,
            },
    {
        let entry = RawEntry::from_value(value);
        if entry.is_well_formed() {
            Some(self.build_commit(value))
        } else {
            None
        }
    }
}

} // verus!
