//! Backward pagination through the commit history: each page moves the
//! upper bound of the next request to one second before its last entry.

use crate::commit::{
    commit_views, entry_date, entry_login, entry_message, Commit, CommitView, Config, RawEntry,
};
use crate::json::{at_index, at_key, field, item, items, items_at, json_member, text_view};
use crate::query::{history_query, history_query_text};
use crate::time::{
    one_second_before, parse_rfc3339, rfc3339_instant, rfc3339_text, second_earlier,
    to_rfc3339, Timestamp,
};
use serde_json::Value;
use vstd::prelude::*;
use vstd::string::*;

verus! {

/// The state of a pagination run: the time window of the next request,
/// whose lower bound `since` is the same for the whole run, the commits
/// gathered so far, and whether the run has ended.
#[derive(Debug, Clone, PartialEq, Eq)]
pub struct Pagination {
    pub since: String,
    pub until: Timestamp,
    pub commits: Vec<Commit>,
    pub finished: bool,
}

/// A pagination state as plain values.
pub ghost struct PaginationView {
    pub since: Seq<char>,
    pub until: Timestamp,
    pub commits: Seq<CommitView>,
    pub finished: bool,
}

impl View for Pagination {
    type V = PaginationView;

    open spec fn view(&self) -> PaginationView {
        PaginationView {
            since: self.since@,
            until: self.until,
            commits: commit_views(self.commits@),
            finished: self.finished,
        }
    }
}

/// The history edges of a response to the history query.
pub open spec fn history_edges(response: Value) -> Option<Seq<Value>> {
    let refs = at_key(at_key(json_member(response, "data"@), "repository"@), "refs"@);
    let target = at_key(at_key(at_index(at_key(refs, "edges"@), 0), "node"@), "target"@);
    items_at(at_key(at_key(target, "history"@), "edges"@))
}

/// `entry` holds the three fields of the history edge `edge`.
pub open spec fn entry_reads(entry: RawEntry, edge: Value) -> bool {
    &&& text_view(entry.login) == entry_login(edge)
    &&& text_view(entry.message) == entry_message(edge)
    &&& text_view(entry.authored_date) == entry_date(edge)
}

/// The commits that the entries of a page denote, in their order; an
/// entry that denotes none is dropped.
pub open spec fn page_commits(entries: Seq<RawEntry>) -> Seq<CommitView>
    decreases entries.len(),
{
    if entries.len() == 0 {
        Seq::empty()
    } else {
        let before = page_commits(entries.drop_last());
        match entries.last().commit() {
            Some(commit) => before.push(commit),
            None => before,
        }
    }
}

/// The authorship date of a page's last entry, which is its earliest.
pub open spec fn page_boundary(entries: Seq<RawEntry>) -> Option<Timestamp> {
    if entries.len() == 0 {
        None
    } else {
        match text_view(entries.last().authored_date) {
            Some(stamp) => rfc3339_instant(stamp),
            None => None,
        }
    }
}

/// No entry of the page has an empty message.
pub open spec fn page_well_formed(entries: Seq<RawEntry>) -> bool {
    forall|i: int| 0 <= i < entries.len() ==> (#[trigger] entries[i]).well_formed()
}

/// The page can be absorbed: its entries are well formed, and the second
/// before its boundary can be represented. A failed request can always be.
pub open spec fn page_acceptable(page: Option<Vec<RawEntry>>) -> bool {
    page matches Some(entries) ==> {
        &&& page_well_formed(entries@)
        &&& page_boundary(entries@) matches Some(boundary) ==> one_second_before(boundary)
            is Some
    }
}

/// The page moves the window on: it has a boundary, and the second before
/// it can be represented.
pub open spec fn page_advances(page: Option<Vec<RawEntry>>) -> bool {
    page matches Some(entries) && page_boundary(entries@) matches Some(boundary)
        && one_second_before(boundary) is Some
}

/// The state after a page, where `None` stands for a failed request. A
/// finished run stays as it is. A failed request, an empty page or a page
/// whose last entry has no readable date ends the run with what was
/// gathered. Any other page adds its commits and moves the upper bound to
/// one second before its last entry. The lower bound never changes.
pub open spec fn step(state: PaginationView, page: Option<Vec<RawEntry>>) -> PaginationView {
    if state.finished {
        state
    } else {
        match page {
            None => PaginationView { finished: true, ..state },
            Some(entries) => match page_boundary(entries@) {
                None => PaginationView { finished: true, ..state },
                Some(boundary) => match one_second_before(boundary) {
                    Some(until) => PaginationView {
                        since: state.since,
                        until,
                        commits: state.commits + page_commits(entries@),
                        finished: false,
                    },
                    None => state,
                },
            },
        }
    }
}

/// The state after a sequence of pages, taken in order.
pub open spec fn run(state: PaginationView, pages: Seq<Option<Vec<RawEntry>>>) -> PaginationView
    decreases pages.len(),
{
    if pages.len() == 0 {
        state
    } else {
        step(run(state, pages.drop_last()), pages.last())
    }
}

/// The commits of all the pages, in order.
pub open spec fn gathered(pages: Seq<Option<Vec<RawEntry>>>) -> Seq<CommitView>
    decreases pages.len(),
{
    if pages.len() == 0 {
        Seq::empty()
    } else {
        match pages.last() {
            Some(entries) => gathered(pages.drop_last()) + page_commits(entries@),
            None => gathered(pages.drop_last()),
        }
    }
}

/// Reads the entries out of a response to the history query; `None`
/// where the response cannot be navigated.
pub fn history_entries(response: &Value) -> (page: Option<Vec<RawEntry>>)
    ensures
        match page {
            Some(entries) => history_edges(*response) matches Some(edges) && entries@.len()
                == edges.len() && forall|i: int|
                0 <= i < edges.len() ==> entry_reads(#[trigger] entries@[i], edges[i]),
            None => history_edges(*response) is None,
        },
{
    let refs = field(field(field(Some(response), "data"), "repository"), "refs");
    let target = field(field(item(field(refs, "edges"), 0), "node"), "target");
    let edges = match items(field(field(target, "history"), "edges")) {
        Some(e) => e,
        None => {
            return None;
        },
    };
    let mut entries: Vec<RawEntry> = Vec::new();
    let mut i: usize = 0;
    while i < edges.len()
        invariant
            i <= edges.len(),
            entries@.len() == i,
            forall|k: int| 0 <= k < i ==> entry_reads(#[trigger] entries@[k], edges@[k]),
        decreases edges.len() - i,
    {
        entries.push(RawEntry::from_value(&edges[i]));
        i += 1;
    }
    Some(entries)
}

/// The commits that the entries of a page denote.
pub fn parse_page(entries: &Vec<RawEntry>) -> (commits: Vec<Commit>)
    requires
        page_well_formed(entries@),
    ensures
        commit_views(commits@) == page_commits(entries@),
{
    let mut commits: Vec<Commit> = Vec::new();
    let mut i: usize = 0;
    proof {
        assert(commit_views(commits@) =~= page_commits(entries@.take(0)));
    }
    while i < entries.len()
        invariant
            i <= entries.len(),
            page_well_formed(entries@),
            commit_views(commits@) == page_commits(entries@.take(i as int)),
        decreases entries.len() - i,
    {
        proof {
            assert(entries@.take(i as int + 1).drop_last() =~= entries@.take(i as int));
            assert(entries@.take(i as int + 1).last() == entries@[i as int]);
        }
        let ghost before = commits@;
        match entries[i].parse() {
            Ok(commit) => {
                commits.push(commit);
                proof {
                    assert(commit_views(commits@) =~= commit_views(before).push(commit@));
                }
            },
            Err(_) => {},
        }
        i += 1;
    }
    proof {
        assert(entries@.take(entries.len() as int) =~= entries@);
    }
    commits
}

/// The authorship date of the page's last entry.
pub fn boundary(entries: &Vec<RawEntry>) -> (date: Option<Timestamp>)
    ensures
        date == page_boundary(entries@),
{
    if entries.len() == 0 {
        return None;
    }
    match &entries[entries.len() - 1].authored_date {
        Some(stamp) => parse_rfc3339(stamp.as_str()),
        None => None,
    }
}

/// Whether the page can be absorbed.
pub fn is_acceptable(page: &Option<Vec<RawEntry>>) -> (ok: bool)
    ensures
        ok == page_acceptable(*page),
{
    match page {
        None => true,
        Some(entries) => {
            let mut i: usize = 0;
            while i < entries.len()
                invariant
                    i <= entries.len(),
                    *page == Some(*entries),
                    forall|k: int| 0 <= k < i ==> (#[trigger] entries@[k]).well_formed(),
                decreases entries.len() - i,
            {
                if !entries[i].is_well_formed() {
                    proof {
                        assert(!entries@[i as int].well_formed());
                    }
                    return false;
                }
                i += 1;
            }
            match boundary(entries) {
                Some(date) => second_earlier(&date).is_some(),
                None => true,
            }
        },
    }
}

impl Pagination {
    /// The state before any page.
    pub open spec fn start(since: Seq<char>, now: Timestamp) -> PaginationView {
        PaginationView { since, until: now, commits: Seq::empty(), finished: false }
    }

    /// A run that has gathered nothing yet and asks for the history
    /// between `since` and `now`.
    pub fn new(since: &str, now: Timestamp) -> (state: Pagination)
        ensures
            state@ == Pagination::start(since@, now),
    {
        let state = Pagination {
            since: String::from_str(since),
            until: now,
            commits: Vec::new(),
            finished: false,
        };
        proof {
            assert(commit_views(state.commits@) =~= Seq::empty());
        }
        state
    }

    /// The query for the next page, which asks for the history within
    /// the window; `None` where the run has ended or the upper bound
    /// cannot be written as text.
    pub fn next_query(&self, config: &Config) -> (query: Option<String>)
        ensures
            match query {
                Some(text) => rfc3339_text(self.until) matches Some(until) && !self.finished
                    && text@ == history_query_text(
                    config.owner@,
                    config.repo@,
                    self.since@,
                    until,
                ),
                None => self.finished || rfc3339_text(self.until) is None,
            },
    {
        if self.finished {
            return None;
        }
        match to_rfc3339(&self.until) {
            Some(until) => Some(history_query(config, self.since.as_str(), until.as_str())),
            None => None,
        }
    }

    /// Takes in the page that the last request came back with, `None`
    /// for a request that failed. Where the page moves the window on and
    /// its last entry is not later than the old upper bound, the new upper
    /// bound is strictly earlier than the old one.
    pub fn absorb(&mut self, page: &Option<Vec<RawEntry>>)
        requires
            page_acceptable(*page),
        ensures
            final(self)@ == step(old(self)@, *page),
            !old(self).finished && page_advances(*page) && page_boundary(
                page.unwrap()@,
            ).unwrap().not_after(old(self).until) ==> final(self).until.precedes(
                old(self).until,
            ),
    {
        if self.finished {
            return;
        }
        let entries = match page {
            Some(e) => e,
            None => {
                self.finished = true;
                return;
            },
        };
        let date = match boundary(entries) {
            Some(d) => d,
            None => {
                self.finished = true;
                return;
            },
        };
        match second_earlier(&date) {
            Some(until) => {
                let mut commits = parse_page(entries);
                let ghost before = self.commits@;
                let ghost added = commits@;
                self.commits.append(&mut commits);
                self.until = until;
                proof {
                    assert(commit_views(before + added) =~= commit_views(before) + commit_views(
                        added,
                    ));
                }
            },
            None => {},
        }
    }

    /// Takes in the page if it can be absorbed, and says whether it was;
    /// a page that cannot be leaves the run as it is.
    pub fn try_absorb(&mut self, page: &Option<Vec<RawEntry>>) -> (taken: bool)
        ensures
            taken == page_acceptable(*page),
            taken ==> final(self)@ == step(old(self)@, *page),
            taken && !old(self).finished && page_advances(*page) && page_boundary(
                page.unwrap()@,
            ).unwrap().not_after(old(self).until) ==> final(self).until.precedes(
                old(self).until,
            ),
            !taken ==> *final(self) == *old(self),
    {
        if is_acceptable(page) {
            self.absorb(page);
            true
        } else {
            false
        }
    }
}

/// Runs the pagination of the history between `date_last_release` and
/// `now` over the pages in the order in which the requests returned
/// them. `None` where a page cannot be absorbed.
pub fn get_commits(
    date_last_release: &str,
    now: Timestamp,
    pages: &Vec<Option<Vec<RawEntry>>>,
) -> (result: Option<Vec<Commit>>)
    ensures
        match result {
            Some(commits) => {
                &&& forall|i: int| 0 <= i < pages@.len() ==> page_acceptable(#[trigger] pages@[i])
                &&& commit_views(commits@) == run(
                    Pagination::start(date_last_release@, now),
                    pages@,
                ).commits
            },
            None => exists|i: int| 0 <= i < pages@.len() && !page_acceptable(#[trigger] pages@[i]),
        },
{
    let mut state = Pagination::new(date_last_release, now);
    let ghost start = state@;
    let mut i: usize = 0;
    while i < pages.len()
        invariant
            i <= pages.len(),
            forall|k: int| 0 <= k < i ==> page_acceptable(#[trigger] pages@[k]),
            state@ == run(start, pages@.take(i as int)),
        decreases pages.len() - i,
    {
        proof {
            assert(pages@.take(i as int + 1).drop_last() =~= pages@.take(i as int));
            assert(pages@.take(i as int + 1).last() == pages@[i as int]);
        }
        if !state.try_absorb(&pages[i]) {
            return None;
        }
        i += 1;
    }
    proof {
        assert(pages@.take(pages.len() as int) =~= pages@);
    }
    Some(state.commits)
}

/// The lower bound of the window is the same for the whole run, whatever
/// the pages hold.
pub proof fn lemma_run_keeps_since(state: PaginationView, pages: Seq<Option<Vec<RawEntry>>>)
    ensures
        run(state, pages).since == state.since,
    decreases pages.len(),
{
    if pages.len() > 0 {
        lemma_run_keeps_since(state, pages.drop_last());
    }
}

/// A run that has ended takes in nothing more.
pub proof fn lemma_run_stays_finished(state: PaginationView, pages: Seq<Option<Vec<RawEntry>>>)
    requires
        state.finished,
    ensures
        run(state, pages) == state,
    decreases pages.len(),
{
    if pages.len() > 0 {
        lemma_run_stays_finished(state, pages.drop_last());
    }
}

/// Pagination ends and loses nothing: after pages that each move the
/// window on, followed by an empty page, the run has finished and holds
/// exactly the commits of the pages, in order, after those it began with.
pub proof fn lemma_run_gathers_all(state: PaginationView, pages: Seq<Option<Vec<RawEntry>>>)
    requires
        !state.finished,
        pages.len() > 0,
        forall|i: int| 0 <= i < pages.len() - 1 ==> page_advances(#[trigger] pages[i]),
        pages.last() matches Some(entries) && entries@.len() == 0,
    ensures
        run(state, pages).finished,
        run(state, pages).commits == state.commits + gathered(pages),
{
    let front = pages.drop_last();
    lemma_run_advancing(state, front);
    assert(page_commits(pages.last().unwrap()@) =~= Seq::empty());
    assert(gathered(pages) =~= gathered(front));
}

/// While every page moves the window on, the run goes on and holds the
/// commits of the pages so far.
pub proof fn lemma_run_advancing(state: PaginationView, pages: Seq<Option<Vec<RawEntry>>>)
    requires
        !state.finished,
        forall|i: int| 0 <= i < pages.len() ==> page_advances(#[trigger] pages[i]),
    ensures
        !run(state, pages).finished,
        run(state, pages).commits == state.commits + gathered(pages),
    decreases pages.len(),
{
    if pages.len() == 0 {
        assert(state.commits + gathered(pages) =~= state.commits);
    } else {
        let front = pages.drop_last();
        assert forall|i: int| 0 <= i < front.len() implies page_advances(#[trigger] front[i]) by {
            assert(front[i] == pages[i]);
        }
        lemma_run_advancing(state, front);
        assert(page_advances(pages.last()));
        let entries = pages.last().unwrap();
        assert((state.commits + gathered(front)) + page_commits(entries@) =~= state.commits + (
            gathered(front) + page_commits(entries@)));
    }
}

} // verus!
