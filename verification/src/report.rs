//! Grouping of classified commits by category, ordering by date, and the
//! Markdown report.

use crate::classify::{PRKind, PR};
use crate::commit::{Commit, CommitView, Config};
use crate::time::Timestamp;
use vstd::prelude::*;
use vstd::seq_lib::{to_multiset_build, to_multiset_remove};
use vstd::string::*;

verus! {

/// The classified commits of a run, one group for each category. The
/// three reported groups are kept in ascending order of commit date; the
/// ignored ones stay in the order in which they came.
#[derive(Debug, Clone, PartialEq, Eq)]
pub struct Changelog {
    pub features: Vec<PR>,
    pub fixes: Vec<PR>,
    pub improvements: Vec<PR>,
    pub ignored: Vec<PR>,
}

/// No item is dated later than one that follows it.
pub open spec fn sorted_by_date(group: Seq<PR>) -> bool {
    forall|i: int, j: int|
        0 <= i < j < group.len() ==> (#[trigger] group[i]).commit.date.not_after(
            (#[trigger] group[j]).commit.date,
        )
}

/// Where an item dated `date` goes into `group`: behind the last item
/// that is not dated later, so that items of one date stay in the order
/// in which they came.
pub open spec fn place_of(group: Seq<PR>, date: Timestamp) -> int
    decreases group.len(),
{
    if group.len() == 0 {
        0
    } else if date.precedes(group.last().commit.date) {
        place_of(group.drop_last(), date)
    } else {
        group.len() as int
    }
}

/// The items of `prs` that are of category `kind`, each put in its place
/// by date in the order in which they came.
pub open spec fn arranged(prs: Seq<PR>, kind: PRKind) -> Seq<PR>
    decreases prs.len(),
{
    if prs.len() == 0 {
        Seq::empty()
    } else {
        let before = arranged(prs.drop_last(), kind);
        if prs.last().kind == kind {
            before.insert(place_of(before, prs.last().commit.date), prs.last())
        } else {
            before
        }
    }
}

/// The items of `prs` that are of category `kind`, in the order in which
/// they came.
pub open spec fn selected(prs: Seq<PR>, kind: PRKind) -> Seq<PR>
    decreases prs.len(),
{
    if prs.len() == 0 {
        Seq::empty()
    } else {
        let before = selected(prs.drop_last(), kind);
        if prs.last().kind == kind {
            before.push(prs.last())
        } else {
            before
        }
    }
}

/// The place of an item lies within the group; what stands from there on
/// is dated later, and in a sorted group what stands before is not.
pub proof fn lemma_place_of(group: Seq<PR>, date: Timestamp)
    ensures
        0 <= place_of(group, date) <= group.len(),
        forall|k: int|
            place_of(group, date) <= k < group.len() ==> date.precedes(
                (#[trigger] group[k]).commit.date,
            ),
        sorted_by_date(group) ==> forall|k: int|
            0 <= k < place_of(group, date) ==> (#[trigger] group[k]).commit.date.not_after(date),
    decreases group.len(),
{
    if group.len() > 0 && date.precedes(group.last().commit.date) {
        let front = group.drop_last();
        lemma_place_of(front, date);
        assert forall|k: int| place_of(group, date) <= k < group.len() implies date.precedes(
            (#[trigger] group[k]).commit.date,
        ) by {
            if k < front.len() {
                assert(front[k] == group[k]);
            }
        }
        if sorted_by_date(group) {
            assert forall|i: int, j: int| 0 <= i < j < front.len() implies (#[trigger] front[i]).commit.date.not_after(
                (#[trigger] front[j]).commit.date,
            ) by {
                assert(front[i] == group[i] && front[j] == group[j]);
            }
            assert forall|k: int| 0 <= k < place_of(group, date) implies (#[trigger] group[k]).commit.date.not_after(
                date,
            ) by {
                assert(front[k] == group[k]);
            }
        }
    } else if group.len() > 0 {
        if sorted_by_date(group) {
            assert forall|k: int| 0 <= k < group.len() implies (#[trigger] group[k]).commit.date.not_after(
                date,
            ) by {
                let last = group.len() - 1;
                if k < last {
                    assert(group[k].commit.date.not_after(group[last].commit.date));
                }
            }
        }
    }
}

/// An item put in its place leaves a sorted group sorted.
pub proof fn lemma_insert_keeps_order(group: Seq<PR>, pr: PR)
    requires
        sorted_by_date(group),
    ensures
        sorted_by_date(group.insert(place_of(group, pr.commit.date), pr)),
{
    let at = place_of(group, pr.commit.date);
    lemma_place_of(group, pr.commit.date);
    let after = group.insert(at, pr);
    assert forall|i: int, j: int| 0 <= i < j < after.len() implies (#[trigger] after[i]).commit.date.not_after(
        (#[trigger] after[j]).commit.date,
    ) by {
        if j < at {
            assert(after[i] == group[i] && after[j] == group[j]);
        } else if j == at {
            assert(after[i] == group[i]);
        } else if i < at {
            assert(after[i] == group[i] && after[j] == group[j - 1]);
            assert(pr.commit.date.precedes(group[j - 1].commit.date));
        } else if i == at {
            assert(after[j] == group[j - 1]);
        } else {
            assert(after[i] == group[i - 1] && after[j] == group[j - 1]);
        }
    }
}

/// Whatever came in, and in whatever order, each arranged group is in
/// ascending order of commit date.
pub proof fn lemma_arranged_sorted(prs: Seq<PR>, kind: PRKind)
    ensures
        sorted_by_date(arranged(prs, kind)),
    decreases prs.len(),
{
    if prs.len() > 0 {
        lemma_arranged_sorted(prs.drop_last(), kind);
        if prs.last().kind == kind {
            lemma_insert_keeps_order(arranged(prs.drop_last(), kind), prs.last());
        }
    }
}

/// Putting an item into a group adds that item and nothing else.
pub proof fn lemma_insert_adds_one(group: Seq<PR>, at: int, pr: PR)
    requires
        0 <= at <= group.len(),
    ensures
        group.insert(at, pr).to_multiset() == group.to_multiset().insert(pr),
{
    let after = group.insert(at, pr);
    assert(after.remove(at) =~= group);
    assert(after[at] == pr);
    to_multiset_remove(after, at);
    after.to_multiset_ensures();
    assert(after.contains(pr));
    assert(after.to_multiset() =~= group.to_multiset().insert(pr));
}

/// Nothing is lost and nothing is made up: an arranged group holds the
/// items of its category, each as often as it came.
pub proof fn lemma_arranged_keeps_items(prs: Seq<PR>, kind: PRKind)
    ensures
        arranged(prs, kind).to_multiset() == selected(prs, kind).to_multiset(),
        arranged(prs, kind).len() == selected(prs, kind).len(),
    decreases prs.len(),
{
    if prs.len() > 0 {
        let before = arranged(prs.drop_last(), kind);
        lemma_arranged_keeps_items(prs.drop_last(), kind);
        if prs.last().kind == kind {
            lemma_place_of(before, prs.last().commit.date);
            lemma_insert_adds_one(before, place_of(before, prs.last().commit.date), prs.last());
            to_multiset_build(selected(prs.drop_last(), kind), prs.last());
        }
    }
}

/// Puts `pr` into `group` at its place by date.
pub fn insert_by_date(group: &mut Vec<PR>, pr: PR)
    ensures
        final(group)@ == old(group)@.insert(place_of(old(group)@, pr.commit.date), pr),
        sorted_by_date(old(group)@) ==> sorted_by_date(final(group)@),
{
    let mut at: usize = group.len();
    proof {
        assert(group@.take(at as int) =~= group@);
    }
    while at > 0 && pr.commit.date.is_before(&group[at - 1].commit.date)
        invariant
            at <= group.len(),
            place_of(group@, pr.commit.date) == place_of(group@.take(at as int), pr.commit.date),
        decreases at,
    {
        proof {
            assert(group@.take(at as int).drop_last() =~= group@.take(at as int - 1));
        }
        at -= 1;
    }
    proof {
        if sorted_by_date(group@) {
            lemma_insert_keeps_order(group@, pr);
        }
    }
    group.insert(at, pr);
}

impl Changelog {
    /// The three reported groups are in ascending order of commit date.
    pub open spec fn well_formed(self) -> bool {
        &&& sorted_by_date(self.features@)
        &&& sorted_by_date(self.fixes@)
        &&& sorted_by_date(self.improvements@)
    }

    /// These are the groups that `prs` make, taken in their order.
    pub open spec fn holds(self, prs: Seq<PR>) -> bool {
        &&& self.features@ == arranged(prs, PRKind::Feature)
        &&& self.fixes@ == arranged(prs, PRKind::BugFix)
        &&& self.improvements@ == arranged(prs, PRKind::Internal)
        &&& self.ignored@ == selected(prs, PRKind::Ignored)
    }

    /// A changelog without items.
    pub fn new() -> (log: Changelog)
        ensures
            log.holds(Seq::empty()),
            log.well_formed(),
    {
        Changelog {
            features: Vec::new(),
            fixes: Vec::new(),
            improvements: Vec::new(),
            ignored: Vec::new(),
        }
    }

    /// Puts `pr` into the group of its category: a reported one at its
    /// place by date, an ignored one at the end.
    pub fn add(&mut self, pr: PR)
        ensures
            forall|prs: Seq<PR>| old(self).holds(prs) ==> final(self).holds(prs.push(pr)),
            old(self).well_formed() ==> final(self).well_formed(),
            pr.kind != PRKind::Feature ==> final(self).features@ == old(self).features@,
            pr.kind != PRKind::BugFix ==> final(self).fixes@ == old(self).fixes@,
            pr.kind != PRKind::Internal ==> final(self).improvements@ == old(self).improvements@,
            pr.kind != PRKind::Ignored ==> final(self).ignored@ == old(self).ignored@,
            pr.kind == PRKind::Feature ==> final(self).features@ == old(self).features@.insert(
                place_of(old(self).features@, pr.commit.date),
                pr,
            ),
            pr.kind == PRKind::BugFix ==> final(self).fixes@ == old(self).fixes@.insert(
                place_of(old(self).fixes@, pr.commit.date),
                pr,
            ),
            pr.kind == PRKind::Internal ==> final(self).improvements@ == old(
                self,
            ).improvements@.insert(place_of(old(self).improvements@, pr.commit.date), pr),
            pr.kind == PRKind::Ignored ==> final(self).ignored@ == old(self).ignored@.push(pr),
    {
        proof {
            assert forall|prs: Seq<PR>| prs.push(pr).drop_last() == prs by {
                assert(prs.push(pr).drop_last() =~= prs);
            }
        }
        match pr.kind {
            PRKind::Feature => insert_by_date(&mut self.features, pr),
            PRKind::BugFix => insert_by_date(&mut self.fixes, pr),
            PRKind::Internal => insert_by_date(&mut self.improvements, pr),
            PRKind::Ignored => self.ignored.push(pr),
        }
    }

    /// Groups the classified commits, taken in the order in which they
    /// came.
    pub fn collect(prs: Vec<PR>) -> (log: Changelog)
        ensures
            log.holds(prs@),
            log.well_formed(),
    {
        let mut rest = prs;
        let mut log = Changelog::new();
        let ghost all = rest@;
        let ghost mut done: Seq<PR> = Seq::empty();
        while rest.len() > 0
            invariant
                log.holds(done),
                log.well_formed(),
                done + rest@ == all,
            decreases rest.len(),
        {
            let ghost before = rest@;
            let pr = rest.remove(0);
            log.add(pr);
            proof {
                assert(done.push(pr) + rest@ =~= done + before);
                done = done.push(pr);
            }
        }
        proof {
            assert(done + rest@ =~= done);
        }
        log
    }
}

/// The bullet text of a commit: its title, its author and a link to its
/// pull request in the repository `owner`/`repo`.
pub open spec fn entry_text(commit: CommitView, owner: Seq<char>, repo: Seq<char>) -> Seq<char> {
    commit.message + " by @"@ + commit.author + " in [#"@ + commit.pr_number
        + "](https://github.com/"@ + owner + "/"@ + repo + "/pull/"@ + commit.pr_number + ")"@
}

/// One bullet line for each item of a group, in its order.
pub open spec fn bullets(group: Seq<PR>, owner: Seq<char>, repo: Seq<char>) -> Seq<char>
    decreases group.len(),
{
    if group.len() == 0 {
        Seq::empty()
    } else {
        bullets(group.drop_last(), owner, repo) + "- "@ + entry_text(
            group.last().commit@,
            owner,
            repo,
        ) + "\n"@
    }
}

/// A section: the heading line, an empty line, and the bullets.
pub open spec fn section_text(
    heading: Seq<char>,
    group: Seq<PR>,
    owner: Seq<char>,
    repo: Seq<char>,
) -> Seq<char> {
    heading + "\n\n"@ + bullets(group, owner, repo)
}

/// The report: the three sections in their fixed order, an empty line
/// between one and the next.
pub open spec fn report_text(
    features: Seq<PR>,
    fixes: Seq<PR>,
    improvements: Seq<PR>,
    owner: Seq<char>,
    repo: Seq<char>,
) -> Seq<char> {
    section_text("### Feature Enhancements"@, features, owner, repo) + "\n"@ + section_text(
        "### Bug Fixes"@,
        fixes,
        owner,
        repo,
    ) + "\n"@ + section_text("### Internal Improvements"@, improvements, owner, repo)
}

/// The diagnostic line of an ignored commit.
pub open spec fn ignored_line(commit: CommitView) -> Seq<char> {
    "#"@ + commit.pr_number + " @"@ + commit.author + ": "@ + commit.message + "\n"@
}

/// One diagnostic line for each item, in its order.
pub open spec fn ignored_lines(group: Seq<PR>) -> Seq<char>
    decreases group.len(),
{
    if group.len() == 0 {
        Seq::empty()
    } else {
        ignored_lines(group.drop_last()) + ignored_line(group.last().commit@)
    }
}

impl Commit {
    /// The bullet text of the commit in the report on `config`'s
    /// repository.
    pub fn render(&self, config: &Config) -> (line: String)
        ensures
            line@ == entry_text(self@, config.owner@, config.repo@),
    {
        let mut line = self.message.clone();
        line.append(" by @");
        line.append(self.author.as_str());
        line.append(" in [#");
        line.append(self.pr_number.as_str());
        line.append("](https://github.com/");
        line.append(config.owner.as_str());
        line.append("/");
        line.append(config.repo.as_str());
        line.append("/pull/");
        line.append(self.pr_number.as_str());
        line.append(")");
        line
    }
}

/// Renders one section of the report.
pub fn render_section(heading: &str, group: &Vec<PR>, config: &Config) -> (out: String)
    ensures
        out@ == section_text(heading@, group@, config.owner@, config.repo@),
{
    let mut out = String::from_str(heading);
    out.append("\n\n");
    let ghost head = out@;
    let mut i: usize = 0;
    proof {
        assert(out@ =~= head + bullets(group@.take(0), config.owner@, config.repo@));
    }
    while i < group.len()
        invariant
            i <= group.len(),
            head == heading@ + "\n\n"@,
            out@ == head + bullets(group@.take(i as int), config.owner@, config.repo@),
        decreases group.len() - i,
    {
        proof {
            assert(group@.take(i as int + 1).drop_last() =~= group@.take(i as int));
            assert(group@.take(i as int + 1).last() == group@[i as int]);
        }
        let ghost before = out@;
        let line = group[i].commit.render(config);
        out.append("- ");
        out.append(line.as_str());
        out.append("\n");
        proof {
            assert(out@ =~= head + bullets(
                group@.take(i as int + 1),
                config.owner@,
                config.repo@,
            ));
        }
        i += 1;
    }
    proof {
        assert(group@.take(group.len() as int) =~= group@);
    }
    out
}

/// The diagnostic listing of the ignored commits, without its heading.
pub fn ignored_listing(ignored: &Vec<PR>) -> (out: String)
    ensures
        out@ == ignored_lines(ignored@),
{
    let mut out = String::new();
    let mut i: usize = 0;
    proof {
        assert(out@ =~= ignored_lines(ignored@.take(0)));
    }
    while i < ignored.len()
        invariant
            i <= ignored.len(),
            out@ == ignored_lines(ignored@.take(i as int)),
        decreases ignored.len() - i,
    {
        proof {
            assert(ignored@.take(i as int + 1).drop_last() =~= ignored@.take(i as int));
            assert(ignored@.take(i as int + 1).last() == ignored@[i as int]);
        }
        let commit = &ignored[i].commit;
        out.append("#");
        out.append(commit.pr_number.as_str());
        out.append(" @");
        out.append(commit.author.as_str());
        out.append(": ");
        out.append(commit.message.as_str());
        out.append("\n");
        proof {
            assert(out@ =~= ignored_lines(ignored@.take(i as int + 1)));
        }
        i += 1;
    }
    proof {
        assert(ignored@.take(ignored.len() as int) =~= ignored@);
    }
    out
}

impl Changelog {
    /// Renders the report on `config`'s repository: the features, the
    /// fixes and the improvements. The ignored commits are left out.
    pub fn render(&self, config: &Config) -> (out: String)
        ensures
            out@ == report_text(
                self.features@,
                self.fixes@,
                self.improvements@,
                config.owner@,
                config.repo@,
            ),
    {
        let mut out = render_section("### Feature Enhancements", &self.features, config);
        out.append("\n");
        out.append(render_section("### Bug Fixes", &self.fixes, config).as_str());
        out.append("\n");
        out.append(render_section("### Internal Improvements", &self.improvements, config).as_str());
        out
    }
}

} // verus!
