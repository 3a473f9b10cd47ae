//! Classification of a pull request by its labels.

use crate::commit::Commit;
use crate::json::{at_key, field, items, items_at, json_member, text, text_at};
use crate::text::{chars_of, same_text};
use serde_json::Value;
use vstd::prelude::*;

verus! {

/// The category of a pull request.
#[derive(Clone, Copy, Debug, PartialEq, Eq, Structural)]
pub enum PRKind {
    Feature,
    BugFix,
    Internal,
    Ignored,
}

/// A commit together with the category of its pull request.
#[derive(Debug, Clone, PartialEq, Eq)]
pub struct PR {
    pub commit: Commit,
    pub kind: PRKind,
}

/// The category that a label stands for, if it stands for one.
pub open spec fn kind_of_label(label: Seq<char>) -> Option<PRKind> {
    if label == "enhancement"@ {
        Some(PRKind::Feature)
    } else if label == "bug"@ {
        Some(PRKind::BugFix)
    } else if label == "Internal"@ {
        Some(PRKind::Internal)
    } else {
        None
    }
}

/// The category of the first label that stands for one; `Ignored` where
/// none does.
pub open spec fn kind_of_labels(labels: Seq<Seq<char>>) -> PRKind
    decreases labels.len(),
{
    if labels.len() == 0 {
        PRKind::Ignored
    } else {
        match kind_of_label(labels[0]) {
            Some(kind) => kind,
            None => kind_of_labels(labels.skip(1)),
        }
    }
}

/// The labels of a sequence as plain values.
pub open spec fn label_views(labels: Seq<String>) -> Seq<Seq<char>> {
    labels.map_values(|s: String| s@)
}

/// The label edges of a response to the labels query.
pub open spec fn label_edges(response: Value) -> Option<Seq<Value>> {
    items_at(
        at_key(
            at_key(
                at_key(at_key(json_member(response, "data"@), "repository"@), "pullRequest"@),
                "labels"@,
            ),
            "edges"@,
        ),
    )
}

/// The name that a label edge holds, if it holds one.
pub open spec fn label_name(edge: Value) -> Option<Seq<char>> {
    text_at(at_key(json_member(edge, "node"@), "name"@))
}

/// The names that the edges hold, in their order; an edge without a name
/// gives none.
pub open spec fn names_of(edges: Seq<Value>) -> Seq<Seq<char>>
    decreases edges.len(),
{
    if edges.len() == 0 {
        Seq::empty()
    } else {
        let before = names_of(edges.drop_last());
        match label_name(edges.last()) {
            Some(name) => before.push(name),
            None => before,
        }
    }
}

/// The first match wins: where the label at `at` stands for a category
/// and no label before it does, that category is the result, whatever
/// follows.
pub proof fn lemma_first_match_wins(labels: Seq<Seq<char>>, at: int)
    requires
        0 <= at < labels.len(),
        kind_of_label(labels[at]) is Some,
        forall|j: int| 0 <= j < at ==> kind_of_label(#[trigger] labels[j]) is None,
    ensures
        Some(kind_of_labels(labels)) == kind_of_label(labels[at]),
    decreases at,
{
    if at > 0 {
        let rest = labels.skip(1);
        assert(kind_of_label(labels[0]) is None);
        assert(rest[at - 1] == labels[at]);
        assert forall|j: int| 0 <= j < at - 1 implies kind_of_label(#[trigger] rest[j]) is None by {
            assert(rest[j] == labels[j + 1]);
        }
        lemma_first_match_wins(rest, at - 1);
    }
}

/// Where no label stands for a category, and so where there is no label,
/// the result is `Ignored`.
pub proof fn lemma_no_match_is_ignored(labels: Seq<Seq<char>>)
    requires
        forall|j: int| 0 <= j < labels.len() ==> kind_of_label(#[trigger] labels[j]) is None,
    ensures
        kind_of_labels(labels) == PRKind::Ignored,
    decreases labels.len(),
{
    if labels.len() > 0 {
        let rest = labels.skip(1);
        assert(kind_of_label(labels[0]) is None);
        assert forall|j: int| 0 <= j < rest.len() implies kind_of_label(#[trigger] rest[j]) is None by {
            assert(rest[j] == labels[j + 1]);
        }
        lemma_no_match_is_ignored(rest);
    }
}

/// The category that a label stands for, if it stands for one.
pub fn label_kind(label: &str) -> (kind: Option<PRKind>)
    ensures
        kind == kind_of_label(label@),
{
    let chars = chars_of(label);
    if same_text(&chars, &chars_of("enhancement")) {
        Some(PRKind::Feature)
    } else if same_text(&chars, &chars_of("bug")) {
        Some(PRKind::BugFix)
    } else if same_text(&chars, &chars_of("Internal")) {
        Some(PRKind::Internal)
    } else {
        None
    }
}

/// The category of a pull request with these labels: that of the first
/// label that stands for one.
pub fn classify(labels: &Vec<String>) -> (kind: PRKind)
    ensures
        kind == kind_of_labels(label_views(labels@)),
{
    let ghost all = label_views(labels@);
    let mut i: usize = 0;
    proof {
        assert(all.skip(0) =~= all);
    }
    while i < labels.len()
        invariant
            i <= labels.len(),
            all == label_views(labels@),
            kind_of_labels(all) == kind_of_labels(all.skip(i as int)),
        decreases labels.len() - i,
    {
        proof {
            assert(all.skip(i as int)[0] == labels@[i as int]@);
            assert(all.skip(i as int).skip(1) =~= all.skip(i as int + 1));
        }
        match label_kind(labels[i].as_str()) {
            Some(kind) => {
                return kind;
            },
            None => {},
        }
        i += 1;
    }
    PRKind::Ignored
}

/// The label names in a response to the labels query; `None` where the
/// response cannot be navigated.
pub fn label_names(response: &Value) -> (names: Option<Vec<String>>)
    ensures
        match names {
            Some(found) => label_edges(*response) matches Some(edges) && label_views(found@)
                == names_of(edges),
            None => label_edges(*response) is None,
        },
{
    let labels = field(
        field(field(field(Some(response), "data"), "repository"), "pullRequest"),
        "labels",
    );
    let edges = match items(field(labels, "edges")) {
        Some(e) => e,
        None => {
            return None;
        },
    };
    let mut found: Vec<String> = Vec::new();
    let mut i: usize = 0;
    proof {
        assert(label_views(found@) =~= names_of(edges@.take(0)));
    }
    while i < edges.len()
        invariant
            i <= edges.len(),
            label_views(found@) == names_of(edges@.take(i as int)),
        decreases edges.len() - i,
    {
        proof {
            assert(edges@.take(i as int + 1).drop_last() =~= edges@.take(i as int));
            assert(edges@.take(i as int + 1).last() == edges@[i as int]);
        }
        let ghost before = found@;
        match text(field(field(Some(&edges[i]), "node"), "name")) {
            Some(name) => {
                found.push(name);
                proof {
                    assert(label_views(found@) =~= label_views(before).push(name@));
                }
            },
            None => {},
        }
        i += 1;
    }
    proof {
        assert(edges@.take(edges.len() as int) =~= edges@);
    }
    Some(found)
}

/// Classifies a commit from the response to the labels query for its pull
/// request. Fails where the response cannot be navigated.
pub fn pr_from_commit(commit: Commit, response: &Value) -> (result: Result<PR, ()>)
    ensures
        match result {
            Ok(pr) => label_edges(*response) matches Some(edges) && pr.commit == commit
                && pr.kind == kind_of_labels(names_of(edges)),
            Err(_) => label_edges(*response) is None,
        },
{
    match label_names(response) {
        Some(names) => Ok(PR { commit, kind: classify(&names) }),
        None => Err(()),
    }
}

} // verus!
