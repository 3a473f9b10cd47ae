use changelog_gen::classify::{classify, label_kind, label_names, pr_from_commit, PRKind, PR};
use changelog_gen::commit::Commit;
use changelog_gen::time::Timestamp;
use serde_json::Value;

fn commit(number: &str) -> Commit {
    Commit {
        author: "alice".to_string(),
        message: "Fix bug".to_string(),
        pr_number: number.to_string(),
        date: Timestamp { seconds: 1672531200, nanos: 0, offset: 0 },
    }
}

fn labels(names: &[&str]) -> Vec<String> {
    names.iter().map(|n| n.to_string()).collect()
}

fn labels_response(names: &[&str]) -> Value {
    let edges: Vec<String> =
        names.iter().map(|n| format!("{{\"node\": {{\"name\": \"{}\"}}}}", n)).collect();
    let text = format!(
        "{{\"data\": {{\"repository\": {{\"pullRequest\": {{\"labels\": {{\"edges\": [{}]}}}}}}}}}}",
        edges.join(", ")
    );
    serde_json::from_str(&text).unwrap()
}

#[test]
fn label_mapping() {
    assert_eq!(label_kind("enhancement"), Some(PRKind::Feature));
    assert_eq!(label_kind("bug"), Some(PRKind::BugFix));
    assert_eq!(label_kind("Internal"), Some(PRKind::Internal));
    assert_eq!(label_kind("internal"), None);
    assert_eq!(label_kind("Bug"), None);
    assert_eq!(label_kind("wontfix"), None);
    assert_eq!(label_kind(""), None);
}

#[test]
fn classification_first_match() {
    assert_eq!(classify(&labels(&["Internal", "bug"])), PRKind::Internal);
    assert_eq!(classify(&labels(&["bug", "Internal"])), PRKind::BugFix);
    assert_eq!(classify(&labels(&["wontfix", "enhancement", "bug"])), PRKind::Feature);
}

#[test]
fn classification_default() {
    assert_eq!(classify(&labels(&["wontfix"])), PRKind::Ignored);
    assert_eq!(classify(&labels(&[])), PRKind::Ignored);
}

#[test]
fn classification_from_response() {
    let pr = pr_from_commit(commit("42"), &labels_response(&["Internal", "bug"])).unwrap();
    assert_eq!(pr, PR { commit: commit("42"), kind: PRKind::Internal });
    let pr = pr_from_commit(commit("42"), &labels_response(&["wontfix"])).unwrap();
    assert_eq!(pr.kind, PRKind::Ignored);
    let pr = pr_from_commit(commit("42"), &labels_response(&[])).unwrap();
    assert_eq!(pr.kind, PRKind::Ignored);
}

#[test]
fn classification_fails_on_unnavigable_response() {
    let value: Value = serde_json::from_str("{\"data\": {\"repository\": {\"pullRequest\": null}}}").unwrap();
    assert_eq!(pr_from_commit(commit("42"), &value), Err(()));
    let value: Value = serde_json::from_str("{\"errors\": []}").unwrap();
    assert_eq!(pr_from_commit(commit("42"), &value), Err(()));
    let value: Value = serde_json::from_str(
        "{\"data\": {\"repository\": {\"pullRequest\": {\"labels\": {\"edges\": {}}}}}}",
    )
    .unwrap();
    assert_eq!(pr_from_commit(commit("42"), &value), Err(()));
}

#[test]
fn label_names_skip_edges_without_name() {
    let text = "{\"data\": {\"repository\": {\"pullRequest\": {\"labels\": {\"edges\": [{\"node\": {\"name\": \"a\"}}, {\"node\": {}}, {\"other\": 1}, {\"node\": {\"name\": 3}}, {\"node\": {\"name\": \"bug\"}}]}}}}}";
    let value: Value = serde_json::from_str(text).unwrap();
    assert_eq!(label_names(&value), Some(vec!["a".to_string(), "bug".to_string()]));
    assert_eq!(pr_from_commit(commit("1"), &value).unwrap().kind, PRKind::BugFix);
}
