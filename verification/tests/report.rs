use changelog_gen::classify::{pr_from_commit, PRKind, PR};
use changelog_gen::commit::{Commit, Config};
use changelog_gen::pagination::{get_commits, history_entries};
use changelog_gen::report::{ignored_listing, insert_by_date, render_section, Changelog};
use changelog_gen::time::Timestamp;
use serde_json::Value;

fn config() -> Config {
    Config { owner: "boa-dev".to_string(), repo: "boa".to_string() }
}

fn pr(number: &str, seconds: i64, kind: PRKind) -> PR {
    PR {
        commit: Commit {
            author: "alice".to_string(),
            message: format!("Change {}", number),
            pr_number: number.to_string(),
            date: Timestamp { seconds, nanos: 0, offset: 0 },
        },
        kind,
    }
}

fn numbers(group: &[PR]) -> Vec<String> {
    group.iter().map(|p| p.commit.pr_number.clone()).collect()
}

#[test]
fn commit_renders_as_bullet_text() {
    let commit = Commit {
        author: "alice".to_string(),
        message: "Fix bug".to_string(),
        pr_number: "42".to_string(),
        date: Timestamp { seconds: 0, nanos: 0, offset: 0 },
    };
    assert_eq!(
        commit.render(&config()),
        "Fix bug by @alice in [#42](https://github.com/boa-dev/boa/pull/42)"
    );
    let other = Config { owner: "o".to_string(), repo: "r".to_string() };
    assert_eq!(commit.render(&other), "Fix bug by @alice in [#42](https://github.com/o/r/pull/42)");
}

#[test]
fn sort_stability() {
    let item1 = pr("1", 100, PRKind::Feature);
    let item2 = pr("2", 200, PRKind::Feature);
    let item3 = pr("3", 300, PRKind::Feature);
    let log = Changelog::collect(vec![item3.clone(), item1.clone(), item2.clone()]);
    assert_eq!(log.features, vec![item1, item2, item3]);
    let text = log.render(&config());
    let first = text.find("[#1]").unwrap();
    let second = text.find("[#2]").unwrap();
    let third = text.find("[#3]").unwrap();
    assert!(first < second && second < third);
}

#[test]
fn equal_dates_keep_arrival_order() {
    let log = Changelog::collect(vec![
        pr("a", 200, PRKind::BugFix),
        pr("b", 100, PRKind::BugFix),
        pr("c", 200, PRKind::BugFix),
        pr("d", 100, PRKind::BugFix),
    ]);
    assert_eq!(numbers(&log.fixes), vec!["b", "d", "a", "c"]);
}

#[test]
fn dates_order_by_instant_not_offset() {
    let mut early = pr("1", 100, PRKind::Internal);
    early.commit.date.offset = 7200;
    let mut late = pr("2", 100, PRKind::Internal);
    late.commit.date.nanos = 5;
    late.commit.date.offset = -7200;
    let log = Changelog::collect(vec![late.clone(), early.clone()]);
    assert_eq!(log.improvements, vec![early, late]);
}

#[test]
fn items_go_to_the_group_of_their_kind() {
    let log = Changelog::collect(vec![
        pr("1", 4, PRKind::Ignored),
        pr("2", 3, PRKind::Feature),
        pr("3", 2, PRKind::BugFix),
        pr("4", 1, PRKind::Internal),
        pr("5", 0, PRKind::Ignored),
        pr("6", 0, PRKind::Feature),
    ]);
    assert_eq!(numbers(&log.features), vec!["6", "2"]);
    assert_eq!(numbers(&log.fixes), vec!["3"]);
    assert_eq!(numbers(&log.improvements), vec!["4"]);
    assert_eq!(numbers(&log.ignored), vec!["1", "5"]);
    let mut same = Changelog::new();
    same.add(pr("1", 4, PRKind::Ignored));
    same.add(pr("2", 3, PRKind::Feature));
    same.add(pr("3", 2, PRKind::BugFix));
    same.add(pr("4", 1, PRKind::Internal));
    same.add(pr("5", 0, PRKind::Ignored));
    same.add(pr("6", 0, PRKind::Feature));
    assert_eq!(same, log);
}

#[test]
fn insert_by_date_puts_item_in_place() {
    let mut group = vec![pr("1", 10, PRKind::Feature), pr("3", 30, PRKind::Feature)];
    insert_by_date(&mut group, pr("2", 20, PRKind::Feature));
    assert_eq!(numbers(&group), vec!["1", "2", "3"]);
    insert_by_date(&mut group, pr("0", 5, PRKind::Feature));
    assert_eq!(numbers(&group), vec!["0", "1", "2", "3"]);
    insert_by_date(&mut group, pr("4", 30, PRKind::Feature));
    assert_eq!(numbers(&group), vec!["0", "1", "2", "3", "4"]);
}

#[test]
fn empty_report() {
    let log = Changelog::new();
    assert_eq!(
        log.render(&config()),
        "### Feature Enhancements\n\n\n### Bug Fixes\n\n\n### Internal Improvements\n\n"
    );
    assert_eq!(ignored_listing(&log.ignored), "");
    assert_eq!(render_section("### X", &vec![], &config()), "### X\n\n");
}

#[test]
fn report_text_is_exact() {
    let log = Changelog::collect(vec![
        pr("2", 20, PRKind::Feature),
        pr("1", 10, PRKind::Feature),
        pr("3", 5, PRKind::BugFix),
        pr("9", 1, PRKind::Ignored),
    ]);
    let expected = "### Feature Enhancements\n\n\
- Change 1 by @alice in [#1](https://github.com/boa-dev/boa/pull/1)\n\
- Change 2 by @alice in [#2](https://github.com/boa-dev/boa/pull/2)\n\
\n### Bug Fixes\n\n\
- Change 3 by @alice in [#3](https://github.com/boa-dev/boa/pull/3)\n\
\n### Internal Improvements\n\n";
    assert_eq!(log.render(&config()), expected);
    assert_eq!(ignored_listing(&log.ignored), "#9 @alice: Change 9\n");
}

fn history_response() -> Value {
    let text = "{\"data\": {\"repository\": {\"refs\": {\"edges\": [{\"node\": {\"target\": {\"history\": {\"edges\": [
        {\"node\": {\"author\": {\"user\": {\"login\": \"alice\"}}, \"message\": \"Fix crash (#11)\", \"authoredDate\": \"2023-01-03T00:00:00+00:00\"}},
        {\"node\": {\"author\": {\"user\": {\"login\": \"bob\"}}, \"message\": \"Direct push\", \"authoredDate\": \"2023-01-02T00:00:00+00:00\"}},
        {\"node\": {\"author\": {\"user\": {\"login\": \"carol\"}}, \"message\": \"Add feature (#10)\", \"authoredDate\": \"2023-01-01T00:00:00+00:00\"}}
    ]}}}}]}}}}";
    serde_json::from_str(text).unwrap()
}

fn labels_response(name: &str) -> Value {
    let text = format!(
        "{{\"data\": {{\"repository\": {{\"pullRequest\": {{\"labels\": {{\"edges\": [{{\"node\": {{\"name\": \"{}\"}}}}]}}}}}}}}}}",
        name
    );
    serde_json::from_str(&text).unwrap()
}

#[test]
fn end_to_end_scenario() {
    let now = Timestamp { seconds: 1_700_000_000, nanos: 0, offset: 0 };
    let pages = vec![history_entries(&history_response()), Some(vec![])];
    let commits = get_commits("2021-09-30T00:00:00", now, &pages).unwrap();
    assert_eq!(commits.len(), 2);
    let mut prs = Vec::new();
    for commit in commits {
        let response = if commit.pr_number == "10" {
            labels_response("enhancement")
        } else {
            labels_response("bug")
        };
        prs.push(pr_from_commit(commit, &response).unwrap());
    }
    let log = Changelog::collect(prs);
    assert_eq!(log.features.len(), 1);
    assert_eq!(log.fixes.len(), 1);
    assert_eq!(log.improvements.len(), 0);
    assert_eq!(log.ignored.len(), 0);
    let text = log.render(&config());
    let expected = "### Feature Enhancements\n\n\
- Add feature by @carol in [#10](https://github.com/boa-dev/boa/pull/10)\n\
\n### Bug Fixes\n\n\
- Fix crash by @alice in [#11](https://github.com/boa-dev/boa/pull/11)\n\
\n### Internal Improvements\n\n";
    assert_eq!(text, expected);
    assert!(!text.contains("Direct push"));
    assert!(!text.contains("bob"));
    assert_eq!(text.matches("\n- ").count(), 2);
}
