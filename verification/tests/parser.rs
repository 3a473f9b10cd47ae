use changelog_gen::commit::{Commit, Config, RawEntry};
use changelog_gen::text::{chars_of, find, is_number, is_whitespace, same_text, slice_of, trim_range};
use changelog_gen::time::Timestamp;
use serde_json::Value;

fn config() -> Config {
    Config { owner: "boa-dev".to_string(), repo: "boa".to_string() }
}

fn entry_json(login: &str, message: &str, date: &str) -> Value {
    let mut user = serde_json::Map::new();
    user.insert("login".to_string(), Value::String(login.to_string()));
    let mut author = serde_json::Map::new();
    author.insert("user".to_string(), Value::Object(user));
    let mut node = serde_json::Map::new();
    node.insert("author".to_string(), Value::Object(author));
    node.insert("message".to_string(), Value::String(message.to_string()));
    node.insert("authoredDate".to_string(), Value::String(date.to_string()));
    let mut entry = serde_json::Map::new();
    entry.insert("node".to_string(), Value::Object(node));
    Value::Object(entry)
}

fn raw(login: &str, message: &str, date: &str) -> RawEntry {
    RawEntry {
        login: Some(login.to_string()),
        message: Some(message.to_string()),
        authored_date: Some(date.to_string()),
    }
}

const NEW_YEAR: &str = "2023-01-01T00:00:00+00:00";

#[test]
fn parser_round_trip() {
    let value = entry_json("alice", "Fix bug (#42)", NEW_YEAR);
    let commit = config().build_commit(&value).unwrap();
    assert_eq!(
        commit,
        Commit {
            author: "alice".to_string(),
            message: "Fix bug".to_string(),
            pr_number: "42".to_string(),
            date: Timestamp { seconds: 1672531200, nanos: 0, offset: 0 },
        }
    );
}

#[test]
fn parser_rejects_message_without_reference() {
    let value = entry_json("alice", "Fix bug", NEW_YEAR);
    assert_eq!(config().build_commit(&value), Err(()));
    assert_eq!(raw("alice", "Fix bug", NEW_YEAR).parse(), Err(()));
}

#[test]
fn parser_rejects_unclosed_reference() {
    assert_eq!(raw("alice", "Fix bug (#42", NEW_YEAR).parse(), Err(()));
}

#[test]
fn parser_rejects_number_that_is_not_digits() {
    assert_eq!(raw("alice", "Fix bug (#4x2)", NEW_YEAR).parse(), Err(()));
    assert_eq!(raw("alice", "Fix bug (#-1)", NEW_YEAR).parse(), Err(()));
}

#[test]
fn parser_rejects_bad_date() {
    assert_eq!(raw("alice", "Fix bug (#42)", "yesterday").parse(), Err(()));
    assert_eq!(raw("alice", "Fix bug (#42)", "2021-09-30T00:00:00").parse(), Err(()));
}

#[test]
fn parser_rejects_missing_fields() {
    let mut entry = raw("alice", "Fix bug (#42)", NEW_YEAR);
    entry.login = None;
    assert_eq!(entry.parse(), Err(()));
    let mut entry = raw("alice", "Fix bug (#42)", NEW_YEAR);
    entry.message = None;
    assert_eq!(entry.parse(), Err(()));
    let mut entry = raw("alice", "Fix bug (#42)", NEW_YEAR);
    entry.authored_date = None;
    assert_eq!(entry.parse(), Err(()));
}

#[test]
fn parser_rejects_entry_without_node() {
    let value: Value = serde_json::from_str("{\"other\": 1}").unwrap();
    assert_eq!(config().build_commit(&value), Err(()));
    let value: Value = serde_json::from_str("[1, 2]").unwrap();
    assert_eq!(config().build_commit(&value), Err(()));
}

#[test]
fn parser_rejects_login_that_is_no_text() {
    let text = "{\"node\": {\"author\": {\"user\": {\"login\": 7}}, \"message\": \"A (#1)\", \"authoredDate\": \"2023-01-01T00:00:00+00:00\"}}";
    let value: Value = serde_json::from_str(text).unwrap();
    assert_eq!(config().build_commit(&value), Err(()));
}

#[test]
fn parser_takes_first_line_only() {
    let commit = raw("bob", "Add thing (#7)\n\nBody (#99) text", NEW_YEAR).parse().unwrap();
    assert_eq!(commit.message, "Add thing");
    assert_eq!(commit.pr_number, "7");
    let commit = raw("bob", "Add thing (#8)\r\nBody", NEW_YEAR).parse().unwrap();
    assert_eq!(commit.message, "Add thing");
    assert_eq!(commit.pr_number, "8");
    assert_eq!(raw("bob", "Add thing\n(#7)", NEW_YEAR).parse(), Err(()));
    assert_eq!(raw("bob", "\nAdd thing (#7)", NEW_YEAR).parse(), Err(()));
}

#[test]
fn parser_uses_first_mark_and_first_bracket() {
    let commit = raw("bob", "Revert \"A (#5)\" (#6)", NEW_YEAR).parse().unwrap();
    assert_eq!(commit.message, "Revert \"A");
    assert_eq!(commit.pr_number, "5");
}

#[test]
fn parser_trims_title() {
    let commit = raw("bob", "  \tTidy up \u{a0}  (#12) trailing", NEW_YEAR).parse().unwrap();
    assert_eq!(commit.message, "Tidy up");
    assert_eq!(commit.pr_number, "12");
    let commit = raw("bob", " (#3)", NEW_YEAR).parse().unwrap();
    assert_eq!(commit.message, "");
    assert_eq!(commit.pr_number, "3");
}

#[test]
fn parser_accepts_empty_number() {
    let commit = raw("bob", "Odd (#)", NEW_YEAR).parse().unwrap();
    assert_eq!(commit.pr_number, "");
}

#[test]
fn parser_keeps_non_ascii_text() {
    let commit = raw("zoë", "Füge ñ hinzu – ok (#15)", NEW_YEAR).parse().unwrap();
    assert_eq!(commit.author, "zoë");
    assert_eq!(commit.message, "Füge ñ hinzu – ok");
    assert_eq!(commit.pr_number, "15");
}

#[test]
fn parser_reads_offset_dates() {
    let commit = raw("bob", "A (#1)", "2023-01-01T02:00:00+02:00").parse().unwrap();
    assert_eq!(commit.date, Timestamp { seconds: 1672531200, nanos: 0, offset: 7200 });
    let commit = raw("bob", "A (#1)", "1970-01-01T00:00:01.5Z").parse().unwrap();
    assert_eq!(commit.date, Timestamp { seconds: 1, nanos: 500_000_000, offset: 0 });
    let commit = raw("bob", "A (#1)", "1969-12-31T19:00:00-05:00").parse().unwrap();
    assert_eq!(commit.date, Timestamp { seconds: 0, nanos: 0, offset: -18000 });
}

#[test]
fn entry_is_read_from_document() {
    let entry = RawEntry::from_value(&entry_json("alice", "Fix bug (#42)", NEW_YEAR));
    assert_eq!(entry, raw("alice", "Fix bug (#42)", NEW_YEAR));
    let empty: Value = serde_json::from_str("{\"node\": {\"message\": \"m\"}}").unwrap();
    assert_eq!(
        RawEntry::from_value(&empty),
        RawEntry { login: None, message: Some("m".to_string()), authored_date: None }
    );
}

#[test]
fn empty_message_is_not_well_formed() {
    assert!(!raw("alice", "", NEW_YEAR).is_well_formed());
    assert!(raw("alice", "\n", NEW_YEAR).is_well_formed());
    let mut entry = raw("alice", "x", NEW_YEAR);
    entry.message = None;
    assert!(entry.is_well_formed());
}

#[test]
fn release_date_is_read_from_response() {
    let text = "{\"data\": {\"repository\": {\"latestRelease\": {\"tagCommit\": {\"committedDate\": \"2021-09-30T00:00:00Z\"}}}}}";
    let value: Value = serde_json::from_str(text).unwrap();
    assert_eq!(config().get_date_last_release(&value), Ok("2021-09-30T00:00:00Z".to_string()));
    let none: Value = serde_json::from_str("{\"data\": {\"repository\": {\"latestRelease\": null}}}").unwrap();
    assert_eq!(config().get_date_last_release(&none), Err(()));
}

#[test]
fn dependabot_is_recognised() {
    let mut commit = raw("dependabot[bot]", "Bump (#1)", NEW_YEAR).parse().unwrap();
    assert!(commit.by_dependabot());
    commit.author = "app/dependabot".to_string();
    assert!(commit.by_dependabot());
    commit.author = "dependabo".to_string();
    assert!(!commit.by_dependabot());
    commit.author = "alice".to_string();
    assert!(!commit.by_dependabot());
}

#[test]
fn find_gives_leftmost_occurrence() {
    let hay = chars_of("ab (# (#1)");
    assert_eq!(find(&hay, &chars_of(" (#")), Some(2));
    assert_eq!(find(&hay, &chars_of(")")), Some(9));
    assert_eq!(find(&hay, &chars_of("x")), None);
    assert_eq!(find(&hay, &chars_of("")), Some(0));
    assert_eq!(find(&chars_of(""), &chars_of("a")), None);
    assert_eq!(find(&chars_of("aab"), &chars_of("ab")), Some(1));
    assert_eq!(find(&chars_of("ab"), &chars_of("ab")), Some(0));
    assert_eq!(find(&chars_of("ab"), &chars_of("abc")), None);
}

#[test]
fn text_helpers() {
    assert_eq!(chars_of("añb"), vec!['a', 'ñ', 'b']);
    assert_eq!(slice_of(&chars_of("hello"), 1, 3), vec!['e', 'l']);
    assert!(same_text(&chars_of("bug"), &chars_of("bug")));
    assert!(!same_text(&chars_of("bug"), &chars_of("Bug")));
    assert!(!same_text(&chars_of("bug"), &chars_of("bugs")));
    assert!(is_number(&chars_of("0123456789")));
    assert!(is_number(&chars_of("")));
    assert!(!is_number(&chars_of("12a")));
    assert!(!is_number(&chars_of("١٢")));
    assert_eq!(trim_range(&chars_of("  ab  "), 6), (2, 4));
    assert_eq!(trim_range(&chars_of("  ab  "), 3), (2, 3));
    assert_eq!(trim_range(&chars_of("ab"), 2), (0, 2));
    let blank = trim_range(&chars_of("   "), 3);
    assert_eq!(blank.0, blank.1);
}

#[test]
fn whitespace_matches_std() {
    let mut code: u32 = 0;
    while code < 0x110000 {
        if let Some(c) = char::from_u32(code) {
            assert_eq!(is_whitespace(c), c.is_whitespace());
        }
        code += 1;
    }
}

#[test]
fn empty_message_builds_nothing() {
    let value = entry_json("alice", "", NEW_YEAR);
    assert_eq!(config().try_build_commit(&value), None);
    let value = entry_json("alice", "Fix bug (#42)", NEW_YEAR);
    assert_eq!(config().try_build_commit(&value), Some(config().build_commit(&value)));
    assert!(config().try_build_commit(&value).unwrap().is_ok());
    let value = entry_json("alice", "Fix bug", NEW_YEAR);
    assert_eq!(config().try_build_commit(&value), Some(Err(())));
}
