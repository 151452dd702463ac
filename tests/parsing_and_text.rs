use polytest::case::{case_from_str, convert_case_filter, to_case, CaseStyle};
use polytest::parsing::{find_suite, get_group_comment, get_groups, get_suite_chunk, insert_after_keyword, replace_range};
use polytest::pattern::Pattern;
use polytest::config::{check_version, parse_u32, split_dots, validate_name, check_target_ids};
use polytest::error::{NameProblem, PolyError, VersionProblem};

#[test]
fn group_comment_text() {
    assert_eq!(get_group_comment("auth"), "Polytest Group: auth");
}

#[test]
fn groups_are_trimmed_and_ordered() {
    let text = "x\n# Polytest Group: auth  \r\nbody Polytest Group: inner\n// Polytest Group: api\n";
    assert_eq!(get_groups(text), vec!["auth".to_string(), "inner".to_string(), "api".to_string()]);
    assert!(get_groups("no groups here").is_empty());
}

#[test]
fn group_marker_later_on_same_line_is_not_a_second_group() {
    let text = "Polytest Group: a Polytest Group: b\n";
    assert_eq!(get_groups(text), vec!["a Polytest Group: b".to_string()]);
}

#[test]
fn suite_marker_search() {
    assert!(find_suite("# Polytest Suite: smoke\n", "smoke"));
    assert!(!find_suite("# Polytest Suite: other\n", "smoke"));
    assert!(!find_suite("", "smoke"));
}

#[test]
fn chunk_ends_at_next_suite_marker() {
    let text = "A Polytest Suite: one\nbody one\nPolytest Suite: two\nbody two";
    let chunk = get_suite_chunk(text, "one").unwrap();
    assert_eq!(chunk.content, "\nbody one\n");
    assert_eq!(chunk.start, 21);
    assert_eq!(chunk.end, 31);
    let last = get_suite_chunk(text, "two").unwrap();
    assert_eq!(last.content, "\nbody two");
    assert_eq!(last.end, text.chars().count());
    assert!(matches!(get_suite_chunk(text, "three"), Err(PolyError::SuiteMarkerMissing { .. })));
}

#[test]
fn chunk_offsets_count_characters() {
    let text = "é Polytest Suite: s\nü";
    let chunk = get_suite_chunk(text, "s").unwrap();
    assert_eq!(chunk.start, 19);
    assert_eq!(chunk.content, "\nü");
}

#[test]
fn insertion_goes_after_first_keyword() {
    assert_eq!(insert_after_keyword("a KEY b KEY c", "!", "KEY"), "a KEY! b KEY c");
    assert_eq!(replace_range("hello world", 6, 11, "there"), "hello there");
}

#[test]
fn case_names() {
    assert_eq!(case_from_str("Snake").unwrap(), CaseStyle::Snake);
    assert_eq!(case_from_str("ScreamingSnake").unwrap(), CaseStyle::UpperSnake);
    assert_eq!(case_from_str("UpperSnake").unwrap(), CaseStyle::UpperSnake);
    assert!(matches!(case_from_str("Sideways"), Err(PolyError::UnsupportedCase { .. })));
}

#[test]
fn case_conversion() {
    assert_eq!(to_case("User Login", CaseStyle::Snake), "user_login");
    assert_eq!(to_case("user login", CaseStyle::Pascal), "UserLogin");
    assert_eq!(convert_case_filter("smoke test", "Camel").unwrap(), "smokeTest");
    assert!(convert_case_filter("x", "Nope").is_err());
}

#[test]
fn patterns() {
    let p = Pattern::compile("def test_.*\\(").unwrap();
    assert!(p.is_match("def test_login():"));
    assert!(!p.is_match("def login():"));
    assert_eq!(p.find_all("def test_a(\ndef test_b(x)"), vec!["def test_a(".to_string(), "def test_b(".to_string()]);
    assert!(matches!(Pattern::compile("(unclosed"), Err(PolyError::InvalidPattern { .. })));
}

#[test]
fn names() {
    assert!(validate_name("user login-2_x", "Test").is_ok());
    assert!(matches!(validate_name("", "Suite"), Err(PolyError::InvalidName { problem: NameProblem::Empty, .. })));
    assert!(matches!(validate_name(" a", "Suite"), Err(PolyError::InvalidName { problem: NameProblem::EdgeSpace, .. })));
    assert!(matches!(validate_name("a ", "Suite"), Err(PolyError::InvalidName { problem: NameProblem::EdgeSpace, .. })));
    assert!(matches!(validate_name("a/b", "Group"), Err(PolyError::InvalidName { problem: NameProblem::InvalidCharacters, .. })));
}

#[test]
fn versions() {
    let v = |s: &str| Some(s.to_string());
    assert!(check_version(&v("0.4.0"), "0.4.2").is_ok());
    assert!(check_version(&v("0.4.2"), "0.4.2").is_ok());
    let problem = |r: Result<(), PolyError>| match r {
        Err(PolyError::Version { problem, .. }) => problem,
        other => panic!("unexpected: {:?}", other),
    };
    assert_eq!(problem(check_version(&None, "0.4.2")), VersionProblem::Missing);
    assert_eq!(problem(check_version(&v("0.4"), "0.4.2")), VersionProblem::NotThreeParts);
    assert_eq!(problem(check_version(&v("0.4.0"), "0.4")), VersionProblem::BinaryNotThreeParts);
    assert_eq!(problem(check_version(&v("0.x.0"), "0.4.2")), VersionProblem::NotANumber);
    assert_eq!(problem(check_version(&v("0.5.0"), "0.4.2")), VersionProblem::MajorMinorMismatch);
    assert_eq!(problem(check_version(&v("1.4.0"), "0.4.2")), VersionProblem::MajorMinorMismatch);
    assert_eq!(problem(check_version(&v("0.4.3"), "0.4.2")), VersionProblem::PatchTooHigh);
}

#[test]
fn numbers_and_pieces() {
    assert_eq!(parse_u32("42"), Some(42));
    assert_eq!(parse_u32("+7"), Some(7));
    assert_eq!(parse_u32("4294967295"), Some(4294967295));
    assert_eq!(parse_u32("4294967296"), None);
    assert_eq!(parse_u32(""), None);
    assert_eq!(parse_u32("+"), None);
    assert_eq!(parse_u32("-1"), None);
    assert_eq!(split_dots("1.2.3"), vec!["1", "2", "3"]);
    assert_eq!(split_dots("a..b."), vec!["a", "", "b", ""]);
    assert_eq!(split_dots(""), vec![""]);
}

#[test]
fn duplicate_target_ids() {
    let a = vec!["pytest".to_string(), "bun".to_string()];
    assert!(check_target_ids(&a, &vec!["mine".to_string()]).is_ok());
    match check_target_ids(&a, &vec!["bun".to_string()]) {
        Err(PolyError::DuplicateTarget { id }) => assert_eq!(id, "bun"),
        other => panic!("unexpected: {:?}", other),
    }
}
