use polytest::error::PolyError;
use polytest::plan::{Group, GroupConfig, Suite, SuiteConfig, Test, TestConfig};
use polytest::render::Renderer;
use polytest::target::{DefaultTarget, Target, TargetConfig};
use polytest::validate::validate_suite;

fn test(name: &str, excluded: &[&str]) -> Test {
    Test {
        name: name.to_string(),
        desc: String::new(),
        exclude_targets: excluded.iter().map(|s| s.to_string()).collect(),
    }
}

fn smoke_suite(logout_excluded: bool) -> Suite {
    let excl: &[&str] = if logout_excluded { &["pytest"] } else { &[] };
    Suite {
        name: "smoke".to_string(),
        groups: vec![Group {
            name: "auth".to_string(),
            tests: vec![test("login", &[]), test("logout", excl)],
            desc: String::new(),
        }],
    }
}

fn pytest_target() -> Target {
    let cfg = TargetConfig { out_dir: "tests/generated".to_string(), runners: None };
    DefaultTarget::Pytest.build_target("pytest", &cfg, "/project").unwrap()
}

#[test]
fn generated_file_holds_markers_and_stubs() {
    let renderer = Renderer::new("demo");
    let out = renderer.generate_suite(&pytest_target(), &smoke_suite(false), "").unwrap();
    assert!(out.contains("Polytest Suite: smoke"));
    assert_eq!(out.matches("Polytest Group: auth").count(), 1);
    assert_eq!(out.matches("def test_login(").count(), 1);
    assert_eq!(out.matches("def test_logout(").count(), 1);
}

#[test]
fn second_generation_is_identical() {
    let renderer = Renderer::new("demo");
    let target = pytest_target();
    let first = renderer.generate_suite(&target, &smoke_suite(false), "").unwrap();
    let second = renderer.generate_suite(&target, &smoke_suite(false), &first).unwrap();
    assert_eq!(first, second);
}

#[test]
fn excluded_test_is_not_generated_and_not_required() {
    let renderer = Renderer::new("demo");
    let target = pytest_target();
    let suite = smoke_suite(true);
    let out = renderer.generate_suite(&target, &suite, "").unwrap();
    assert!(out.contains("def test_login("));
    assert!(!out.contains("def test_logout("));
    assert!(validate_suite(&renderer, &target, &suite, &out).is_ok());
}

#[test]
fn hand_edited_body_survives_a_new_test() {
    let renderer = Renderer::new("demo");
    let target = pytest_target();
    let mut suite = smoke_suite(false);
    let first = renderer.generate_suite(&target, &suite, "").unwrap();
    let edited = first.replacen(
        "raise NotImplementedError(\"TODO\")",
        "assert login(\"alice\", \"secret\")",
        1,
    );
    suite.groups[0].tests.push(test("refresh", &[]));
    let second = renderer.generate_suite(&target, &suite, &edited).unwrap();
    assert!(second.contains("assert login(\"alice\", \"secret\")"));
    assert_eq!(second.matches("def test_refresh(").count(), 1);
    assert_eq!(second.matches("def test_login(").count(), 1);
    let stub_start = second.find("\n\ndef test_refresh(").unwrap();
    let stub_end = second[stub_start + 2..].find("\n\ndef ").map(|i| i + stub_start + 2).unwrap();
    let without: String = format!("{}{}", &second[..stub_start], &second[stub_end..]);
    assert_eq!(without, edited);
}

#[test]
fn fresh_file_validates() {
    let renderer = Renderer::new("demo");
    let target = pytest_target();
    let suite = smoke_suite(false);
    let out = renderer.generate_suite(&target, &suite, "").unwrap();
    assert!(validate_suite(&renderer, &target, &suite, &out).is_ok());
}

#[test]
fn renamed_block_is_one_orphan() {
    let renderer = Renderer::new("demo");
    let target = pytest_target();
    let out = renderer.generate_suite(&target, &smoke_suite(false), "").unwrap();
    let renamed = out.replace("def test_logout(", "def test_signout(");
    let mut plan = smoke_suite(false);
    plan.groups[0].tests.truncate(1);
    match validate_suite(&renderer, &target, &plan, &renamed) {
        Err(PolyError::OrphanTests { suite, found }) => {
            assert_eq!(suite, "smoke");
            assert_eq!(found, vec!["def test_signout(".to_string()]);
        }
        other => panic!("unexpected: {:?}", other),
    }
}

#[test]
fn renamed_planned_test_is_missing() {
    let renderer = Renderer::new("demo");
    let target = pytest_target();
    let out = renderer.generate_suite(&target, &smoke_suite(false), "").unwrap();
    let renamed = out.replace("def test_logout(", "def test_signout(");
    match validate_suite(&renderer, &target, &smoke_suite(false), &renamed) {
        Err(PolyError::TestMissing { test, .. }) => assert_eq!(test, "logout"),
        other => panic!("unexpected: {:?}", other),
    }
}

#[test]
fn missing_suite_marker_fails_validation() {
    let renderer = Renderer::new("demo");
    let target = pytest_target();
    let r = validate_suite(&renderer, &target, &smoke_suite(false), "print('hello')\n");
    assert!(matches!(r, Err(PolyError::SuiteMarkerMissing { .. })));
}

#[test]
fn other_suites_text_is_kept() {
    let renderer = Renderer::new("demo");
    let target = pytest_target();
    let existing = "# Polytest Suite: other\nkeep me\n";
    let out = renderer.generate_suite(&target, &smoke_suite(false), existing).unwrap();
    assert!(out.starts_with(existing));
    assert!(out.contains("def test_login("));
}

#[test]
fn group_without_marker_in_template_is_an_error() {
    let renderer = Renderer::new("demo");
    let mut target = pytest_target();
    target.group_template = "\n# no marker here\n".to_string();
    let r = renderer.generate_suite(&target, &smoke_suite(false), "");
    match r {
        Err(PolyError::GroupMarkerMissing { suite, group }) => {
            assert_eq!(suite, "smoke");
            assert_eq!(group, "auth");
        }
        other => panic!("unexpected: {:?}", other),
    }
}

#[test]
fn bad_template_is_a_template_error() {
    let renderer = Renderer::new("demo");
    let mut target = pytest_target();
    target.test_template = "{% if %}".to_string();
    let r = renderer.generate_suite(&target, &smoke_suite(false), "");
    match r {
        Err(PolyError::Template { owner, subject, .. }) => {
            assert_eq!(owner, "pytest");
            assert_eq!(subject, "login");
        }
        other => panic!("unexpected: {:?}", other),
    }
}

#[test]
fn suite_resolves_groups_in_configuration_order() {
    let groups = vec![
        ("a".to_string(), GroupConfig { desc: None, tests: vec![("t1".to_string(), TestConfig { exclude_targets: vec![], desc: Some("d".to_string()) })] }),
        ("b".to_string(), GroupConfig { desc: Some("bee".to_string()), tests: vec![] }),
    ];
    let cfg = SuiteConfig { groups: vec!["b".to_string(), "a".to_string()] };
    let suite = Suite::from_config(&groups, &cfg, "s").unwrap();
    assert_eq!(suite.groups.len(), 2);
    assert_eq!(suite.groups[0].name, "a");
    assert_eq!(suite.groups[0].tests[0].desc, "d");
    assert_eq!(suite.groups[1].desc, "bee");
    let bad = SuiteConfig { groups: vec!["zzz".to_string()] };
    assert!(matches!(Suite::from_config(&groups, &bad, "s"), Err(PolyError::UnknownGroup { .. })));
}

#[test]
fn suite_template_without_marker_is_an_error() {
    let renderer = Renderer::new("demo");
    let mut target = pytest_target();
    target.suite_template = "# nothing here\n".to_string();
    let r = renderer.generate_suite(&target, &smoke_suite(false), "");
    assert!(matches!(r, Err(PolyError::SuiteMarkerMissing { .. })));
}
