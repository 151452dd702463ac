use polytest::document::{Document, DocumentConfig, TemplateSource};
use polytest::error::{PolyError, RunnerField};
use polytest::pattern::Pattern;
use polytest::plan::{Group, Suite, Test};
use polytest::render::Renderer;
use polytest::run::{classify, classify_output_with, command_line, pair_succeeded, Outcome, PairResult, Schedule};
use polytest::runner::{DefaultRunner, Runner, RunnerConfig};
use polytest::target::{DefaultTarget, Target, TargetConfig, CustomTargetConfig, TemplateType};

fn cfg(command: Option<&str>, fail: Option<&str>, pass: Option<&str>, work_dir: Option<&str>) -> RunnerConfig {
    RunnerConfig {
        command: command.map(|s| s.to_string()),
        fail_regex_template: fail.map(|s| s.to_string()),
        pass_regex_template: pass.map(|s| s.to_string()),
        env: None,
        work_dir: work_dir.map(|s| s.to_string()),
    }
}

#[test]
fn runner_layers_fall_back_field_by_field() {
    let defaults = vec![("main".to_string(), cfg(Some("run"), Some("F"), Some("P"), None))];
    let configs = vec![
        ("main".to_string(), cfg(Some("run fast"), None, None, None)),
        ("extra".to_string(), cfg(None, None, Some("OK"), Some("sub"))),
    ];
    let runners = Runner::from_configs(defaults, &configs, "/out").unwrap();
    assert_eq!(runners.len(), 2);
    assert_eq!(runners[0].0, "main");
    assert_eq!(runners[0].1.command, "run fast");
    assert_eq!(runners[0].1.fail_regex_template, "(?m)F");
    assert_eq!(runners[0].1.work_dir, "/out");
    assert_eq!(runners[1].0, "extra");
    assert_eq!(runners[1].1.command, "run fast");
    assert_eq!(runners[1].1.pass_regex_template, "(?m)OK");
    assert_eq!(runners[1].1.work_dir, "sub");
}

#[test]
fn runner_without_command_is_an_error() {
    let configs = vec![("r".to_string(), cfg(None, Some("F"), Some("P"), None))];
    match Runner::from_configs(vec![], &configs, "/out") {
        Err(PolyError::MissingRunnerField { runner, field }) => {
            assert_eq!(runner, "r");
            assert_eq!(field, RunnerField::Command);
        }
        other => panic!("unexpected: {:?}", other),
    }
}

#[test]
fn default_targets() {
    assert_eq!(DefaultTarget::try_from("bun").unwrap(), DefaultTarget::Bun);
    assert!(matches!(DefaultTarget::try_from("jest"), Err(PolyError::UnsupportedTarget { .. })));
    assert_eq!(DefaultTarget::Swift.name(), "swift");
    assert_eq!(DefaultTarget::Vitest.default_runners(), vec![DefaultRunner::Vitest]);
    assert!(DefaultTarget::Pytest.get_template_content(TemplateType::Group).contains("Polytest Group: {{ group.name }}"));
    let t = Target::from_config(&TargetConfig { out_dir: "tests/generated".to_string(), runners: None }, "pytest", "/p").unwrap();
    assert_eq!(t.id, "pytest");
    assert_eq!(t.runners.len(), 1);
    assert_eq!(t.runners[0].0, "pytest -v");
    assert_eq!(t.runners[0].1.work_dir, "tests/generated");
    assert!(t.runners[0].1.fail_regex_template.starts_with("(?m)"));
    assert!(matches!(Target::from_config(&TargetConfig { out_dir: "x".to_string(), runners: None }, "nope", "/p"), Err(PolyError::UnsupportedTarget { .. })));
}

#[test]
fn swift_runner_works_two_levels_up() {
    let tc = TargetConfig { out_dir: "Tests/App/Generated".to_string(), runners: None };
    let c = DefaultRunner::XcodebuildMacOS.get_default_config(&tc).unwrap();
    let (id, config) = c.into_pair();
    assert_eq!(id, "macOS");
    assert_eq!(config.work_dir, Some("Tests".to_string()));
    let flat = TargetConfig { out_dir: "gen".to_string(), runners: None };
    assert!(matches!(DefaultRunner::XcodebuildMacOS.get_default_config(&flat), Err(PolyError::NoGrandparent { .. })));
    let none = TargetConfig { out_dir: "".to_string(), runners: None };
    assert!(matches!(DefaultRunner::XcodebuildMacOS.get_default_config(&none), Err(PolyError::NoGrandparent { .. })));
}

#[test]
fn custom_target() {
    let c = CustomTargetConfig {
        out_dir: "gen".to_string(),
        test_regex_template: "it\\(\"{{ name }}\"".to_string(),
        suite_file_name_template: "{{ suite.name }}.spec.js".to_string(),
        template_dir: "tpl".to_string(),
        runners: vec![("mocha".to_string(), cfg(Some("npx mocha"), Some("F"), Some("P"), None))],
    };
    let t = Target::from_custom_config(&c, "mocha", "/p", "S".to_string(), "G".to_string(), "T".to_string()).unwrap();
    assert_eq!(t.test_regex_template, "(?m)it\\(\"{{ name }}\"");
    assert_eq!(t.suite_template, "S");
    assert_eq!(t.runners[0].1.command, "npx mocha");
}

fn plan() -> Vec<Suite> {
    vec![Suite {
        name: "smoke".to_string(),
        groups: vec![Group {
            name: "auth".to_string(),
            tests: vec![
                Test { name: "login".to_string(), desc: String::new(), exclude_targets: vec![] },
                Test { name: "logout".to_string(), desc: String::new(), exclude_targets: vec![] },
                Test { name: "skip me".to_string(), desc: String::new(), exclude_targets: vec!["bun".to_string()] },
            ],
            desc: String::new(),
        }],
    }]
}

fn bun_target() -> Target {
    DefaultTarget::Bun.build_target("bun", &TargetConfig { out_dir: "gen".to_string(), runners: None }, "/p").unwrap()
}

#[test]
fn fail_regex_wins_over_pass_regex() {
    let fail = Pattern::compile("login FAILED").unwrap();
    let pass = Pattern::compile("login").unwrap();
    assert_eq!(classify("x login FAILED y", &fail, &pass), Outcome::Failed);
    assert_eq!(classify("login ok", &fail, &pass), Outcome::Passed);
    assert_eq!(classify("nothing", &fail, &pass), Outcome::Unknown);
}

#[test]
fn bun_output_is_classified() {
    let renderer = Renderer::new("demo");
    let target = bun_target();
    let runner = &target.runners[0].1;
    let output = "(pass) smoke > auth > login [1.20ms]\n(fail) smoke > auth > logout [0.50ms]\n(pass) smoke > auth > logout\n";
    let findings = classify_output_with(&renderer, &target, runner, &plan(), output, '/').unwrap();
    assert_eq!(findings.len(), 1);
    assert_eq!(findings[0].test, "logout");
    assert_eq!(findings[0].outcome, Outcome::Failed);
    assert!(!pair_succeeded(true, &findings));
}

#[test]
fn unmatched_test_is_unknown_with_both_regexes() {
    let renderer = Renderer::new("demo");
    let target = bun_target();
    let runner = &target.runners[0].1;
    let output = "(pass) smoke > auth > login\n";
    let findings = classify_output_with(&renderer, &target, runner, &plan(), output, '/').unwrap();
    assert_eq!(findings.len(), 1);
    assert_eq!(findings[0].test, "logout");
    assert_eq!(findings[0].outcome, Outcome::Unknown);
    assert!(findings[0].fail_regex.starts_with("(?m)\\(fail\\) smoke > auth > logout"));
    assert!(findings[0].pass_regex.starts_with("(?m)\\(pass\\) smoke > auth > logout"));
    let all_pass = "(pass) smoke > auth > login\n(pass) smoke > auth > logout\n";
    let none = classify_output_with(&renderer, &target, runner, &plan(), all_pass, '/').unwrap();
    assert!(none.is_empty());
    assert!(pair_succeeded(true, &none));
    assert!(!pair_succeeded(false, &none));
}

#[test]
fn pytest_regexes_use_the_file_name() {
    let renderer = Renderer::new("demo");
    let target = DefaultTarget::Pytest.build_target("pytest", &TargetConfig { out_dir: "gen".to_string(), runners: None }, "/p").unwrap();
    let runner = &target.runners[0].1;
    let output = "test_smoke.py::test_login PASSED\ntest_smoke.py::test_logout FAILED\n";
    let mut p = plan();
    p[0].groups[0].tests.truncate(2);
    let findings = classify_output_with(&renderer, &target, runner, &p, output, '/').unwrap();
    assert_eq!(findings.len(), 1);
    assert_eq!(findings[0].outcome, Outcome::Failed);
    assert_eq!(renderer.render_suite_file_name_with(&target, &p[0], '/').unwrap(), "test_smoke.py");
}

#[test]
fn command_words() {
    let renderer = Renderer::new("my app");
    let target = DefaultTarget::Swift.build_target("swift", &TargetConfig { out_dir: "a/b/c".to_string(), runners: None }, "/p").unwrap();
    let (program, args) = command_line(&renderer, "macOS", &target.runners[0].1).unwrap();
    assert_eq!(program, "xcodebuild");
    assert_eq!(args, vec!["-scheme", "MyApp", "test", "-destination", "platform=macOS"]);
    let empty = Runner { command: "  ".to_string(), fail_regex_template: "F".to_string(), pass_regex_template: "P".to_string(), env: None, work_dir: ".".to_string() };
    assert!(matches!(command_line(&renderer, "e", &empty), Err(PolyError::EmptyCommand { .. })));
}

#[test]
fn completion_order_does_not_change_results() {
    let pairs = vec![("a".to_string(), "1".to_string()), ("b".to_string(), "2".to_string())];
    let result = |ok: bool, out: &str| PairResult { exit_ok: ok, status: String::new(), output: out.to_string() };
    let mut seq = Schedule::new(pairs.clone());
    seq.record(0, result(true, "first"));
    assert!(!seq.is_complete());
    seq.record(1, result(false, "second"));
    let mut par = Schedule::new(pairs);
    par.record(1, result(false, "second"));
    par.record(0, result(true, "first"));
    assert!(seq.is_complete() && par.is_complete());
    for i in 0..2 {
        let a = seq.result(i).as_ref().unwrap();
        let b = par.result(i).as_ref().unwrap();
        assert_eq!((a.exit_ok, &a.output), (b.exit_ok, &b.output));
        assert_eq!(seq.pair(i), par.pair(i));
    }
}

#[test]
fn documents() {
    let md = DocumentConfig { out_file: "plan.md".to_string(), template: None };
    let doc = Document::from_config(&md, "markdown", "/p").unwrap();
    assert_eq!(doc.out_file, "/p/plan.md");
    let text = match doc.template {
        TemplateSource::Text(t) => t,
        TemplateSource::File(_) => panic!("markdown has a built-in template"),
    };
    let renderer = Renderer::new("demo");
    let suites = plan();
    let groups = suites[0].groups.clone();
    let tests = groups[0].tests.clone();
    let out = renderer.generate_document(&text, "Demo Plan", &suites, &groups, &tests).unwrap();
    assert!(out.starts_with("# Demo Plan"));
    assert!(out.contains("## Suite: smoke"));
    assert!(out.contains("**logout**"));
    let named = DocumentConfig { out_file: "x.txt".to_string(), template: Some("t/x.jinja".to_string()) };
    match Document::from_config(&named, "other", "/p").unwrap().template {
        TemplateSource::File(path) => assert_eq!(path, "/p/t/x.jinja"),
        TemplateSource::Text(_) => panic!("a custom document names a file"),
    }
    let custom = DocumentConfig { out_file: "x.txt".to_string(), template: None };
    assert!(matches!(Document::from_config(&custom, "other", "/p"), Err(PolyError::DocumentTemplateMissing { .. })));
}

#[test]
fn suite_file_names() {
    let renderer = Renderer::new("demo");
    let target = DefaultTarget::Pytest.build_target("pytest", &TargetConfig { out_dir: "gen".to_string(), runners: None }, "/p").unwrap();
    assert_eq!(target.out_dir, "/p/gen");
    let suite = Suite { name: "Smoke Tests".to_string(), groups: vec![] };
    assert_eq!(renderer.render_suite_file_name(&target, &suite).unwrap(), "test_smoke_tests.py");
    let nested = Suite { name: "a/b".to_string(), groups: vec![] };
    assert_eq!(renderer.render_suite_file_name_with(&target, &nested, '/').unwrap(), "test_a_b.py");
    let swift = DefaultTarget::Swift.build_target("swift", &TargetConfig { out_dir: "x/y/z".to_string(), runners: None }, "/p").unwrap();
    assert_eq!(renderer.render_suite_file_name(&swift, &suite).unwrap(), "SmokeTestsTests.swift");
}

#[test]
fn test_regex_rendering() {
    let renderer = Renderer::new("demo");
    let target = DefaultTarget::Pytest.build_target("pytest", &TargetConfig { out_dir: "gen".to_string(), runners: None }, "/p").unwrap();
    assert_eq!(renderer.render_test_regex(&target, "User Login").unwrap(), "(?m)def test_user_login\\(");
    assert_eq!(renderer.render_all_tests_regex(&target).unwrap(), "(?m)def test_.*\\(");
    assert_eq!(renderer.render_cmd(&target.runners[0].1).unwrap(), "pytest -v");
}

#[test]
fn xcode_runner_in_given_directory() {
    let tc = TargetConfig { out_dir: "Tests/App/Generated".to_string(), runners: None };
    let (id, config) = DefaultRunner::XcodebuildMacOS.default_config_in(&tc, Some("Tests")).unwrap().into_pair();
    assert_eq!(id, "macOS");
    assert_eq!(config.work_dir, Some("Tests".to_string()));
    assert!(config.command.unwrap().starts_with("xcodebuild"));
    assert!(matches!(DefaultRunner::XcodebuildMacOS.default_config_in(&tc, None), Err(PolyError::NoGrandparent { .. })));
    let (_, py) = DefaultRunner::Pytest.default_config_in(&tc, None).unwrap().into_pair();
    assert_eq!(py.work_dir, Some("Tests/App/Generated".to_string()));
}

#[test]
fn targets_in_given_directory() {
    let tc = TargetConfig { out_dir: "a/b/c".to_string(), runners: None };
    let t = DefaultTarget::Swift.build_target_in("swift", &tc, "/out", Some("a")).unwrap();
    assert_eq!(t.out_dir, "/out");
    assert_eq!(t.runners[0].1.work_dir, "a");
    assert!(matches!(DefaultTarget::Swift.build_target_in("swift", &tc, "/out", None), Err(PolyError::NoGrandparent { .. })));
    let c = CustomTargetConfig {
        out_dir: "gen".to_string(),
        test_regex_template: "x".to_string(),
        suite_file_name_template: "f".to_string(),
        template_dir: "tpl".to_string(),
        runners: vec![("r".to_string(), cfg(Some("go"), Some("F"), Some("P"), None))],
    };
    let t = Target::from_custom_config_in(&c, "mine", "/elsewhere", "S".to_string(), "G".to_string(), "T".to_string()).unwrap();
    assert_eq!(t.out_dir, "/elsewhere");
    assert_eq!(t.runners[0].1.work_dir, "/elsewhere");
}

#[test]
fn empty_rendered_command_is_reported() {
    let renderer = Renderer::new("demo");
    let r = Runner { command: "{% if %}".to_string(), fail_regex_template: "F".to_string(), pass_regex_template: "P".to_string(), env: None, work_dir: ".".to_string() };
    assert!(matches!(command_line(&renderer, "x", &r), Err(PolyError::Template { .. })));
}
