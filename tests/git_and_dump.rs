use polytest::error::PolyError;
use polytest::git::{GitRemote, GitRemoteRef};
use polytest::target::{CustomTargetConfig, DefaultTarget, TargetConfig};
use polytest::text::{replace_all, trim_end_all};

#[test]
fn remote_from_https_url() {
    let r = GitRemote::from_url("https://github.com/acme/widgets.git").unwrap();
    assert_eq!(r.host, "github.com");
    assert_eq!(r.org, "acme");
    assert_eq!(r.repo, "widgets");
    assert_eq!(r.raw_uri, "https://github.com/acme/widgets.git");
}

#[test]
fn remote_from_ssh_url() {
    let r = GitRemote::from_url("git+ssh://git@github.com/acme/widgets").unwrap();
    assert_eq!(r.host, "github.com");
    assert_eq!(r.repo, "widgets");
    assert_eq!(r.raw_uri, "git+ssh://git@github.com/acme/widgets");
    assert!(matches!(GitRemote::from_url("https://github.com/acme"), Err(PolyError::InvalidGitUrl { .. })));
}

#[test]
fn remote_ref_defaults_to_main() {
    let r = GitRemoteRef::from_url("git+https://github.com/acme/widgets.git#v2").unwrap();
    assert_eq!(r.git_ref, "v2");
    assert_eq!(r.remote.repo, "widgets");
    assert_eq!(r.remote.raw_uri, "git+https://github.com/acme/widgets.git");
    let m = GitRemoteRef::from_url("https://example.org/a/b").unwrap();
    assert_eq!(m.git_ref, "main");
    assert_eq!(m.remote, GitRemote::from_url("https://example.org/a/b").unwrap());
}

#[test]
fn replacing_and_trimming() {
    assert_eq!(replace_all("aXbXXc", "X", "-"), "a-b--c");
    assert_eq!(replace_all("aaaa", "aa", "b"), "bb");
    assert_eq!(trim_end_all("repo.git.git", ".git"), "repo");
    assert_eq!(trim_end_all("repo", ".git"), "repo");
}

#[test]
fn default_target_dumps_as_custom_config() {
    let t = DefaultTarget::Vitest
        .build_target("vitest", &TargetConfig { out_dir: "tests/generated".to_string(), runners: None }, "/root")
        .unwrap();
    let c = CustomTargetConfig::from_target(t);
    assert_eq!(c.template_dir, "");
    assert_eq!(c.test_regex_template, "(?m)test\\(\"{{ name }}\",");
    assert_eq!(c.runners.len(), 1);
    assert_eq!(c.runners[0].0, "vitest");
    assert_eq!(c.runners[0].1.command.as_deref(), Some("npx vitest run --no-color --reporter verbose"));
    assert_eq!(c.runners[0].1.work_dir.as_deref(), Some("tests/generated"));
}
