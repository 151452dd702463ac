//! Targets: the test frameworks that stubs are generated for.
use vstd::prelude::*;
use crate::error::PolyError;
use crate::runner::{
    default_config_of, opt_str, DefaultRunner, Runner, RunnerConfig, RunnerConfigView, RunnerView, config_entries,
    lemma_runners_after_complete, lemma_runners_after_ok_any_dir, runner_entries,
    runners_after,
};
use crate::paths::{grandparent_dir, join_path};
use crate::text::{copy_text, same_text};

verus! {

/// A target framework: its templates, output directory and runners (in order, ids unique).
#[derive(Clone, Debug)]
pub struct Target {
    pub id: String,
    pub out_dir: String,
    pub test_regex_template: String,
    pub suite_file_name_template: String,
    pub suite_template: String,
    pub group_template: String,
    pub test_template: String,
    pub runners: Vec<(String, Runner)>,
}

/// Configuration of a built-in target.
#[derive(Clone, Debug)]
pub struct TargetConfig {
    pub out_dir: String,
    pub runners: Option<Vec<(String, RunnerConfig)>>,
}

/// Configuration of a target that the configuration defines in full.
#[derive(Clone, Debug)]
pub struct CustomTargetConfig {
    pub out_dir: String,
    pub test_regex_template: String,
    pub suite_file_name_template: String,
    pub template_dir: String,
    pub runners: Vec<(String, RunnerConfig)>,
}

/// The three code templates of a target.
#[derive(Clone, Copy, Debug, PartialEq, Eq, Structural)]
pub enum TemplateType {
    Suite,
    Group,
    Test,
}

/// The built-in targets.
#[derive(Clone, Copy, Debug, PartialEq, Eq, Structural)]
pub enum DefaultTarget {
    Pytest,
    Bun,
    Vitest,
    Swift,
}

/// The built-in target of an id.
pub open spec fn default_target_named(s: Seq<char>) -> Option<DefaultTarget> {
    if s == "pytest"@ {
        Some(DefaultTarget::Pytest)
    } else if s == "bun"@ {
        Some(DefaultTarget::Bun)
    } else if s == "vitest"@ {
        Some(DefaultTarget::Vitest)
    } else if s == "swift"@ {
        Some(DefaultTarget::Swift)
    } else {
        None
    }
}

pub open spec fn default_target_name(t: DefaultTarget) -> Seq<char> {
    match t {
        DefaultTarget::Pytest => "pytest"@,
        DefaultTarget::Bun => "bun"@,
        DefaultTarget::Vitest => "vitest"@,
        DefaultTarget::Swift => "swift"@,
    }
}

pub open spec fn default_runner_of(t: DefaultTarget) -> DefaultRunner {
    match t {
        DefaultTarget::Pytest => DefaultRunner::Pytest,
        DefaultTarget::Bun => DefaultRunner::BunTest,
        DefaultTarget::Vitest => DefaultRunner::Vitest,
        DefaultTarget::Swift => DefaultRunner::XcodebuildMacOS,
    }
}

/// The test-existence regex template and the suite-file-name template of a built-in target.
pub open spec fn default_target_patterns(t: DefaultTarget) -> (Seq<char>, Seq<char>) {
    match t {
        DefaultTarget::Pytest => (
            "(?m)def test_{{ name | convert_case('Snake') }}\\("@,
            "test_{{ suite.name | convert_case('Snake') }}.py"@,
        ),
        DefaultTarget::Bun => ("(?m)test\\(\"{{ name }}\","@, "{{ suite.name | convert_case('Snake') }}.test.ts"@),
        DefaultTarget::Vitest => ("(?m)test\\(\"{{ name }}\","@, "{{ suite.name | convert_case('Snake') }}.test.ts"@),
        DefaultTarget::Swift => (
            "(?m)@Test\\(\".+: {{ name }}\""@,
            "{{ suite.name | convert_case('Pascal') }}Tests.swift"@,
        ),
    }
}

pub open spec fn pytest_template(k: TemplateType) -> Seq<char> {
    match k {
        TemplateType::Suite => "# Polytest Suite: {{ suite.name }}\n"@,
        TemplateType::Group => "\n# Polytest Group: {{ group.name }}\n"@,
        TemplateType::Test => "\n\ndef test_{{ test.name | convert_case('Snake') }}():\n    \"\"\"{{ test.desc }}\"\"\"\n    raise NotImplementedError(\"TODO\")\n"@,
    }
}

pub open spec fn bun_template(k: TemplateType) -> Seq<char> {
    match k {
        TemplateType::Suite => "import { describe, expect, test } from \"bun:test\";\n\ndescribe(\"{{ suite.name }}\", () => { // Polytest Suite: {{ suite.name }}\n});\n"@,
        TemplateType::Group => "\n  describe(\"{{ group.name }}\", () => { // Polytest Group: {{ group.name }}\n  });\n"@,
        TemplateType::Test => "\n    test(\"{{ test.name }}\", () => {\n      // {{ test.desc }}\n      expect(\"TODO\").toBe(\"done\");\n    });\n"@,
    }
}

pub open spec fn vitest_template(k: TemplateType) -> Seq<char> {
    match k {
        TemplateType::Suite => "import { describe, expect, test } from \"vitest\";\n\ndescribe(\"{{ suite.name }}\", () => { // Polytest Suite: {{ suite.name }}\n});\n"@,
        TemplateType::Group => "\n  describe(\"{{ group.name }}\", () => { // Polytest Group: {{ group.name }}\n  });\n"@,
        TemplateType::Test => "\n    test(\"{{ test.name }}\", () => {\n      // {{ test.desc }}\n      expect(\"TODO\").toBe(\"done\");\n    });\n"@,
    }
}

pub open spec fn swift_template(k: TemplateType) -> Seq<char> {
    match k {
        TemplateType::Suite => "import Testing\n\n@Suite(\"{{ suite.name }}\") struct {{ suite.name | convert_case('Pascal') }}Tests { // Polytest Suite: {{ suite.name }}\n}\n"@,
        TemplateType::Group => "\n  // Polytest Group: {{ group.name }}\n"@,
        TemplateType::Test => "\n\n  @Test(\"{{ group_name }}: {{ test.name }}\")\n  func {{ (group_name + \" \" + test.name) | convert_case('Camel') }}() throws {\n    // {{ test.desc }}\n    Issue.record(\"TODO\")\n  }\n"@,
    }
}

/// The built-in code template of a kind for a target.
pub open spec fn default_template(t: DefaultTarget, k: TemplateType) -> Seq<char> {
    match t {
        DefaultTarget::Pytest => pytest_template(k),
        DefaultTarget::Bun => bun_template(k),
        DefaultTarget::Vitest => vitest_template(k),
        DefaultTarget::Swift => swift_template(k),
    }
}

/// `t` is the built-in target `dt` under the id `id`, configured by
/// `config`, with output directory `out_dir`; its default runner is
/// configured for `grandparent` (see `default_config_of`).
pub open spec fn target_in(dt: DefaultTarget, id: Seq<char>, config: TargetConfig, out_dir: Seq<char>, grandparent: Option<Seq<char>>, t: Target) -> bool {
    let overrides = match config.runners {
        Some(v) => config_entries(v@),
        None => Seq::empty(),
    };
    let d = default_config_of(default_runner_of(dt), config.out_dir@, grandparent);
    &&& d is Some
    &&& t.id@ == id
    &&& t.out_dir@ == out_dir
    &&& (t.test_regex_template@, t.suite_file_name_template@) == default_target_patterns(dt)
    &&& t.suite_template@ == default_template(dt, TemplateType::Suite)
    &&& t.group_template@ == default_template(dt, TemplateType::Group)
    &&& t.test_template@ == default_template(dt, TemplateType::Test)
    &&& runners_after(seq![d->0] + overrides, out_dir, 1 + overrides.len() as int)
        == Ok::<Seq<(Seq<char>, RunnerView)>, (Seq<char>, crate::error::RunnerField)>(runner_entries(t.runners@))
}

/// `t` is the built-in target `dt` under the id `id`, configured by `config`,
/// for some directory two levels above the configured output directory.
pub open spec fn built_target(dt: DefaultTarget, id: Seq<char>, config: TargetConfig, t: Target) -> bool {
    exists|gp: Option<Seq<char>>| #[trigger] target_in(dt, id, config, t.out_dir@, gp, t)
}

impl DefaultTarget {
    /// The built-in target of `value`, if it names one.
    pub fn try_from(value: &str) -> (r: Result<DefaultTarget, PolyError>)
        ensures
            default_target_named(value@) is Some ==> r == Ok::<DefaultTarget, PolyError>(default_target_named(value@)->0),
            default_target_named(value@) is None ==> r is Err && r->Err_0 is UnsupportedTarget,
    {
        if same_text(value, "pytest") {
            Ok(DefaultTarget::Pytest)
        } else if same_text(value, "bun") {
            Ok(DefaultTarget::Bun)
        } else if same_text(value, "vitest") {
            Ok(DefaultTarget::Vitest)
        } else if same_text(value, "swift") {
            Ok(DefaultTarget::Swift)
        } else {
            Err(PolyError::UnsupportedTarget { id: copy_text(value) })
        }
    }

    /// The id of this target.
    pub fn name(&self) -> (r: String)
        ensures
            r@ == default_target_name(*self),
            default_target_named(r@) == Some(*self),
    {
        proof {
            reveal_strlit("pytest");
            reveal_strlit("bun");
            reveal_strlit("vitest");
            reveal_strlit("swift");
            assert("bun"@ != "pytest"@) by { assert("bun"@.len() != "pytest"@.len()); }
            assert("vitest"@ != "pytest"@) by { assert("vitest"@[0] != "pytest"@[0]); }
            assert("vitest"@ != "bun"@) by { assert("vitest"@.len() != "bun"@.len()); }
            assert("swift"@ != "pytest"@) by { assert("swift"@.len() != "pytest"@.len()); }
            assert("swift"@ != "bun"@) by { assert("swift"@.len() != "bun"@.len()); }
            assert("swift"@ != "vitest"@) by { assert("swift"@.len() != "vitest"@.len()); }
        }
        match self {
            DefaultTarget::Pytest => String::from_str("pytest"),
            DefaultTarget::Bun => String::from_str("bun"),
            DefaultTarget::Vitest => String::from_str("vitest"),
            DefaultTarget::Swift => String::from_str("swift"),
        }
    }

    pub fn default_runners(&self) -> (r: Vec<DefaultRunner>)
        ensures
            r@ == seq![default_runner_of(*self)],
    {
        let r = match self {
            DefaultTarget::Pytest => vec![DefaultRunner::Pytest],
            DefaultTarget::Bun => vec![DefaultRunner::BunTest],
            DefaultTarget::Vitest => vec![DefaultRunner::Vitest],
            DefaultTarget::Swift => vec![DefaultRunner::XcodebuildMacOS],
        };
        assert(r@ =~= seq![default_runner_of(*self)]);
        r
    }

    pub fn get_template_content(&self, tmpl_type: TemplateType) -> (r: String)
        ensures
            r@ == default_template(*self, tmpl_type),
    {
        let s = match self {
            DefaultTarget::Pytest => match tmpl_type {
                TemplateType::Suite => "# Polytest Suite: {{ suite.name }}\n",
                TemplateType::Group => "\n# Polytest Group: {{ group.name }}\n",
                TemplateType::Test => "\n\ndef test_{{ test.name | convert_case('Snake') }}():\n    \"\"\"{{ test.desc }}\"\"\"\n    raise NotImplementedError(\"TODO\")\n",
            },
            DefaultTarget::Bun => match tmpl_type {
                TemplateType::Suite => "import { describe, expect, test } from \"bun:test\";\n\ndescribe(\"{{ suite.name }}\", () => { // Polytest Suite: {{ suite.name }}\n});\n",
                TemplateType::Group => "\n  describe(\"{{ group.name }}\", () => { // Polytest Group: {{ group.name }}\n  });\n",
                TemplateType::Test => "\n    test(\"{{ test.name }}\", () => {\n      // {{ test.desc }}\n      expect(\"TODO\").toBe(\"done\");\n    });\n",
            },
            DefaultTarget::Vitest => match tmpl_type {
                TemplateType::Suite => "import { describe, expect, test } from \"vitest\";\n\ndescribe(\"{{ suite.name }}\", () => { // Polytest Suite: {{ suite.name }}\n});\n",
                TemplateType::Group => "\n  describe(\"{{ group.name }}\", () => { // Polytest Group: {{ group.name }}\n  });\n",
                TemplateType::Test => "\n    test(\"{{ test.name }}\", () => {\n      // {{ test.desc }}\n      expect(\"TODO\").toBe(\"done\");\n    });\n",
            },
            DefaultTarget::Swift => match tmpl_type {
                TemplateType::Suite => "import Testing\n\n@Suite(\"{{ suite.name }}\") struct {{ suite.name | convert_case('Pascal') }}Tests { // Polytest Suite: {{ suite.name }}\n}\n",
                TemplateType::Group => "\n  // Polytest Group: {{ group.name }}\n",
                TemplateType::Test => "\n\n  @Test(\"{{ group_name }}: {{ test.name }}\")\n  func {{ (group_name + \" \" + test.name) | convert_case('Camel') }}() throws {\n    // {{ test.desc }}\n    Issue.record(\"TODO\")\n  }\n",
            },
        };
        String::from_str(s)
    }

    fn patterns(&self) -> (r: (&'static str, &'static str))
        ensures
            (r.0@, r.1@) == default_target_patterns(*self),
    {
        match self {
            DefaultTarget::Pytest => (
                "(?m)def test_{{ name | convert_case('Snake') }}\\(",
                "test_{{ suite.name | convert_case('Snake') }}.py",
            ),
            DefaultTarget::Bun => ("(?m)test\\(\"{{ name }}\",", "{{ suite.name | convert_case('Snake') }}.test.ts"),
            DefaultTarget::Vitest => ("(?m)test\\(\"{{ name }}\",", "{{ suite.name | convert_case('Snake') }}.test.ts"),
            DefaultTarget::Swift => (
                "(?m)@Test\\(\".+: {{ name }}\"",
                "{{ suite.name | convert_case('Pascal') }}Tests.swift",
            ),
        }
    }

    /// The built-in target under the id `id` with output directory
    /// `out_dir`: its own templates, and its default runner (configured for
    /// `grandparent`, see `default_config_of`) with the configured runners
    /// layered after it.
    pub fn build_target_in(&self, id: &str, config: &TargetConfig, out_dir: &str, grandparent: Option<&str>) -> (r: Result<Target, PolyError>)
        ensures
            r is Ok <==> default_config_of(default_runner_of(*self), config.out_dir@, opt_str(grandparent)) is Some,
            r is Ok ==> target_in(*self, id@, *config, out_dir@, opt_str(grandparent), r->Ok_0),
            r is Err ==> r->Err_0 is NoGrandparent,
    {
        let runner = default_runner_for(*self);
        let default_cfg = match runner.default_config_in(config, grandparent) {
            Ok(c) => c,
            Err(e) => return Err(e),
        };
        let pair = default_cfg.into_pair();
        let ghost d = pair.1@;
        let ghost rid = pair.0@;
        let defaults = vec![pair];
        assert(config_entries(defaults@) =~= seq![(rid, d)]);
        let none: Vec<(String, RunnerConfig)> = Vec::new();
        let overrides = match &config.runners {
            Some(v) => v,
            None => &none,
        };
        assert(config_entries(none@) =~= Seq::<(Seq<char>, RunnerConfigView)>::empty());
        proof {
            let entries = seq![(rid, d)] + config_entries(overrides@);
            assert(entries[0] == (rid, d));
            lemma_runners_after_complete(entries, out_dir@, entries.len() as int);
        }
        let runners = match Runner::from_configs(defaults, overrides, out_dir) {
            Ok(r) => r,
            Err(e) => return Err(e),
        };
        let (test_regex, file_name) = self.patterns();
        Ok(Target {
            id: copy_text(id),
            test_regex_template: String::from_str(test_regex),
            suite_file_name_template: String::from_str(file_name),
            out_dir: copy_text(out_dir),
            suite_template: self.get_template_content(TemplateType::Suite),
            group_template: self.get_template_content(TemplateType::Group),
            test_template: self.get_template_content(TemplateType::Test),
            runners,
        })
    }

    /// The built-in target under the id `id`: its output directory is the
    /// configured one resolved against `config_root`, and the Xcode runner
    /// of `swift` works two directories above the configured one.
    pub fn build_target(&self, id: &str, config: &TargetConfig, config_root: &str) -> (r: Result<Target, PolyError>)
        ensures
            r is Ok ==> built_target(*self, id@, *config, r->Ok_0),
            *self != DefaultTarget::Swift ==> r is Ok,
            r is Err ==> r->Err_0 is NoGrandparent,
    {
        let out_dir = join_path(config_root, config.out_dir.as_str());
        let gp = if *self == DefaultTarget::Swift { grandparent_dir(config.out_dir.as_str()) } else { None };
        let r = match &gp {
            Some(g) => self.build_target_in(id, config, out_dir.as_str(), Some(g.as_str())),
            None => self.build_target_in(id, config, out_dir.as_str(), None),
        };
        proof {
            if r is Ok {
                let t = r->Ok_0;
                let g = match gp { Some(g) => Some(g@), None => None };
                assert(target_in(*self, id@, *config, t.out_dir@, g, t));
            }
        }
        r
    }
}

fn default_runner_for(t: DefaultTarget) -> (r: DefaultRunner)
    ensures
        r == default_runner_of(t),
{
    match t {
        DefaultTarget::Pytest => DefaultRunner::Pytest,
        DefaultTarget::Bun => DefaultRunner::BunTest,
        DefaultTarget::Vitest => DefaultRunner::Vitest,
        DefaultTarget::Swift => DefaultRunner::XcodebuildMacOS,
    }
}

impl Target {
    /// The built-in target named by `id`; an id that names none is an error.
    pub fn from_config(config: &TargetConfig, id: &str, config_root: &str) -> (r: Result<Target, PolyError>)
        ensures
            default_target_named(id@) is None ==> r is Err && r->Err_0 is UnsupportedTarget,
            r is Ok ==> default_target_named(id@) is Some && built_target(default_target_named(id@)->0, id@, *config, r->Ok_0),
            default_target_named(id@) is Some && default_target_named(id@) != Some(DefaultTarget::Swift) ==> r is Ok,
    {
        let default_target = match DefaultTarget::try_from(id) {
            Ok(t) => t,
            Err(e) => return Err(e),
        };
        default_target.build_target(id, config, config_root)
    }

    /// A target that the configuration defines in full; its three code
    /// templates are the texts read from its template directory, and its
    /// output directory is `out_dir`.
    pub fn from_custom_config_in(config: &CustomTargetConfig, id: &str, out_dir: &str, suite_template: String, group_template: String, test_template: String) -> (r: Result<Target, PolyError>)
        ensures
            r is Ok ==> ({
                let t = r->Ok_0;
                &&& t.id@ == id@
                &&& t.out_dir@ == out_dir@
                &&& t.test_regex_template@ == "(?m)"@ + config.test_regex_template@
                &&& t.suite_file_name_template@ == config.suite_file_name_template@
                &&& t.suite_template@ == suite_template@
                &&& t.group_template@ == group_template@
                &&& t.test_template@ == test_template@
                &&& runners_after(config_entries(config.runners@), out_dir@, config.runners.len() as int)
                    == Ok::<Seq<(Seq<char>, RunnerView)>, (Seq<char>, crate::error::RunnerField)>(runner_entries(t.runners@))
            }),
            r is Ok <==> runners_after(config_entries(config.runners@), Seq::empty(), config.runners.len() as int) is Ok,
            r is Err ==> (r matches Err(PolyError::MissingRunnerField { runner, field })
                && Err::<Seq<(Seq<char>, RunnerView)>, (Seq<char>, crate::error::RunnerField)>((runner@, field))
                    == runners_after(config_entries(config.runners@), Seq::empty(), config.runners.len() as int)),
    {
        let none: Vec<(String, RunnerConfig)> = Vec::new();
        assert(config_entries(none@) + config_entries(config.runners@) =~= config_entries(config.runners@));
        proof {
            lemma_runners_after_ok_any_dir(config_entries(config.runners@), out_dir@, Seq::empty(), config.runners.len() as int);
        }
        let runners = match Runner::from_configs(none, &config.runners, out_dir) {
            Ok(r) => r,
            Err(e) => return Err(e),
        };
        Ok(Target {
            id: copy_text(id),
            test_regex_template: String::from_str("(?m)").concat(config.test_regex_template.as_str()),
            out_dir: copy_text(out_dir),
            suite_file_name_template: copy_text(config.suite_file_name_template.as_str()),
            suite_template,
            group_template,
            test_template,
            runners,
        })
    }
}

impl CustomTargetConfig {
    /// The configuration that describes `target` in full, for a target
    /// directory left empty: each runner becomes a layer that sets every field.
    pub fn from_target(target: Target) -> (r: CustomTargetConfig)
        ensures
            r.out_dir@ == target.out_dir@,
            r.test_regex_template@ == target.test_regex_template@,
            r.suite_file_name_template@ == target.suite_file_name_template@,
            r.template_dir@ == Seq::<char>::empty(),
            r.runners.len() == target.runners.len(),
            forall|i: int| 0 <= i < r.runners.len() ==> {
                let (id, c) = #[trigger] r.runners@[i];
                let (rid, runner) = target.runners@[i];
                &&& id@ == rid@
                &&& c@ == (RunnerConfigView {
                    command: Some(runner@.command),
                    fail_regex_template: Some(runner@.fail_regex_template),
                    pass_regex_template: Some(runner@.pass_regex_template),
                    env: runner@.env,
                    work_dir: Some(runner@.work_dir),
                })
            },
    {
        let mut runners: Vec<(String, RunnerConfig)> = Vec::new();
        let mut i: usize = 0;
        while i < target.runners.len()
            invariant
                i <= target.runners.len(),
                runners.len() == i,
                forall|k: int| 0 <= k < i ==> {
                    let (id, c) = #[trigger] runners@[k];
                    let (rid, runner) = target.runners@[k];
                    &&& id@ == rid@
                    &&& c@ == (RunnerConfigView {
                        command: Some(runner@.command),
                        fail_regex_template: Some(runner@.fail_regex_template),
                        pass_regex_template: Some(runner@.pass_regex_template),
                        env: runner@.env,
                        work_dir: Some(runner@.work_dir),
                    })
                },
            decreases target.runners.len() - i,
        {
            let (id, runner) = &target.runners[i];
            runners.push((copy_text(id.as_str()), RunnerConfig {
                command: Some(copy_text(runner.command.as_str())),
                fail_regex_template: Some(copy_text(runner.fail_regex_template.as_str())),
                pass_regex_template: Some(copy_text(runner.pass_regex_template.as_str())),
                env: crate::runner::copy_env(&runner.env),
                work_dir: Some(copy_text(runner.work_dir.as_str())),
            }));
            i = i + 1;
        }
        CustomTargetConfig {
            out_dir: target.out_dir,
            test_regex_template: target.test_regex_template,
            suite_file_name_template: target.suite_file_name_template,
            template_dir: String::new(),
            runners,
        }
    }
}

impl Target {
    /// A target that the configuration defines in full; its three code
    /// templates are the texts read from its template directory, and its
    /// output directory is the configured one resolved against `config_root`.
    pub fn from_custom_config(config: &CustomTargetConfig, id: &str, config_root: &str, suite_template: String, group_template: String, test_template: String) -> (r: Result<Target, PolyError>)
        ensures
            r is Ok ==> ({
                let t = r->Ok_0;
                &&& t.id@ == id@
                &&& t.test_regex_template@ == "(?m)"@ + config.test_regex_template@
                &&& t.suite_file_name_template@ == config.suite_file_name_template@
                &&& t.suite_template@ == suite_template@
                &&& t.group_template@ == group_template@
                &&& t.test_template@ == test_template@
                &&& runners_after(config_entries(config.runners@), t.out_dir@, config.runners.len() as int)
                    == Ok::<Seq<(Seq<char>, RunnerView)>, (Seq<char>, crate::error::RunnerField)>(runner_entries(t.runners@))
            }),
            r is Ok <==> runners_after(config_entries(config.runners@), Seq::empty(), config.runners.len() as int) is Ok,
            r is Err ==> (r matches Err(PolyError::MissingRunnerField { runner, field })
                && Err::<Seq<(Seq<char>, RunnerView)>, (Seq<char>, crate::error::RunnerField)>((runner@, field))
                    == runners_after(config_entries(config.runners@), Seq::empty(), config.runners.len() as int)),
    {
        let out_dir = join_path(config_root, config.out_dir.as_str());
        Target::from_custom_config_in(config, id, out_dir.as_str(), suite_template, group_template, test_template)
    }
}

} // verus!
