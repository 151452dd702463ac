//! Runners: how a target's generated tests are executed, layered from defaults
//! and explicit configuration.
use vstd::prelude::*;
use crate::error::{PolyError, RunnerField};
use crate::paths::grandparent_dir;
use crate::target::TargetConfig;
use crate::text::{copy_text, same_text};

verus! {

/// One layer of runner configuration; an absent field falls back to the layer beneath.
#[derive(Clone, Debug)]
pub struct RunnerConfig {
    pub command: Option<String>,
    pub fail_regex_template: Option<String>,
    pub pass_regex_template: Option<String>,
    pub env: Option<Vec<(String, String)>>,
    pub work_dir: Option<String>,
}

/// A fully resolved runner.
#[derive(Clone, Debug)]
pub struct Runner {
    pub command: String,
    pub fail_regex_template: String,
    pub pass_regex_template: String,
    pub env: Option<Vec<(String, String)>>,
    pub work_dir: String,
}

/// The configuration of a built-in runner, under its id.
#[derive(Clone, Debug)]
pub struct DefaultRunnerConfig {
    id: String,
    config: RunnerConfig,
}

impl DefaultRunnerConfig {
    pub closed spec fn id_view(&self) -> Seq<char> {
        self.id@
    }

    pub closed spec fn config_view(&self) -> RunnerConfigView {
        self.config@
    }

    pub fn into_pair(self) -> (r: (String, RunnerConfig))
        ensures
            r.0@ == self.id_view(),
            r.1@ == self.config_view(),
    {
        (self.id, self.config)
    }
}

/// The built-in runners.
#[derive(Clone, Copy, Debug, PartialEq, Eq, Structural)]
pub enum DefaultRunner {
    Pytest,
    BunTest,
    Vitest,
    XcodebuildMacOS,
}

/// Id, command, fail regex template and pass regex template of a built-in runner.
pub open spec fn default_runner_texts(r: DefaultRunner) -> (Seq<char>, Seq<char>, Seq<char>, Seq<char>) {
    match r {
        DefaultRunner::Pytest => (
            "pytest -v"@,
            "pytest -v"@,
            "{{ file_name }}::test_{{ test_name | convert_case('Snake') }} FAILED"@,
            "{{ file_name }}::test_{{ test_name | convert_case('Snake') }} PASSED"@,
        ),
        DefaultRunner::BunTest => (
            "bun test"@,
            "bun test"@,
            "\\(fail\\) {{ suite_name }} > {{ group_name }} > {{ test_name }}( \\[\\d+\\.\\d+ms])*$"@,
            "\\(pass\\) {{ suite_name }} > {{ group_name }} > {{ test_name }}( \\[\\d+\\.\\d+ms])*$"@,
        ),
        DefaultRunner::Vitest => (
            "vitest"@,
            "npx vitest run --no-color --reporter verbose"@,
            "FAIL  {{ file_name }} > {{ suite_name }} > {{ group_name }} > {{ test_name }}"@,
            "\u{2713} {{ file_name }} > {{ suite_name }} > {{ group_name }} > {{ test_name }}"@,
        ),
        DefaultRunner::XcodebuildMacOS => (
            "macOS"@,
            "xcodebuild -scheme {{ package_name | convert_case('Pascal') }} test -destination \"platform=macOS\""@,
            "Failing tests:(.|\\W)*{{ (suite_name + \" \" + test_name) | convert_case('Camel') }}\\(\\)(.|\\W)*** TEST FAILED **"@,
            "\"{{ suite_name }}: {{ test_name }}\" passed"@,
        ),
    }
}

pub open spec fn opt_str(o: Option<&str>) -> Option<Seq<char>> {
    match o {
        Some(s) => Some(s@),
        None => None,
    }
}

/// The id and configuration of a built-in runner for the configured output
/// directory `out_dir`; the Xcode runner works in `grandparent`, and there is
/// none where that is absent.
pub open spec fn default_config_of(r: DefaultRunner, out_dir: Seq<char>, grandparent: Option<Seq<char>>) -> Option<(Seq<char>, RunnerConfigView)> {
    let (id, command, fail, pass) = default_runner_texts(r);
    let work_dir = if r == DefaultRunner::XcodebuildMacOS { grandparent } else { Some(out_dir) };
    match work_dir {
        None => None,
        Some(w) => Some((id, RunnerConfigView {
            command: Some(command),
            fail_regex_template: Some(fail),
            pass_regex_template: Some(pass),
            env: None,
            work_dir: Some(w),
        })),
    }
}

impl DefaultRunner {
    /// The configuration of this runner for a target configured by
    /// `target_config`; it works in the configured output directory. The
    /// Xcode runner works in `grandparent`, the directory two levels above
    /// that one, and fails where there is none.
    pub fn default_config_in(&self, target_config: &TargetConfig, grandparent: Option<&str>) -> (r: Result<DefaultRunnerConfig, PolyError>)
        ensures
            ({
                let want = default_config_of(*self, target_config.out_dir@, opt_str(grandparent));
                &&& r is Ok <==> want is Some
                &&& r is Ok ==> (r->Ok_0.id_view(), r->Ok_0.config_view()) == want->0
                &&& r is Err ==> r->Err_0 is NoGrandparent
            }),
    {
        let out_dir = target_config.out_dir.as_str();
        let (id, command, fail, pass, work_dir) = match self {
            DefaultRunner::Pytest => (
                "pytest -v",
                "pytest -v",
                "{{ file_name }}::test_{{ test_name | convert_case('Snake') }} FAILED",
                "{{ file_name }}::test_{{ test_name | convert_case('Snake') }} PASSED",
                copy_text(out_dir),
            ),
            DefaultRunner::BunTest => (
                "bun test",
                "bun test",
                "\\(fail\\) {{ suite_name }} > {{ group_name }} > {{ test_name }}( \\[\\d+\\.\\d+ms])*$",
                "\\(pass\\) {{ suite_name }} > {{ group_name }} > {{ test_name }}( \\[\\d+\\.\\d+ms])*$",
                copy_text(out_dir),
            ),
            DefaultRunner::Vitest => (
                "vitest",
                "npx vitest run --no-color --reporter verbose",
                "FAIL  {{ file_name }} > {{ suite_name }} > {{ group_name }} > {{ test_name }}",
                "\u{2713} {{ file_name }} > {{ suite_name }} > {{ group_name }} > {{ test_name }}",
                copy_text(out_dir),
            ),
            DefaultRunner::XcodebuildMacOS => {
                let work_dir = match grandparent {
                    Some(w) => copy_text(w),
                    None => return Err(PolyError::NoGrandparent { path: copy_text(out_dir) }),
                };
                (
                    "macOS",
                    "xcodebuild -scheme {{ package_name | convert_case('Pascal') }} test -destination \"platform=macOS\"",
                    "Failing tests:(.|\\W)*{{ (suite_name + \" \" + test_name) | convert_case('Camel') }}\\(\\)(.|\\W)*** TEST FAILED **",
                    "\"{{ suite_name }}: {{ test_name }}\" passed",
                    work_dir,
                )
            },
        };
        Ok(DefaultRunnerConfig {
            id: String::from_str(id),
            config: RunnerConfig {
                env: None,
                command: Some(String::from_str(command)),
                fail_regex_template: Some(String::from_str(fail)),
                pass_regex_template: Some(String::from_str(pass)),
                work_dir: Some(work_dir),
            },
        })
    }

    /// The configuration of this runner for a target configured by
    /// `target_config`; the Xcode runner works two directories above the
    /// configured output directory, and fails where there is none.
    pub fn get_default_config(&self, target_config: &TargetConfig) -> (r: Result<DefaultRunnerConfig, PolyError>)
        ensures
            r is Ok ==> exists|gp: Option<Seq<char>>| #[trigger] default_config_of(*self, target_config.out_dir@, gp)
                == Some((r->Ok_0.id_view(), r->Ok_0.config_view())),
            *self != DefaultRunner::XcodebuildMacOS ==> r is Ok,
            r is Err ==> r->Err_0 is NoGrandparent,
    {
        if *self == DefaultRunner::XcodebuildMacOS {
            let gp = grandparent_dir(target_config.out_dir.as_str());
            match &gp {
                Some(g) => self.default_config_in(target_config, Some(g.as_str())),
                None => self.default_config_in(target_config, None),
            }
        } else {
            self.default_config_in(target_config, None)
        }
    }
}

pub struct RunnerConfigView {
    pub command: Option<Seq<char>>,
    pub fail_regex_template: Option<Seq<char>>,
    pub pass_regex_template: Option<Seq<char>>,
    pub env: Option<Seq<(Seq<char>, Seq<char>)>>,
    pub work_dir: Option<Seq<char>>,
}

pub struct RunnerView {
    pub command: Seq<char>,
    pub fail_regex_template: Seq<char>,
    pub pass_regex_template: Seq<char>,
    pub env: Option<Seq<(Seq<char>, Seq<char>)>>,
    pub work_dir: Seq<char>,
}

pub open spec fn opt_text(o: Option<String>) -> Option<Seq<char>> {
    match o {
        Some(s) => Some(s@),
        None => None,
    }
}

pub open spec fn env_view(e: Option<Vec<(String, String)>>) -> Option<Seq<(Seq<char>, Seq<char>)>> {
    match e {
        Some(v) => Some(v@.map_values(|p: (String, String)| (p.0@, p.1@))),
        None => None,
    }
}

impl View for RunnerConfig {
    type V = RunnerConfigView;

    open spec fn view(&self) -> RunnerConfigView {
        RunnerConfigView {
            command: opt_text(self.command),
            fail_regex_template: opt_text(self.fail_regex_template),
            pass_regex_template: opt_text(self.pass_regex_template),
            env: env_view(self.env),
            work_dir: opt_text(self.work_dir),
        }
    }
}

impl View for Runner {
    type V = RunnerView;

    open spec fn view(&self) -> RunnerView {
        RunnerView {
            command: self.command@,
            fail_regex_template: self.fail_regex_template@,
            pass_regex_template: self.pass_regex_template@,
            env: env_view(self.env),
            work_dir: self.work_dir@,
        }
    }
}

/// An ordered map from ids to runner configurations, as views.
pub open spec fn config_entries(v: Seq<(String, RunnerConfig)>) -> Seq<(Seq<char>, RunnerConfigView)> {
    v.map_values(|e: (String, RunnerConfig)| (e.0@, e.1@))
}

/// An ordered map from ids to runners, as views.
pub open spec fn runner_entries(v: Seq<(String, Runner)>) -> Seq<(Seq<char>, RunnerView)> {
    v.map_values(|e: (String, Runner)| (e.0@, e.1@))
}

pub open spec fn or_else<T>(a: Option<T>, b: Option<T>) -> Option<T> {
    if a is Some { a } else { b }
}

/// `cfg` over `below`: each field that `cfg` leaves out comes from `below`.
pub open spec fn layer(cfg: RunnerConfigView, below: RunnerConfigView) -> RunnerConfigView {
    RunnerConfigView {
        command: or_else(cfg.command, below.command),
        fail_regex_template: or_else(cfg.fail_regex_template, below.fail_regex_template),
        pass_regex_template: or_else(cfg.pass_regex_template, below.pass_regex_template),
        env: or_else(cfg.env, below.env),
        work_dir: or_else(cfg.work_dir, below.work_dir),
    }
}

pub open spec fn empty_config() -> RunnerConfigView {
    RunnerConfigView { command: None, fail_regex_template: None, pass_regex_template: None, env: None, work_dir: None }
}

/// The configuration in force after the first `n` entries, each layered over the one before.
pub open spec fn layered(entries: Seq<(Seq<char>, RunnerConfigView)>, n: int) -> RunnerConfigView
    decreases n,
{
    if n <= 0 {
        empty_config()
    } else {
        layer(entries[n - 1].1, layered(entries, n - 1))
    }
}

/// The runner that a layered configuration gives, or the first field it lacks.
pub open spec fn runner_of(cfg: RunnerConfigView, out_dir: Seq<char>) -> Result<RunnerView, RunnerField> {
    if cfg.command is None {
        Err(RunnerField::Command)
    } else if cfg.fail_regex_template is None {
        Err(RunnerField::FailRegexTemplate)
    } else if cfg.pass_regex_template is None {
        Err(RunnerField::PassRegexTemplate)
    } else {
        Ok(RunnerView {
            command: cfg.command->0,
            fail_regex_template: "(?m)"@ + cfg.fail_regex_template->0,
            pass_regex_template: "(?m)"@ + cfg.pass_regex_template->0,
            env: cfg.env,
            work_dir: match cfg.work_dir {
                Some(w) => w,
                None => out_dir,
            },
        })
    }
}

/// The index of the entry with key `k` among the first `n`, or -1.
pub open spec fn key_index<V>(m: Seq<(Seq<char>, V)>, k: Seq<char>, n: int) -> int
    decreases n,
{
    if n <= 0 {
        -1
    } else if key_index(m, k, n - 1) >= 0 {
        key_index(m, k, n - 1)
    } else if m[n - 1].0 == k {
        n - 1
    } else {
        -1
    }
}

/// `m` with `v` under `k`: in place where `k` is a key already, else added last.
pub open spec fn insert_entry<V>(m: Seq<(Seq<char>, V)>, k: Seq<char>, v: V) -> Seq<(Seq<char>, V)> {
    let i = key_index(m, k, m.len() as int);
    if i >= 0 {
        m.update(i, (k, v))
    } else {
        m.push((k, v))
    }
}

/// The runners after the first `n` entries: each entry's layered configuration
/// gives a runner under the entry's id; `Err` names the first entry that lacks a field.
pub open spec fn runners_after(entries: Seq<(Seq<char>, RunnerConfigView)>, out_dir: Seq<char>, n: int) -> Result<Seq<(Seq<char>, RunnerView)>, (Seq<char>, RunnerField)>
    decreases n,
{
    if n <= 0 {
        Ok(Seq::empty())
    } else {
        match runners_after(entries, out_dir, n - 1) {
            Err(e) => Err(e),
            Ok(m) => match runner_of(layered(entries, n), out_dir) {
                Err(f) => Err((entries[n - 1].0, f)),
                Ok(r) => Ok(insert_entry(m, entries[n - 1].0, r)),
            },
        }
    }
}

pub proof fn lemma_runners_after_err(entries: Seq<(Seq<char>, RunnerConfigView)>, out_dir: Seq<char>, i: int, n: int)
    requires
        0 <= i <= n,
        runners_after(entries, out_dir, i) is Err,
    ensures
        runners_after(entries, out_dir, n) == runners_after(entries, out_dir, i),
    decreases n - i,
{
    if i < n {
        lemma_runners_after_err(entries, out_dir, i, n - 1);
    }
}

/// Whether a layer defines the three fields that a runner needs.
pub open spec fn complete(c: RunnerConfigView) -> bool {
    c.command is Some && c.fail_regex_template is Some && c.pass_regex_template is Some
}

/// Layered over a complete first entry, every configuration is complete.
pub proof fn lemma_layered_complete(entries: Seq<(Seq<char>, RunnerConfigView)>, n: int)
    requires
        1 <= n <= entries.len(),
        complete(entries[0].1),
    ensures
        complete(layered(entries, n)),
    decreases n,
{
    if n > 1 {
        lemma_layered_complete(entries, n - 1);
    }
}

/// Runners built after a complete first entry never lack a field.
pub proof fn lemma_runners_after_complete(entries: Seq<(Seq<char>, RunnerConfigView)>, out_dir: Seq<char>, n: int)
    requires
        0 <= n <= entries.len(),
        entries.len() > 0 ==> complete(entries[0].1),
    ensures
        runners_after(entries, out_dir, n) is Ok,
    decreases n,
{
    if n > 0 {
        lemma_runners_after_complete(entries, out_dir, n - 1);
        lemma_layered_complete(entries, n);
    }
}

/// Whether building runners fails does not depend on the output directory.
pub proof fn lemma_runners_after_ok_any_dir(entries: Seq<(Seq<char>, RunnerConfigView)>, d1: Seq<char>, d2: Seq<char>, n: int)
    requires
        0 <= n,
    ensures
        runners_after(entries, d1, n) is Ok <==> runners_after(entries, d2, n) is Ok,
        runners_after(entries, d1, n) is Err ==> runners_after(entries, d1, n) == runners_after(entries, d2, n),
    decreases n,
{
    if n > 0 {
        lemma_runners_after_ok_any_dir(entries, d1, d2, n - 1);
    }
}

pub fn copy_opt_text(o: &Option<String>) -> (r: Option<String>)
    ensures
        opt_text(r) == opt_text(*o),
{
    match o {
        Some(s) => Some(copy_text(s.as_str())),
        None => None,
    }
}

pub fn copy_env(e: &Option<Vec<(String, String)>>) -> (r: Option<Vec<(String, String)>>)
    ensures
        env_view(r) == env_view(*e),
{
    match e {
        None => None,
        Some(v) => {
            let mut out: Vec<(String, String)> = Vec::new();
            let mut i: usize = 0;
            while i < v.len()
                invariant
                    i <= v.len(),
                    out.len() == i,
                    forall|k: int| 0 <= k < i ==> out@[k].0@ == v@[k].0@ && out@[k].1@ == v@[k].1@,
                decreases v.len() - i,
            {
                out.push((copy_text(v[i].0.as_str()), copy_text(v[i].1.as_str())));
                i = i + 1;
            }
            assert(out@.map_values(|p: (String, String)| (p.0@, p.1@)) =~= v@.map_values(|p: (String, String)| (p.0@, p.1@)));
            Some(out)
        },
    }
}

fn or_else_text(a: &Option<String>, b: &Option<String>) -> (r: Option<String>)
    ensures
        opt_text(r) == or_else(opt_text(*a), opt_text(*b)),
{
    if a.is_some() { copy_opt_text(a) } else { copy_opt_text(b) }
}

impl RunnerConfig {
    /// This configuration over `below`.
    pub fn over(&self, below: &RunnerConfig) -> (r: RunnerConfig)
        ensures
            r@ == layer(self@, below@),
    {
        RunnerConfig {
            command: or_else_text(&self.command, &below.command),
            fail_regex_template: or_else_text(&self.fail_regex_template, &below.fail_regex_template),
            pass_regex_template: or_else_text(&self.pass_regex_template, &below.pass_regex_template),
            env: if self.env.is_some() { copy_env(&self.env) } else { copy_env(&below.env) },
            work_dir: or_else_text(&self.work_dir, &below.work_dir),
        }
    }

    pub fn empty() -> (r: RunnerConfig)
        ensures
            r@ == empty_config(),
    {
        RunnerConfig { command: None, fail_regex_template: None, pass_regex_template: None, env: None, work_dir: None }
    }
}

/// The index of the entry with key `k`, or `None`.
fn find_key(m: &Vec<(String, Runner)>, k: &str) -> (r: Option<usize>)
    ensures
        match r {
            Some(i) => i < m.len() && key_index(runner_entries(m@), k@, m.len() as int) == i,
            None => key_index(runner_entries(m@), k@, m.len() as int) == -1,
        },
{
    let ghost mv = runner_entries(m@);
    let mut i: usize = 0;
    while i < m.len()
        invariant
            i <= m.len(),
            mv == runner_entries(m@),
            key_index(mv, k@, i as int) == -1,
        decreases m.len() - i,
    {
        if same_text(m[i].0.as_str(), k) {
            assert(key_index(mv, k@, i + 1) == i);
            proof {
                lemma_key_index_keeps(mv, k@, i + 1, m.len() as int);
            }
            return Some(i);
        }
        i = i + 1;
    }
    None
}

proof fn lemma_key_index_keeps<V>(m: Seq<(Seq<char>, V)>, k: Seq<char>, i: int, n: int)
    requires
        0 <= i <= n,
        key_index(m, k, i) >= 0,
    ensures
        key_index(m, k, n) == key_index(m, k, i),
    decreases n - i,
{
    if i < n {
        lemma_key_index_keeps(m, k, i, n - 1);
    }
}

impl Runner {
    /// The runner that a layered configuration gives, or the first field it lacks.
    pub fn from_layered(id: &str, cfg: &RunnerConfig, out_dir: &str) -> (r: Result<Runner, PolyError>)
        ensures
            runner_of(cfg@, out_dir@) is Ok <==> r is Ok,
            r is Ok ==> r->Ok_0@ == runner_of(cfg@, out_dir@)->Ok_0,
            r is Err ==> (r matches Err(PolyError::MissingRunnerField { runner, field })
                && runner@ == id@ && field == runner_of(cfg@, out_dir@)->Err_0),
    {
        let command = match &cfg.command {
            Some(c) => copy_text(c.as_str()),
            None => return Err(PolyError::MissingRunnerField { runner: copy_text(id), field: RunnerField::Command }),
        };
        let fail = match &cfg.fail_regex_template {
            Some(f) => String::from_str("(?m)").concat(f.as_str()),
            None => return Err(PolyError::MissingRunnerField { runner: copy_text(id), field: RunnerField::FailRegexTemplate }),
        };
        let pass = match &cfg.pass_regex_template {
            Some(p) => String::from_str("(?m)").concat(p.as_str()),
            None => return Err(PolyError::MissingRunnerField { runner: copy_text(id), field: RunnerField::PassRegexTemplate }),
        };
        let work_dir = match &cfg.work_dir {
            Some(w) => copy_text(w.as_str()),
            None => copy_text(out_dir),
        };
        Ok(Runner { command, fail_regex_template: fail, pass_regex_template: pass, env: copy_env(&cfg.env), work_dir })
    }

    /// Builds the runners of a target from its default runner configurations
    /// followed by its explicit ones. Each configuration is layered over the
    /// one before it (across ids, as they come), and gives a runner under its
    /// id; an id seen before keeps its place and takes the new runner.
    pub fn from_configs(default_configs: Vec<(String, RunnerConfig)>, configs: &Vec<(String, RunnerConfig)>, out_dir: &str) -> (r: Result<Vec<(String, Runner)>, PolyError>)
        ensures
            ({
                let entries = config_entries(default_configs@) + config_entries(configs@);
                let want = runners_after(entries, out_dir@, entries.len() as int);
                &&& r is Ok <==> want is Ok
                &&& r is Ok ==> runner_entries(r->Ok_0@) == want->Ok_0
                &&& want is Err ==> (r matches Err(PolyError::MissingRunnerField { runner, field })
                    && (runner@, field) == want->Err_0)
            }),
    {
        let ghost entries = config_entries(default_configs@) + config_entries(configs@);
        let mut current = RunnerConfig::empty();
        let mut runners: Vec<(String, Runner)> = Vec::new();
        assert(runner_entries(runners@) =~= Seq::<(Seq<char>, RunnerView)>::empty());
        let mut i: usize = 0;
        while i < default_configs.len()
            invariant
                entries == config_entries(default_configs@) + config_entries(configs@),
                i <= default_configs.len(),
                current@ == layered(entries, i as int),
                runners_after(entries, out_dir@, i as int) == Ok::<Seq<(Seq<char>, RunnerView)>, (Seq<char>, RunnerField)>(runner_entries(runners@)),
            decreases default_configs.len() - i,
        {
            assert(entries[i as int] == (default_configs@[i as int].0@, default_configs@[i as int].1@));
            match absorb(&mut current, &mut runners, &default_configs[i], out_dir, Ghost(entries), Ghost(i as int)) {
                Ok(()) => {},
                Err(e) => {
                    proof {
                        lemma_runners_after_err(entries, out_dir@, i + 1, entries.len() as int);
                    }
                    return Err(e);
                },
            }
            i = i + 1;
        }
        let mut j: usize = 0;
        while j < configs.len()
            invariant
                entries == config_entries(default_configs@) + config_entries(configs@),
                j <= configs.len(),
                current@ == layered(entries, default_configs.len() + j),
                runners_after(entries, out_dir@, default_configs.len() + j) == Ok::<Seq<(Seq<char>, RunnerView)>, (Seq<char>, RunnerField)>(runner_entries(runners@)),
            decreases configs.len() - j,
        {
            let ghost k = default_configs.len() + j;
            assert(entries[k] == (configs@[j as int].0@, configs@[j as int].1@));
            match absorb(&mut current, &mut runners, &configs[j], out_dir, Ghost(entries), Ghost(k)) {
                Ok(()) => {},
                Err(e) => {
                    proof {
                        lemma_runners_after_err(entries, out_dir@, k + 1, entries.len() as int);
                    }
                    return Err(e);
                },
            }
            j = j + 1;
        }
        Ok(runners)
    }
}

/// Layers the configuration of `entry`, the entry at `k` of `entries`, and
/// records the runner it gives.
fn absorb(current: &mut RunnerConfig, runners: &mut Vec<(String, Runner)>, entry: &(String, RunnerConfig), out_dir: &str, entries: Ghost<Seq<(Seq<char>, RunnerConfigView)>>, k: Ghost<int>) -> (r: Result<(), PolyError>)
    requires
        0 <= k@ < entries@.len(),
        entries@[k@] == (entry.0@, entry.1@),
        old(current)@ == layered(entries@, k@),
        runners_after(entries@, out_dir@, k@) == Ok::<Seq<(Seq<char>, RunnerView)>, (Seq<char>, RunnerField)>(runner_entries(old(runners)@)),
    ensures
        r is Ok ==> final(current)@ == layered(entries@, k@ + 1)
            && runners_after(entries@, out_dir@, k@ + 1) == Ok::<Seq<(Seq<char>, RunnerView)>, (Seq<char>, RunnerField)>(runner_entries(final(runners)@)),
        r is Err ==> (r matches Err(PolyError::MissingRunnerField { runner, field })
            && runners_after(entries@, out_dir@, k@ + 1) == Err::<Seq<(Seq<char>, RunnerView)>, (Seq<char>, RunnerField)>((runner@, field))),
{
    *current = entry.1.over(current);
    match Runner::from_layered(entry.0.as_str(), current, out_dir) {
        Ok(runner) => {
            let ghost before = runner_entries(runners@);
            match find_key(runners, entry.0.as_str()) {
                Some(i) => {
                    runners.set(i, (copy_text(entry.0.as_str()), runner));
                    assert(runner_entries(runners@) =~= insert_entry(before, entry.0@, runner@));
                },
                None => {
                    runners.push((copy_text(entry.0.as_str()), runner));
                    assert(runner_entries(runners@) =~= insert_entry(before, entry.0@, runner@));
                },
            }
            Ok(())
        },
        Err(e) => Err(e),
    }
}

} // verus!
