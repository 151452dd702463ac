//! Execution of runners: the schedule of (target, runner) pairs, and the
//! classification of captured output against the plan.
use vstd::prelude::*;
use crate::error::PolyError;
use crate::merge::{excluded, outcome_context, package_context, suite_file_name_of};
use crate::pattern::{Pattern, regex_compiles, regex_is_match};
use crate::plan::{Group, GroupView, Suite, SuiteView, Test, TestView, texts};
use crate::render::Renderer;
use crate::runner::Runner;
use crate::target::Target;
use crate::template::render_of;
use crate::text::copy_text;

verus! {

/// The result of one planned test in a runner's output.
#[derive(Clone, Copy, Debug, PartialEq, Eq, Structural)]
pub enum Outcome {
    Passed,
    Failed,
    Unknown,
}

/// The fail regex decides first; the pass regex only where the fail regex does not match.
pub open spec fn classification(output: Seq<char>, fail_regex: Seq<char>, pass_regex: Seq<char>) -> Outcome {
    if regex_is_match(fail_regex, output) {
        Outcome::Failed
    } else if regex_is_match(pass_regex, output) {
        Outcome::Passed
    } else {
        Outcome::Unknown
    }
}

pub fn classify(output: &str, fail: &Pattern, pass: &Pattern) -> (r: Outcome)
    ensures
        r == classification(output@, fail@, pass@),
{
    if fail.is_match(output) {
        Outcome::Failed
    } else if pass.is_match(output) {
        Outcome::Passed
    } else {
        Outcome::Unknown
    }
}

/// The fail regex takes precedence: output that it matches is a failure,
/// whatever the pass regex matches elsewhere; output that neither matches is
/// unknown.
pub proof fn lemma_fail_takes_precedence(output: Seq<char>, fail_regex: Seq<char>, pass_regex: Seq<char>)
    ensures
        regex_is_match(fail_regex, output) ==> classification(output, fail_regex, pass_regex) == Outcome::Failed,
        !regex_is_match(fail_regex, output) && !regex_is_match(pass_regex, output)
            ==> classification(output, fail_regex, pass_regex) == Outcome::Unknown,
{
}

/// A planned test that did not pass: failed, or matched by neither regex.
/// `pass_regex` is empty for a failed test, whose pass regex is not consulted.
#[derive(Clone, Debug)]
pub struct Finding {
    pub suite: String,
    pub group: String,
    pub test: String,
    pub outcome: Outcome,
    pub fail_regex: String,
    pub pass_regex: String,
}

pub struct FindingView {
    pub suite: Seq<char>,
    pub group: Seq<char>,
    pub test: Seq<char>,
    pub outcome: Outcome,
    pub fail_regex: Seq<char>,
    pub pass_regex: Seq<char>,
}

impl View for Finding {
    type V = FindingView;

    open spec fn view(&self) -> FindingView {
        FindingView {
            suite: self.suite@,
            group: self.group@,
            test: self.test@,
            outcome: self.outcome,
            fail_regex: self.fail_regex@,
            pass_regex: self.pass_regex@,
        }
    }
}

pub open spec fn findings_view(v: Seq<Finding>) -> Seq<FindingView> {
    v.map_values(|f: Finding| f@)
}

/// What one test adds to the findings of a runner's output: `None` where a
/// regex fails to render or compile, else no entry for a pass and one entry
/// otherwise.
pub open spec fn test_finding(runner: Runner, file_name: Seq<char>, suite: SuiteView, group: GroupView, test: TestView, output: Seq<char>) -> Option<Seq<FindingView>> {
    let ctx = outcome_context(file_name, suite.name, group.name, test.name);
    match render_of(runner.fail_regex_template@, ctx) {
        None => None,
        Some(fr) => if !regex_compiles(fr) {
            None
        } else if regex_is_match(fr, output) {
            Some(seq![FindingView { suite: suite.name, group: group.name, test: test.name, outcome: Outcome::Failed, fail_regex: fr, pass_regex: Seq::empty() }])
        } else {
            match render_of(runner.pass_regex_template@, ctx) {
                None => None,
                Some(pr) => if !regex_compiles(pr) {
                    None
                } else if regex_is_match(pr, output) {
                    Some(Seq::empty())
                } else {
                    Some(seq![FindingView { suite: suite.name, group: group.name, test: test.name, outcome: Outcome::Unknown, fail_regex: fr, pass_regex: pr }])
                },
            }
        },
    }
}

/// In the findings of a runner's output, a test whose fail regex matches is
/// reported failed, even where its pass regex matches too; a test that
/// neither regex matches is reported unknown, with both rendered regexes.
pub proof fn lemma_finding_precedence(runner: Runner, file_name: Seq<char>, suite: SuiteView, group: GroupView, test: TestView, output: Seq<char>)
    requires
        ({
            let ctx = outcome_context(file_name, suite.name, group.name, test.name);
            &&& render_of(runner.fail_regex_template@, ctx) is Some
            &&& regex_compiles(render_of(runner.fail_regex_template@, ctx)->0)
        }),
    ensures
        ({
            let ctx = outcome_context(file_name, suite.name, group.name, test.name);
            let fr = render_of(runner.fail_regex_template@, ctx)->0;
            let pr = render_of(runner.pass_regex_template@, ctx)->0;
            &&& regex_is_match(fr, output) ==> test_finding(runner, file_name, suite, group, test, output)
                == Some(seq![FindingView { suite: suite.name, group: group.name, test: test.name, outcome: Outcome::Failed, fail_regex: fr, pass_regex: Seq::empty() }])
            &&& (!regex_is_match(fr, output) && render_of(runner.pass_regex_template@, ctx) is Some && regex_compiles(pr)
                && !regex_is_match(pr, output)) ==> test_finding(runner, file_name, suite, group, test, output)
                == Some(seq![FindingView { suite: suite.name, group: group.name, test: test.name, outcome: Outcome::Unknown, fail_regex: fr, pass_regex: pr }])
        }),
{
}

/// The findings of the first `n` tests of `group`, after `acc`; excluded tests add nothing.
pub open spec fn group_findings(target: Target, runner: Runner, file_name: Seq<char>, suite: SuiteView, group: GroupView, output: Seq<char>, acc: Seq<FindingView>, n: int) -> Option<Seq<FindingView>>
    decreases n,
{
    if n <= 0 {
        Some(acc)
    } else {
        match group_findings(target, runner, file_name, suite, group, output, acc, n - 1) {
            None => None,
            Some(f) => {
                let t = group.tests[n - 1];
                if excluded(target, t) {
                    Some(f)
                } else {
                    match test_finding(runner, file_name, suite, group, t, output) {
                        None => None,
                        Some(more) => Some(f + more),
                    }
                }
            },
        }
    }
}

/// The findings of the first `n` groups of `suite`, after `acc`.
pub open spec fn suite_findings(target: Target, runner: Runner, file_name: Seq<char>, suite: SuiteView, output: Seq<char>, acc: Seq<FindingView>, n: int) -> Option<Seq<FindingView>>
    decreases n,
{
    if n <= 0 {
        Some(acc)
    } else {
        match suite_findings(target, runner, file_name, suite, output, acc, n - 1) {
            None => None,
            Some(f) => {
                let g = suite.groups[n - 1];
                group_findings(target, runner, file_name, suite, g, output, f, g.tests.len() as int)
            },
        }
    }
}

/// The findings of the first `n` suites of `suites`, where paths separate with `sep`.
pub open spec fn plan_findings(target: Target, runner: Runner, suites: Seq<SuiteView>, output: Seq<char>, sep: char, n: int) -> Option<Seq<FindingView>>
    decreases n,
{
    if n <= 0 {
        Some(Seq::empty())
    } else {
        match plan_findings(target, runner, suites, output, sep, n - 1) {
            None => None,
            Some(f) => {
                let s = suites[n - 1];
                match suite_file_name_of(target, s, sep) {
                    None => None,
                    Some(file_name) => suite_findings(target, runner, file_name, s, output, f, s.groups.len() as int),
                }
            },
        }
    }
}

pub proof fn lemma_group_findings_none(target: Target, runner: Runner, file_name: Seq<char>, suite: SuiteView, group: GroupView, output: Seq<char>, acc: Seq<FindingView>, i: int, n: int)
    requires
        0 <= i <= n,
        group_findings(target, runner, file_name, suite, group, output, acc, i) is None,
    ensures
        group_findings(target, runner, file_name, suite, group, output, acc, n) is None,
    decreases n - i,
{
    if i < n {
        lemma_group_findings_none(target, runner, file_name, suite, group, output, acc, i, n - 1);
    }
}

pub proof fn lemma_suite_findings_none(target: Target, runner: Runner, file_name: Seq<char>, suite: SuiteView, output: Seq<char>, acc: Seq<FindingView>, i: int, n: int)
    requires
        0 <= i <= n,
        suite_findings(target, runner, file_name, suite, output, acc, i) is None,
    ensures
        suite_findings(target, runner, file_name, suite, output, acc, n) is None,
    decreases n - i,
{
    if i < n {
        lemma_suite_findings_none(target, runner, file_name, suite, output, acc, i, n - 1);
    }
}

pub proof fn lemma_plan_findings_none(target: Target, runner: Runner, suites: Seq<SuiteView>, output: Seq<char>, sep: char, i: int, n: int)
    requires
        0 <= i <= n,
        plan_findings(target, runner, suites, output, sep, i) is None,
    ensures
        plan_findings(target, runner, suites, output, sep, n) is None,
    decreases n - i,
{
    if i < n {
        lemma_plan_findings_none(target, runner, suites, output, sep, i, n - 1);
    }
}

/// The finding of one test in `output`, if it did not pass.
pub fn test_outcome(renderer: &Renderer, runner: &Runner, file_name: &str, suite: &Suite, group: &Group, test: &Test, output: &str) -> (r: Result<Option<Finding>, PolyError>)
    ensures
        r is Ok <==> test_finding(*runner, file_name@, suite@, group@, test@, output@) is Some,
        r is Ok ==> test_finding(*runner, file_name@, suite@, group@, test@, output@)->0 == match r->Ok_0 {
            Some(f) => seq![f@],
            None => Seq::<FindingView>::empty(),
        },
{
    let fr = match renderer.render_fail_regex(runner, file_name, suite, group, test) {
        Ok(x) => x,
        Err(e) => return Err(e),
    };
    let fail = match Pattern::compile(fr.as_str()) {
        Ok(p) => p,
        Err(e) => return Err(e),
    };
    if fail.is_match(output) {
        return Ok(Some(Finding {
            suite: copy_text(suite.name.as_str()),
            group: copy_text(group.name.as_str()),
            test: copy_text(test.name.as_str()),
            outcome: Outcome::Failed,
            fail_regex: fr,
            pass_regex: String::new(),
        }));
    }
    let pr = match renderer.render_pass_regex(runner, file_name, suite, group, test) {
        Ok(x) => x,
        Err(e) => return Err(e),
    };
    let pass = match Pattern::compile(pr.as_str()) {
        Ok(p) => p,
        Err(e) => return Err(e),
    };
    if pass.is_match(output) {
        Ok(None)
    } else {
        Ok(Some(Finding {
            suite: copy_text(suite.name.as_str()),
            group: copy_text(group.name.as_str()),
            test: copy_text(test.name.as_str()),
            outcome: Outcome::Unknown,
            fail_regex: fr,
            pass_regex: pr,
        }))
    }
}

/// Classifies every planned test that is not excluded from `target` against
/// the output of `runner`, where paths separate with `sep`. Passed tests give
/// no entry; failed and unknown ones give one each, in plan order.
pub fn classify_output_with(renderer: &Renderer, target: &Target, runner: &Runner, suites: &Vec<Suite>, output: &str, sep: char) -> (r: Result<Vec<Finding>, PolyError>)
    ensures
        r is Ok <==> plan_findings(*target, *runner, suites@.map_values(|s: Suite| s@), output@, sep, suites.len() as int) is Some,
        r is Ok ==> findings_view(r->Ok_0@) == plan_findings(*target, *runner, suites@.map_values(|s: Suite| s@), output@, sep, suites.len() as int)->0,
{
    let ghost sv = suites@.map_values(|s: Suite| s@);
    let mut findings: Vec<Finding> = Vec::new();
    let mut si: usize = 0;
    while si < suites.len()
        invariant
            si <= suites.len(),
            sv == suites@.map_values(|s: Suite| s@),
            plan_findings(*target, *runner, sv, output@, sep, si as int) == Some(findings_view(findings@)),
        decreases suites.len() - si,
    {
        let suite = &suites[si];
        assert(sv[si as int] == suite@);
        let file_name = match renderer.render_suite_file_name_with(target, suite, sep) {
            Ok(f) => f,
            Err(e) => {
                proof {
                    lemma_plan_findings_none(*target, *runner, sv, output@, sep, si + 1, suites.len() as int);
                }
                return Err(e);
            },
        };
        let ghost suite_start = findings_view(findings@);
        let n = suite.groups.len();
        let mut gi: usize = 0;
        while gi < n
            invariant
                si < suites.len(),
                sv == suites@.map_values(|s: Suite| s@),
                suite == &suites[si as int],
                n == suite.groups.len(),
                gi <= n,
                plan_findings(*target, *runner, sv, output@, sep, si as int) == Some(suite_start),
                suite_file_name_of(*target, suite@, sep) == Some(file_name@),
                suite_findings(*target, *runner, file_name@, suite@, output@, suite_start, gi as int) == Some(findings_view(findings@)),
            decreases n - gi,
        {
            let group = &suite.groups[gi];
            assert(suite@.groups[gi as int] == group@);
            let ghost group_start = findings_view(findings@);
            let m = group.tests.len();
            let mut ti: usize = 0;
            while ti < m
                invariant
                    si < suites.len(),
                    sv == suites@.map_values(|s: Suite| s@),
                    suite == &suites[si as int],
                    n == suite.groups.len(),
                    gi < n,
                    group == &suite.groups[gi as int],
                    m == group.tests.len(),
                    ti <= m,
                    plan_findings(*target, *runner, sv, output@, sep, si as int) == Some(suite_start),
                    suite_file_name_of(*target, suite@, sep) == Some(file_name@),
                    suite_findings(*target, *runner, file_name@, suite@, output@, suite_start, gi as int) == Some(group_start),
                    group_findings(*target, *runner, file_name@, suite@, group@, output@, group_start, ti as int) == Some(findings_view(findings@)),
                decreases m - ti,
            {
                let test = &group.tests[ti];
                assert(group@.tests[ti as int] == test@);
                if !test.is_excluded(target.id.as_str()) {
                    let ghost before = findings_view(findings@);
                    match test_outcome(renderer, runner, file_name.as_str(), suite, group, test, output) {
                        Ok(Some(f)) => {
                            findings.push(f);
                            assert(findings_view(findings@) =~= before + seq![f@]);
                        },
                        Ok(None) => {
                            assert(before + Seq::<FindingView>::empty() =~= before);
                        },
                        Err(e) => {
                            proof {
                                lemma_group_findings_none(*target, *runner, file_name@, suite@, group@, output@, group_start, ti + 1, m as int);
                                lemma_suite_findings_none(*target, *runner, file_name@, suite@, output@, suite_start, gi + 1, n as int);
                                lemma_plan_findings_none(*target, *runner, sv, output@, sep, si + 1, suites.len() as int);
                            }
                            return Err(e);
                        },
                    }
                }
                ti = ti + 1;
            }
            gi = gi + 1;
        }
        si = si + 1;
    }
    Ok(findings)
}

/// A pair ran successfully when its process exited with success and no
/// planned test failed or stayed unknown.
pub fn pair_succeeded(exit_ok: bool, findings: &Vec<Finding>) -> (r: bool)
    ensures
        r == (exit_ok && findings.len() == 0),
{
    exit_ok && findings.len() == 0
}

/// The words that shlex splits `s` into, as a POSIX shell would; it stops
/// at the first malformed quote or escape.
pub uninterp spec fn shell_words(s: Seq<char>) -> Seq<Seq<char>>;

/// Relies on shlex::Shlex: the words of `s`, in order.
#[verifier::external_body]
fn split_words(s: &str) -> (r: Vec<String>)
    ensures
        texts(r@) == shell_words(s@),
{
    shlex::Shlex::new(s).collect()
}

/// The program and arguments of `runner`'s command: its rendered text split
/// into words. A command without any word is an error.
pub fn command_line(renderer: &Renderer, runner_id: &str, runner: &Runner) -> (r: Result<(String, Vec<String>), PolyError>)
    ensures
        r is Ok ==> ({
            let words = shell_words(render_of(runner.command@, package_context(renderer.package()))->0);
            &&& render_of(runner.command@, package_context(renderer.package())) is Some
            &&& words.len() > 0
            &&& r->Ok_0.0@ == words[0]
            &&& texts(r->Ok_0.1@) == words.drop_first()
        }),
        render_of(runner.command@, package_context(renderer.package())) is Some
            && shell_words(render_of(runner.command@, package_context(renderer.package()))->0).len() > 0 ==> r is Ok,
        render_of(runner.command@, package_context(renderer.package())) is None ==> (r is Err && r->Err_0 is Template),
        render_of(runner.command@, package_context(renderer.package())) is Some
            && shell_words(render_of(runner.command@, package_context(renderer.package()))->0).len() == 0
            ==> (r is Err && r->Err_0 is EmptyCommand),
{
    let rendered = match renderer.render_cmd(runner) {
        Ok(c) => c,
        Err(e) => return Err(e),
    };
    let mut words = split_words(rendered.as_str());
    if words.len() == 0 {
        return Err(PolyError::EmptyCommand { runner: copy_text(runner_id) });
    }
    let ghost all = texts(words@);
    let program = words.remove(0);
    assert(texts(words@) =~= all.drop_first());
    Ok((program, words))
}

/// What the process of a (target, runner) pair gave once it finished.
#[derive(Clone, Debug)]
pub struct PairResult {
    pub exit_ok: bool,
    pub status: String,
    pub output: String,
}

/// The (target id, runner id) pairs of a run, in the order they were
/// scheduled, and the result of each one that has finished. Results are kept
/// by the pair's place in the schedule, not by when it finished.
pub struct Schedule {
    pairs: Vec<(String, String)>,
    results: Vec<Option<PairResult>>,
}

impl Schedule {
    pub closed spec fn pairs_view(&self) -> Seq<(Seq<char>, Seq<char>)> {
        self.pairs@.map_values(|p: (String, String)| (p.0@, p.1@))
    }

    pub closed spec fn results_view(&self) -> Seq<Option<PairResult>> {
        self.results@
    }

    pub closed spec fn wf(&self) -> bool {
        self.pairs.len() == self.results.len()
    }

    /// A schedule of `pairs` with no result yet.
    pub fn new(pairs: Vec<(String, String)>) -> (r: Schedule)
        ensures
            r.wf(),
            r.pairs_view() == pairs@.map_values(|p: (String, String)| (p.0@, p.1@)),
            r.results_view() == none_recorded(pairs.len() as int),
    {
        let mut results: Vec<Option<PairResult>> = Vec::new();
        let mut i: usize = 0;
        while i < pairs.len()
            invariant
                i <= pairs.len(),
                results@ == none_recorded(i as int),
            decreases pairs.len() - i,
        {
            results.push(None);
            i = i + 1;
            assert(results@ =~= none_recorded(i as int));
        }
        Schedule { pairs, results }
    }

    pub fn len(&self) -> (r: usize)
        requires
            self.wf(),
        ensures
            r == self.pairs_view().len(),
            r == self.results_view().len(),
    {
        self.pairs.len()
    }

    /// The target id and runner id of the pair at `index`.
    pub fn pair(&self, index: usize) -> (r: &(String, String))
        requires
            index < self.pairs_view().len(),
        ensures
            (r.0@, r.1@) == self.pairs_view()[index as int],
    {
        &self.pairs[index]
    }

    /// The result of the pair at `index`, if it has finished.
    pub fn result(&self, index: usize) -> (r: &Option<PairResult>)
        requires
            index < self.results_view().len(),
        ensures
            *r == self.results_view()[index as int],
    {
        &self.results[index]
    }

    /// Records that the pair at `index` finished with `result`.
    pub fn record(&mut self, index: usize, result: PairResult)
        requires
            old(self).wf(),
            index < old(self).results_view().len(),
        ensures
            final(self).wf(),
            final(self).pairs_view() == old(self).pairs_view(),
            final(self).results_view() == old(self).results_view().update(index as int, Some(result)),
    {
        self.results.set(index, Some(result));
    }

    /// Whether every pair has finished.
    pub fn is_complete(&self) -> (r: bool)
        ensures
            r == forall|i: int| 0 <= i < self.results_view().len() ==> (#[trigger] self.results_view()[i]) is Some,
    {
        let mut i: usize = 0;
        while i < self.results.len()
            invariant
                i <= self.results.len(),
                forall|k: int| 0 <= k < i ==> (#[trigger] self.results@[k]) is Some,
            decreases self.results.len() - i,
        {
            if self.results[i].is_none() {
                return false;
            }
            i = i + 1;
        }
        true
    }
}

/// `n` pairs, none finished.
pub open spec fn none_recorded(n: int) -> Seq<Option<PairResult>> {
    Seq::new(n as nat, |i: int| None)
}

/// The results after the pairs finished in `order`, pair `order[k]` giving `results[order[k]]`.
pub open spec fn recorded_in_order(n: int, order: Seq<int>, results: Seq<PairResult>) -> Seq<Option<PairResult>>
    decreases order.len(),
{
    if order.len() == 0 {
        none_recorded(n)
    } else {
        let i = order.last();
        recorded_in_order(n, order.drop_last(), results).update(i, Some(results[i]))
    }
}

/// `order` names pairs of `0..n` only, and every one of them.
pub open spec fn covers(order: Seq<int>, n: int) -> bool {
    &&& forall|k: int| 0 <= k < order.len() ==> 0 <= #[trigger] order[k] < n
    &&& forall|i: int| 0 <= i < n ==> #[trigger] order.contains(i)
}

proof fn lemma_recorded_in_order(n: int, order: Seq<int>, results: Seq<PairResult>)
    requires
        0 <= n,
        results.len() == n,
        forall|k: int| 0 <= k < order.len() ==> 0 <= #[trigger] order[k] < n,
    ensures
        recorded_in_order(n, order, results).len() == n,
        forall|i: int| 0 <= i < n ==> #[trigger] recorded_in_order(n, order, results)[i]
            == if order.contains(i) { Some(results[i]) } else { None },
    decreases order.len(),
{
    if order.len() > 0 {
        let rest = order.drop_last();
        assert forall|k: int| 0 <= k < rest.len() implies 0 <= #[trigger] rest[k] < n by {
            assert(rest[k] == order[k]);
        }
        lemma_recorded_in_order(n, rest, results);
        assert forall|i: int| 0 <= i < n implies #[trigger] recorded_in_order(n, order, results)[i]
            == if order.contains(i) { Some(results[i]) } else { None } by {
            if i == order.last() {
                assert(order[order.len() - 1] == i);
            } else {
                if rest.contains(i) {
                    let k = choose|k: int| 0 <= k < rest.len() && rest[k] == i;
                    assert(order[k] == i);
                }
                if order.contains(i) {
                    let k = choose|k: int| 0 <= k < order.len() && order[k] == i;
                    assert(k != order.len() - 1);
                    assert(rest[k] == i);
                }
            }
        }
    }
}

/// Whatever order the pairs of a run finish in (one after the other when run
/// sequentially, as the processes exit when run in parallel), once every
/// pair has finished the recorded results are the same: each pair holds its
/// own result. The report is computed from these results in schedule order,
/// so it is the same too.
pub proof fn lemma_completion_order_irrelevant(n: int, results: Seq<PairResult>, order1: Seq<int>, order2: Seq<int>)
    requires
        0 <= n,
        results.len() == n,
        covers(order1, n),
        covers(order2, n),
    ensures
        recorded_in_order(n, order1, results) == recorded_in_order(n, order2, results),
        recorded_in_order(n, order1, results) == results.map_values(|r: PairResult| Some(r)),
{
    lemma_recorded_in_order(n, order1, results);
    lemma_recorded_in_order(n, order2, results);
    assert(recorded_in_order(n, order1, results) =~= results.map_values(|r: PairResult| Some(r)));
    assert(recorded_in_order(n, order2, results) =~= results.map_values(|r: PairResult| Some(r)));
}

} // verus!
