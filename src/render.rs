//! The renderer: fills the templates of targets and runners, and merges
//! generated stubs into suite files.
use vstd::prelude::*;
use crate::error::{PolyError, TemplateRole};
use crate::merge::{
    excluded, file_name_context, replace_sep, outcome_context, package_context, suite_file_name_of, group_context, group_tests_step, groups_step, merged, name_context, suite_context,
    test_context, test_regex_of, test_step, tests_step, with_suite,
};
use crate::parsing::{
    chunk_bounds, find_suite, get_group_comment, get_groups, get_suite_chunk, group_marker,
    group_names, insert_after_keyword, replace_range,
};
use crate::paths::path_separator;
use crate::pattern::{Pattern, regex_compiles, regex_is_match};
use crate::plan::{Group, GroupView, Suite, SuiteView, Test, TestView};
use crate::runner::Runner;
use crate::target::Target;
use crate::template::{TemplateData, TemplateValue, field, template_error, group_data, suite_data, test_data, group_value, new_engine, render, render_of, suite_value, suite_value_named, test_value};
use crate::text::{chars_of, contains, contains_seq, copy_text, string_of, text_in};

verus! {

pub fn suite_context_value(package_name: &str, suite: &Suite) -> (r: TemplateValue)
    ensures
        r@ == suite_context(package_name@, suite@),
{
    let entries = vec![field("package_name", TemplateValue::text(package_name)), field("suite", suite_value(suite))];
    let r = TemplateValue::record(entries);
    assert(entries@.map_values(|e: (String, TemplateValue)| (e.0@, e.1@)) =~= seq![
        ("package_name"@, TemplateData::Text(package_name@)),
        ("suite"@, crate::template::suite_data(suite@)),
    ]);
    r
}

pub fn group_context_value(group: &Group) -> (r: TemplateValue)
    ensures
        r@ == group_context(group@),
{
    let entries = vec![field("group", group_value(group))];
    let r = TemplateValue::record(entries);
    assert(entries@.map_values(|e: (String, TemplateValue)| (e.0@, e.1@)) =~= seq![
        ("group"@, crate::template::group_data(group@)),
    ]);
    r
}

pub fn test_context_value(test: &Test, group_name: &str, suite_name: &str) -> (r: TemplateValue)
    ensures
        r@ == test_context(test@, group_name@, suite_name@),
{
    let entries = vec![
        field("test", test_value(test)),
        field("group_name", TemplateValue::text(group_name)),
        field("suite_name", TemplateValue::text(suite_name)),
    ];
    let r = TemplateValue::record(entries);
    assert(entries@.map_values(|e: (String, TemplateValue)| (e.0@, e.1@)) =~= seq![
        ("test"@, crate::template::test_data(test@)),
        ("group_name"@, TemplateData::Text(group_name@)),
        ("suite_name"@, TemplateData::Text(suite_name@)),
    ]);
    r
}

pub fn name_context_value(name: &str) -> (r: TemplateValue)
    ensures
        r@ == name_context(name@),
{
    let entries = vec![field("name", TemplateValue::text(name))];
    let r = TemplateValue::record(entries);
    assert(entries@.map_values(|e: (String, TemplateValue)| (e.0@, e.1@)) =~= seq![
        ("name"@, TemplateData::Text(name@)),
    ]);
    r
}

/// Context of document templates.
pub open spec fn document_context(name: Seq<char>, suites: Seq<SuiteView>, groups: Seq<GroupView>, tests: Seq<TestView>) -> TemplateData {
    TemplateData::Record(seq![
        ("name"@, TemplateData::Text(name)),
        ("suites"@, TemplateData::List(suites.map_values(|s: SuiteView| suite_data(s)))),
        ("groups"@, TemplateData::List(groups.map_values(|g: GroupView| group_data(g)))),
        ("tests"@, TemplateData::List(tests.map_values(|t: TestView| test_data(t)))),
    ])
}

pub fn file_name_context_value(name: &str, suite: &Suite) -> (r: TemplateValue)
    ensures
        r@ == file_name_context(SuiteView { name: name@, groups: suite@.groups }),
{
    let entries = vec![field("suite", suite_value_named(name, suite))];
    let r = TemplateValue::record(entries);
    assert(entries@.map_values(|e: (String, TemplateValue)| (e.0@, e.1@)) =~= seq![
        ("suite"@, crate::template::suite_data(SuiteView { name: name@, groups: suite@.groups })),
    ]);
    r
}

pub fn package_context_value(package_name: &str) -> (r: TemplateValue)
    ensures
        r@ == package_context(package_name@),
{
    let entries = vec![field("package_name", TemplateValue::text(package_name))];
    let r = TemplateValue::record(entries);
    assert(entries@.map_values(|e: (String, TemplateValue)| (e.0@, e.1@)) =~= seq![
        ("package_name"@, TemplateData::Text(package_name@)),
    ]);
    r
}

pub fn outcome_context_value(file_name: &str, suite_name: &str, group_name: &str, test_name: &str) -> (r: TemplateValue)
    ensures
        r@ == outcome_context(file_name@, suite_name@, group_name@, test_name@),
{
    let entries = vec![
        field("file_name", TemplateValue::text(file_name)),
        field("suite_name", TemplateValue::text(suite_name)),
        field("group_name", TemplateValue::text(group_name)),
        field("test_name", TemplateValue::text(test_name)),
    ];
    let r = TemplateValue::record(entries);
    assert(entries@.map_values(|e: (String, TemplateValue)| (e.0@, e.1@)) =~= seq![
        ("file_name"@, TemplateData::Text(file_name@)),
        ("suite_name"@, TemplateData::Text(suite_name@)),
        ("group_name"@, TemplateData::Text(group_name@)),
        ("test_name"@, TemplateData::Text(test_name@)),
    ]);
    r
}

/// `s` with every `sep` replaced by `_`.
pub fn replace_separator(s: &str, sep: char) -> (r: String)
    ensures
        r@ == replace_sep(s@, sep),
{
    let v = chars_of(s);
    let mut out: Vec<char> = Vec::new();
    let mut i: usize = 0;
    while i < v.len()
        invariant
            i <= v.len(),
            out.len() == i,
            forall|k: int| 0 <= k < i ==> out@[k] == (if v@[k] == sep { '_' } else { v@[k] }),
        decreases v.len() - i,
    {
        if v[i] == sep {
            out.push('_');
        } else {
            out.push(v[i]);
        }
        i = i + 1;
    }
    assert(out@ =~= replace_sep(s@, sep));
    string_of(out.as_slice())
}

pub proof fn lemma_group_tests_step_none(target: Target, suite: SuiteView, group: GroupView, chunk: Seq<char>, i: int, n: int)
    requires
        0 <= i <= n,
        group_tests_step(target, suite, group, chunk, i) is None,
    ensures
        group_tests_step(target, suite, group, chunk, n) is None,
    decreases n - i,
{
    if i < n {
        lemma_group_tests_step_none(target, suite, group, chunk, i, n - 1);
    }
}

pub proof fn lemma_tests_step_none(target: Target, suite: SuiteView, chunk: Seq<char>, i: int, n: int)
    requires
        0 <= i <= n,
        tests_step(target, suite, chunk, i) is None,
    ensures
        tests_step(target, suite, chunk, n) is None,
    decreases n - i,
{
    if i < n {
        lemma_tests_step_none(target, suite, chunk, i, n - 1);
    }
}

pub proof fn lemma_groups_step_none(target: Target, groups: Seq<GroupView>, existing: Seq<Seq<char>>, chunk: Seq<char>, i: int, n: int)
    requires
        0 <= i <= n,
        groups_step(target, groups, existing, chunk, i) is None,
    ensures
        groups_step(target, groups, existing, chunk, n) is None,
    decreases n - i,
{
    if i < n {
        lemma_groups_step_none(target, groups, existing, chunk, i, n - 1);
    }
}

/// `e` is an error that the step of `test` (of `group` in `suite`) may give:
/// its regex or its stub fails to render, its regex does not compile, or
/// its group's marker is absent.
pub open spec fn test_error(target: Target, suite: SuiteView, group: GroupView, test: TestView, e: PolyError) -> bool {
    ||| template_error(e, TemplateRole::TestRegex, target.id@, test.name)
    ||| template_error(e, TemplateRole::Test, target.id@, test.name)
    ||| e is InvalidPattern
    ||| (e matches PolyError::GroupMarkerMissing { suite: s, group: g } && s@ == suite.name && g@ == group.name)
}

/// `e` is an error that generating `suite` for `target` may give; each
/// names the suite, or the group or test of the suite concerned.
pub open spec fn merge_error(target: Target, suite: SuiteView, e: PolyError) -> bool {
    ||| (e matches PolyError::SuiteMarkerMissing { suite: s } && s@ == suite.name)
    ||| template_error(e, TemplateRole::Suite, target.id@, suite.name)
    ||| exists|g: int| 0 <= g < suite.groups.len() && #[trigger] template_error(e, TemplateRole::Group, target.id@, suite.groups[g].name)
    ||| exists|g: int, t: int| 0 <= g < suite.groups.len() && 0 <= t < suite.groups[g].tests.len()
        && #[trigger] test_error(target, suite, suite.groups[g], suite.groups[g].tests[t], e)
}

/// Renders the templates of targets and runners with one template engine.
pub struct Renderer {
    engine: minijinja::Environment<'static>,
    package_name: String,
}

impl Renderer {
    /// The package name that templates see.
    pub closed spec fn package(&self) -> Seq<char> {
        self.package_name@
    }

    pub fn new(package_name: &str) -> (r: Renderer)
        ensures
            r.package() == package_name@,
    {
        Renderer { engine: new_engine(), package_name: copy_text(package_name) }
    }

    /// The test-existence regex of the test `test_name` for `target`.
    pub fn render_test_regex(&self, target: &Target, test_name: &str) -> (r: Result<String, PolyError>)
        ensures
            r is Ok <==> test_regex_of(*target, test_name@) is Some,
            r is Ok ==> r->Ok_0@ == test_regex_of(*target, test_name@)->0,
            r is Err ==> template_error(r->Err_0, TemplateRole::TestRegex, target.id@, test_name@),
    {
        render(&self.engine, target.test_regex_template.as_str(), &name_context_value(test_name), TemplateRole::TestRegex, target.id.as_str(), test_name)
    }

    /// The test-existence regex of `target` with `.*` for the test name: it
    /// matches every test-shaped declaration.
    pub fn render_all_tests_regex(&self, target: &Target) -> (r: Result<String, PolyError>)
        ensures
            r is Ok <==> test_regex_of(*target, ".*"@) is Some,
            r is Ok ==> r->Ok_0@ == test_regex_of(*target, ".*"@)->0,
            r is Err ==> template_error(r->Err_0, TemplateRole::TestRegex, target.id@, ".*"@),
    {
        self.render_test_regex(target, ".*")
    }

    /// The file name of `suite` for `target`, where paths separate with `sep`.
    pub fn render_suite_file_name_with(&self, target: &Target, suite: &Suite, sep: char) -> (r: Result<String, PolyError>)
        ensures
            r is Ok <==> suite_file_name_of(*target, suite@, sep) is Some,
            r is Ok ==> r->Ok_0@ == suite_file_name_of(*target, suite@, sep)->0,
            r is Err ==> template_error(r->Err_0, TemplateRole::SuiteFileName, target.id@, suite@.name),
    {
        let name = replace_separator(suite.name.as_str(), sep);
        let ctx = file_name_context_value(name.as_str(), suite);
        render(&self.engine, target.suite_file_name_template.as_str(), &ctx, TemplateRole::SuiteFileName, target.id.as_str(), suite.name.as_str())
    }

    /// The file name of `suite` for `target`, with this platform's path separator.
    pub fn render_suite_file_name(&self, target: &Target, suite: &Suite) -> (r: Result<String, PolyError>)
        ensures
            exists|sep: char| (sep == '/' || sep == '\\') && {
                &&& r is Ok <==> suite_file_name_of(*target, suite@, sep) is Some
                &&& r is Ok ==> r->Ok_0@ == suite_file_name_of(*target, suite@, sep)->0
            },
    {
        let sep = path_separator();
        self.render_suite_file_name_with(target, suite, sep)
    }

    /// The command of `runner`, rendered with the package name.
    pub fn render_cmd(&self, runner: &Runner) -> (r: Result<String, PolyError>)
        ensures
            r is Ok <==> render_of(runner.command@, package_context(self.package())) is Some,
            r is Ok ==> r->Ok_0@ == render_of(runner.command@, package_context(self.package()))->0,
            r is Err ==> r->Err_0 is Template,
    {
        let ctx = package_context_value(self.package_name.as_str());
        render(&self.engine, runner.command.as_str(), &ctx, TemplateRole::Command, "", runner.command.as_str())
    }

    /// The pass regex of `runner` for one test.
    pub fn render_pass_regex(&self, runner: &Runner, suite_file_name: &str, suite: &Suite, group: &Group, test: &Test) -> (r: Result<String, PolyError>)
        ensures
            r is Ok <==> render_of(runner.pass_regex_template@, outcome_context(suite_file_name@, suite@.name, group@.name, test@.name)) is Some,
            r is Ok ==> r->Ok_0@ == render_of(runner.pass_regex_template@, outcome_context(suite_file_name@, suite@.name, group@.name, test@.name))->0,
            r is Err ==> r->Err_0 is Template,
    {
        let ctx = outcome_context_value(suite_file_name, suite.name.as_str(), group.name.as_str(), test.name.as_str());
        render(&self.engine, runner.pass_regex_template.as_str(), &ctx, TemplateRole::PassRegex, "", test.name.as_str())
    }

    /// The fail regex of `runner` for one test.
    pub fn render_fail_regex(&self, runner: &Runner, suite_file_name: &str, suite: &Suite, group: &Group, test: &Test) -> (r: Result<String, PolyError>)
        ensures
            r is Ok <==> render_of(runner.fail_regex_template@, outcome_context(suite_file_name@, suite@.name, group@.name, test@.name)) is Some,
            r is Ok ==> r->Ok_0@ == render_of(runner.fail_regex_template@, outcome_context(suite_file_name@, suite@.name, group@.name, test@.name))->0,
            r is Err ==> r->Err_0 is Template,
    {
        let ctx = outcome_context_value(suite_file_name, suite.name.as_str(), group.name.as_str(), test.name.as_str());
        render(&self.engine, runner.fail_regex_template.as_str(), &ctx, TemplateRole::FailRegex, "", test.name.as_str())
    }

    /// Renders a document template with the plan: its `name`, and lists of
    /// `suites`, `groups` and `tests`.
    pub fn generate_document(&self, template: &str, name: &str, suites: &Vec<Suite>, groups: &Vec<Group>, tests: &Vec<Test>) -> (r: Result<String, PolyError>)
        ensures
            r is Ok <==> render_of(template@, document_context(name@, suites@.map_values(|s: Suite| s@), groups@.map_values(|g: Group| g@), tests@.map_values(|t: Test| t@))) is Some,
            r is Ok ==> r->Ok_0@ == render_of(template@, document_context(name@, suites@.map_values(|s: Suite| s@), groups@.map_values(|g: Group| g@), tests@.map_values(|t: Test| t@)))->0,
    {
        let mut sv: Vec<TemplateValue> = Vec::new();
        let mut i: usize = 0;
        while i < suites.len()
            invariant
                i <= suites.len(),
                sv.len() == i,
                forall|k: int| 0 <= k < i ==> sv@[k]@ == suite_data(suites@[k]@),
            decreases suites.len() - i,
        {
            sv.push(suite_value(&suites[i]));
            i = i + 1;
        }
        let mut gv: Vec<TemplateValue> = Vec::new();
        let mut i: usize = 0;
        while i < groups.len()
            invariant
                i <= groups.len(),
                gv.len() == i,
                forall|k: int| 0 <= k < i ==> gv@[k]@ == group_data(groups@[k]@),
            decreases groups.len() - i,
        {
            gv.push(group_value(&groups[i]));
            i = i + 1;
        }
        let mut tv: Vec<TemplateValue> = Vec::new();
        let mut i: usize = 0;
        while i < tests.len()
            invariant
                i <= tests.len(),
                tv.len() == i,
                forall|k: int| 0 <= k < i ==> tv@[k]@ == test_data(tests@[k]@),
            decreases tests.len() - i,
        {
            tv.push(test_value(&tests[i]));
            i = i + 1;
        }
        let ghost svd = sv@.map_values(|v: TemplateValue| v@);
        let ghost gvd = gv@.map_values(|v: TemplateValue| v@);
        let ghost tvd = tv@.map_values(|v: TemplateValue| v@);
        assert(svd =~= suites@.map_values(|s: Suite| s@).map_values(|s: SuiteView| suite_data(s)));
        assert(gvd =~= groups@.map_values(|g: Group| g@).map_values(|g: GroupView| group_data(g)));
        assert(tvd =~= tests@.map_values(|t: Test| t@).map_values(|t: TestView| test_data(t)));
        let entries = vec![
            field("name", TemplateValue::text(name)),
            field("suites", TemplateValue::list(sv)),
            field("groups", TemplateValue::list(gv)),
            field("tests", TemplateValue::list(tv)),
        ];
        let ctx = TemplateValue::record(entries);
        assert(entries@.map_values(|e: (String, TemplateValue)| (e.0@, e.1@)) =~= seq![
            ("name"@, TemplateData::Text(name@)),
            ("suites"@, TemplateData::List(svd)),
            ("groups"@, TemplateData::List(gvd)),
            ("tests"@, TemplateData::List(tvd)),
        ]);
        render(&self.engine, template, &ctx, TemplateRole::Document, "", name)
    }

    /// One test's step of the merge on `chunk`.
    fn test_step_exec(&self, target: &Target, suite: &Suite, group: &Group, test: &Test, chunk: String) -> (r: Result<String, PolyError>)
        ensures
            r is Ok <==> test_step(*target, suite@, group@, test@, chunk@) is Some,
            r is Ok ==> r->Ok_0@ == test_step(*target, suite@, group@, test@, chunk@)->0,
            r is Err ==> test_error(*target, suite@, group@, test@, r->Err_0),
    {
        if test.is_excluded(target.id.as_str()) {
            return Ok(chunk);
        }
        let re = match self.render_test_regex(target, test.name.as_str()) {
            Ok(re) => re,
            Err(e) => return Err(e),
        };
        let pattern = match Pattern::compile(re.as_str()) {
            Ok(p) => p,
            Err(e) => return Err(e),
        };
        if pattern.is_match(chunk.as_str()) {
            return Ok(chunk);
        }
        let ctx = test_context_value(test, group.name.as_str(), suite.name.as_str());
        let stub = match render(&self.engine, target.test_template.as_str(), &ctx, TemplateRole::Test, target.id.as_str(), test.name.as_str()) {
            Ok(s) => s,
            Err(e) => return Err(e),
        };
        let marker = get_group_comment(group.name.as_str());
        if !contains_seq(&chars_of(chunk.as_str()), &chars_of(marker.as_str())) {
            return Err(PolyError::GroupMarkerMissing { suite: copy_text(suite.name.as_str()), group: copy_text(group.name.as_str()) });
        }
        Ok(insert_after_keyword(chunk.as_str(), stub.as_str(), marker.as_str()))
    }

    /// Merges the generated text of `suite` into `contents`, the text of its
    /// file for `target` (empty when there is no file yet). The suite template
    /// is appended when the suite's marker is absent; inside the suite's chunk,
    /// the rendered template of every group whose marker is absent goes to the
    /// front, and the stub of every test that is neither excluded nor found by
    /// the test-existence regex goes right after its group's marker. The text
    /// outside the chunk is kept as it is.
    pub fn generate_suite(&self, target: &Target, suite: &Suite, contents: &str) -> (r: Result<String, PolyError>)
        ensures
            r is Ok <==> merged(*target, self.package(), suite@, contents@) is Some,
            r is Ok ==> r->Ok_0@ == merged(*target, self.package(), suite@, contents@)->0,
            r is Err ==> merge_error(*target, suite@, r->Err_0),
    {
        let ghost pkg = self.package();
        let text = if find_suite(contents, suite.name.as_str()) {
            copy_text(contents)
        } else {
            let ctx = suite_context_value(self.package_name.as_str(), suite);
            match render(&self.engine, target.suite_template.as_str(), &ctx, TemplateRole::Suite, target.id.as_str(), suite.name.as_str()) {
                Ok(rendered) => copy_text(contents).concat(rendered.as_str()),
                Err(e) => return Err(e),
            }
        };
        assert(with_suite(*target, pkg, suite@, contents@) == Some(text@));
        let chunk = match get_suite_chunk(text.as_str(), suite.name.as_str()) {
            Ok(c) => c,
            Err(e) => return Err(e),
        };
        let ghost chunk0 = chunk.content@;
        let ghost bounds = (chunk.start as int, chunk.end as int);
        assert(chunk_bounds(text@, suite@.name) == Some(bounds));
        assert(chunk0 == text@.subrange(bounds.0, bounds.1));
        let existing = get_groups(chunk.content.as_str());
        let ghost existing_v = group_names(chunk0);
        let mut content = copy_text(chunk.content.as_str());
        let n = suite.groups.len();
        let mut i: usize = 0;
        while i < n
            invariant
                n == suite.groups.len(),
                i <= n,
                existing@.map_values(|g: String| g@) == existing_v,
                existing_v == group_names(chunk0),
                chunk_bounds(text@, suite@.name) == Some(bounds),
                chunk0 == text@.subrange(bounds.0, bounds.1),
                with_suite(*target, pkg, suite@, contents@) == Some(text@),
                pkg == self.package(),
                groups_step(*target, suite@.groups, existing_v, chunk0, i as int) == Some(content@),
            decreases n - i,
        {
            let group = &suite.groups[i];
            assert(suite@.groups[i as int] == group@);
            if !text_in(&existing, group.name.as_str()) {
                match render(&self.engine, target.group_template.as_str(), &group_context_value(group), TemplateRole::Group, target.id.as_str(), group.name.as_str()) {
                    Ok(rendered) => {
                        content = rendered.concat(content.as_str());
                    },
                    Err(e) => {
                        proof {
                            lemma_groups_step_none(*target, suite@.groups, existing_v, chunk0, i + 1, n as int);
                            assert(template_error(e, TemplateRole::Group, target.id@, suite@.groups[i as int].name));
                        }
                        return Err(e);
                    },
                }
            }
            i = i + 1;
        }
        let ghost chunk1 = content@;
        let mut gi: usize = 0;
        while gi < n
            invariant
                n == suite.groups.len(),
                gi <= n,
                existing_v == group_names(chunk0),
                chunk_bounds(text@, suite@.name) == Some(bounds),
                chunk0 == text@.subrange(bounds.0, bounds.1),
                with_suite(*target, pkg, suite@, contents@) == Some(text@),
                pkg == self.package(),
                groups_step(*target, suite@.groups, existing_v, chunk0, n as int) == Some(chunk1),
                tests_step(*target, suite@, chunk1, gi as int) == Some(content@),
            decreases n - gi,
        {
            let group = &suite.groups[gi];
            assert(suite@.groups[gi as int] == group@);
            let ghost start = content@;
            let m = group.tests.len();
            let mut ti: usize = 0;
            while ti < m
                invariant
                    n == suite.groups.len(),
                    gi < n,
                    group == &suite.groups[gi as int],
                    m == group.tests.len(),
                    ti <= m,
                    existing_v == group_names(chunk0),
                    chunk_bounds(text@, suite@.name) == Some(bounds),
                    chunk0 == text@.subrange(bounds.0, bounds.1),
                    with_suite(*target, pkg, suite@, contents@) == Some(text@),
                    pkg == self.package(),
                    groups_step(*target, suite@.groups, existing_v, chunk0, n as int) == Some(chunk1),
                    tests_step(*target, suite@, chunk1, gi as int) == Some(start),
                    group_tests_step(*target, suite@, group@, start, ti as int) == Some(content@),
                decreases m - ti,
            {
                let test = &group.tests[ti];
                assert(group@.tests[ti as int] == test@);
                match self.test_step_exec(target, suite, group, test, content) {
                    Ok(c) => {
                        content = c;
                    },
                    Err(e) => {
                        proof {
                            lemma_group_tests_step_none(*target, suite@, group@, start, ti + 1, m as int);
                            lemma_tests_step_none(*target, suite@, chunk1, gi + 1, n as int);
                            assert(test_error(*target, suite@, suite@.groups[gi as int], suite@.groups[gi as int].tests[ti as int], e));
                        }
                        return Err(e);
                    },
                }
                ti = ti + 1;
            }
            gi = gi + 1;
        }
        Ok(replace_range(text.as_str(), chunk.start, chunk.end, content.as_str()))
    }
}

} // verus!
