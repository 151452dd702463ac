//! What generation makes of a suite file: the merge of rendered suite, group
//! and test stubs into the text already there.
use vstd::prelude::*;
use crate::parsing::{chunk_bounds, group_marker, group_names, inserted_after, suite_comment, suite_marker};
use crate::pattern::{regex_compiles, regex_is_match};
use crate::plan::{GroupView, SuiteView, TestView};
use crate::target::Target;
use crate::template::{TemplateData, group_data, render_of, suite_data, test_data};
use crate::text::{contains, find_first, lemma_find_from};

verus! {

/// Context of the suite template.
pub open spec fn suite_context(package_name: Seq<char>, suite: SuiteView) -> TemplateData {
    TemplateData::Record(seq![("package_name"@, TemplateData::Text(package_name)), ("suite"@, suite_data(suite))])
}

/// Context of the group template.
pub open spec fn group_context(group: GroupView) -> TemplateData {
    TemplateData::Record(seq![("group"@, group_data(group))])
}

/// Context of the test template.
pub open spec fn test_context(test: TestView, group_name: Seq<char>, suite_name: Seq<char>) -> TemplateData {
    TemplateData::Record(seq![
        ("test"@, test_data(test)),
        ("group_name"@, TemplateData::Text(group_name)),
        ("suite_name"@, TemplateData::Text(suite_name)),
    ])
}

/// Context of the test-existence regex template.
pub open spec fn name_context(name: Seq<char>) -> TemplateData {
    TemplateData::Record(seq![("name"@, TemplateData::Text(name))])
}

/// Context of the suite-file-name template.
pub open spec fn file_name_context(suite: SuiteView) -> TemplateData {
    TemplateData::Record(seq![("suite"@, suite_data(suite))])
}

/// `s` with every `sep` replaced by `_`.
pub open spec fn replace_sep(s: Seq<char>, sep: char) -> Seq<char> {
    s.map_values(|c: char| if c == sep { '_' } else { c })
}

/// `suite` with every path separator `sep` in its name replaced by `_`.
pub open spec fn file_name_suite(suite: SuiteView, sep: char) -> SuiteView {
    SuiteView { name: replace_sep(suite.name, sep), groups: suite.groups }
}

/// The file name of `suite` for `target`, where paths separate with `sep`.
pub open spec fn suite_file_name_of(target: Target, suite: SuiteView, sep: char) -> Option<Seq<char>> {
    render_of(target.suite_file_name_template@, file_name_context(file_name_suite(suite, sep)))
}

/// Context of runner commands.
pub open spec fn package_context(package_name: Seq<char>) -> TemplateData {
    TemplateData::Record(seq![("package_name"@, TemplateData::Text(package_name))])
}

/// Context of the pass and fail regex templates of runners.
pub open spec fn outcome_context(file_name: Seq<char>, suite_name: Seq<char>, group_name: Seq<char>, test_name: Seq<char>) -> TemplateData {
    TemplateData::Record(seq![
        ("file_name"@, TemplateData::Text(file_name)),
        ("suite_name"@, TemplateData::Text(suite_name)),
        ("group_name"@, TemplateData::Text(group_name)),
        ("test_name"@, TemplateData::Text(test_name)),
    ])
}

/// The rendered test-existence regex of the test `name` for `target`.
pub open spec fn test_regex_of(target: Target, name: Seq<char>) -> Option<Seq<char>> {
    render_of(target.test_regex_template@, name_context(name))
}

/// Whether `test` is excluded from `target`.
pub open spec fn excluded(target: Target, test: TestView) -> bool {
    test.exclude_targets.contains(target.id@)
}

/// Whether the test-existence regex of `name` renders, compiles and matches `text`.
pub open spec fn test_found(target: Target, name: Seq<char>, text: Seq<char>) -> bool {
    &&& test_regex_of(target, name) is Some
    &&& regex_compiles(test_regex_of(target, name)->0)
    &&& regex_is_match(test_regex_of(target, name)->0, text)
}

/// One test's step on the chunk: excluded or already present, the chunk is
/// unchanged; else its rendered stub goes right after its group's marker.
pub open spec fn test_step(target: Target, suite: SuiteView, group: GroupView, test: TestView, chunk: Seq<char>) -> Option<Seq<char>> {
    if excluded(target, test) {
        Some(chunk)
    } else {
        match test_regex_of(target, test.name) {
            None => None,
            Some(re) => if !regex_compiles(re) {
                None
            } else if regex_is_match(re, chunk) {
                Some(chunk)
            } else {
                match render_of(target.test_template@, test_context(test, group.name, suite.name)) {
                    None => None,
                    Some(stub) => if contains(chunk, group_marker(group.name)) {
                        Some(inserted_after(chunk, stub, group_marker(group.name)))
                    } else {
                        None
                    },
                }
            },
        }
    }
}

/// The chunk after the steps of the first `n` tests of `group`.
pub open spec fn group_tests_step(target: Target, suite: SuiteView, group: GroupView, chunk: Seq<char>, n: int) -> Option<Seq<char>>
    decreases n,
{
    if n <= 0 {
        Some(chunk)
    } else {
        match group_tests_step(target, suite, group, chunk, n - 1) {
            None => None,
            Some(c) => test_step(target, suite, group, group.tests[n - 1], c),
        }
    }
}

/// The chunk after the test steps of the first `n` groups of `suite`.
pub open spec fn tests_step(target: Target, suite: SuiteView, chunk: Seq<char>, n: int) -> Option<Seq<char>>
    decreases n,
{
    if n <= 0 {
        Some(chunk)
    } else {
        match tests_step(target, suite, chunk, n - 1) {
            None => None,
            Some(c) => {
                let g = suite.groups[n - 1];
                group_tests_step(target, suite, g, c, g.tests.len() as int)
            },
        }
    }
}

/// The chunk after the first `n` groups of `groups` that `existing` lacks
/// had their rendered template put in front of it, one after the other.
pub open spec fn groups_step(target: Target, groups: Seq<GroupView>, existing: Seq<Seq<char>>, chunk: Seq<char>, n: int) -> Option<Seq<char>>
    decreases n,
{
    if n <= 0 {
        Some(chunk)
    } else {
        match groups_step(target, groups, existing, chunk, n - 1) {
            None => None,
            Some(c) => if existing.contains(groups[n - 1].name) {
                Some(c)
            } else {
                match render_of(target.group_template@, group_context(groups[n - 1])) {
                    None => None,
                    Some(text) => Some(text + c),
                }
            },
        }
    }
}

/// The file with the suite's marker: unchanged if it holds one, else with the
/// rendered suite template appended.
pub open spec fn with_suite(target: Target, package_name: Seq<char>, suite: SuiteView, contents: Seq<char>) -> Option<Seq<char>> {
    if contains(contents, suite_marker(suite.name)) {
        Some(contents)
    } else {
        match render_of(target.suite_template@, suite_context(package_name, suite)) {
            None => None,
            Some(text) => Some(contents + text),
        }
    }
}

/// The suite file that generation writes for `suite` and `target`, given the
/// text `contents` already there; `None` where it fails.
pub open spec fn merged(target: Target, package_name: Seq<char>, suite: SuiteView, contents: Seq<char>) -> Option<Seq<char>> {
    match with_suite(target, package_name, suite, contents) {
        None => None,
        Some(c1) => match chunk_bounds(c1, suite.name) {
            None => None,
            Some(b) => {
                let chunk0 = c1.subrange(b.0, b.1);
                match groups_step(target, suite.groups, group_names(chunk0), chunk0, suite.groups.len() as int) {
                    None => None,
                    Some(chunk1) => match tests_step(target, suite, chunk1, suite.groups.len() as int) {
                        None => None,
                        Some(chunk2) => Some(c1.subrange(0, b.0) + chunk2 + c1.subrange(b.1, c1.len() as int)),
                    },
                }
            },
        },
    }
}

/// A found chunk lies within the text, after the suite's marker.
pub proof fn lemma_chunk_bounds(s: Seq<char>, name: Seq<char>)
    ensures
        contains(s, suite_marker(name)) <==> chunk_bounds(s, name) is Some,
        chunk_bounds(s, name) is Some ==> ({
            let b = chunk_bounds(s, name)->0;
            0 <= b.0 <= b.1 <= s.len()
        }),
{
    lemma_find_from(s, suite_marker(name), 0);
    if let Some(k) = find_first(s, suite_marker(name)) {
        lemma_find_from(s, suite_comment(), k + suite_marker(name).len());
    }
}

/// Steps that each leave the chunk unchanged leave it unchanged together.
proof fn lemma_group_tests_fixed(target: Target, suite: SuiteView, group: GroupView, chunk: Seq<char>, n: int)
    requires
        0 <= n <= group.tests.len(),
        forall|k: int| 0 <= k < n ==> test_step(target, suite, group, #[trigger] group.tests[k], chunk) == Some(chunk),
    ensures
        group_tests_step(target, suite, group, chunk, n) == Some(chunk),
    decreases n,
{
    if n > 0 {
        lemma_group_tests_fixed(target, suite, group, chunk, n - 1);
    }
}

proof fn lemma_groups_fixed(target: Target, groups: Seq<GroupView>, existing: Seq<Seq<char>>, chunk: Seq<char>, n: int)
    requires
        0 <= n <= groups.len(),
        forall|k: int| 0 <= k < n ==> existing.contains(#[trigger] groups[k].name),
    ensures
        groups_step(target, groups, existing, chunk, n) == Some(chunk),
    decreases n,
{
    if n > 0 {
        lemma_groups_fixed(target, groups, existing, chunk, n - 1);
    }
}

/// Every test of `suite` that is not excluded from `target` is found in `chunk`.
pub open spec fn all_tests_found(target: Target, suite: SuiteView, chunk: Seq<char>) -> bool {
    forall|g: int, t: int| 0 <= g < suite.groups.len() && 0 <= t < suite.groups[g].tests.len()
        ==> (excluded(target, #[trigger] suite.groups[g].tests[t]) || test_found(target, suite.groups[g].tests[t].name, chunk))
}

proof fn lemma_tests_fixed(target: Target, suite: SuiteView, chunk: Seq<char>, n: int)
    requires
        0 <= n <= suite.groups.len(),
        all_tests_found(target, suite, chunk),
    ensures
        tests_step(target, suite, chunk, n) == Some(chunk),
    decreases n,
{
    if n > 0 {
        lemma_tests_fixed(target, suite, chunk, n - 1);
        let g = suite.groups[n - 1];
        assert forall|k: int| 0 <= k < g.tests.len() implies test_step(target, suite, g, #[trigger] g.tests[k], chunk) == Some(chunk) by {
            assert(excluded(target, suite.groups[n - 1].tests[k]) || test_found(target, suite.groups[n - 1].tests[k].name, chunk));
        }
        lemma_group_tests_fixed(target, suite, g, chunk, g.tests.len() as int);
    }
}

/// Generation is idempotent: a file that already holds the suite's marker,
/// the marker of every planned group inside the suite's chunk, and a match
/// of the test-existence regex for every planned test that is not excluded,
/// is written back unchanged, byte for byte.
pub proof fn lemma_generation_idempotent(target: Target, package_name: Seq<char>, suite: SuiteView, contents: Seq<char>)
    requires
        contains(contents, suite_marker(suite.name)),
        ({
            let b = chunk_bounds(contents, suite.name)->0;
            let chunk = contents.subrange(b.0, b.1);
            &&& forall|g: int| 0 <= g < suite.groups.len() ==> group_names(chunk).contains(#[trigger] suite.groups[g].name)
            &&& all_tests_found(target, suite, chunk)
        }),
    ensures
        merged(target, package_name, suite, contents) == Some(contents),
{
    lemma_chunk_bounds(contents, suite.name);
    let b = chunk_bounds(contents, suite.name)->0;
    let chunk = contents.subrange(b.0, b.1);
    lemma_groups_fixed(target, suite.groups, group_names(chunk), chunk, suite.groups.len() as int);
    lemma_tests_fixed(target, suite, chunk, suite.groups.len() as int);
    assert(contents.subrange(0, b.0) + chunk + contents.subrange(b.1, contents.len() as int) =~= contents);
}

proof fn lemma_group_tests_from(target: Target, suite: SuiteView, group: GroupView, c0: Seq<char>, c: Seq<char>, k: int, n: int)
    requires
        0 <= k <= n <= group.tests.len(),
        group_tests_step(target, suite, group, c0, k) == Some(c),
        forall|j: int| k <= j < n ==> test_step(target, suite, group, #[trigger] group.tests[j], c) == Some(c),
    ensures
        group_tests_step(target, suite, group, c0, n) == Some(c),
    decreases n - k,
{
    if n > k {
        lemma_group_tests_from(target, suite, group, c0, c, k, n - 1);
    }
}

/// Every test of the group at `g` leaves `c` unchanged.
pub open spec fn group_fixes(target: Target, suite: SuiteView, g: int, c: Seq<char>) -> bool {
    forall|t: int| 0 <= t < suite.groups[g].tests.len()
        ==> test_step(target, suite, suite.groups[g], #[trigger] suite.groups[g].tests[t], c) == Some(c)
}

proof fn lemma_tests_from(target: Target, suite: SuiteView, c0: Seq<char>, c: Seq<char>, k: int, n: int)
    requires
        0 <= k <= n <= suite.groups.len(),
        tests_step(target, suite, c0, k) == Some(c),
        forall|j: int| k <= j < n ==> #[trigger] group_fixes(target, suite, j, c),
    ensures
        tests_step(target, suite, c0, n) == Some(c),
    decreases n - k,
{
    if n > k {
        lemma_tests_from(target, suite, c0, c, k, n - 1);
        assert(group_fixes(target, suite, n - 1, c));
        let g = suite.groups[n - 1];
        lemma_group_tests_from(target, suite, g, c, c, 0, g.tests.len() as int);
    }
}

/// Generation does not destroy what a file holds: when every planned group is
/// present and every planned test but one (group `gi`, test `ti`) is found,
/// before and after that test's stub is added, the file comes back with that
/// stub inserted right after its group's marker and every other character
/// (hand-written test bodies included) in place.
pub proof fn lemma_new_test_only_inserted(target: Target, package_name: Seq<char>, suite: SuiteView, contents: Seq<char>, gi: int, ti: int)
    requires
        contains(contents, suite_marker(suite.name)),
        0 <= gi < suite.groups.len(),
        0 <= ti < suite.groups[gi].tests.len(),
        ({
            let b = chunk_bounds(contents, suite.name)->0;
            let chunk = contents.subrange(b.0, b.1);
            let g = suite.groups[gi];
            let t = g.tests[ti];
            let stub = render_of(target.test_template@, test_context(t, g.name, suite.name))->0;
            let grown = inserted_after(chunk, stub, group_marker(g.name));
            &&& forall|k: int| 0 <= k < suite.groups.len() ==> group_names(chunk).contains(#[trigger] suite.groups[k].name)
            &&& !excluded(target, t)
            &&& test_regex_of(target, t.name) is Some
            &&& regex_compiles(test_regex_of(target, t.name)->0)
            &&& !regex_is_match(test_regex_of(target, t.name)->0, chunk)
            &&& render_of(target.test_template@, test_context(t, g.name, suite.name)) is Some
            &&& contains(chunk, group_marker(g.name))
            &&& forall|h: int, u: int| 0 <= h < suite.groups.len() && 0 <= u < suite.groups[h].tests.len() && (h != gi || u != ti)
                ==> (excluded(target, #[trigger] suite.groups[h].tests[u])
                    || (test_found(target, suite.groups[h].tests[u].name, chunk) && test_found(target, suite.groups[h].tests[u].name, grown)))
        }),
    ensures
        ({
            let b = chunk_bounds(contents, suite.name)->0;
            let chunk = contents.subrange(b.0, b.1);
            let g = suite.groups[gi];
            let stub = render_of(target.test_template@, test_context(g.tests[ti], g.name, suite.name))->0;
            let p = b.0 + find_first(chunk, group_marker(g.name))->0 + group_marker(g.name).len();
            merged(target, package_name, suite, contents) == Some(contents.subrange(0, p) + stub + contents.subrange(p, contents.len() as int))
        }),
{
    lemma_chunk_bounds(contents, suite.name);
    let b = chunk_bounds(contents, suite.name)->0;
    let chunk = contents.subrange(b.0, b.1);
    let g = suite.groups[gi];
    let t = g.tests[ti];
    let marker = group_marker(g.name);
    let stub = render_of(target.test_template@, test_context(t, g.name, suite.name))->0;
    let grown = inserted_after(chunk, stub, marker);
    lemma_groups_fixed(target, suite.groups, group_names(chunk), chunk, suite.groups.len() as int);
    // groups before `gi` leave the chunk as it is
    assert forall|j: int| 0 <= j < gi implies #[trigger] group_fixes(target, suite, j, chunk) by {
        assert forall|u: int| 0 <= u < suite.groups[j].tests.len() implies
            test_step(target, suite, suite.groups[j], #[trigger] suite.groups[j].tests[u], chunk) == Some(chunk) by {
            assert(excluded(target, suite.groups[j].tests[u]) || test_found(target, suite.groups[j].tests[u].name, chunk));
        }
    }
    lemma_tests_from(target, suite, chunk, chunk, 0, gi);
    // inside group `gi`: unchanged up to `ti`, grown from there on
    assert forall|u: int| 0 <= u < ti implies test_step(target, suite, g, #[trigger] g.tests[u], chunk) == Some(chunk) by {
        assert(excluded(target, suite.groups[gi].tests[u]) || test_found(target, suite.groups[gi].tests[u].name, chunk));
    }
    lemma_group_tests_from(target, suite, g, chunk, chunk, 0, ti);
    assert(test_step(target, suite, g, t, chunk) == Some(grown));
    assert forall|u: int| ti + 1 <= u < g.tests.len() implies test_step(target, suite, g, #[trigger] g.tests[u], grown) == Some(grown) by {
        assert(excluded(target, suite.groups[gi].tests[u]) || test_found(target, suite.groups[gi].tests[u].name, grown));
    }
    lemma_group_tests_from(target, suite, g, chunk, grown, ti + 1, g.tests.len() as int);
    assert(tests_step(target, suite, chunk, gi + 1) == Some(grown));
    // groups after `gi` leave the grown chunk as it is
    assert forall|j: int| gi + 1 <= j < suite.groups.len() implies #[trigger] group_fixes(target, suite, j, grown) by {
        assert forall|u: int| 0 <= u < suite.groups[j].tests.len() implies
            test_step(target, suite, suite.groups[j], #[trigger] suite.groups[j].tests[u], grown) == Some(grown) by {
            assert(excluded(target, suite.groups[j].tests[u]) || test_found(target, suite.groups[j].tests[u].name, grown));
        }
    }
    lemma_tests_from(target, suite, chunk, grown, gi + 1, suite.groups.len() as int);
    lemma_find_from(chunk, marker, 0);
    let q = find_first(chunk, marker)->0 + marker.len();
    assert(contents.subrange(0, b.0) + grown + contents.subrange(b.1, contents.len() as int)
        =~= contents.subrange(0, b.0 + q) + stub + contents.subrange(b.0 + q, contents.len() as int));
}

} // verus!
