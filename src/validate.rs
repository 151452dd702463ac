//! Validation of a generated suite file against the plan.
use vstd::prelude::*;
use crate::error::PolyError;
use crate::merge::{excluded, test_regex_of, test_step};
use crate::parsing::{chunk_bounds, get_suite_chunk, suite_marker};
use crate::pattern::{Pattern, regex_compiles, regex_is_match, regex_matches};
use crate::plan::{Group, GroupView, Suite, SuiteView, Test, TestView};
use crate::render::Renderer;
use crate::target::Target;
use crate::text::{contains, copy_text};

verus! {

/// Where a check of the tests of a suite stands.
pub enum CheckState {
    /// Every test so far is present; these found declarations are not yet accounted for.
    Going(Seq<Seq<char>>),
    /// The test of this name is absent.
    Missing(Seq<char>),
    /// A regex failed to render or to compile.
    Broken,
}

/// What validating one suite file gives.
pub enum Verdict {
    Valid,
    Missing(Seq<char>),
    Orphans(Seq<Seq<char>>),
    Broken,
}

/// The declarations of `found` that the regex `re` does not match.
pub open spec fn unmatched_by(found: Seq<Seq<char>>, re: Seq<char>) -> Seq<Seq<char>> {
    found.filter(|x: Seq<char>| !regex_is_match(re, x))
}

/// One test's check: an excluded test is skipped; a present one accounts for
/// every found declaration that its regex matches.
pub open spec fn check_test(target: Target, test: TestView, contents: Seq<char>, found: Seq<Seq<char>>) -> CheckState {
    if excluded(target, test) {
        CheckState::Going(found)
    } else {
        match test_regex_of(target, test.name) {
            None => CheckState::Broken,
            Some(re) => if !regex_compiles(re) {
                CheckState::Broken
            } else if !regex_is_match(re, contents) {
                CheckState::Missing(test.name)
            } else {
                CheckState::Going(unmatched_by(found, re))
            },
        }
    }
}

/// The state after the checks of the first `n` tests of `group`.
pub open spec fn check_group(target: Target, group: GroupView, contents: Seq<char>, found: Seq<Seq<char>>, n: int) -> CheckState
    decreases n,
{
    if n <= 0 {
        CheckState::Going(found)
    } else {
        match check_group(target, group, contents, found, n - 1) {
            CheckState::Going(rest) => check_test(target, group.tests[n - 1], contents, rest),
            other => other,
        }
    }
}

/// The state after the checks of the tests of the first `n` groups of `suite`.
pub open spec fn check_groups(target: Target, suite: SuiteView, contents: Seq<char>, found: Seq<Seq<char>>, n: int) -> CheckState
    decreases n,
{
    if n <= 0 {
        CheckState::Going(found)
    } else {
        match check_groups(target, suite, contents, found, n - 1) {
            CheckState::Going(rest) => {
                let g = suite.groups[n - 1];
                check_group(target, g, contents, rest, g.tests.len() as int)
            },
            other => other,
        }
    }
}

/// What validation of the file text `contents` of `suite` for `target` gives.
pub open spec fn verdict(target: Target, suite: SuiteView, contents: Seq<char>) -> Verdict {
    match chunk_bounds(contents, suite.name) {
        None => Verdict::Broken,
        Some(b) => match test_regex_of(target, ".*"@) {
            None => Verdict::Broken,
            Some(all) => if !regex_compiles(all) {
                Verdict::Broken
            } else {
                let found = regex_matches(all, contents.subrange(b.0, b.1));
                match check_groups(target, suite, contents, found, suite.groups.len() as int) {
                    CheckState::Going(rest) => if rest.len() == 0 {
                        Verdict::Valid
                    } else {
                        Verdict::Orphans(rest)
                    },
                    CheckState::Missing(name) => Verdict::Missing(name),
                    CheckState::Broken => Verdict::Broken,
                }
            },
        },
    }
}

pub proof fn lemma_check_group_stops(target: Target, group: GroupView, contents: Seq<char>, found: Seq<Seq<char>>, i: int, n: int)
    requires
        0 <= i <= n,
        !(check_group(target, group, contents, found, i) is Going),
    ensures
        check_group(target, group, contents, found, n) == check_group(target, group, contents, found, i),
    decreases n - i,
{
    if i < n {
        lemma_check_group_stops(target, group, contents, found, i, n - 1);
    }
}

pub proof fn lemma_check_groups_stops(target: Target, suite: SuiteView, contents: Seq<char>, found: Seq<Seq<char>>, i: int, n: int)
    requires
        0 <= i <= n,
        !(check_groups(target, suite, contents, found, i) is Going),
    ensures
        check_groups(target, suite, contents, found, n) == check_groups(target, suite, contents, found, i),
    decreases n - i,
{
    if i < n {
        lemma_check_groups_stops(target, suite, contents, found, i, n - 1);
    }
}

/// The regex of the test at (`g`, `t`) of `suite` is planned for `target`
/// (the test is not excluded) and matches `x`.
pub open spec fn accounts_for(target: Target, suite: SuiteView, g: int, t: int, x: Seq<char>) -> bool {
    &&& !excluded(target, suite.groups[g].tests[t])
    &&& regex_is_match(test_regex_of(target, suite.groups[g].tests[t].name)->0, x)
}

/// Some planned test among the first `k` of group `g` accounts for `x`.
pub open spec fn accounted_in_group(target: Target, suite: SuiteView, g: int, k: int, x: Seq<char>) -> bool {
    exists|t: int| 0 <= t < k && #[trigger] accounts_for(target, suite, g, t, x)
}

/// Some planned test of the first `n` groups accounts for `x`.
pub open spec fn accounted_in_groups(target: Target, suite: SuiteView, n: int, x: Seq<char>) -> bool {
    exists|g: int, t: int| 0 <= g < n && 0 <= t < suite.groups[g].tests.len() && #[trigger] accounts_for(target, suite, g, t, x)
}

/// Some planned test of `suite` accounts for `x`.
pub open spec fn accounted(target: Target, suite: SuiteView, x: Seq<char>) -> bool {
    accounted_in_groups(target, suite, suite.groups.len() as int, x)
}

/// Every test of `suite` not excluded from `target` has a regex that
/// renders, compiles and matches `contents`.
pub open spec fn all_present(target: Target, suite: SuiteView, contents: Seq<char>) -> bool {
    forall|g: int, t: int| 0 <= g < suite.groups.len() && 0 <= t < suite.groups[g].tests.len()
        && !excluded(target, #[trigger] suite.groups[g].tests[t]) ==> {
            let re = test_regex_of(target, suite.groups[g].tests[t].name);
            &&& re is Some
            &&& regex_compiles(re->0)
            &&& regex_is_match(re->0, contents)
        }
}

/// The declarations found by the all-tests regex in the suite's chunk.
pub open spec fn found_declarations(target: Target, suite: SuiteView, contents: Seq<char>) -> Seq<Seq<char>> {
    let b = chunk_bounds(contents, suite.name)->0;
    regex_matches(test_regex_of(target, ".*"@)->0, contents.subrange(b.0, b.1))
}

proof fn lemma_filter_and(s: Seq<Seq<char>>, p: spec_fn(Seq<char>) -> bool, q: spec_fn(Seq<char>) -> bool, r: spec_fn(Seq<char>) -> bool)
    requires
        forall|x: Seq<char>| #[trigger] r(x) == (p(x) && q(x)),
    ensures
        s.filter(p).filter(q) == s.filter(r),
    decreases s.len(),
{
    reveal(Seq::filter);
    if s.len() > 0 {
        lemma_filter_and(s.drop_last(), p, q, r);
        let sub = s.drop_last().filter(p);
        assert(sub.push(s.last()).drop_last() =~= sub);
    }
}

proof fn lemma_filter_same(s: Seq<Seq<char>>, p: spec_fn(Seq<char>) -> bool, q: spec_fn(Seq<char>) -> bool)
    requires
        forall|x: Seq<char>| #[trigger] p(x) == q(x),
    ensures
        s.filter(p) == s.filter(q),
    decreases s.len(),
{
    reveal(Seq::filter);
    if s.len() > 0 {
        lemma_filter_same(s.drop_last(), p, q);
    }
}

proof fn lemma_filter_none(s: Seq<Seq<char>>, p: spec_fn(Seq<char>) -> bool)
    requires
        forall|i: int| 0 <= i < s.len() ==> !p(#[trigger] s[i]),
    ensures
        s.filter(p) == Seq::<Seq<char>>::empty(),
    decreases s.len(),
{
    reveal(Seq::filter);
    if s.len() > 0 {
        assert(!p(s[s.len() - 1]));
        lemma_filter_none(s.drop_last(), p);
    }
}

proof fn lemma_filter_single(s: Seq<Seq<char>>, p: spec_fn(Seq<char>) -> bool, i: int)
    requires
        0 <= i < s.len(),
        p(s[i]),
        forall|j: int| 0 <= j < s.len() && j != i ==> !p(#[trigger] s[j]),
    ensures
        s.filter(p) == seq![s[i]],
    decreases s.len(),
{
    reveal(Seq::filter);
    if i == s.len() - 1 {
        lemma_filter_none(s.drop_last(), p);
        assert(Seq::<Seq<char>>::empty().push(s[i]) =~= seq![s[i]]);
    } else {
        assert(!p(s[s.len() - 1]));
        lemma_filter_single(s.drop_last(), p, i);
    }
}

proof fn lemma_check_group_all_present(target: Target, suite: SuiteView, g: int, contents: Seq<char>, found: Seq<Seq<char>>, k: int)
    requires
        0 <= g < suite.groups.len(),
        0 <= k <= suite.groups[g].tests.len(),
        all_present(target, suite, contents),
    ensures
        check_group(target, suite.groups[g], contents, found, k)
            == CheckState::Going(found.filter(|x: Seq<char>| !accounted_in_group(target, suite, g, k, x))),
    decreases k,
{
    let group = suite.groups[g];
    if k == 0 {
        lemma_filter_same(found, |x: Seq<char>| !accounted_in_group(target, suite, g, 0, x), |x: Seq<char>| true);
        assert(found.filter(|x: Seq<char>| true) =~= found) by {
            lemma_filter_all_true(found);
        }
    } else {
        lemma_check_group_all_present(target, suite, g, contents, found, k - 1);
        let prev = found.filter(|x: Seq<char>| !accounted_in_group(target, suite, g, k - 1, x));
        let test = group.tests[k - 1];
        if excluded(target, test) {
            assert forall|x: Seq<char>| (!accounted_in_group(target, suite, g, k - 1, x)) == !accounted_in_group(target, suite, g, k, x) by {
                if accounted_in_group(target, suite, g, k, x) {
                    let t = choose|t: int| 0 <= t < k && #[trigger] accounts_for(target, suite, g, t, x);
                    assert(t != k - 1);
                }
            }
            lemma_filter_same(found, |x: Seq<char>| !accounted_in_group(target, suite, g, k - 1, x), |x: Seq<char>| !accounted_in_group(target, suite, g, k, x));
        } else {
            assert(suite.groups[g].tests[k - 1] == test);
            let re = test_regex_of(target, test.name)->0;
            assert forall|x: Seq<char>| (!accounted_in_group(target, suite, g, k, x))
                == (!accounted_in_group(target, suite, g, k - 1, x) && !regex_is_match(re, x)) by {
                if accounted_in_group(target, suite, g, k, x) {
                    let t = choose|t: int| 0 <= t < k && #[trigger] accounts_for(target, suite, g, t, x);
                    if t != k - 1 {
                        assert(accounted_in_group(target, suite, g, k - 1, x));
                    }
                }
                if regex_is_match(re, x) {
                    assert(accounts_for(target, suite, g, k - 1, x));
                }
                if accounted_in_group(target, suite, g, k - 1, x) {
                    let t = choose|t: int| 0 <= t < k - 1 && #[trigger] accounts_for(target, suite, g, t, x);
                    assert(accounts_for(target, suite, g, t, x));
                }
            }
            lemma_filter_and(found, |x: Seq<char>| !accounted_in_group(target, suite, g, k - 1, x), |x: Seq<char>| !regex_is_match(re, x),
                |x: Seq<char>| !accounted_in_group(target, suite, g, k, x));
        }
    }
}

proof fn lemma_filter_all_true(s: Seq<Seq<char>>)
    ensures
        s.filter(|x: Seq<char>| true) == s,
    decreases s.len(),
{
    reveal(Seq::filter);
    if s.len() > 0 {
        lemma_filter_all_true(s.drop_last());
        assert(s.drop_last().push(s.last()) =~= s);
    }
}

proof fn lemma_check_groups_all_present(target: Target, suite: SuiteView, contents: Seq<char>, found: Seq<Seq<char>>, n: int)
    requires
        0 <= n <= suite.groups.len(),
        all_present(target, suite, contents),
    ensures
        check_groups(target, suite, contents, found, n)
            == CheckState::Going(found.filter(|x: Seq<char>| !accounted_in_groups(target, suite, n, x))),
    decreases n,
{
    if n == 0 {
        lemma_filter_same(found, |x: Seq<char>| !accounted_in_groups(target, suite, 0, x), |x: Seq<char>| true);
        lemma_filter_all_true(found);
    } else {
        lemma_check_groups_all_present(target, suite, contents, found, n - 1);
        let prev = found.filter(|x: Seq<char>| !accounted_in_groups(target, suite, n - 1, x));
        let g = n - 1;
        let len = suite.groups[g].tests.len() as int;
        lemma_check_group_all_present(target, suite, g, contents, prev, len);
        assert forall|x: Seq<char>| (!accounted_in_groups(target, suite, n, x))
            == (!accounted_in_groups(target, suite, n - 1, x) && !accounted_in_group(target, suite, g, len, x)) by {
            if accounted_in_groups(target, suite, n, x) {
                let (h, t) = choose|h: int, t: int| 0 <= h < n && 0 <= t < suite.groups[h].tests.len() && #[trigger] accounts_for(target, suite, h, t, x);
                if h == g {
                    assert(accounted_in_group(target, suite, g, len, x));
                } else {
                    assert(accounted_in_groups(target, suite, n - 1, x));
                }
            }
            if accounted_in_groups(target, suite, n - 1, x) {
                let (h, t) = choose|h: int, t: int| 0 <= h < n - 1 && 0 <= t < suite.groups[h].tests.len() && #[trigger] accounts_for(target, suite, h, t, x);
                assert(accounts_for(target, suite, h, t, x));
            }
            if accounted_in_group(target, suite, g, len, x) {
                let t = choose|t: int| 0 <= t < len && #[trigger] accounts_for(target, suite, g, t, x);
                assert(accounts_for(target, suite, g, t, x));
            }
        }
        lemma_filter_and(found, |x: Seq<char>| !accounted_in_groups(target, suite, n - 1, x), |x: Seq<char>| !accounted_in_group(target, suite, g, len, x),
            |x: Seq<char>| !accounted_in_groups(target, suite, n, x));
    }
}

/// When every planned test is present, validation reports as orphans exactly
/// the found declarations that no planned test accounts for, in order, and
/// succeeds when there are none.
pub proof fn lemma_orphans_are_unaccounted(target: Target, suite: SuiteView, contents: Seq<char>)
    requires
        contains(contents, suite_marker(suite.name)),
        test_regex_of(target, ".*"@) is Some,
        regex_compiles(test_regex_of(target, ".*"@)->0),
        all_present(target, suite, contents),
    ensures
        ({
            let rest = found_declarations(target, suite, contents).filter(|x: Seq<char>| !accounted(target, suite, x));
            verdict(target, suite, contents) == if rest.len() == 0 { Verdict::Valid } else { Verdict::Orphans(rest) }
        }),
{
    crate::merge::lemma_chunk_bounds(contents, suite.name);
    let found = found_declarations(target, suite, contents);
    lemma_check_groups_all_present(target, suite, contents, found, suite.groups.len() as int);
    lemma_filter_same(found, |x: Seq<char>| !accounted_in_groups(target, suite, suite.groups.len() as int, x), |x: Seq<char>| !accounted(target, suite, x));
}

/// Validator symmetry: a file in which every planned test is present and
/// every declaration that the all-tests regex finds in the suite's chunk is
/// accounted for by a planned test (as in a freshly generated file)
/// validates, with no orphan.
pub proof fn lemma_fresh_file_valid(target: Target, suite: SuiteView, contents: Seq<char>)
    requires
        contains(contents, suite_marker(suite.name)),
        test_regex_of(target, ".*"@) is Some,
        regex_compiles(test_regex_of(target, ".*"@)->0),
        all_present(target, suite, contents),
        forall|i: int| 0 <= i < found_declarations(target, suite, contents).len()
            ==> accounted(target, suite, #[trigger] found_declarations(target, suite, contents)[i]),
    ensures
        verdict(target, suite, contents) == Verdict::Valid,
{
    lemma_orphans_are_unaccounted(target, suite, contents);
    lemma_filter_none(found_declarations(target, suite, contents), |x: Seq<char>| !accounted(target, suite, x));
}

/// Orphan detection: where every planned test is present and exactly one
/// found declaration is accounted for by no planned test (a block renamed to
/// a name the plan lacks), validation fails with that one declaration as the
/// only orphan.
pub proof fn lemma_single_orphan(target: Target, suite: SuiteView, contents: Seq<char>, i: int)
    requires
        contains(contents, suite_marker(suite.name)),
        test_regex_of(target, ".*"@) is Some,
        regex_compiles(test_regex_of(target, ".*"@)->0),
        all_present(target, suite, contents),
        0 <= i < found_declarations(target, suite, contents).len(),
        !accounted(target, suite, found_declarations(target, suite, contents)[i]),
        forall|j: int| 0 <= j < found_declarations(target, suite, contents).len() && j != i
            ==> accounted(target, suite, #[trigger] found_declarations(target, suite, contents)[j]),
    ensures
        verdict(target, suite, contents) == Verdict::Orphans(seq![found_declarations(target, suite, contents)[i]]),
{
    lemma_orphans_are_unaccounted(target, suite, contents);
    lemma_filter_single(found_declarations(target, suite, contents), |x: Seq<char>| !accounted(target, suite, x), i);
}

/// A test excluded from a target is neither generated nor required for it:
/// its step of the merge leaves any chunk unchanged, and its check during
/// validation neither fails nor accounts for any declaration.
pub proof fn lemma_excluded_test_ignored(target: Target, suite: SuiteView, group: GroupView, test: TestView, chunk: Seq<char>, contents: Seq<char>, found: Seq<Seq<char>>)
    requires
        test.exclude_targets.contains(target.id@),
    ensures
        test_step(target, suite, group, test, chunk) == Some(chunk),
        check_test(target, test, contents, found) == CheckState::Going(found),
{
}

/// Whether the test-existence regex of `name` renders, compiles and matches `input`.
pub fn find_test(input: &str, target: &Target, name: &str, renderer: &Renderer) -> (r: Result<bool, PolyError>)
    ensures
        r is Ok <==> (test_regex_of(*target, name@) is Some && regex_compiles(test_regex_of(*target, name@)->0)),
        r is Ok ==> r->Ok_0 == regex_is_match(test_regex_of(*target, name@)->0, input@),
{
    let re = match renderer.render_test_regex(target, name) {
        Ok(re) => re,
        Err(e) => return Err(e),
    };
    match Pattern::compile(re.as_str()) {
        Ok(p) => Ok(p.is_match(input)),
        Err(e) => Err(e),
    }
}

/// The entries of `found` that `p` does not match, in order.
fn drop_matched(found: Vec<String>, p: &Pattern) -> (r: Vec<String>)
    ensures
        r@.map_values(|s: String| s@) == unmatched_by(found@.map_values(|s: String| s@), p@),
{
    let ghost fv = found@.map_values(|s: String| s@);
    let mut kept: Vec<String> = Vec::new();
    let mut i: usize = 0;
    while i < found.len()
        invariant
            i <= found.len(),
            fv == found@.map_values(|s: String| s@),
            kept@.map_values(|s: String| s@) == unmatched_by(fv.take(i as int), p@),
        decreases found.len() - i,
    {
        let ghost before = kept@.map_values(|s: String| s@);
        assert(fv.take(i + 1).drop_last() =~= fv.take(i as int));
        reveal(Seq::filter);
        if !p.is_match(found[i].as_str()) {
            kept.push(copy_text(found[i].as_str()));
            assert(kept@.map_values(|s: String| s@) =~= before.push(fv[i as int]));
        } else {
            assert(kept@.map_values(|s: String| s@) =~= before);
        }
        i = i + 1;
    }
    assert(fv.take(i as int) =~= fv);
    kept
}

/// Validates the text `contents` of the file of `suite` for `target`: every
/// test that is not excluded must be found in the file, and every
/// declaration that the all-tests regex finds in the suite's chunk must be
/// accounted for by a planned test; those left over are reported together.
pub fn validate_suite(renderer: &Renderer, target: &Target, suite: &Suite, contents: &str) -> (r: Result<(), PolyError>)
    ensures
        r is Ok <==> verdict(*target, suite@, contents@) is Valid,
        verdict(*target, suite@, contents@) is Missing ==> (r matches Err(PolyError::TestMissing { test, .. })
            && test@ == verdict(*target, suite@, contents@)->Missing_0),
        verdict(*target, suite@, contents@) is Orphans ==> (r matches Err(PolyError::OrphanTests { found, .. })
            && found@.map_values(|s: String| s@) == verdict(*target, suite@, contents@)->Orphans_0),
{
    let chunk = match get_suite_chunk(contents, suite.name.as_str()) {
        Ok(c) => c,
        Err(e) => return Err(e),
    };
    let all = match renderer.render_all_tests_regex(target) {
        Ok(a) => a,
        Err(e) => return Err(e),
    };
    let all_pattern = match Pattern::compile(all.as_str()) {
        Ok(p) => p,
        Err(e) => return Err(e),
    };
    let mut remaining = all_pattern.find_all(chunk.content.as_str());
    let ghost found0 = remaining@.map_values(|s: String| s@);
    let ghost b = (chunk.start as int, chunk.end as int);
    let ghost all_v = all@;
    let n = suite.groups.len();
    let mut gi: usize = 0;
    while gi < n
        invariant
            n == suite.groups.len(),
            gi <= n,
            chunk_bounds(contents@, suite@.name) == Some(b),
            test_regex_of(*target, ".*"@) == Some(all_v),
            regex_compiles(all_v),
            found0 == regex_matches(all_v, contents@.subrange(b.0, b.1)),
            check_groups(*target, suite@, contents@, found0, gi as int) == CheckState::Going(remaining@.map_values(|s: String| s@)),
        decreases n - gi,
    {
        let group = &suite.groups[gi];
        assert(suite@.groups[gi as int] == group@);
        let ghost start = remaining@.map_values(|s: String| s@);
        let m = group.tests.len();
        let mut ti: usize = 0;
        while ti < m
            invariant
                n == suite.groups.len(),
                gi < n,
                group == &suite.groups[gi as int],
                m == group.tests.len(),
                ti <= m,
                chunk_bounds(contents@, suite@.name) == Some(b),
                test_regex_of(*target, ".*"@) == Some(all_v),
                regex_compiles(all_v),
                found0 == regex_matches(all_v, contents@.subrange(b.0, b.1)),
                check_groups(*target, suite@, contents@, found0, gi as int) == CheckState::Going(start),
                check_group(*target, group@, contents@, start, ti as int) == CheckState::Going(remaining@.map_values(|s: String| s@)),
            decreases m - ti,
        {
            let test = &group.tests[ti];
            assert(group@.tests[ti as int] == test@);
            if !test.is_excluded(target.id.as_str()) {
                let re = match renderer.render_test_regex(target, test.name.as_str()) {
                    Ok(re) => re,
                    Err(e) => {
                        proof {
                            lemma_check_group_stops(*target, group@, contents@, start, ti + 1, m as int);
                            lemma_check_groups_stops(*target, suite@, contents@, found0, gi + 1, n as int);
                        }
                        return Err(e);
                    },
                };
                let p = match Pattern::compile(re.as_str()) {
                    Ok(p) => p,
                    Err(e) => {
                        proof {
                            lemma_check_group_stops(*target, group@, contents@, start, ti + 1, m as int);
                            lemma_check_groups_stops(*target, suite@, contents@, found0, gi + 1, n as int);
                        }
                        return Err(e);
                    },
                };
                if !p.is_match(contents) {
                    proof {
                        lemma_check_group_stops(*target, group@, contents@, start, ti + 1, m as int);
                        lemma_check_groups_stops(*target, suite@, contents@, found0, gi + 1, n as int);
                    }
                    return Err(PolyError::TestMissing { suite: copy_text(suite.name.as_str()), test: copy_text(test.name.as_str()) });
                }
                remaining = drop_matched(remaining, &p);
            }
            ti = ti + 1;
        }
        gi = gi + 1;
    }
    if remaining.len() == 0 {
        Ok(())
    } else {
        Err(PolyError::OrphanTests { suite: copy_text(suite.name.as_str()), found: remaining })
    }
}

} // verus!
