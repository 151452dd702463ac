//! The test plan: suites of groups of tests, built from configuration.
use vstd::prelude::*;
use crate::error::PolyError;
use crate::text::{copy_text, same_text, text_in};

verus! {

/// Configuration of one test.
#[derive(Clone, Debug)]
pub struct TestConfig {
    pub exclude_targets: Vec<String>,
    pub desc: Option<String>,
}

/// Configuration of one group: its tests in declaration order, keyed by test id.
#[derive(Clone, Debug)]
pub struct GroupConfig {
    pub desc: Option<String>,
    pub tests: Vec<(String, TestConfig)>,
}

/// Configuration of one suite: the ids of its groups.
#[derive(Clone, Debug)]
pub struct SuiteConfig {
    pub groups: Vec<String>,
}

#[derive(Clone, Debug)]
pub struct Test {
    pub name: String,
    pub desc: String,
    pub exclude_targets: Vec<String>,
}

#[derive(Clone, Debug)]
pub struct Group {
    pub name: String,
    pub tests: Vec<Test>,
    pub desc: String,
}

#[derive(Clone, Debug)]
pub struct Suite {
    pub name: String,
    pub groups: Vec<Group>,
}

pub struct TestView {
    pub name: Seq<char>,
    pub desc: Seq<char>,
    pub exclude_targets: Seq<Seq<char>>,
}

pub struct GroupView {
    pub name: Seq<char>,
    pub tests: Seq<TestView>,
    pub desc: Seq<char>,
}

pub struct SuiteView {
    pub name: Seq<char>,
    pub groups: Seq<GroupView>,
}

pub open spec fn texts(v: Seq<String>) -> Seq<Seq<char>> {
    v.map_values(|s: String| s@)
}

impl View for Test {
    type V = TestView;

    open spec fn view(&self) -> TestView {
        TestView { name: self.name@, desc: self.desc@, exclude_targets: texts(self.exclude_targets@) }
    }
}

impl View for Group {
    type V = GroupView;

    open spec fn view(&self) -> GroupView {
        GroupView { name: self.name@, tests: self.tests@.map_values(|t: Test| t@), desc: self.desc@ }
    }
}

impl View for Suite {
    type V = SuiteView;

    open spec fn view(&self) -> SuiteView {
        SuiteView { name: self.name@, groups: self.groups@.map_values(|g: Group| g@) }
    }
}

/// The description, or empty when none is configured.
pub open spec fn desc_or_empty(d: Option<String>) -> Seq<char> {
    match d {
        Some(s) => s@,
        None => Seq::empty(),
    }
}

/// The test that a configuration entry describes.
pub open spec fn test_of(cfg: TestConfig, id: Seq<char>) -> TestView {
    TestView { name: id, desc: desc_or_empty(cfg.desc), exclude_targets: texts(cfg.exclude_targets@) }
}

/// The group that a configuration entry describes.
pub open spec fn group_of(cfg: GroupConfig, id: Seq<char>) -> GroupView {
    GroupView {
        name: id,
        tests: cfg.tests@.map_values(|e: (String, TestConfig)| test_of(e.1, e.0@)),
        desc: desc_or_empty(cfg.desc),
    }
}

/// The ids of an ordered list of configuration entries.
pub open spec fn ids_of<T>(entries: Seq<(String, T)>) -> Seq<Seq<char>> {
    entries.map_values(|e: (String, T)| e.0@)
}

/// The groups of `groups` (in their configuration order) whose ids `wanted` lists.
pub open spec fn selected_groups(groups: Seq<(String, GroupConfig)>, wanted: Seq<Seq<char>>) -> Seq<GroupView>
    decreases groups.len(),
{
    if groups.len() == 0 {
        Seq::empty()
    } else {
        let last = groups.last();
        let rest = selected_groups(groups.drop_last(), wanted);
        if wanted.contains(last.0@) {
            rest.push(group_of(last.1, last.0@))
        } else {
            rest
        }
    }
}

/// A copy of a list of strings.
pub fn copy_texts(v: &Vec<String>) -> (r: Vec<String>)
    ensures
        texts(r@) == texts(v@),
{
    let mut r: Vec<String> = Vec::new();
    let mut i: usize = 0;
    while i < v.len()
        invariant
            i <= v.len(),
            r.len() == i,
            forall|k: int| 0 <= k < i ==> r@[k]@ == v@[k]@,
        decreases v.len() - i,
    {
        r.push(copy_text(v[i].as_str()));
        i = i + 1;
    }
    assert(texts(r@) =~= texts(v@));
    r
}

fn desc_text(d: &Option<String>) -> (r: String)
    ensures
        r@ == desc_or_empty(*d),
{
    match d {
        Some(s) => copy_text(s.as_str()),
        None => String::new(),
    }
}

impl Test {
    pub fn from_config(test_config: &TestConfig, test_id: &str) -> (r: Test)
        ensures
            r@ == test_of(*test_config, test_id@),
    {
        Test {
            exclude_targets: copy_texts(&test_config.exclude_targets),
            name: copy_text(test_id),
            desc: desc_text(&test_config.desc),
        }
    }

    /// Whether this test is excluded from the target `target_id`.
    pub fn is_excluded(&self, target_id: &str) -> (r: bool)
        ensures
            r == self@.exclude_targets.contains(target_id@),
    {
        text_in(&self.exclude_targets, target_id)
    }
}

impl Group {
    pub fn from_config(group_config: &GroupConfig, group_id: &str) -> (r: Group)
        ensures
            r@ == group_of(*group_config, group_id@),
    {
        let mut tests: Vec<Test> = Vec::new();
        let ghost want = group_of(*group_config, group_id@).tests;
        let mut i: usize = 0;
        while i < group_config.tests.len()
            invariant
                i <= group_config.tests.len(),
                want == group_config.tests@.map_values(|e: (String, TestConfig)| test_of(e.1, e.0@)),
                tests.len() == i,
                forall|k: int| 0 <= k < i ==> tests@[k]@ == want[k],
            decreases group_config.tests.len() - i,
        {
            let entry = &group_config.tests[i];
            tests.push(Test::from_config(&entry.1, entry.0.as_str()));
            i = i + 1;
        }
        assert(tests@.map_values(|t: Test| t@) =~= want);
        Group { name: copy_text(group_id), tests, desc: desc_text(&group_config.desc) }
    }
}

impl Suite {
    /// Resolves the groups of a suite against the group configuration. Groups
    /// keep their configuration order; an id that no group has is an error.
    pub fn from_config(groups: &Vec<(String, GroupConfig)>, suite_config: &SuiteConfig, suite_id: &str) -> (r: Result<Suite, PolyError>)
        ensures
            r is Ok <==> (forall|k: int| 0 <= k < suite_config.groups.len()
                ==> ids_of(groups@).contains(#[trigger] suite_config.groups@[k]@)),
            r is Ok ==> r->Ok_0@ == (SuiteView {
                name: suite_id@,
                groups: selected_groups(groups@, texts(suite_config.groups@)),
            }),
            r is Err ==> r->Err_0 is UnknownGroup,
    {
        let mut k: usize = 0;
        while k < suite_config.groups.len()
            invariant
                k <= suite_config.groups.len(),
                forall|j: int| 0 <= j < k ==> ids_of(groups@).contains(#[trigger] suite_config.groups@[j]@),
            decreases suite_config.groups.len() - k,
        {
            let wanted = &suite_config.groups[k];
            let mut found = false;
            let mut i: usize = 0;
            while i < groups.len()
                invariant
                    i <= groups.len(),
                    found ==> ids_of(groups@).contains(wanted@),
                    !found ==> forall|j: int| 0 <= j < i ==> ids_of(groups@)[j] != wanted@,
                decreases groups.len() - i,
            {
                if same_text(groups[i].0.as_str(), wanted.as_str()) {
                    assert(ids_of(groups@)[i as int] == wanted@);
                    found = true;
                }
                i = i + 1;
            }
            if !found {
                return Err(PolyError::UnknownGroup { suite: copy_text(suite_id), group: copy_text(wanted.as_str()) });
            }
            k = k + 1;
        }
        let mut selected: Vec<Group> = Vec::new();
        let mut i: usize = 0;
        while i < groups.len()
            invariant
                i <= groups.len(),
                selected@.map_values(|g: Group| g@) == selected_groups(groups@.take(i as int), texts(suite_config.groups@)),
            decreases groups.len() - i,
        {
            assert(groups@.take(i + 1).drop_last() =~= groups@.take(i as int));
            if text_in(&suite_config.groups, groups[i].0.as_str()) {
                selected.push(Group::from_config(&groups[i].1, groups[i].0.as_str()));
            }
            i = i + 1;
            assert(selected@.map_values(|g: Group| g@) =~= selected_groups(groups@.take(i as int), texts(suite_config.groups@)));
        }
        assert(groups@.take(i as int) =~= groups@);
        Ok(Suite { name: copy_text(suite_id), groups: selected })
    }
}

} // verus!
