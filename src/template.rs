//! Template rendering through minijinja, and the values handed to templates.
use vstd::prelude::*;
use crate::error::{PolyError, TemplateRole};
use crate::plan::{Group, GroupView, Suite, SuiteView, Test, TestView, texts};
use crate::text::copy_text;
use crate::case::convert_case_filter;

verus! {

#[verifier::external_type_specification]
#[verifier::external_body]
pub struct ExEngine<'a>(minijinja::Environment<'a>);

#[verifier::external_type_specification]
#[verifier::external_body]
pub struct ExEngineValue(minijinja::Value);

#[verifier::external_type_specification]
#[verifier::external_body]
pub struct ExTemplateError(minijinja::Error);

/// What a template sees: text, lists and records of named fields.
pub enum TemplateData {
    Text(Seq<char>),
    List(Seq<TemplateData>),
    Record(Seq<(Seq<char>, TemplateData)>),
}

/// A value handed to a template, together with what it holds.
pub struct TemplateValue {
    value: minijinja::Value,
    model: Ghost<TemplateData>,
}

impl View for TemplateValue {
    type V = TemplateData;

    closed spec fn view(&self) -> TemplateData {
        self.model@
    }
}

/// Relies on minijinja's `From<&str> for Value`: a string value.
#[verifier::external_body]
fn engine_text(s: &str) -> minijinja::Value {
    minijinja::Value::from(s)
}

/// Relies on minijinja's `From<Vec<Value>> for Value`: a sequence value, in order.
#[verifier::external_body]
fn engine_list(items: Vec<TemplateValue>) -> minijinja::Value {
    minijinja::Value::from(items.into_iter().map(|v| v.value).collect::<Vec<minijinja::Value>>())
}

/// Relies on minijinja's `FromIterator<(K, V)> for Value`: a map value.
#[verifier::external_body]
fn engine_record(entries: Vec<(String, TemplateValue)>) -> minijinja::Value {
    minijinja::Value::from_iter(entries.into_iter().map(|(k, v)| (k, v.value)))
}

impl TemplateValue {
    pub fn text(s: &str) -> (r: TemplateValue)
        ensures
            r@ == TemplateData::Text(s@),
    {
        TemplateValue { value: engine_text(s), model: Ghost(TemplateData::Text(s@)) }
    }

    pub fn list(items: Vec<TemplateValue>) -> (r: TemplateValue)
        ensures
            r@ == TemplateData::List(items@.map_values(|v: TemplateValue| v@)),
    {
        let ghost model = TemplateData::List(items@.map_values(|v: TemplateValue| v@));
        TemplateValue { value: engine_list(items), model: Ghost(model) }
    }

    pub fn record(entries: Vec<(String, TemplateValue)>) -> (r: TemplateValue)
        ensures
            r@ == TemplateData::Record(entries@.map_values(|e: (String, TemplateValue)| (e.0@, e.1@))),
    {
        let ghost model = TemplateData::Record(entries@.map_values(|e: (String, TemplateValue)| (e.0@, e.1@)));
        TemplateValue { value: engine_record(entries), model: Ghost(model) }
    }
}

pub open spec fn text_list(xs: Seq<Seq<char>>) -> TemplateData {
    TemplateData::List(xs.map_values(|x: Seq<char>| TemplateData::Text(x)))
}

/// A test as templates see it.
pub open spec fn test_data(t: TestView) -> TemplateData {
    TemplateData::Record(seq![
        ("name"@, TemplateData::Text(t.name)),
        ("desc"@, TemplateData::Text(t.desc)),
        ("exclude_targets"@, text_list(t.exclude_targets)),
    ])
}

/// A group as templates see it.
pub open spec fn group_data(g: GroupView) -> TemplateData {
    TemplateData::Record(seq![
        ("name"@, TemplateData::Text(g.name)),
        ("tests"@, TemplateData::List(g.tests.map_values(|t: TestView| test_data(t)))),
        ("desc"@, TemplateData::Text(g.desc)),
    ])
}

/// A suite as templates see it.
pub open spec fn suite_data(s: SuiteView) -> TemplateData {
    TemplateData::Record(seq![
        ("name"@, TemplateData::Text(s.name)),
        ("groups"@, TemplateData::List(s.groups.map_values(|g: GroupView| group_data(g)))),
    ])
}

pub fn field(name: &str, v: TemplateValue) -> (r: (String, TemplateValue))
    ensures
        r.0@ == name@,
        r.1@ == v@,
{
    (String::from_str(name), v)
}

fn text_list_value(xs: &Vec<String>) -> (r: TemplateValue)
    ensures
        r@ == text_list(texts(xs@)),
{
    let mut items: Vec<TemplateValue> = Vec::new();
    let mut i: usize = 0;
    while i < xs.len()
        invariant
            i <= xs.len(),
            items.len() == i,
            forall|k: int| 0 <= k < i ==> items@[k]@ == TemplateData::Text(xs@[k]@),
        decreases xs.len() - i,
    {
        items.push(TemplateValue::text(xs[i].as_str()));
        i = i + 1;
    }
    assert(items@.map_values(|v: TemplateValue| v@) =~= texts(xs@).map_values(|x: Seq<char>| TemplateData::Text(x)));
    TemplateValue::list(items)
}

pub fn test_value(t: &Test) -> (r: TemplateValue)
    ensures
        r@ == test_data(t@),
{
    let entries = vec![
        field("name", TemplateValue::text(t.name.as_str())),
        field("desc", TemplateValue::text(t.desc.as_str())),
        field("exclude_targets", text_list_value(&t.exclude_targets)),
    ];
    let r = TemplateValue::record(entries);
    assert(r@ == test_data(t@)) by {
        assert(entries@.map_values(|e: (String, TemplateValue)| (e.0@, e.1@)) =~= seq![
            ("name"@, TemplateData::Text(t@.name)),
            ("desc"@, TemplateData::Text(t@.desc)),
            ("exclude_targets"@, text_list(t@.exclude_targets)),
        ]);
    }
    r
}

pub fn group_value(g: &Group) -> (r: TemplateValue)
    ensures
        r@ == group_data(g@),
{
    let mut items: Vec<TemplateValue> = Vec::new();
    let mut i: usize = 0;
    while i < g.tests.len()
        invariant
            i <= g.tests.len(),
            items.len() == i,
            forall|k: int| 0 <= k < i ==> items@[k]@ == test_data(g.tests@[k]@),
        decreases g.tests.len() - i,
    {
        items.push(test_value(&g.tests[i]));
        i = i + 1;
    }
    let ghost tests_data = items@.map_values(|v: TemplateValue| v@);
    assert(tests_data =~= g@.tests.map_values(|t: TestView| test_data(t)));
    let entries = vec![
        field("name", TemplateValue::text(g.name.as_str())),
        field("tests", TemplateValue::list(items)),
        field("desc", TemplateValue::text(g.desc.as_str())),
    ];
    let r = TemplateValue::record(entries);
    assert(r@ == group_data(g@)) by {
        assert(entries@.map_values(|e: (String, TemplateValue)| (e.0@, e.1@)) =~= seq![
            ("name"@, TemplateData::Text(g@.name)),
            ("tests"@, TemplateData::List(g@.tests.map_values(|t: TestView| test_data(t)))),
            ("desc"@, TemplateData::Text(g@.desc)),
        ]);
    }
    r
}

pub fn suite_value(s: &Suite) -> (r: TemplateValue)
    ensures
        r@ == suite_data(s@),
{
    suite_value_named(s.name.as_str(), s)
}

/// The template value of `s` under the name `name`.
pub fn suite_value_named(name: &str, s: &Suite) -> (r: TemplateValue)
    ensures
        r@ == suite_data(SuiteView { name: name@, groups: s@.groups }),
{
    let mut items: Vec<TemplateValue> = Vec::new();
    let mut i: usize = 0;
    while i < s.groups.len()
        invariant
            i <= s.groups.len(),
            items.len() == i,
            forall|k: int| 0 <= k < i ==> items@[k]@ == group_data(s.groups@[k]@),
        decreases s.groups.len() - i,
    {
        items.push(group_value(&s.groups[i]));
        i = i + 1;
    }
    assert(items@.map_values(|v: TemplateValue| v@) =~= s@.groups.map_values(|g: GroupView| group_data(g)));
    let entries = vec![
        field("name", TemplateValue::text(name)),
        field("groups", TemplateValue::list(items)),
    ];
    let r = TemplateValue::record(entries);
    assert(r@ == suite_data(SuiteView { name: name@, groups: s@.groups })) by {
        assert(entries@.map_values(|e: (String, TemplateValue)| (e.0@, e.1@)) =~= seq![
            ("name"@, TemplateData::Text(name@)),
            ("groups"@, TemplateData::List(s@.groups.map_values(|g: GroupView| group_data(g)))),
        ]);
    }
    r
}

/// What rendering the template `source` with `context` gives: the text, or
/// `None` where the template fails to parse or to render.
pub uninterp spec fn render_of(source: Seq<char>, context: TemplateData) -> Option<Seq<char>>;

/// Relies on minijinja::Environment::new, add_filter, set_lstrip_blocks and
/// set_trim_blocks: every engine of this library has the same settings and
/// the single filter `convert_case`.
#[verifier::external_body]
pub(crate) fn new_engine() -> minijinja::Environment<'static> {
    let mut env = minijinja::Environment::new();
    env.add_filter("convert_case", convert_case_filter);
    env.set_lstrip_blocks(true);
    env.set_trim_blocks(true);
    env
}

/// Relies on minijinja::Environment::render_str: parses `source` and renders it
/// with `context`. As every engine comes from `new_engine`, the outcome depends
/// on the source and the context alone.
#[verifier::external_body]
fn engine_render(engine: &minijinja::Environment<'static>, source: &str, context: &TemplateValue) -> (r: Result<String, minijinja::Error>)
    ensures
        r is Ok <==> render_of(source@, context@) is Some,
        r is Ok ==> r->Ok_0@ == render_of(source@, context@)->0,
{
    engine.render_str(source, &context.value)
}

/// Relies on minijinja::Error's `Display` in its alternate form: the message with its causes.
#[verifier::external_body]
fn template_error_text(e: &minijinja::Error) -> String {
    format!("{:#}", e)
}

/// Renders `source` with `context`; a failure is reported under `role`, `owner` and `subject`.
pub(crate) fn render(engine: &minijinja::Environment<'static>, source: &str, context: &TemplateValue, role: TemplateRole, owner: &str, subject: &str) -> (r: Result<String, PolyError>)
    ensures
        r is Ok <==> render_of(source@, context@) is Some,
        r is Ok ==> r->Ok_0@ == render_of(source@, context@)->0,
        r is Err ==> template_error(r->Err_0, role, owner@, subject@),
{
    match engine_render(engine, source, context) {
        Ok(s) => Ok(s),
        Err(e) => Err(PolyError::Template { role, owner: copy_text(owner), subject: copy_text(subject), detail: template_error_text(&e) }),
    }
}

/// `e` is a rendering failure of the template of `role`, for `owner` and `subject`.
pub open spec fn template_error(e: PolyError, role: TemplateRole, owner: Seq<char>, subject: Seq<char>) -> bool {
    match e {
        PolyError::Template { role: r, owner: o, subject: s, .. } => r == role && o@ == owner && s@ == subject,
        _ => false,
    }
}

} // verus!
