//! The `convert_case` template filter.
use vstd::prelude::*;
use convert_case::{Case, Casing};
use crate::error::PolyError;
use crate::text::{copy_text, same_text};

verus! {

/// The letter cases that the `convert_case` filter offers.
#[derive(Clone, Copy, Debug, PartialEq, Eq, Structural)]
pub enum CaseStyle {
    Alternating,
    Camel,
    Cobol,
    Flat,
    Kebab,
    Lower,
    Pascal,
    Snake,
    UpperSnake,
    Title,
    Toggle,
    Train,
    Upper,
    UpperCamel,
    UpperFlat,
    UpperKebab,
}

/// The case that a filter argument names; `ScreamingSnake` is another name of `UpperSnake`.
pub open spec fn case_named(s: Seq<char>) -> Option<CaseStyle> {
    if s == "Alternating"@ {
        Some(CaseStyle::Alternating)
    } else if s == "Camel"@ {
        Some(CaseStyle::Camel)
    } else if s == "Cobol"@ {
        Some(CaseStyle::Cobol)
    } else if s == "Flat"@ {
        Some(CaseStyle::Flat)
    } else if s == "Kebab"@ {
        Some(CaseStyle::Kebab)
    } else if s == "Lower"@ {
        Some(CaseStyle::Lower)
    } else if s == "Pascal"@ {
        Some(CaseStyle::Pascal)
    } else if s == "Snake"@ {
        Some(CaseStyle::Snake)
    } else if s == "ScreamingSnake"@ || s == "UpperSnake"@ {
        Some(CaseStyle::UpperSnake)
    } else if s == "Title"@ {
        Some(CaseStyle::Title)
    } else if s == "Toggle"@ {
        Some(CaseStyle::Toggle)
    } else if s == "Train"@ {
        Some(CaseStyle::Train)
    } else if s == "Upper"@ {
        Some(CaseStyle::Upper)
    } else if s == "UpperCamel"@ {
        Some(CaseStyle::UpperCamel)
    } else if s == "UpperFlat"@ {
        Some(CaseStyle::UpperFlat)
    } else if s == "UpperKebab"@ {
        Some(CaseStyle::UpperKebab)
    } else {
        None
    }
}

pub fn case_from_str(s: &str) -> (r: Result<CaseStyle, PolyError>)
    ensures
        case_named(s@) is Some ==> r == Ok::<CaseStyle, PolyError>(case_named(s@)->0),
        case_named(s@) is None ==> r is Err && r->Err_0 is UnsupportedCase,
{
    if same_text(s, "Alternating") {
        Ok(CaseStyle::Alternating)
    } else if same_text(s, "Camel") {
        Ok(CaseStyle::Camel)
    } else if same_text(s, "Cobol") {
        Ok(CaseStyle::Cobol)
    } else if same_text(s, "Flat") {
        Ok(CaseStyle::Flat)
    } else if same_text(s, "Kebab") {
        Ok(CaseStyle::Kebab)
    } else if same_text(s, "Lower") {
        Ok(CaseStyle::Lower)
    } else if same_text(s, "Pascal") {
        Ok(CaseStyle::Pascal)
    } else if same_text(s, "Snake") {
        Ok(CaseStyle::Snake)
    } else if same_text(s, "ScreamingSnake") || same_text(s, "UpperSnake") {
        Ok(CaseStyle::UpperSnake)
    } else if same_text(s, "Title") {
        Ok(CaseStyle::Title)
    } else if same_text(s, "Toggle") {
        Ok(CaseStyle::Toggle)
    } else if same_text(s, "Train") {
        Ok(CaseStyle::Train)
    } else if same_text(s, "Upper") {
        Ok(CaseStyle::Upper)
    } else if same_text(s, "UpperCamel") {
        Ok(CaseStyle::UpperCamel)
    } else if same_text(s, "UpperFlat") {
        Ok(CaseStyle::UpperFlat)
    } else if same_text(s, "UpperKebab") {
        Ok(CaseStyle::UpperKebab)
    } else {
        Err(PolyError::UnsupportedCase { case: copy_text(s) })
    }
}

/// What `convert_case` makes of `s` in the case `style`.
pub uninterp spec fn cased(s: Seq<char>, style: CaseStyle) -> Seq<char>;

/// Relies on convert_case's `Casing::to_case`: `s` converted to the case of the same name.
#[verifier::external_body]
pub fn to_case(s: &str, style: CaseStyle) -> (r: String)
    ensures
        r@ == cased(s@, style),
{
    let case = match style {
        CaseStyle::Alternating => Case::Alternating, CaseStyle::Camel => Case::Camel,
        CaseStyle::Cobol => Case::Cobol, CaseStyle::Flat => Case::Flat,
        CaseStyle::Kebab => Case::Kebab, CaseStyle::Lower => Case::Lower,
        CaseStyle::Pascal => Case::Pascal, CaseStyle::Snake => Case::Snake,
        CaseStyle::UpperSnake => Case::UpperSnake, CaseStyle::Title => Case::Title,
        CaseStyle::Toggle => Case::Toggle, CaseStyle::Train => Case::Train,
        CaseStyle::Upper => Case::Upper, CaseStyle::UpperCamel => Case::UpperCamel,
        CaseStyle::UpperFlat => Case::UpperFlat, CaseStyle::UpperKebab => Case::UpperKebab,
    };
    s.to_case(case)
}

/// Relies on minijinja::Error::new: an invalid-operation error naming the unknown case.
#[verifier::external_body]
fn unsupported_case_error(case: &str) -> minijinja::Error {
    minijinja::Error::new(minijinja::ErrorKind::InvalidOperation, format!("Unsupported case: {}", case))
}

/// The `convert_case` filter: `input` in the case that `case` names. An
/// unknown case name fails the rendering.
pub fn convert_case_filter(input: &str, case: &str) -> (r: Result<String, minijinja::Error>)
    ensures
        case_named(case@) is Some <==> r is Ok,
        r is Ok ==> r->Ok_0@ == cased(input@, case_named(case@)->0),
{
    match case_from_str(case) {
        Ok(style) => Ok(to_case(input, style)),
        Err(_) => Err(unsupported_case_error(case)),
    }
}

} // verus!
