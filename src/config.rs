//! Checks on a loaded configuration: its version and the names it declares.
use vstd::prelude::*;
use crate::error::{NameProblem, PolyError, VersionProblem};
use crate::pattern::{Pattern, regex_compiles, regex_is_match};
use crate::plan::{GroupConfig, texts};
use crate::text::{chars_of, copy_text, pieces, slice_chars, split_char};

verus! {

/// The pattern that names must match: letters, digits, `_`, `-` and spaces.
pub open spec fn valid_name_pattern() -> Seq<char> {
    "^[a-zA-Z0-9_\\- ]+$"@
}

/// What is wrong with a name, if anything, once the name pattern compiles.
pub open spec fn name_problem(name: Seq<char>) -> Option<NameProblem> {
    if name.len() == 0 {
        Some(NameProblem::Empty)
    } else if name[0] == ' ' || name.last() == ' ' {
        Some(NameProblem::EdgeSpace)
    } else if !regex_is_match(valid_name_pattern(), name) {
        Some(NameProblem::InvalidCharacters)
    } else {
        None
    }
}

/// Checks one name of the kind `name_type` ("Suite", "Group", ...).
pub fn validate_name(name: &str, name_type: &str) -> (r: Result<(), PolyError>)
    ensures
        regex_compiles(valid_name_pattern()) ==> (r is Ok <==> name_problem(name@) is None),
        name_problem(name@) is Some && (name@.len() == 0 || name@[0] == ' ' || name@.last() == ' ' || regex_compiles(valid_name_pattern()))
            ==> (r matches Err(PolyError::InvalidName { problem, .. }) && problem == name_problem(name@)->0),
{
    let v = chars_of(name);
    if v.len() == 0 {
        return Err(PolyError::InvalidName { kind: copy_text(name_type), name: copy_text(name), problem: NameProblem::Empty });
    }
    if v[0] == ' ' || v[v.len() - 1] == ' ' {
        return Err(PolyError::InvalidName { kind: copy_text(name_type), name: copy_text(name), problem: NameProblem::EdgeSpace });
    }
    let pattern = match Pattern::compile("^[a-zA-Z0-9_\\- ]+$") {
        Ok(p) => p,
        Err(e) => return Err(e),
    };
    if !pattern.is_match(name) {
        return Err(PolyError::InvalidName { kind: copy_text(name_type), name: copy_text(name), problem: NameProblem::InvalidCharacters });
    }
    Ok(())
}

/// Every suite id, group id and test id is a valid name.
pub open spec fn all_names_valid(suite_ids: Seq<Seq<char>>, groups: Seq<(String, GroupConfig)>) -> bool {
    &&& forall|i: int| 0 <= i < suite_ids.len() ==> name_problem(#[trigger] suite_ids[i]) is None
    &&& forall|i: int| 0 <= i < groups.len() ==> name_problem((#[trigger] groups[i]).0@) is None
    &&& forall|i: int, j: int| 0 <= i < groups.len() && 0 <= j < groups[i].1.tests.len()
        ==> name_problem((#[trigger] groups[i].1.tests@[j]).0@) is None
}

/// Checks the names of all suites, groups and tests of a configuration.
pub fn validate_names(suite_ids: &Vec<String>, groups: &Vec<(String, GroupConfig)>) -> (r: Result<(), PolyError>)
    ensures
        regex_compiles(valid_name_pattern()) ==> (r is Ok <==> all_names_valid(texts(suite_ids@), groups@)),
{
    let mut i: usize = 0;
    while i < suite_ids.len()
        invariant
            i <= suite_ids.len(),
            regex_compiles(valid_name_pattern()) ==> forall|k: int| 0 <= k < i ==> name_problem(#[trigger] texts(suite_ids@)[k]) is None,
        decreases suite_ids.len() - i,
    {
        match validate_name(suite_ids[i].as_str(), "Suite") {
            Ok(()) => {},
            Err(e) => {
                assert(texts(suite_ids@)[i as int] == suite_ids@[i as int]@);
                return Err(e);
            },
        }
        i = i + 1;
    }
    let mut g: usize = 0;
    while g < groups.len()
        invariant
            g <= groups.len(),
            regex_compiles(valid_name_pattern()) ==> forall|k: int| 0 <= k < suite_ids.len() ==> name_problem(#[trigger] texts(suite_ids@)[k]) is None,
            regex_compiles(valid_name_pattern()) ==> forall|k: int| 0 <= k < g ==> name_problem((#[trigger] groups@[k]).0@) is None,
        decreases groups.len() - g,
    {
        match validate_name(groups[g].0.as_str(), "Group") {
            Ok(()) => {},
            Err(e) => {
                assert(name_problem(groups@[g as int].0@) is Some || !regex_compiles(valid_name_pattern()));
                return Err(e);
            },
        }
        g = g + 1;
    }
    let mut g: usize = 0;
    while g < groups.len()
        invariant
            g <= groups.len(),
            regex_compiles(valid_name_pattern()) ==> forall|k: int| 0 <= k < suite_ids.len() ==> name_problem(#[trigger] texts(suite_ids@)[k]) is None,
            regex_compiles(valid_name_pattern()) ==> forall|k: int| 0 <= k < groups.len() ==> name_problem((#[trigger] groups@[k]).0@) is None,
            regex_compiles(valid_name_pattern()) ==> forall|k: int, j: int| 0 <= k < g && 0 <= j < groups@[k].1.tests.len()
                ==> name_problem((#[trigger] groups@[k].1.tests@[j]).0@) is None,
        decreases groups.len() - g,
    {
        let tests = &groups[g].1.tests;
        let mut t: usize = 0;
        while t < tests.len()
            invariant
                g < groups.len(),
                tests == &groups@[g as int].1.tests,
                t <= tests.len(),
                regex_compiles(valid_name_pattern()) ==> forall|k: int| 0 <= k < suite_ids.len() ==> name_problem(#[trigger] texts(suite_ids@)[k]) is None,
                regex_compiles(valid_name_pattern()) ==> forall|k: int| 0 <= k < groups.len() ==> name_problem((#[trigger] groups@[k]).0@) is None,
                regex_compiles(valid_name_pattern()) ==> forall|k: int, j: int| 0 <= k < g && 0 <= j < groups@[k].1.tests.len()
                    ==> name_problem((#[trigger] groups@[k].1.tests@[j]).0@) is None,
                regex_compiles(valid_name_pattern()) ==> forall|j: int| 0 <= j < t ==> name_problem((#[trigger] tests@[j]).0@) is None,
            decreases tests.len() - t,
        {
            match validate_name(tests[t].0.as_str(), "Test") {
                Ok(()) => {},
                Err(e) => {
                    assert(name_problem(groups@[g as int].1.tests@[t as int].0@) is Some || !regex_compiles(valid_name_pattern()));
                    return Err(e);
                },
            }
            t = t + 1;
        }
        g = g + 1;
    }
    assert(all_names_valid(texts(suite_ids@), groups@) || !regex_compiles(valid_name_pattern()));
    Ok(())
}

/// `s` split at every dot.
pub open spec fn dot_pieces(s: Seq<char>) -> Seq<Seq<char>> {
    pieces(s, '.')
}

pub open spec fn is_digit(c: char) -> bool {
    '0' <= c && c <= '9'
}

/// The value of a string of decimal digits.
pub open spec fn digits_value(s: Seq<char>) -> int
    decreases s.len(),
{
    if s.len() == 0 {
        0
    } else {
        digits_value(s.drop_last()) * 10 + (s.last() as int - '0' as int)
    }
}

/// What parsing `s` as a `u32` gives: an optional `+`, then at least one
/// digit, with a value that fits.
pub open spec fn unsigned_part(s: Seq<char>) -> Seq<char> {
    if s.len() > 0 && s[0] == '+' { s.drop_first() } else { s }
}

pub open spec fn u32_of(s: Seq<char>) -> Option<u32> {
    let d = unsigned_part(s);
    if d.len() > 0 && (forall|i: int| 0 <= i < d.len() ==> is_digit(#[trigger] d[i])) && digits_value(d) <= u32::MAX {
        Some(digits_value(d) as u32)
    } else {
        None
    }
}

/// `s` split at every dot.
pub fn split_dots(s: &str) -> (r: Vec<String>)
    ensures
        texts(r@) == dot_pieces(s@),
{
    split_char(s, '.')
}

/// Parses `s` as a `u32` the way `str::parse::<u32>` does.
pub fn parse_u32(s: &str) -> (r: Option<u32>)
    ensures
        r == u32_of(s@),
{
    let v = chars_of(s);
    let start: usize = if v.len() > 0 && v[0] == '+' { 1 } else { 0 };
    let d = slice_chars(&v, start, v.len());
    assert(d@ =~= unsigned_part(s@));
    if d.len() == 0 {
        return None;
    }
    let mut value: u64 = 0;
    let mut i: usize = 0;
    while i < d.len()
        invariant
            i <= d.len(),
            d@ == unsigned_part(s@),
            forall|k: int| 0 <= k < i ==> is_digit(#[trigger] d@[k]),
            value == digits_value(d@.subrange(0, i as int)),
            value <= u32::MAX,
        decreases d.len() - i,
    {
        let c = d[i];
        if !('0' <= c && c <= '9') {
            assert(!is_digit(d@[i as int]));
            return None;
        }
        assert(d@.subrange(0, i + 1).drop_last() =~= d@.subrange(0, i as int));
        let next: u64 = value * 10 + (c as u64 - '0' as u64);
        if next > u32::MAX as u64 {
            proof {
                if forall|k: int| 0 <= k < d@.len() ==> is_digit(#[trigger] d@[k]) {
                    lemma_digits_prefix(d@, i + 1);
                }
            }
            return None;
        }
        value = next;
        i = i + 1;
    }
    assert(d@.subrange(0, i as int) =~= d@);
    Some(value as u32)
}

proof fn lemma_digits_nonneg(s: Seq<char>)
    requires
        forall|i: int| 0 <= i < s.len() ==> is_digit(#[trigger] s[i]),
    ensures
        digits_value(s) >= 0,
    decreases s.len(),
{
    if s.len() > 0 {
        assert(is_digit(s[s.len() - 1]));
        lemma_digits_nonneg(s.drop_last());
    }
}

/// A prefix of a string of digits has no greater value.
proof fn lemma_digits_prefix(d: Seq<char>, n: int)
    requires
        0 <= n <= d.len(),
        forall|i: int| 0 <= i < d.len() ==> is_digit(#[trigger] d[i]),
    ensures
        digits_value(d.subrange(0, n)) <= digits_value(d),
    decreases d.len() - n,
{
    if n == d.len() {
        assert(d.subrange(0, n) =~= d);
    } else {
        lemma_digits_prefix(d, n + 1);
        let a = d.subrange(0, n);
        let b = d.subrange(0, n + 1);
        assert(b.drop_last() =~= a);
        assert(is_digit(d[n]));
        lemma_digits_nonneg(a);
        assert(digits_value(b) == digits_value(a) * 10 + (d[n] as int - '0' as int));
        assert(digits_value(a) * 10 >= digits_value(a)) by (nonlinear_arith)
            requires digits_value(a) >= 0;
    }
}

/// What is wrong with a configuration version, for a binary of version `binary`.
/// Both must be `MAJOR.MINOR.PATCH`; MAJOR and MINOR must agree, and the
/// binary's PATCH must be at least the configuration's.
pub open spec fn version_problem(config_version: Option<Seq<char>>, binary: Seq<char>) -> Option<VersionProblem> {
    match config_version {
        None => Some(VersionProblem::Missing),
        Some(v) => {
            let c = dot_pieces(v);
            let b = dot_pieces(binary);
            if c.len() != 3 {
                Some(VersionProblem::NotThreeParts)
            } else if b.len() != 3 {
                Some(VersionProblem::BinaryNotThreeParts)
            } else if u32_of(c[0]) is None || u32_of(c[1]) is None || u32_of(c[2]) is None
                || u32_of(b[0]) is None || u32_of(b[1]) is None || u32_of(b[2]) is None {
                Some(VersionProblem::NotANumber)
            } else if u32_of(c[0]) != u32_of(b[0]) || u32_of(c[1]) != u32_of(b[1]) {
                Some(VersionProblem::MajorMinorMismatch)
            } else if u32_of(b[2])->0 < u32_of(c[2])->0 {
                Some(VersionProblem::PatchTooHigh)
            } else {
                None
            }
        },
    }
}

fn version_error(found: &str, problem: VersionProblem) -> (r: PolyError)
    ensures
        r matches PolyError::Version { problem: p, .. } && p == problem,
{
    PolyError::Version { found: copy_text(found), problem }
}

/// Checks the version a configuration declares against the binary's version.
pub fn check_version(config_version: &Option<String>, binary_version: &str) -> (r: Result<(), PolyError>)
    ensures
        r is Ok <==> version_problem(crate::runner::opt_text(*config_version), binary_version@) is None,
        r is Err ==> (r matches Err(PolyError::Version { problem, .. })
            && problem == version_problem(crate::runner::opt_text(*config_version), binary_version@)->0),
{
    let v = match config_version {
        None => return Err(version_error("", VersionProblem::Missing)),
        Some(v) => v,
    };
    let c = split_dots(v.as_str());
    let b = split_dots(binary_version);
    assert(texts(c@).len() == c.len() && texts(b@).len() == b.len());
    if c.len() != 3 {
        return Err(version_error(v.as_str(), VersionProblem::NotThreeParts));
    }
    if b.len() != 3 {
        return Err(version_error(v.as_str(), VersionProblem::BinaryNotThreeParts));
    }
    assert(texts(c@)[0] == c@[0]@ && texts(c@)[1] == c@[1]@ && texts(c@)[2] == c@[2]@);
    assert(texts(b@)[0] == b@[0]@ && texts(b@)[1] == b@[1]@ && texts(b@)[2] == b@[2]@);
    let (c0, c1, c2, b0, b1, b2) = match (parse_u32(c[0].as_str()), parse_u32(c[1].as_str()), parse_u32(c[2].as_str()),
        parse_u32(b[0].as_str()), parse_u32(b[1].as_str()), parse_u32(b[2].as_str())) {
        (Some(c0), Some(c1), Some(c2), Some(b0), Some(b1), Some(b2)) => (c0, c1, c2, b0, b1, b2),
        _ => return Err(version_error(v.as_str(), VersionProblem::NotANumber)),
    };
    if c0 != b0 || c1 != b1 {
        return Err(version_error(v.as_str(), VersionProblem::MajorMinorMismatch));
    }
    if b2 < c2 {
        return Err(version_error(v.as_str(), VersionProblem::PatchTooHigh));
    }
    Ok(())
}

/// An id that names both a built-in target and a custom target is refused.
pub fn check_target_ids(target_ids: &Vec<String>, custom_target_ids: &Vec<String>) -> (r: Result<(), PolyError>)
    ensures
        r is Ok <==> forall|i: int| 0 <= i < target_ids.len() ==> !texts(custom_target_ids@).contains(#[trigger] target_ids@[i]@),
        r is Err ==> (r matches Err(PolyError::DuplicateTarget { id })
            && texts(target_ids@).contains(id@) && texts(custom_target_ids@).contains(id@)),
{
    let mut i: usize = 0;
    while i < target_ids.len()
        invariant
            i <= target_ids.len(),
            forall|k: int| 0 <= k < i ==> !texts(custom_target_ids@).contains(#[trigger] target_ids@[k]@),
        decreases target_ids.len() - i,
    {
        if crate::text::text_in(custom_target_ids, target_ids[i].as_str()) {
            assert(texts(target_ids@)[i as int] == target_ids@[i as int]@);
            return Err(PolyError::DuplicateTarget { id: copy_text(target_ids[i].as_str()) });
        }
        i = i + 1;
    }
    Ok(())
}

} // verus!
