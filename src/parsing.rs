//! The markers that generated files carry, and the regions they delimit.
//!
//! A suite's region ("chunk") starts right after `Polytest Suite: <name>` and
//! ends right before the next `Polytest Suite:` or at the end of the file. A
//! group is announced inside a chunk by a line holding `Polytest Group: <name>`.
use vstd::prelude::*;
use crate::error::PolyError;
use crate::text::{append_chars, chars_of, contains, contains_seq, copy_text, find_at_or_after, find_first, find_from, lemma_find_from, occurs_at, slice_chars, string_of};

verus! {

/// The text that starts every suite marker.
pub open spec fn suite_comment() -> Seq<char> {
    "Polytest Suite:"@
}

/// The marker of the suite `name`.
pub open spec fn suite_marker(name: Seq<char>) -> Seq<char> {
    "Polytest Suite: "@ + name
}

/// The text that precedes a group name.
pub open spec fn group_prefix() -> Seq<char> {
    "Polytest Group: "@
}

/// The marker of the group `name`.
pub open spec fn group_marker(name: Seq<char>) -> Seq<char> {
    group_prefix() + name
}

/// Unicode white space, as `char::is_whitespace` defines it.
pub open spec fn is_white(c: char) -> bool {
    ('\t' <= c && c <= '\r') || c == ' ' || c == '\u{85}' || c == '\u{a0}' || c == '\u{1680}'
        || ('\u{2000}' <= c && c <= '\u{200a}') || c == '\u{2028}' || c == '\u{2029}'
        || c == '\u{202f}' || c == '\u{205f}' || c == '\u{3000}'
}

pub open spec fn trim_front(s: Seq<char>) -> Seq<char>
    decreases s.len(),
{
    if s.len() > 0 && is_white(s[0]) {
        trim_front(s.drop_first())
    } else {
        s
    }
}

pub open spec fn trim_back(s: Seq<char>) -> Seq<char>
    decreases s.len(),
{
    if s.len() > 0 && is_white(s.last()) {
        trim_back(s.drop_last())
    } else {
        s
    }
}

/// `s` without leading and trailing white space.
pub open spec fn trimmed(s: Seq<char>) -> Seq<char> {
    trim_back(trim_front(s))
}

/// The index of the first line feed at or after `i`, or the length of `s`.
pub open spec fn line_end(s: Seq<char>, i: int) -> int
    decreases s.len() - i,
{
    if i < 0 || i >= s.len() {
        s.len() as int
    } else if s[i] == '\n' {
        i
    } else {
        line_end(s, i + 1)
    }
}

pub proof fn lemma_line_end(s: Seq<char>, i: int)
    requires
        0 <= i <= s.len(),
    ensures
        i <= line_end(s, i) <= s.len(),
        line_end(s, i) < s.len() ==> s[line_end(s, i)] == '\n',
        forall|j: int| i <= j < line_end(s, i) ==> s[j] != '\n',
    decreases s.len() - i,
{
    if i < s.len() && s[i] != '\n' {
        lemma_line_end(s, i + 1);
    }
}

/// The group names announced in `s` from index `i` on: for each group prefix,
/// the rest of its line, trimmed; the search goes on after that line's text.
pub open spec fn group_names_from(s: Seq<char>, i: int) -> Seq<Seq<char>>
    decreases s.len() - i,
{
    if i < 0 {
        Seq::empty()
    } else {
        match find_from(s, group_prefix(), i) {
            None => Seq::empty(),
            Some(k) => {
                proof {
                    reveal_strlit("Polytest Group: ");
                    lemma_find_from(s, group_prefix(), i);
                    lemma_line_end(s, k + group_prefix().len());
                }
                let st = k + group_prefix().len();
                let e = line_end(s, st);
                seq![trimmed(s.subrange(st, e))] + group_names_from(s, e)
            },
        }
    }
}

/// The group names announced in `s`.
pub open spec fn group_names(s: Seq<char>) -> Seq<Seq<char>> {
    group_names_from(s, 0)
}

/// The start and end of the chunk of the suite `name` in `s`.
pub open spec fn chunk_bounds(s: Seq<char>, name: Seq<char>) -> Option<(int, int)> {
    match find_first(s, suite_marker(name)) {
        None => None,
        Some(k) => {
            let start = k + suite_marker(name).len();
            let end = match find_from(s, suite_comment(), start) {
                Some(e) => e,
                None => s.len() as int,
            };
            Some((start, end))
        },
    }
}

/// `s` with `ins` inserted right after the first occurrence of `keyword`.
pub open spec fn inserted_after(s: Seq<char>, ins: Seq<char>, keyword: Seq<char>) -> Seq<char> {
    let p = find_first(s, keyword)->0 + keyword.len();
    s.subrange(0, p) + ins + s.subrange(p, s.len() as int)
}

/// The region of one suite in a file, with its character offsets.
pub struct SuiteChunk {
    pub content: String,
    pub start: usize,
    pub end: usize,
}

pub fn is_white_char(c: char) -> (r: bool)
    ensures
        r == is_white(c),
{
    ('\t' <= c && c <= '\r') || c == ' ' || c == '\u{85}' || c == '\u{a0}' || c == '\u{1680}'
        || ('\u{2000}' <= c && c <= '\u{200a}') || c == '\u{2028}' || c == '\u{2029}'
        || c == '\u{202f}' || c == '\u{205f}' || c == '\u{3000}'
}

/// The characters of `s[from..to]` without leading and trailing white space.
fn trimmed_slice(s: &Vec<char>, from: usize, to: usize) -> (r: Vec<char>)
    requires
        from <= to <= s.len(),
    ensures
        r@ == trimmed(s@.subrange(from as int, to as int)),
{
    let mut a: usize = from;
    while a < to && is_white_char(s[a])
        invariant
            from <= a <= to <= s.len(),
            trim_front(s@.subrange(from as int, to as int)) == trim_front(s@.subrange(a as int, to as int)),
        decreases to - a,
    {
        assert(s@.subrange(a as int, to as int).drop_first() =~= s@.subrange(a + 1, to as int));
        a = a + 1;
    }
    assert(trim_front(s@.subrange(a as int, to as int)) == s@.subrange(a as int, to as int));
    let mut b: usize = to;
    while b > a && is_white_char(s[b - 1])
        invariant
            from <= a <= b <= to <= s.len(),
            trimmed(s@.subrange(from as int, to as int)) == trim_back(s@.subrange(a as int, b as int)),
        decreases b - a,
    {
        assert(s@.subrange(a as int, b as int).drop_last() =~= s@.subrange(a as int, b - 1));
        b = b - 1;
    }
    slice_chars(s, a, b)
}

/// The marker text of the group `group`.
pub fn get_group_comment(group: &str) -> (r: String)
    ensures
        r@ == group_marker(group@),
{
    String::from_str("Polytest Group: ").concat(group)
}

/// The marker text of the suite `name`.
pub fn get_suite_comment(name: &str) -> (r: String)
    ensures
        r@ == suite_marker(name@),
{
    String::from_str("Polytest Suite: ").concat(name)
}

/// The index of the first line feed of `s` at or after `i`, or its length.
fn find_line_end(s: &Vec<char>, i: usize) -> (r: usize)
    requires
        i <= s.len(),
    ensures
        r == line_end(s@, i as int),
{
    let mut j: usize = i;
    while j < s.len() && s[j] != '\n'
        invariant
            i <= j <= s.len(),
            line_end(s@, i as int) == line_end(s@, j as int),
        decreases s.len() - j,
    {
        j = j + 1;
    }
    j
}

/// The names of the groups announced in `input`, in order of appearance.
pub fn get_groups(input: &str) -> (r: Vec<String>)
    ensures
        r@.map_values(|g: String| g@) == group_names(input@),
{
    let s = chars_of(input);
    let prefix = chars_of("Polytest Group: ");
    let mut groups: Vec<String> = Vec::new();
    let mut i: usize = 0;
    loop
        invariant
            i <= s.len(),
            s@ == input@,
            prefix@ == group_prefix(),
            group_names(s@) == groups@.map_values(|g: String| g@) + group_names_from(s@, i as int),
        decreases s.len() - i,
    {
        let ghost before = groups@.map_values(|g: String| g@);
        proof {
            lemma_find_from(s@, prefix@, i as int);
            reveal_strlit("Polytest Group: ");
        }
        match find_at_or_after(&s, &prefix, i) {
            None => {
                assert(group_names_from(s@, i as int) =~= Seq::<Seq<char>>::empty());
                assert(group_names(s@) =~= groups@.map_values(|g: String| g@));
                return groups;
            },
            Some(k) => {
                assert(find_from(s@, prefix@, i as int) == Some(k as int));
                let st = k + prefix.len();
                proof {
                    lemma_line_end(s@, st as int);
                }
                let e = find_line_end(&s, st);
                let name = trimmed_slice(&s, st, e);
                groups.push(string_of(name.as_slice()));
                assert(groups@.map_values(|g: String| g@) =~= before.push(trimmed(s@.subrange(st as int, e as int))));
                assert(group_names(s@) =~= groups@.map_values(|g: String| g@) + group_names_from(s@, e as int));
                i = e;
            },
        }
    }
}

/// Whether `input` holds the marker of the suite `name`.
pub fn find_suite(input: &str, name: &str) -> (r: bool)
    ensures
        r == contains(input@, suite_marker(name@)),
{
    contains_seq(&chars_of(input), &chars_of(get_suite_comment(name).as_str()))
}

/// The chunk of the suite `name` in `input`: from right after its marker to
/// the next suite marker of any name, or to the end.
pub fn get_suite_chunk(input: &str, name: &str) -> (r: Result<SuiteChunk, PolyError>)
    ensures
        r is Ok <==> chunk_bounds(input@, name@) is Some,
        r is Ok ==> {
            let (start, end) = chunk_bounds(input@, name@)->0;
            &&& r->Ok_0.start == start
            &&& r->Ok_0.end == end
            &&& r->Ok_0.content@ == input@.subrange(start, end)
            &&& start <= end <= input@.len()
        },
        r is Err ==> (r->Err_0 matches PolyError::SuiteMarkerMissing { suite } && suite@ == name@),
{
    let s = chars_of(input);
    let marker = chars_of(get_suite_comment(name).as_str());
    match find_at_or_after(&s, &marker, 0) {
        None => Err(PolyError::SuiteMarkerMissing { suite: copy_text(name) }),
        Some(k) => {
            proof {
                lemma_find_from(s@, marker@, 0);
            }
            assert(find_from(s@, marker@, 0) == Some(k as int));
            assert(occurs_at(s@, marker@, k as int));
            let n = s.len();
            let start = k + marker.len();
            let comment = chars_of("Polytest Suite:");
            let end = match find_at_or_after(&s, &comment, start) {
                Some(e) => e,
                None => n,
            };
            proof {
                lemma_find_from(s@, comment@, start as int);
            }
            assert(start <= end <= s.len());
            let content = string_of(slice_chars(&s, start, end).as_slice());
            Ok(SuiteChunk { content, start, end })
        },
    }
}

/// `original` with `to_insert` placed right after the first occurrence of `keyword`.
pub fn insert_after_keyword(original: &str, to_insert: &str, keyword: &str) -> (r: String)
    requires
        contains(original@, keyword@),
    ensures
        r@ == inserted_after(original@, to_insert@, keyword@),
{
    let s = chars_of(original);
    let kw = chars_of(keyword);
    proof {
        lemma_find_from(s@, kw@, 0);
    }
    let pos = find_at_or_after(&s, &kw, 0).unwrap();
    assert(find_from(s@, kw@, 0) == Some(pos as int));
    assert(occurs_at(s@, kw@, pos as int));
    let n = s.len();
    let p = pos + kw.len();
    let mut out = slice_chars(&s, 0, p);
    append_chars(&mut out, &chars_of(to_insert));
    append_chars(&mut out, &slice_chars(&s, p, n));
    string_of(out.as_slice())
}

/// `s` with the characters of `t[from..to]` spliced in place of `s[from..to]`.
pub fn replace_range(s: &str, from: usize, to: usize, t: &str) -> (r: String)
    requires
        from <= to <= s@.len(),
    ensures
        r@ == s@.subrange(0, from as int) + t@ + s@.subrange(to as int, s@.len() as int),
{
    let v = chars_of(s);
    let mut out = slice_chars(&v, 0, from);
    append_chars(&mut out, &chars_of(t));
    append_chars(&mut out, &slice_chars(&v, to, v.len()));
    string_of(out.as_slice())
}

} // verus!
