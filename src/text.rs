//! Character-level text operations used by the marker conventions of
//! generated files.
use vstd::prelude::*;

verus! {

/// `pat` occurs in `s` starting at character index `i`.
pub open spec fn occurs_at(s: Seq<char>, pat: Seq<char>, i: int) -> bool {
    0 <= i && i + pat.len() <= s.len() && s.subrange(i, i + pat.len()) == pat
}

/// The first index at or after `i` where `pat` occurs in `s`.
pub open spec fn find_from(s: Seq<char>, pat: Seq<char>, i: int) -> Option<int>
    decreases s.len() + 1 - i,
{
    if i < 0 || i + pat.len() > s.len() {
        None
    } else if occurs_at(s, pat, i) {
        Some(i)
    } else {
        find_from(s, pat, i + 1)
    }
}

/// The first index where `pat` occurs in `s`.
pub open spec fn find_first(s: Seq<char>, pat: Seq<char>) -> Option<int> {
    find_from(s, pat, 0)
}

/// `pat` occurs somewhere in `s`.
pub open spec fn contains(s: Seq<char>, pat: Seq<char>) -> bool {
    find_first(s, pat) is Some
}

pub open spec fn opt_index(o: Option<usize>) -> Option<int> {
    match o {
        Some(i) => Some(i as int),
        None => None,
    }
}

/// A found index is an occurrence, and no earlier index (from `i`) is one.
pub proof fn lemma_find_from(s: Seq<char>, pat: Seq<char>, i: int)
    requires
        0 <= i,
    ensures
        find_from(s, pat, i) is Some ==> {
            let k = find_from(s, pat, i)->0;
            &&& i <= k
            &&& occurs_at(s, pat, k)
            &&& forall|j: int| i <= j < k ==> !occurs_at(s, pat, j)
        },
        find_from(s, pat, i) is None ==> forall|j: int| i <= j ==> !occurs_at(s, pat, j),
    decreases s.len() + 1 - i,
{
    if i + pat.len() > s.len() {
    } else if occurs_at(s, pat, i) {
    } else {
        lemma_find_from(s, pat, i + 1);
        assert forall|j: int| i <= j && !(i + 1 <= j) implies !occurs_at(s, pat, j) by {}
    }
}

/// An occurrence at `k`, with none in `[i, k)`, is what `find_from` returns.
pub proof fn lemma_find_from_is(s: Seq<char>, pat: Seq<char>, i: int, k: int)
    requires
        0 <= i <= k,
        occurs_at(s, pat, k),
        forall|j: int| i <= j < k ==> !occurs_at(s, pat, j),
    ensures
        find_from(s, pat, i) == Some(k),
    decreases k - i,
{
    if i < k {
        assert(!occurs_at(s, pat, i));
        lemma_find_from_is(s, pat, i + 1, k);
    }
}

/// Whether `pat` occurs in `s` at `i`.
pub fn matches_at(s: &Vec<char>, pat: &Vec<char>, i: usize) -> (r: bool)
    ensures
        r == occurs_at(s@, pat@, i as int),
{
    if i > s.len() || pat.len() > s.len() - i {
        return false;
    }
    let mut j: usize = 0;
    while j < pat.len()
        invariant
            i + pat.len() <= s.len(),
            j <= pat.len(),
            forall|k: int| 0 <= k < j ==> s@[i + k] == pat@[k],
        decreases pat.len() - j,
    {
        if s[i + j] != pat[j] {
            assert(s@.subrange(i as int, i + pat.len())[j as int] != pat@[j as int]);
            return false;
        }
        j = j + 1;
    }
    assert(s@.subrange(i as int, i + pat.len()) =~= pat@);
    true
}

/// The first occurrence of `pat` in `s` at or after `start`.
pub fn find_at_or_after(s: &Vec<char>, pat: &Vec<char>, start: usize) -> (r: Option<usize>)
    ensures
        opt_index(r) == find_from(s@, pat@, start as int),
{
    if start > s.len() || pat.len() > s.len() - start {
        return None;
    }
    let last: usize = s.len() - pat.len();
    let mut i: usize = start;
    loop
        invariant
            start <= i <= last,
            last == s.len() - pat.len(),
            find_from(s@, pat@, start as int) == find_from(s@, pat@, i as int),
        decreases last - i,
    {
        if matches_at(s, pat, i) {
            return Some(i);
        }
        if i == last {
            assert(find_from(s@, pat@, i + 1) is None);
            return None;
        }
        i = i + 1;
    }
}

/// Whether `pat` occurs anywhere in `s`.
pub fn contains_seq(s: &Vec<char>, pat: &Vec<char>) -> (r: bool)
    ensures
        r == contains(s@, pat@),
{
    find_at_or_after(s, pat, 0).is_some()
}

/// Relies on `str::chars` collected into a `Vec`: one entry for each character.
#[verifier::external_body]
pub fn chars_of(s: &str) -> (r: Vec<char>)
    ensures
        r@ == s@,
{
    s.chars().collect()
}

/// Relies on `String`'s `FromIterator<&char>`: the characters in order.
#[verifier::external_body]
pub fn string_of(v: &[char]) -> (r: String)
    ensures
        r@ == v@,
{
    v.iter().collect()
}

/// A copy of `v[from..to]`.
pub fn slice_chars(v: &Vec<char>, from: usize, to: usize) -> (r: Vec<char>)
    requires
        from <= to <= v.len(),
    ensures
        r@ == v@.subrange(from as int, to as int),
{
    let mut r: Vec<char> = Vec::new();
    let mut i: usize = from;
    while i < to
        invariant
            from <= i <= to <= v.len(),
            r@ == v@.subrange(from as int, i as int),
        decreases to - i,
    {
        r.push(v[i]);
        i = i + 1;
        assert(r@ =~= v@.subrange(from as int, i as int));
    }
    r
}

/// Appends all of `b` to `a`.
pub fn append_chars(a: &mut Vec<char>, b: &Vec<char>)
    ensures
        final(a)@ == old(a)@ + b@,
{
    let ghost a0 = a@;
    let mut i: usize = 0;
    while i < b.len()
        invariant
            i <= b.len(),
            a@ == a0 + b@.subrange(0, i as int),
        decreases b.len() - i,
    {
        a.push(b[i]);
        i = i + 1;
        assert(a@ =~= a0 + b@.subrange(0, i as int));
    }
    assert(b@.subrange(0, b.len() as int) =~= b@);
}

/// Whether two character sequences are equal.
pub fn same_chars(a: &Vec<char>, b: &Vec<char>) -> (r: bool)
    ensures
        r == (a@ == b@),
{
    if a.len() != b.len() {
        return false;
    }
    let mut i: usize = 0;
    while i < a.len()
        invariant
            a.len() == b.len(),
            i <= a.len(),
            forall|k: int| 0 <= k < i ==> a@[k] == b@[k],
        decreases a.len() - i,
    {
        if a[i] != b[i] {
            return false;
        }
        i = i + 1;
    }
    assert(a@ =~= b@);
    true
}

/// Whether two strings hold the same characters.
pub fn same_text(a: &str, b: &str) -> (r: bool)
    ensures
        r == (a@ == b@),
{
    same_chars(&chars_of(a), &chars_of(b))
}

/// Whether `s` is one of `items`.
pub fn text_in(items: &Vec<String>, s: &str) -> (r: bool)
    ensures
        r == items@.map_values(|x: String| x@).contains(s@),
{
    let ghost views = items@.map_values(|x: String| x@);
    let mut i: usize = 0;
    while i < items.len()
        invariant
            i <= items.len(),
            views == items@.map_values(|x: String| x@),
            forall|k: int| 0 <= k < i ==> views[k] != s@,
        decreases items.len() - i,
    {
        if same_text(items[i].as_str(), s) {
            assert(views[i as int] == s@);
            return true;
        }
        i = i + 1;
    }
    false
}

/// A copy of `s`.
pub fn copy_text(s: &str) -> (r: String)
    ensures
        r@ == s@,
{
    String::from_str(s)
}

/// The pieces of `s` between separators `sep`, from index `i` on, the
/// current piece holding `cur`; the text after the last separator is the last piece.
pub open spec fn pieces_from(s: Seq<char>, sep: char, i: int, cur: Seq<char>) -> Seq<Seq<char>>
    decreases s.len() - i,
{
    if i < 0 || i >= s.len() {
        seq![cur]
    } else if s[i] == sep {
        seq![cur] + pieces_from(s, sep, i + 1, Seq::empty())
    } else {
        pieces_from(s, sep, i + 1, cur.push(s[i]))
    }
}

/// `s` split at every `sep`, as `str::split` with a character does.
pub open spec fn pieces(s: Seq<char>, sep: char) -> Seq<Seq<char>> {
    pieces_from(s, sep, 0, Seq::empty())
}

/// `s` split at every `sep`.
pub fn split_char(s: &str, sep: char) -> (r: Vec<String>)
    ensures
        r@.map_values(|x: String| x@) == pieces(s@, sep),
{
    let v = chars_of(s);
    let mut out: Vec<String> = Vec::new();
    let mut cur: Vec<char> = Vec::new();
    let mut i: usize = 0;
    while i < v.len()
        invariant
            i <= v.len(),
            v@ == s@,
            pieces(s@, sep) == out@.map_values(|x: String| x@) + pieces_from(v@, sep, i as int, cur@),
        decreases v.len() - i,
    {
        if v[i] == sep {
            let ghost before = out@.map_values(|x: String| x@);
            out.push(string_of(cur.as_slice()));
            assert(out@.map_values(|x: String| x@) =~= before + seq![cur@]);
            cur = Vec::new();
            assert(pieces(s@, sep) =~= out@.map_values(|x: String| x@) + pieces_from(v@, sep, i + 1, cur@));
        } else {
            cur.push(v[i]);
        }
        i = i + 1;
    }
    let ghost before = out@.map_values(|x: String| x@);
    out.push(string_of(cur.as_slice()));
    assert(out@.map_values(|x: String| x@) =~= before + seq![cur@]);
    out
}

/// `s` from index `i` on, with every occurrence of the nonempty `from`
/// replaced by `to`, left to right, as `str::replace` does.
pub open spec fn replaced_from(s: Seq<char>, from: Seq<char>, to: Seq<char>, i: int) -> Seq<char>
    decreases s.len() - i,
{
    if i < 0 || i > s.len() || from.len() == 0 {
        s.subrange(if 0 <= i <= s.len() { i } else { s.len() as int }, s.len() as int)
    } else {
        match find_from(s, from, i) {
            None => s.subrange(i, s.len() as int),
            Some(k) => {
                proof {
                    lemma_find_from(s, from, i);
                }
                s.subrange(i, k) + to + replaced_from(s, from, to, k + from.len())
            },
        }
    }
}

pub open spec fn replaced(s: Seq<char>, from: Seq<char>, to: Seq<char>) -> Seq<char> {
    replaced_from(s, from, to, 0)
}

/// `s` with every occurrence of the nonempty `from` replaced by `to`.
pub fn replace_all(s: &str, from: &str, to: &str) -> (r: String)
    requires
        from@.len() > 0,
    ensures
        r@ == replaced(s@, from@, to@),
{
    let v = chars_of(s);
    let f = chars_of(from);
    let t = chars_of(to);
    let mut out: Vec<char> = Vec::new();
    let mut i: usize = 0;
    loop
        invariant
            i <= v.len(),
            v@ == s@,
            f@ == from@,
            f@.len() > 0,
            replaced(s@, from@, to@) == out@ + replaced_from(v@, f@, t@, i as int),
        decreases v.len() - i,
    {
        proof {
            lemma_find_from(v@, f@, i as int);
        }
        match find_at_or_after(&v, &f, i) {
            None => {
                append_chars(&mut out, &slice_chars(&v, i, v.len()));
                return string_of(out.as_slice());
            },
            Some(k) => {
                assert(find_from(v@, f@, i as int) == Some(k as int));
                assert(occurs_at(v@, f@, k as int));
                let n = v.len();
                let ghost before = out@;
                append_chars(&mut out, &slice_chars(&v, i, k));
                append_chars(&mut out, &t);
                assert(out@ == before + v@.subrange(i as int, k as int) + t@);
                assert(replaced(s@, from@, to@) =~= out@ + replaced_from(v@, f@, t@, k + f.len()));
                assert(k + f.len() <= n);
                i = k + f.len();
            },
        }
    }
}

/// `s` with `suffix` removed from its end as long as it ends with it, as
/// `str::trim_end_matches` does with a nonempty string.
pub open spec fn trimmed_end(s: Seq<char>, suffix: Seq<char>) -> Seq<char>
    decreases s.len(),
{
    if suffix.len() > 0 && s.len() >= suffix.len() && s.subrange(s.len() - suffix.len(), s.len() as int) == suffix {
        trimmed_end(s.subrange(0, s.len() - suffix.len()), suffix)
    } else {
        s
    }
}

/// `s` without every repetition of the nonempty `suffix` at its end.
pub fn trim_end_all(s: &str, suffix: &str) -> (r: String)
    ensures
        r@ == trimmed_end(s@, suffix@),
{
    let v = chars_of(s);
    let sfx = chars_of(suffix);
    if sfx.len() == 0 {
        return copy_text(s);
    }
    let mut end: usize = v.len();
    assert(v@.subrange(0, end as int) =~= s@);
    while end >= sfx.len() && matches_at(&v, &sfx, end - sfx.len())
        invariant
            end <= v.len(),
            sfx@ == suffix@,
            sfx@.len() > 0,
            trimmed_end(s@, suffix@) == trimmed_end(v@.subrange(0, end as int), suffix@),
            v@ == s@,
        decreases end,
    {
        let ghost w = v@.subrange(0, end as int);
        assert(w.subrange(w.len() - sfx@.len(), w.len() as int) =~= v@.subrange(end - sfx@.len(), end as int));
        assert(w.subrange(0, w.len() - sfx@.len()) =~= v@.subrange(0, end - sfx@.len()));
        end = end - sfx.len();
    }
    let ghost w = v@.subrange(0, end as int);
    if end >= sfx.len() {
        assert(w.subrange(w.len() - sfx@.len(), w.len() as int) =~= v@.subrange(end - sfx@.len(), end as int));
    }
    string_of(slice_chars(&v, 0, end).as_slice())
}

} // verus!
