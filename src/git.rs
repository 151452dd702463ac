//! Git remotes given on the command line: `[git+]scheme://host/org/repo[.git][#ref]`.
use vstd::prelude::*;
use crate::error::PolyError;
use crate::text::{
    chars_of, copy_text, find_at_or_after, find_first, lemma_find_from, pieces, replace_all, replaced,
    slice_chars, split_char, string_of, trim_end_all, trimmed_end,
};

verus! {

#[derive(Clone, Debug, PartialEq, Eq)]
pub struct GitRemote {
    /// The host, for example "github.com".
    pub host: String,
    pub org: String,
    pub repo: String,
    /// The URL as given, without `git+` and without the ref after `#`.
    pub raw_uri: String,
}

#[derive(Clone, Debug)]
pub struct GitRemoteRef {
    pub remote: GitRemote,
    pub git_ref: String,
}

/// The URL without `git+`, scheme and `git@`, and without trailing `.git`.
pub open spec fn normalized_url(url: Seq<char>) -> Seq<char> {
    let a = replaced(url, "git+"@, Seq::empty());
    let b = replaced(a, "http://"@, Seq::empty());
    let c = replaced(b, "https://"@, Seq::empty());
    let d = replaced(c, "ssh://"@, Seq::empty());
    let e = replaced(d, "git@"@, Seq::empty());
    let f = replaced(e, "git://"@, Seq::empty());
    trimmed_end(f, ".git"@)
}

/// The text before the first `#` of `s`, and the text after it.
pub open spec fn split_at_hash(s: Seq<char>) -> Option<(Seq<char>, Seq<char>)> {
    match find_first(s, seq!['#']) {
        Some(k) => Some((s.subrange(0, k), s.subrange(k + 1, s.len() as int))),
        None => None,
    }
}

/// The URL to clone: without `git+` and the ref, or the URL as given where it names no ref.
pub open spec fn raw_uri_of(url: Seq<char>) -> Seq<char> {
    match split_at_hash(replaced(url, "git+"@, Seq::empty())) {
        Some(p) => p.0,
        None => url,
    }
}

/// Splits `s` at its first `#`.
pub fn split_once_hash(s: &str) -> (r: Option<(String, String)>)
    ensures
        match r {
            Some(p) => split_at_hash(s@) == Some((p.0@, p.1@)),
            None => split_at_hash(s@) is None,
        },
{
    let v = chars_of(s);
    let hash = vec!['#'];
    assert(hash@ =~= seq!['#']);
    proof {
        lemma_find_from(v@, hash@, 0);
    }
    match find_at_or_after(&v, &hash, 0) {
        Some(k) => {
            assert(find_first(v@, seq!['#']) == Some(k as int));
            let n = v.len();
            Some((string_of(slice_chars(&v, 0, k).as_slice()), string_of(slice_chars(&v, k + 1, n).as_slice())))
        },
        None => None,
    }
}

impl GitRemote {
    /// The remote that `url` names; it must hold at least host, organisation
    /// and repository, separated by `/`.
    pub fn from_url(url: &str) -> (r: Result<GitRemote, PolyError>)
        ensures
            ({
                let parts = pieces(normalized_url(url@), '/');
                &&& r is Ok <==> parts.len() >= 3
                &&& r is Ok ==> r->Ok_0.host@ == parts[0] && r->Ok_0.org@ == parts[1] && r->Ok_0.repo@ == parts[2]
                    && r->Ok_0.raw_uri@ == raw_uri_of(url@)
                &&& r is Err ==> r->Err_0 is InvalidGitUrl
            }),
    {
        proof {
            reveal_strlit("git+");
            reveal_strlit("http://");
            reveal_strlit("https://");
            reveal_strlit("ssh://");
            reveal_strlit("git@");
            reveal_strlit("git://");
            reveal_strlit("");
            assert(""@ =~= Seq::<char>::empty());
        }
        let a = replace_all(url, "git+", "");
        let b = replace_all(a.as_str(), "http://", "");
        let c = replace_all(b.as_str(), "https://", "");
        let d = replace_all(c.as_str(), "ssh://", "");
        let e = replace_all(d.as_str(), "git@", "");
        let f = replace_all(e.as_str(), "git://", "");
        let normalized = trim_end_all(f.as_str(), ".git");
        let parts = split_char(normalized.as_str(), '/');
        assert(parts@.map_values(|x: String| x@).len() == parts.len());
        if parts.len() < 3 {
            return Err(PolyError::InvalidGitUrl { url: copy_text(url) });
        }
        assert(parts@.map_values(|x: String| x@)[0] == parts@[0]@);
        assert(parts@.map_values(|x: String| x@)[1] == parts@[1]@);
        assert(parts@.map_values(|x: String| x@)[2] == parts@[2]@);
        let raw_uri = match split_once_hash(a.as_str()) {
            Some((before, _)) => before,
            None => copy_text(url),
        };
        Ok(GitRemote {
            host: copy_text(parts[0].as_str()),
            org: copy_text(parts[1].as_str()),
            repo: copy_text(parts[2].as_str()),
            raw_uri,
        })
    }
}

impl GitRemoteRef {
    /// The remote and ref that `url` names; the ref follows the first `#`
    /// and is `main` where there is none.
    pub fn from_url(url: &str) -> (r: Result<GitRemoteRef, PolyError>)
        ensures
            ({
                let (u, rf) = match split_at_hash(url@) {
                    Some(p) => p,
                    None => (url@, "main"@),
                };
                let parts = pieces(normalized_url(u), '/');
                &&& r is Ok <==> parts.len() >= 3
                &&& r is Ok ==> r->Ok_0.git_ref@ == rf && r->Ok_0.remote.host@ == parts[0]
                    && r->Ok_0.remote.org@ == parts[1] && r->Ok_0.remote.repo@ == parts[2]
                    && r->Ok_0.remote.raw_uri@ == raw_uri_of(u)
            }),
    {
        let (url_part, ref_part) = match split_once_hash(url) {
            Some(p) => p,
            None => (copy_text(url), String::from_str("main")),
        };
        match GitRemote::from_url(url_part.as_str()) {
            Ok(remote) => Ok(GitRemoteRef { remote, git_ref: ref_part }),
            Err(e) => Err(e),
        }
    }
}

} // verus!
