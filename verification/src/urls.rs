use vstd::prelude::*;
use crate::text::{find_from, find_char_from, lemma_find_from, str_eq};

verus! {

/// The scheme of a serialized URL: the text before the first ':'
/// (the whole text when there is no ':').
pub open spec fn scheme_of(u: Seq<char>) -> Seq<char> {
    u.take(find_from(u, ':', 0))
}

/// Extracts the scheme of a serialized URL.
pub fn url_scheme(u: &str) -> (r: String)
    ensures
        r@ == scheme_of(u@),
{
    let e = find_char_from(u, ':', 0);
    proof {
        lemma_find_from(u@, ':', 0);
    }
    String::from_str(u.substring_char(0, e))
}

/// Whether a serialized URL names a local file.
pub fn is_file_url(u: &str) -> (r: bool)
    ensures
        r == (scheme_of(u@) == "file"@),
{
    let s = url_scheme(u);
    str_eq(s.as_str(), "file")
}

/// The serialized result of resolving the relative reference `rel`
/// against the base URL `base`; a function of the two texts alone.
pub uninterp spec fn resolve_of(base: Seq<char>, rel: Seq<char>) -> Seq<char>;

/// Whether resolving `rel` against `base` succeeds; like the result
/// itself, a function of the two texts alone.
pub uninterp spec fn resolve_ok(base: Seq<char>, rel: Seq<char>) -> bool;

/// Relies on url::Url::parse and url::Url::join: resolving a relative
/// reference against a base URL is a deterministic function of the two
/// strings — whether either step rejects its input, and what the
/// resolution serializes to, depend on nothing else.
#[verifier::external_body]
pub(crate) fn resolve_url(base: &str, rel: &str) -> (r: Option<String>)
    ensures
        r is Some <==> resolve_ok(base@, rel@),
        r matches Some(s) ==> s@ == resolve_of(base@, rel@),
{
    match url::Url::parse(base) {
        Ok(b) => match b.join(rel) {
            Ok(u) => Some(String::from(u)),
            Err(_) => None,
        },
        Err(_) => None,
    }
}

/// The serialization of the file URL for an absolute path: "file://"
/// plus the percent-encoded path; a function of the path text alone.
pub uninterp spec fn file_url_of(path: Seq<char>) -> Seq<char>;

/// Relies on url::Url::from_file_path: on this platform it succeeds
/// exactly for absolute paths — those beginning with '/' — and on
/// success builds its serialization from "file://" and the
/// percent-encoded path, so the result is a function of the path text
/// alone and its scheme is `file`.
#[verifier::external_body]
fn file_url_from_path(path: &str) -> (r: Option<String>)
    ensures
        r is Some <==> (path@.len() > 0 && path@[0] == '/'),
        r matches Some(s) ==> s@ == file_url_of(path@) && scheme_of(s@) == "file"@,
{
    match url::Url::from_file_path(path) {
        Ok(u) => Some(String::from(u)),
        Err(()) => None,
    }
}

/// The canonical file URL for a path: owed exactly when the path is
/// absolute, and then it is the path's own file URL.
pub fn test_url_for_file(path: &str) -> (r: Option<String>)
    ensures
        r is Some <==> (path@.len() > 0 && path@[0] == '/'),
        r matches Some(s) ==> s@ == file_url_of(path@) && scheme_of(s@) == "file"@,
{
    file_url_from_path(path)
}

} // verus!
