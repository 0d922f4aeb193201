//! URL parsing and joining, by the `url` crate.

use vstd::prelude::*;

verus! {

/// What `url::Url::parse` makes of `s`: the URL's serialization, or the
/// text of the parse error.
pub uninterp spec fn url_parse_result(s: Seq<char>) -> Result<Seq<char>, Seq<char>>;

/// What `url::Url::join` gives for `rel` against the URL that `base` parses
/// to: the joined URL's serialization, or the text of the error (of the
/// parse of `base` first, else of the join).
pub uninterp spec fn url_join_result(base: Seq<char>, rel: Seq<char>) -> Result<Seq<char>, Seq<char>>;

/// Calls `url::Url::parse`. Trusted: the result is `url_parse_result` of the
/// text (the URL's `as_str`, or the error's `Display` text).
#[verifier::external_body]
pub(crate) fn parse_url(s: &str) -> (r: Result<String, String>)
    ensures
        match r {
            Ok(t) => url_parse_result(s@) == Ok::<Seq<char>, Seq<char>>(t@),
            Err(e) => url_parse_result(s@) == Err::<Seq<char>, Seq<char>>(e@),
        },
{
    match url::Url::parse(s) {
        Ok(u) => Ok(u.as_str().to_string()),
        Err(e) => Err(e.to_string()),
    }
}

/// Calls `url::Url::parse` on `base`, then `Url::join` with `rel`. Trusted:
/// the result is `url_join_result` of the two texts (the joined URL's
/// `as_str`, or the first error's `Display` text).
#[verifier::external_body]
pub(crate) fn join_url(base: &str, rel: &str) -> (r: Result<String, String>)
    ensures
        match r {
            Ok(t) => url_join_result(base@, rel@) == Ok::<Seq<char>, Seq<char>>(t@),
            Err(e) => url_join_result(base@, rel@) == Err::<Seq<char>, Seq<char>>(e@),
        },
{
    let b = match url::Url::parse(base) {
        Ok(b) => b,
        Err(e) => return Err(e.to_string()),
    };
    match b.join(rel) {
        Ok(u) => Ok(u.as_str().to_string()),
        Err(e) => Err(e.to_string()),
    }
}

} // verus!
