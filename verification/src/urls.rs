//! URLs as text.

use vstd::prelude::*;
use crate::paths::str_view;
use crate::text::opt_view;

verus! {

/// The text of the URL that a text writes, or what is wrong with it.
pub uninterp spec fn url_text(text: Seq<char>) -> Result<Seq<char>, Seq<char>>;

/// The URL that a reference means, seen from another URL, or what is wrong with
/// it.
pub uninterp spec fn joined_url(base: Seq<char>, reference: Seq<char>) -> Result<
    Seq<char>,
    Seq<char>,
>;

/// The path and the query of a URL.
pub uninterp spec fn url_target(text: Seq<char>) -> Option<(Seq<char>, Option<Seq<char>>)>;

/// A URL with another path and query.
pub uninterp spec fn retargeted_url(
    base: Seq<char>,
    path: Seq<char>,
    query: Option<Seq<char>>,
) -> Result<Seq<char>, Seq<char>>;

/// What a text is, or what is told of a failure to make it.
pub open spec fn text_view(r: Result<String, String>) -> Result<Seq<char>, Seq<char>> {
    match r {
        Ok(s) => Ok(s@),
        Err(e) => Err(e@),
    }
}

/// `reqwest::Url::parse` reads a URL; the result is its text in normal form, or
/// the text of the error.
#[verifier::external_body]
pub(crate) fn parse_url(text: &str) -> (r: Result<String, String>)
    ensures
        text_view(r) == url_text(text@),
{
    match reqwest::Url::parse(text) {
        Ok(url) => Ok(String::from(url)),
        Err(e) => Err(e.to_string()),
    }
}

/// `reqwest::Url::join` resolves a reference against a URL.
#[verifier::external_body]
pub(crate) fn join_url(base: &str, reference: &str) -> (r: Result<String, String>)
    ensures
        text_view(r) == joined_url(base@, reference@),
{
    match reqwest::Url::parse(base).and_then(|url| url.join(reference)) {
        Ok(url) => Ok(String::from(url)),
        Err(e) => Err(e.to_string()),
    }
}

/// `reqwest::Url::path` and `reqwest::Url::query` of a URL.
#[verifier::external_body]
pub(crate) fn split_url(text: &str) -> (r: Option<(String, Option<String>)>)
    ensures
        match (r, url_target(text@)) {
            (Some((p, q)), Some((path, query))) => p@ == path && opt_view(q) == query,
            (None, None) => true,
            _ => false,
        },
{
    let url = reqwest::Url::parse(text).ok()?;
    Some((url.path().to_owned(), url.query().map(str::to_owned)))
}

/// `reqwest::Url::set_path` and `reqwest::Url::set_query` on a URL.
#[verifier::external_body]
pub(crate) fn retarget_url(base: &str, path: &str, query: Option<&str>) -> (r: Result<
    String,
    String,
>)
    ensures
        text_view(r) == retargeted_url(base@, path@, str_view(query)),
{
    match reqwest::Url::parse(base) {
        Ok(mut url) => {
            url.set_path(path);
            url.set_query(query);
            Ok(String::from(url))
        },
        Err(e) => Err(e.to_string()),
    }
}

} // verus!
