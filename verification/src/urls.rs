//! URLs as texts; what they are made of comes from the `url` crate.

use crate::text::{cat3, opt_view, str_eq};
use vstd::prelude::*;
use vstd::string::*;

verus! {

/// What `url::Url::set_username` makes of a URL, in its serialized form.
pub uninterp spec fn url_user_set(text: Seq<char>, user: Seq<char>) -> Option<Seq<char>>;

/// What `url::Url::set_path` makes of a URL, in its serialized form.
pub uninterp spec fn url_path_set(text: Seq<char>, path: Seq<char>) -> Option<Seq<char>>;

/// What `url::Url::join` makes of a URL and a reference, in its serialized form.
pub uninterp spec fn url_joined(base: Seq<char>, reference: Seq<char>) -> Option<Seq<char>>;

/// What `url::Url::path` gives of a URL.
pub uninterp spec fn url_path(text: Seq<char>) -> Option<Seq<char>>;

/// What `url::Url::query` gives of a URL.
pub uninterp spec fn url_query(text: Seq<char>) -> Option<Option<Seq<char>>>;

/// What `url::Url::scheme` gives of a URL.
pub uninterp spec fn url_scheme(text: Seq<char>) -> Option<Seq<char>>;

/// What `url::Url::host_str` gives of a URL.
pub uninterp spec fn url_host(text: Seq<char>) -> Option<Option<Seq<char>>>;

/// What `url::Url::port_or_known_default` gives of a URL.
pub uninterp spec fn url_port(text: Seq<char>) -> Option<Option<u16>>;

/// The view of an optional text that may itself be absent.
pub open spec fn opt_opt_view(r: Option<Option<String>>) -> Option<Option<Seq<char>>> {
    match r {
        Some(x) => Some(opt_view(x)),
        None => None,
    }
}

/// Calls `url::Url::set_username` on the parsed text and serializes the URL; the result is named after
/// that call, with nothing where the text is no URL or cannot have a user name.
#[verifier::external_body]
pub(crate) fn set_username(text: &str, user: &str) -> (r: Option<String>)
    ensures
        opt_view(r) == url_user_set(text@, user@),
{
    let mut u = url::Url::parse(text).ok()?;
    u.set_username(user).ok()?;
    Some(u.to_string())
}

/// Calls `url::Url::set_path` on the parsed text and serializes the URL; the result is named after that
/// call, with nothing where the text is no URL.
#[verifier::external_body]
pub(crate) fn set_path(text: &str, path: &str) -> (r: Option<String>)
    ensures
        opt_view(r) == url_path_set(text@, path@),
{
    let mut u = url::Url::parse(text).ok()?;
    u.set_path(path);
    Some(u.to_string())
}

/// Calls `url::Url::join` on the parsed base and serializes the URL; the result is named after that
/// call, with nothing where either text is refused.
#[verifier::external_body]
pub(crate) fn join_url(base: &str, reference: &str) -> (r: Option<String>)
    ensures
        opt_view(r) == url_joined(base@, reference@),
{
    url::Url::parse(base).ok()?.join(reference).ok().map(|u| u.to_string())
}

/// Calls `url::Url::path` on the parsed text; the result is named after that call, with nothing where
/// the text is no URL.
#[verifier::external_body]
pub(crate) fn path_of(text: &str) -> (r: Option<String>)
    ensures
        opt_view(r) == url_path(text@),
{
    url::Url::parse(text).ok().map(|u| u.path().to_string())
}

/// Calls `url::Url::query` on the parsed text; the result is named after that call, with nothing where
/// the text is no URL.
#[verifier::external_body]
pub(crate) fn query_of(text: &str) -> (r: Option<Option<String>>)
    ensures
        opt_opt_view(r) == url_query(text@),
{
    url::Url::parse(text).ok().map(|u| u.query().map(str::to_string))
}

/// Calls `url::Url::scheme` on the parsed text; the result is named after that call, with nothing where
/// the text is no URL.
#[verifier::external_body]
fn scheme_of(text: &str) -> (r: Option<String>)
    ensures
        opt_view(r) == url_scheme(text@),
{
    url::Url::parse(text).ok().map(|u| u.scheme().to_string())
}

/// Calls `url::Url::host_str` on the parsed text; the result is named after that call, with nothing
/// where the text is no URL.
#[verifier::external_body]
fn host_of(text: &str) -> (r: Option<Option<String>>)
    ensures
        opt_opt_view(r) == url_host(text@),
{
    url::Url::parse(text).ok().map(|u| u.host_str().map(str::to_string))
}

/// Calls `url::Url::port_or_known_default` on the parsed text; the result is named after that call, with
/// nothing where the text is no URL.
#[verifier::external_body]
fn port_of(text: &str) -> (r: Option<Option<u16>>)
    ensures
        r == url_port(text@),
{
    url::Url::parse(text).ok().map(|u| u.port_or_known_default())
}

/// Two URLs have the same scheme, host and port.
pub open spec fn origin_shared(a: Seq<char>, b: Seq<char>) -> bool {
    url_scheme(a) == url_scheme(b) && url_host(a) == url_host(b) && url_port(a) == url_port(b)
}

/// Tells whether two optional texts are the same.
pub fn same_opt(a: &Option<String>, b: &Option<String>) -> (r: bool)
    ensures
        r == (opt_view(*a) == opt_view(*b)),
{
    match (a, b) {
        (Some(x), Some(y)) => str_eq(x.as_str(), y.as_str()),
        (None, None) => true,
        _ => false,
    }
}

/// Tells whether two optional texts that may themselves be absent are the same.
fn same_opt_opt(a: &Option<Option<String>>, b: &Option<Option<String>>) -> (r: bool)
    ensures
        r == (opt_opt_view(*a) == opt_opt_view(*b)),
{
    match (a, b) {
        (Some(x), Some(y)) => same_opt(x, y),
        (None, None) => true,
        _ => false,
    }
}

/// Tells whether two optional ports that may themselves be absent are the same.
fn same_port(a: Option<Option<u16>>, b: Option<Option<u16>>) -> (r: bool)
    ensures
        r == (a == b),
{
    match (a, b) {
        (Some(Some(x)), Some(Some(y))) => x == y,
        (Some(None), Some(None)) => true,
        (None, None) => true,
        _ => false,
    }
}

/// Tells whether two URLs have the same scheme, host and port.
pub fn same_origin(a: &str, b: &str) -> (r: bool)
    ensures
        r == origin_shared(a@, b@),
{
    same_opt(&scheme_of(a), &scheme_of(b)) && same_opt_opt(&host_of(a), &host_of(b)) && same_port(
        port_of(a),
        port_of(b),
    )
}

/// A path with its query behind a question mark, where there is one.
pub open spec fn with_query(path: Seq<char>, query: Option<Seq<char>>) -> Seq<char> {
    match query {
        Some(q) => path + "?"@ + q,
        None => path,
    }
}

/// A path with its query behind a question mark, where there is one.
pub fn path_with_query(path: &str, query: &Option<String>) -> (r: String)
    ensures
        r@ == with_query(path@, opt_view(*query)),
{
    match query {
        Some(q) => cat3(path, "?", q.as_str()),
        None => path.to_owned(),
    }
}

/// The path of a URL with its query; nothing where the text is no URL.
pub fn api_path_with_query(url: &str) -> (r: Option<String>)
    ensures
        opt_view(r) == (match (url_path(url@), url_query(url@)) {
            (Some(p), Some(q)) => Some(with_query(p, q)),
            _ => None,
        }),
{
    match (path_of(url), query_of(url)) {
        (Some(p), Some(q)) => Some(path_with_query(p.as_str(), &q)),
        _ => None,
    }
}

} // verus!
