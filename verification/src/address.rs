//! Web addresses, as far as they are taken apart.

use vstd::prelude::*;

use crate::text::opt_text;

verus! {

/// The host of an address; nothing where it cannot be read or has none.
pub uninterp spec fn url_host(url: Seq<char>) -> Option<Seq<char>>;

/// `Url::parse` and `Url::host_str`: the host of an address that can be read.
#[verifier::external_body]
pub(crate) fn host_in(url: &str) -> (r: Option<String>)
    ensures
        opt_text(r) == url_host(url@),
{
    let u = reqwest::Url::parse(url).ok()?;
    u.host_str().map(|h| h.to_string())
}

/// An address with another path, and two fields added to its query. Nothing where the address
/// cannot be read.
pub uninterp spec fn url_with(
    base: Seq<char>,
    path: Seq<char>,
    first: (Seq<char>, Seq<char>),
    second: (Seq<char>, Seq<char>),
) -> Option<Seq<char>>;

/// `Url::parse`, `Url::set_path` and `append_pair` of `Url::query_pairs_mut`, and the
/// address as text. The address of a server on this machine can always be read.
#[verifier::external_body]
pub(crate) fn with_path_and_query(
    base: &str,
    path: &str,
    first: (&str, &str),
    second: (&str, &str),
) -> (r: Option<String>)
    ensures
        opt_text(r) == url_with(base@, path@, (first.0@, first.1@), (second.0@, second.1@)),
        base@ == "http://localhost:8080"@ ==> r is Some,
{
    let mut u = reqwest::Url::parse(base).ok()?;
    u.set_path(path);
    u.query_pairs_mut().append_pair(first.0, first.1).append_pair(second.0, second.1);
    Some(u.to_string())
}

} // verus!
