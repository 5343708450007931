//! Calls into the `url` crate, from text to text.

use crate::cli::pairs_view;
use vstd::prelude::*;

verus! {

/// Why the `url` crate could not read a URL.
#[verifier::external_type_specification]
#[verifier::external_body]
pub struct ExParseError(::url::ParseError);

/// The URL that the `url` crate reads from `text`, written out again without its query, or
/// `None` where it reads none.
pub uninterp spec fn spec_url_without_query(text: Seq<char>) -> Option<Seq<char>>;

/// The key-value pairs in the query of the URL that the `url` crate reads from `text`, or
/// `None` where it reads none.
pub uninterp spec fn spec_url_query_pairs(text: Seq<char>) -> Option<Seq<(Seq<char>, Seq<char>)>>;

/// The URL that the `url` crate reads from `text`, written out again with one more pair at
/// the end of its query, or `None` where it reads none.
pub uninterp spec fn spec_url_append_pair(text: Seq<char>, key: Seq<char>, value: Seq<char>) -> Option<
    Seq<char>,
>;

/// `Url::parse`, `Url::set_query` with `None`, and the URL as a string: the result is named
/// [`spec_url_without_query`], nothing more is claimed of it.
#[verifier::external_body]
pub(crate) fn url_without_query(text: &str) -> (r: Result<String, ::url::ParseError>)
    ensures
        r matches Ok(u) ==> spec_url_without_query(text@) == Some(u@),
        r is Err ==> spec_url_without_query(text@) is None,
{
    ::url::Url::parse(text).map(
        |mut u| {
            u.set_query(None);
            u.into()
        },
    )
}

/// `Url::parse` and `Url::query_pairs`: the result is named [`spec_url_query_pairs`], nothing
/// more is claimed of it.
#[verifier::external_body]
pub(crate) fn url_query_pairs(text: &str) -> (r: Result<Vec<(String, String)>, ::url::ParseError>)
    ensures
        r matches Ok(pairs) ==> spec_url_query_pairs(text@) == Some(pairs_view(pairs@)),
        r is Err ==> spec_url_query_pairs(text@) is None,
{
    ::url::Url::parse(text).map(|u| u.query_pairs().into_owned().collect())
}

/// `Url::parse`, `Url::query_pairs_mut` with `append_pair`, and the URL as a string: the
/// result is named [`spec_url_append_pair`], nothing more is claimed of it.
#[verifier::external_body]
pub(crate) fn url_append_pair(text: &str, key: &str, value: &str) -> (r: Result<
    String,
    ::url::ParseError,
>)
    ensures
        r matches Ok(u) ==> spec_url_append_pair(text@, key@, value@) == Some(u@),
        r is Err ==> spec_url_append_pair(text@, key@, value@) is None,
{
    ::url::Url::parse(text).map(
        |mut u| {
            u.query_pairs_mut().append_pair(key, value);
            u.into()
        },
    )
}

} // verus!
