//! URLs, as the `url` crate reads and joins them.

use vstd::prelude::*;

verus! {

/// The normal form of a URL, or why a text is none.
pub uninterp spec fn url_parse_of(text: Seq<char>) -> Result<Seq<char>, Seq<char>>;

/// The URL that a reference means at a base URL, or why there is none.
pub uninterp spec fn url_join_of(base: Seq<char>, reference: Seq<char>) -> Result<
    Seq<char>,
    Seq<char>,
>;

/// `url::Url::parse`: the normal form of a URL, or the message of the error.
#[verifier::external_body]
pub(crate) fn parse_url(text: &str) -> (r: Result<String, String>)
    ensures
        match r {
            Ok(u) => url_parse_of(text@) == Ok::<Seq<char>, Seq<char>>(u@),
            Err(e) => url_parse_of(text@) == Err::<Seq<char>, Seq<char>>(e@),
        },
{
    url::Url::parse(text).map(String::from).map_err(|e| e.to_string())
}

/// `url::Url::join`: the URL that a reference means at a base URL, or the
/// message of the error.
#[verifier::external_body]
pub(crate) fn join_url(base: &str, reference: &str) -> (r: Result<String, String>)
    ensures
        match r {
            Ok(u) => url_join_of(base@, reference@) == Ok::<Seq<char>, Seq<char>>(u@),
            Err(e) => url_join_of(base@, reference@) == Err::<Seq<char>, Seq<char>>(e@),
        },
{
    let joined = url::Url::parse(base).and_then(|b| b.join(reference));
    joined.map(String::from).map_err(|e| e.to_string())
}

} // verus!
