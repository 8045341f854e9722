//! Resolution of a next-page href against the address of the page it
//! was found on, through the `url` crate.

use vstd::prelude::*;

verus! {

/// The absolute URL that resolving `href` against the base address
/// `base` yields. The resolution rules (WHATWG URL parsing and joining)
/// take pages to state; the result is a function of the two strings
/// alone, so it only carries this name.
pub uninterp spec fn joined_url(base: Seq<char>, href: Seq<char>) -> Seq<char>;

/// Relies on `url::Url::parse` and `url::Url::join`: parsing the base
/// address and resolving the (possibly relative) href against it is
/// deterministic in the two strings, and `Url::as_str` serializes the
/// resolved URL. `None` reports that either string was rejected by the
/// URL grammar.
#[verifier::external_body]
pub(crate) fn join_against(base: &str, href: &str) -> (r: Option<String>)
    ensures
        r matches Some(u) ==> u@ == joined_url(base@, href@),
{
    match url::Url::parse(base) {
        Ok(b) => match b.join(href) {
            Ok(u) => Some(u.as_str().to_owned()),
            Err(_) => None,
        },
        Err(_) => None,
    }
}

} // verus!
