//! What the URL parser and the percent-encoder decide, named, and the
//! calls that reach them.
use vstd::prelude::*;

verus! {

#[verifier::external_type_specification]
#[verifier::external_body]
pub struct ExParseError(url::ParseError);

/// Whether the URL parser accepts `s` as an absolute URL.
pub uninterp spec fn url_parses(s: Seq<char>) -> bool;

/// The scheme that the URL parser reads from `s`.
pub uninterp spec fn url_scheme(s: Seq<char>) -> Seq<char>;

/// The domain of the host that the URL parser reads from `s`, where the host
/// is a domain rather than an address.
pub uninterp spec fn url_domain(s: Seq<char>) -> Option<Seq<char>>;

/// `s` percent-encoded: every byte of its UTF-8 form but ASCII letters,
/// digits and `-`, `_`, `.`, `~` written as `%XX`.
pub uninterp spec fn url_encoded(s: Seq<char>) -> Seq<char>;

/// `s` without its leading and trailing white space.
pub uninterp spec fn trimmed(s: Seq<char>) -> Seq<char>;

/// Whether `c` has the Unicode White_Space property.
pub uninterp spec fn white_space(c: char) -> bool;

/// Relies on `url::Url::parse` and `Url::scheme`: the scheme of `s`, or the
/// parser's error where `s` is no absolute URL.
#[verifier::external_body]
pub(crate) fn scheme_of(s: &str) -> (r: Result<String, url::ParseError>)
    ensures
        r is Ok == url_parses(s@),
        r matches Ok(x) ==> x@ == url_scheme(s@),
{
    match url::Url::parse(s) {
        Ok(u) => Ok(u.scheme().to_string()),
        Err(e) => Err(e),
    }
}

/// Relies on `url::Url::parse` and `Url::domain`: the domain of `s`, where
/// `s` parses and its host is a domain.
#[verifier::external_body]
pub(crate) fn domain_of(s: &str) -> (r: Option<String>)
    ensures
        match r {
            Some(d) => url_parses(s@) && url_domain(s@) == Some(d@),
            None => !url_parses(s@) || url_domain(s@) is None,
        },
{
    match url::Url::parse(s) {
        Ok(u) => u.domain().map(|d| d.to_string()),
        Err(_) => None,
    }
}

/// Relies on `urlencoding::encode`: `s` percent-encoded.
#[verifier::external_body]
pub(crate) fn url_encode(s: &str) -> (r: String)
    ensures
        r@ == url_encoded(s@),
{
    urlencoding::encode(s).into_owned()
}

/// Relies on `str::trim`: `s` without leading and trailing white space.
#[verifier::external_body]
pub(crate) fn trim_text(s: &str) -> (r: &str)
    ensures
        r@ == trimmed(s@),
{
    s.trim()
}

/// Relies on `char::is_whitespace`: whether `c` is white space; a space is.
#[verifier::external_body]
pub(crate) fn is_white_space(c: char) -> (r: bool)
    ensures
        r == white_space(c),
        c == ' ' ==> r,
{
    c.is_whitespace()
}

} // verus!
