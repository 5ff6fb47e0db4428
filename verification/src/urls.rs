//! URLs as plain text: what the URL parser makes of an address, and of a
//! reference resolved against a base.

use vstd::prelude::*;
use url::ParseError;
use url::Url;

verus! {

/// What the logic reads of a parsed URL: its serialisation, its host where
/// it has one, and its path.
#[derive(Debug, Clone, PartialEq, Eq)]
pub struct UrlParts {
    pub href: String,
    pub host: Option<String>,
    pub path: String,
}

/// The parts of a URL as texts: serialisation, host and path.
pub type UrlTexts = (Seq<char>, Option<Seq<char>>, Seq<char>);

impl View for UrlParts {
    type V = UrlTexts;

    open spec fn view(&self) -> UrlTexts {
        (
            self.href@,
            match self.host {
                Some(host) => Some(host@),
                None => None,
            },
            self.path@,
        )
    }
}

/// The URL that `url::Url::parse` makes of `input`: its serialisation
/// (`Url::as_str`), its host (`Url::host_str`) and its path (`Url::path`).
/// `None` where the parser rejects the input.
pub uninterp spec fn url_parse(input: Seq<char>) -> Option<UrlTexts>;

/// The URL that `url::Url::join` makes of `reference` against the URL
/// written as `base`, by the same three parts. `None` where `base` does not
/// parse or the reference is rejected.
pub uninterp spec fn url_join(base: Seq<char>, reference: Seq<char>) -> Option<UrlTexts>;

/// Parses an absolute URL with `url::Url::parse` and hands out its
/// serialisation, host and path. The result depends on the input alone and
/// is named [`url_parse`]; an error is the one the parser gave.
#[verifier::external_body]
pub(crate) fn parse_url(input: &str) -> (r: Result<UrlParts, ParseError>)
    ensures
        match r {
            Ok(parts) => url_parse(input@) == Some(parts@),
            Err(_) => url_parse(input@) is None,
        },
{
    match Url::parse(input) {
        Ok(url) => Ok(
            UrlParts {
                href: String::from(url.as_str()),
                host: url.host_str().map(String::from),
                path: String::from(url.path()),
            },
        ),
        Err(e) => Err(e),
    }
}

/// Resolves `reference` against `base` with `url::Url::join`, after reading
/// `base` back with `url::Url::parse`, and hands out the serialisation, host
/// and path of the result. The result depends on the two texts alone and is
/// named [`url_join`]; an error is the one the parser gave.
#[verifier::external_body]
pub(crate) fn join_url(base: &str, reference: &str) -> (r: Result<UrlParts, ParseError>)
    ensures
        match r {
            Ok(parts) => url_join(base@, reference@) == Some(parts@),
            Err(_) => url_join(base@, reference@) is None,
        },
{
    match Url::parse(base) {
        Ok(root) => match root.join(reference) {
            Ok(url) => Ok(
                UrlParts {
                    href: String::from(url.as_str()),
                    host: url.host_str().map(String::from),
                    path: String::from(url.path()),
                },
            ),
            Err(e) => Err(e),
        },
        Err(e) => Err(e),
    }
}

} // verus!
