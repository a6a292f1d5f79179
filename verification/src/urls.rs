//! Parsed URLs, as the `url` crate gives them.
use vstd::prelude::*;
use crate::xml::text_view;

verus! {

/// The parts of a URL.
#[derive(Debug, PartialEq, Eq)]
pub struct UrlParts {
    pub text: String,
    pub scheme: String,
    pub username: String,
    pub password: Option<String>,
    pub host: Option<String>,
    pub port: Option<u16>,
    pub path: String,
    pub fragment: Option<String>,
}

/// What the parts of a URL hold.
#[verifier::ext_equal]
pub struct UrlPartsView {
    pub text: Seq<char>,
    pub scheme: Seq<char>,
    pub username: Seq<char>,
    pub password: Option<Seq<char>>,
    pub host: Option<Seq<char>>,
    pub port: Option<u16>,
    pub path: Seq<char>,
    pub fragment: Option<Seq<char>>,
}

impl View for UrlParts {
    type V = UrlPartsView;

    open spec fn view(&self) -> UrlPartsView {
        UrlPartsView {
            text: self.text@,
            scheme: self.scheme@,
            username: self.username@,
            password: text_view(self.password),
            host: text_view(self.host),
            port: self.port,
            path: self.path@,
            fragment: text_view(self.fragment),
        }
    }
}

/// Why a text is not a URL.
#[derive(Clone, Copy, Debug, PartialEq, Eq, Structural)]
pub enum UrlFault {
    /// It is relative, and no base was given.
    Relative,
    Other,
}

/// The parts of the URL that a text spells, as `Url::parse` gives them.
pub uninterp spec fn parsed_url(text: Seq<char>) -> Result<UrlPartsView, UrlFault>;

/// The parts of the URL that a text spells against a base, as `Url::join` gives
/// them; `None` where either is not a URL.
pub uninterp spec fn joined_url(base: Seq<char>, text: Seq<char>) -> Option<UrlPartsView>;

/// Parses a URL with `url::Url::parse` and takes its parts over one for one.
#[verifier::external_body]
pub(crate) fn parse_url(text: &str) -> (r: Result<UrlParts, UrlFault>)
    ensures
        (match r {
            Ok(parts) => Ok::<UrlPartsView, UrlFault>(parts@),
            Err(fault) => Err::<UrlPartsView, UrlFault>(fault),
        }) == parsed_url(text@),
{
    match url::Url::parse(text) {
        Ok(url) => Ok(UrlParts {
            text: url.as_str().to_owned(),
            scheme: url.scheme().to_owned(),
            username: url.username().to_owned(),
            password: url.password().map(str::to_owned),
            host: url.host_str().map(str::to_owned),
            port: url.port(),
            path: url.path().to_owned(),
            fragment: url.fragment().map(str::to_owned),
        }),
        Err(url::ParseError::RelativeUrlWithoutBase) => Err(UrlFault::Relative),
        Err(_) => Err(UrlFault::Other),
    }
}

/// Resolves a text against a base URL with `url::Url::join` and takes the parts
/// of what it gives over one for one.
#[verifier::external_body]
pub(crate) fn join_url(base: &str, text: &str) -> (r: Option<UrlParts>)
    ensures
        (match r {
            Some(parts) => Some(parts@),
            None => None,
        }) == joined_url(base@, text@),
{
    let url = url::Url::parse(base).ok()?.join(text).ok()?;
    Some(UrlParts {
        text: url.as_str().to_owned(),
        scheme: url.scheme().to_owned(),
        username: url.username().to_owned(),
        password: url.password().map(str::to_owned),
        host: url.host_str().map(str::to_owned),
        port: url.port(),
        path: url.path().to_owned(),
        fragment: url.fragment().map(str::to_owned),
    })
}

} // verus!
