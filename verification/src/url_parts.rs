//! The boundary to the `url` crate: a URL goes in as text and comes back as
//! the plain parts that a request is assembled from.

use vstd::prelude::*;

verus! {

/// `url::ParseError`, the parser's reason for refusing a text. It is
/// carried as it comes; nothing is known of what it holds.
#[verifier::external_type_specification]
#[verifier::external_body]
pub struct ExParseError(url::ParseError);

/// The parts of a parsed URL that a request is assembled from.
pub struct UrlParts {
    /// Scheme, lower-cased, without the colon.
    pub scheme: String,
    /// Host as text: a name, an IPv4 address, or an IPv6 address in brackets.
    pub host: Option<String>,
    /// The host again where it is a domain name, nothing where it is an
    /// address or absent.
    pub domain: Option<String>,
    /// Port given in the URL, else the well-known port of the scheme.
    pub port: Option<u16>,
    /// Path, percent-encoded.
    pub path: String,
    /// Query, percent-encoded, without the question mark.
    pub query: Option<String>,
}

/// [`UrlParts`] with each text as a sequence of characters.
pub struct UrlPartsView {
    pub scheme: Seq<char>,
    pub host: Option<Seq<char>>,
    pub domain: Option<Seq<char>>,
    pub port: Option<u16>,
    pub path: Seq<char>,
    pub query: Option<Seq<char>>,
}

impl View for UrlParts {
    type V = UrlPartsView;

    open spec fn view(&self) -> UrlPartsView {
        UrlPartsView {
            scheme: self.scheme@,
            host: self.host.deep_view(),
            domain: self.domain.deep_view(),
            port: self.port,
            path: self.path@,
            query: self.query.deep_view(),
        }
    }
}

/// A parse result with its parts seen through their view.
pub open spec fn parsed_view(parsed: Result<UrlParts, url::ParseError>) -> Result<
    UrlPartsView,
    url::ParseError,
> {
    match parsed {
        Ok(parts) => Ok(parts@),
        Err(cause) => Err(cause),
    }
}

/// What the `url` crate makes of `input`: the parts of the URL it denotes, or
/// the reason why it denotes none.
pub uninterp spec fn url_parse(input: Seq<char>) -> Result<UrlPartsView, url::ParseError>;

/// Parses `input` with `url::Url::parse` and reads the parts off the result
/// with `scheme`, `host_str`, `domain`, `port_or_known_default`, `path` and
/// `query`. Nothing is proved of the parser: the contract only gives its
/// answer the name [`url_parse`], which rests on the parser being a function
/// of its input alone.
#[verifier::external_body]
pub(crate) fn parse_url(input: &str) -> (parsed: Result<UrlParts, url::ParseError>)
    ensures
        parsed_view(parsed) == url_parse(input@),
{
    match url::Url::parse(input) {
        Ok(url) => Ok(UrlParts {
            scheme: url.scheme().to_owned(),
            host: url.host_str().map(str::to_owned),
            domain: url.domain().map(str::to_owned),
            port: url.port_or_known_default(),
            path: url.path().to_owned(),
            query: url.query().map(str::to_owned),
        }),
        Err(cause) => Err(cause),
    }
}

} // verus!
