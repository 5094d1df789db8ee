//! URLs, read through the `url` crate.

use vstd::prelude::*;

verus! {

/// The parts of a parsed URL that the service reads.
pub struct UrlParts {
    /// The serialization (`Url::as_str`, also its `Display`)
    pub serialization: String,
    pub scheme: String,
    pub username: String,
    pub has_password: bool,
    pub host: Option<String>,
    /// The explicit port, or the default port of the scheme if it has one
    pub port: Option<u16>,
}

/// Mathematical view of [`UrlParts`], in field order.
pub open spec fn url_view(p: UrlParts) -> (Seq<char>, Seq<char>, Seq<char>, bool, Option<Seq<char>>, Option<u16>) {
    (
        p.serialization@,
        p.scheme@,
        p.username@,
        p.has_password,
        match p.host {
            Some(h) => Some(h@),
            None => None,
        },
        p.port,
    )
}

/// What `url::Url::parse` makes of a text: nothing if it is not a valid
/// absolute URL, otherwise its serialization, scheme, username, whether it
/// has a password, its host and its port or the scheme's default port.
pub uninterp spec fn parsed_url(s: Seq<char>) -> Option<(Seq<char>, Seq<char>, Seq<char>, bool, Option<Seq<char>>, Option<u16>)>;

/// `url::Url::parse`, read through `as_str`, `scheme`, `username`,
/// `password`, `host_str` and `port_or_known_default`. The result is named
/// by [`parsed_url`]; nothing more of the URL standard is stated here.
#[verifier::external_body]
pub(crate) fn parse_url(s: &str) -> (r: Option<UrlParts>)
    ensures
        match parsed_url(s@) {
            Some(v) => r matches Some(p) && url_view(p) == v,
            None => r is None,
        },
{
    match url::Url::parse(s) {
        Ok(u) => Some(UrlParts {
            serialization: u.as_str().to_string(),
            scheme: u.scheme().to_string(),
            username: u.username().to_string(),
            has_password: u.password().is_some(),
            host: u.host_str().map(|h| h.to_string()),
            port: u.port_or_known_default(),
        }),
        Err(_) => None,
    }
}

} // verus!
