//! The request target as a URI: what the `fluent_uri` parser makes of it,
//! held as plain strings.

use vstd::prelude::*;
use vstd::utf8::encode_utf8;

verus! {

/// The authority component of a URI: the host, and the port where the
/// authority names one. An empty port (`host:`) is a port.
#[derive(Debug, PartialEq, Eq)]
pub struct Authority {
    pub host: String,
    pub port: Option<String>,
}

/// The components of a URI reference that the proxy reads.
#[derive(Debug, PartialEq, Eq)]
pub struct UriParts {
    pub authority: Option<Authority>,
    pub path: String,
}

/// An [`Authority`] as mathematical text.
pub struct AuthorityView {
    pub host: Seq<char>,
    pub port: Option<Seq<char>>,
}

/// A [`UriParts`] as mathematical text.
pub struct UriPartsView {
    pub authority: Option<AuthorityView>,
    pub path: Seq<char>,
}

impl View for Authority {
    type V = AuthorityView;

    open spec fn view(&self) -> AuthorityView {
        AuthorityView {
            host: self.host@,
            port: match self.port {
                Some(port) => Some(port@),
                None => None,
            },
        }
    }
}

impl View for UriParts {
    type V = UriPartsView;

    open spec fn view(&self) -> UriPartsView {
        UriPartsView {
            authority: match self.authority {
                Some(authority) => Some(authority@),
                None => None,
            },
            path: self.path@,
        }
    }
}

/// The longest text, in bytes, that the URI parser takes.
pub const MAX_URI_BYTES: usize = 0x7fff_ffff;

/// What `fluent_uri::Uri::parse` makes of `text`: `None` where it rejects the
/// text as a URI reference, else the components it found.
pub uninterp spec fn uri_parts(text: Seq<char>) -> Option<UriPartsView>;

/// `fluent_uri::Uri::parse`, followed by a copy of the authority's host and
/// port and of the path into strings of their own. The parser panics on more
/// than `i32::MAX` bytes, which the precondition excludes.
#[verifier::external_body]
pub(crate) fn split_uri(text: &str) -> (parts: Option<UriParts>)
    requires
        encode_utf8(text@).len() <= MAX_URI_BYTES,
    ensures
        match parts {
            Some(found) => uri_parts(text@) == Some(found@),
            None => uri_parts(text@) is None,
        },
{
    let uri = fluent_uri::Uri::parse(text).ok()?;
    let authority = uri.authority().map(|a| Authority {
        host: a.host().as_str().to_string(),
        port: a.port().map(|p| p.to_string()),
    });
    Some(UriParts { authority, path: uri.path().as_str().to_string() })
}

} // verus!
