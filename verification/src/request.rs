//! The client's request: the method and the absolute URI of the request
//! line, the origin the URI names, and the request the proxy sends there.

use crate::text::{after_first_token, first_token, split_first_token, text_of};
use crate::uri::{split_uri, uri_parts, UriParts, UriPartsView, MAX_URI_BYTES};
use vstd::prelude::*;
use vstd::string::{StrSliceExecFns, StringExecFns};
use vstd::utf8::{decode_utf8, encode_utf8, valid_utf8};

verus! {

/// The size of the buffer for the one read that has to hold the request line.
pub const REQUEST_BUFFER_SIZE: usize = 1024;

/// Why the bytes of a client are no request.
#[derive(Clone, Copy, Debug, PartialEq, Eq, Structural)]
pub enum ParseError {
    /// The bytes are not UTF-8 text.
    NotText,
    /// The text holds no token at all.
    NoMethod,
    /// The text holds a method and nothing behind it.
    NoTarget,
    /// The second token is no URI reference.
    BadUri,
    /// The URI names no host to connect to.
    NoAuthority,
}

/// One request of a client, as far as the proxy reads it.
#[derive(Debug, PartialEq, Eq)]
pub struct Request {
    /// The first token of the request line, taken as it is.
    pub method: String,
    /// The second token of the request line, taken as it is. It is the key
    /// under which the response is cached.
    pub uri: String,
    /// The host of the URI's authority.
    pub host: String,
    /// The port of the URI's authority, `80` where it names none.
    pub port: String,
    /// The path of the URI.
    pub path: String,
}

/// A [`Request`] as mathematical text.
pub struct RequestView {
    pub method: Seq<char>,
    pub uri: Seq<char>,
    pub host: Seq<char>,
    pub port: Seq<char>,
    pub path: Seq<char>,
}

impl View for Request {
    type V = RequestView;

    open spec fn view(&self) -> RequestView {
        RequestView {
            method: self.method@,
            uri: self.uri@,
            host: self.host@,
            port: self.port@,
            path: self.path@,
        }
    }
}

/// The port of an origin whose URI names none.
pub open spec fn default_port() -> Seq<char> {
    "80"@
}

/// The request that a method, a target and the parsed target make: the
/// target must have parsed and must name an authority.
pub open spec fn assembled(method: Seq<char>, target: Seq<char>, parts: Option<UriPartsView>) -> Result<
    RequestView,
    ParseError,
> {
    match parts {
        None => Err(ParseError::BadUri),
        Some(found) => match found.authority {
            None => Err(ParseError::NoAuthority),
            Some(authority) => Ok(
                RequestView {
                    method,
                    uri: target,
                    host: authority.host,
                    port: match authority.port {
                        Some(port) => port,
                        None => default_port(),
                    },
                    path: found.path,
                },
            ),
        },
    }
}

/// The request that the bytes of a client's first read hold.
///
/// The bytes must be UTF-8 text. The first whitespace-separated token is the
/// method, the second the target; whatever follows is ignored. The target
/// must be a URI that the parser accepts, no longer than the parser takes,
/// with an authority.
pub open spec fn parsed(bytes: Seq<u8>) -> Result<RequestView, ParseError> {
    if !valid_utf8(bytes) {
        Err(ParseError::NotText)
    } else {
        let text = decode_utf8(bytes);
        let method = first_token(text);
        let target = first_token(after_first_token(text));
        if method.len() == 0 {
            Err(ParseError::NoMethod)
        } else if target.len() == 0 {
            Err(ParseError::NoTarget)
        } else if encode_utf8(target).len() > MAX_URI_BYTES {
            Err(ParseError::BadUri)
        } else {
            assembled(method, target, uri_parts(target))
        }
    }
}

/// What it takes to be a request: text, two tokens, and for the second a
/// URI of a length the parser takes, which it accepts and which names an
/// authority. Fewer than two tokens, or an unparseable URI, are an error.
pub proof fn lemma_request_needs_two_tokens_and_a_uri(bytes: Seq<u8>)
    ensures
        parsed(bytes) is Ok <==> {
            let text = decode_utf8(bytes);
            let target = first_token(after_first_token(text));
            &&& valid_utf8(bytes)
            &&& first_token(text).len() > 0
            &&& target.len() > 0
            &&& encode_utf8(target).len() <= MAX_URI_BYTES
            &&& uri_parts(target) matches Some(found)
            &&& found.authority is Some
        },
        parsed(bytes) matches Ok(request) ==> request.method == first_token(decode_utf8(bytes))
            && request.uri == first_token(after_first_token(decode_utf8(bytes))),
{
}

/// `result` is the outcome `expected`, seen through the view of the request.
pub open spec fn is_outcome(result: Result<Request, ParseError>, expected: Result<
    RequestView,
    ParseError,
>) -> bool {
    match result {
        Ok(request) => expected == Ok::<RequestView, ParseError>(request@),
        Err(error) => expected == Err::<RequestView, ParseError>(error),
    }
}

/// The address of the origin, as `host:port`.
pub open spec fn address_text(request: RequestView) -> Seq<char> {
    request.host + ":"@ + request.port
}

/// The head of the request to the origin: HTTP/1.0, the four fixed headers
/// and the blank line.
pub open spec fn origin_request_text(request: RequestView) -> Seq<char> {
    request.method + " "@ + request.path + " HTTP/1.0\r\nHost: "@ + request.host + ":"@
        + request.port
        + "\r\nUser-Agent: Mozilla/5.0 (X11; Linux x86_64; rv:10.0.3) Gecko/20120305 Firefox/10.0.3\r\nConnection: close\r\nProxy-Connection: close\r\n\r\n"@
}

impl Request {
    /// Makes the request from the two tokens of the request line and from
    /// what the URI parser made of the second.
    pub fn assemble(method: &str, target: &str, parts: Option<UriParts>) -> (result: Result<
        Request,
        ParseError,
    >)
        ensures
            is_outcome(
                result,
                assembled(
                    method@,
                    target@,
                    match parts {
                        Some(found) => Some(found@),
                        None => None,
                    },
                ),
            ),
    {
        match parts {
            None => Err(ParseError::BadUri),
            Some(found) => match found.authority {
                None => Err(ParseError::NoAuthority),
                Some(authority) => {
                    let port = match authority.port {
                        Some(port) => port,
                        None => String::from_str("80"),
                    };
                    Ok(
                        Request {
                            method: String::from_str(method),
                            uri: String::from_str(target),
                            host: authority.host,
                            port,
                            path: found.path,
                        },
                    )
                },
            },
        }
    }

    /// Reads the request out of the bytes of the client's first read.
    pub fn parse(bytes: &[u8]) -> (result: Result<Request, ParseError>)
        ensures
            is_outcome(result, parsed(bytes@)),
    {
        let text = match text_of(bytes) {
            Some(text) => text,
            None => {
                return Err(ParseError::NotText);
            },
        };
        let (method, rest) = split_first_token(text);
        let (target, _) = split_first_token(rest);
        if method.unicode_len() == 0 {
            return Err(ParseError::NoMethod);
        }
        if target.unicode_len() == 0 {
            return Err(ParseError::NoTarget);
        }
        if target.as_bytes().len() > MAX_URI_BYTES {
            return Err(ParseError::BadUri);
        }
        let parts = split_uri(target);
        Request::assemble(method, target, parts)
    }

    /// The address to connect to: the host, a colon, the port.
    pub fn origin_address(&self) -> (address: String)
        ensures
            address@ == address_text(self@),
    {
        let mut address = self.host.clone();
        address.append(":");
        address.append(self.port.as_str());
        address
    }

    /// The bytes to send to the origin: the request line with the method and
    /// the path under HTTP/1.0, then `Host`, `User-Agent`, `Connection: close`
    /// and `Proxy-Connection: close`, then the blank line. No body follows.
    pub fn origin_request(&self) -> (bytes: Vec<u8>)
        ensures
            bytes@ == encode_utf8(origin_request_text(self@)),
    {
        let mut head = self.method.clone();
        head.append(" ");
        head.append(self.path.as_str());
        head.append(" HTTP/1.0\r\nHost: ");
        head.append(self.host.as_str());
        head.append(":");
        head.append(self.port.as_str());
        head.append(
            "\r\nUser-Agent: Mozilla/5.0 (X11; Linux x86_64; rv:10.0.3) Gecko/20120305 Firefox/10.0.3\r\nConnection: close\r\nProxy-Connection: close\r\n\r\n",
        );
        head.as_str().as_bytes_vec()
    }
}

} // verus!
