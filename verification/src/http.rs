//! Requests and responses as plain values.
use crate::text::{chars_of, first_piece, string_of};
use hyper::HeaderMap;
use vstd::prelude::*;

verus! {

broadcast use vstd::string::group_string_axioms;

/// A request method. Methods beyond those of the HTTP standard's common set are
/// `Other`.
#[derive(Debug, Clone, Copy, PartialEq, Eq, Structural)]
pub enum Method {
    Get,
    Post,
    Put,
    Delete,
    Patch,
    Head,
    Options,
    Connect,
    Other,
}

/// A version of HTTP.
#[derive(Debug, Clone, Copy, PartialEq, Eq, Structural)]
pub enum Version {
    Http09,
    Http10,
    Http11,
    Http2,
    Http3,
}

/// A request target: its path and query, as one text, and its host. A target that
/// names only an authority has no path and query.
#[derive(Debug, Clone)]
pub struct RequestUri {
    pub path_and_query: Option<String>,
    pub host: Option<String>,
}

/// The part of a target before its first question mark.
pub open spec fn before_query(target: Seq<char>) -> Seq<char> {
    crate::text::split(target, '?')[0]
}

impl RequestUri {
    /// The path and query as text; `/` where there is none.
    pub open spec fn target(self) -> Seq<char> {
        match self.path_and_query {
            Some(text) => text@,
            None => "/"@,
        }
    }

    /// The path: what stands before the query, `/` where that is nothing. A target
    /// without path and query has an empty path.
    pub open spec fn path(self) -> Seq<char> {
        match self.path_and_query {
            Some(text) => if before_query(text@).len() == 0 {
                "/"@
            } else {
                before_query(text@)
            },
            None => Seq::empty(),
        }
    }

    /// The query: what stands behind the first question mark, where there is one.
    pub open spec fn query(self) -> Option<Seq<char>> {
        match self.path_and_query {
            Some(text) => if text@.contains('?') {
                Some(text@.skip(before_query(text@).len() as int + 1))
            } else {
                None
            },
            None => None,
        }
    }

    /// The path and query as text; `/` where there is none.
    pub fn target_text(&self) -> (r: &str)
        ensures
            r@ == self.target(),
    {
        match &self.path_and_query {
            Some(text) => text.as_str(),
            None => "/",
        }
    }

    /// The path.
    pub fn path_text(&self) -> (r: String)
        ensures
            r@ == self.path(),
    {
        match &self.path_and_query {
            Some(text) => {
                let path = first_piece(chars_of(text.as_str()).as_slice(), '?');
                if path.len() == 0 {
                    "/".to_owned()
                } else {
                    string_of(path.as_slice())
                }
            },
            None => String::new(),
        }
    }

    /// The query, where there is one.
    pub fn query_text(&self) -> (r: Option<String>)
        ensures
            match self.query() {
                Some(query) => r matches Some(text) && text@ == query,
                None => r is None,
            },
    {
        match &self.path_and_query {
            Some(text) => {
                let chars = chars_of(text.as_str());
                let path_len: usize = first_piece(chars.as_slice(), '?').len();
                proof {
                    crate::text::first_piece_ends_at_separator(chars@, '?');
                }
                if path_len == chars.len() {
                    return None;
                }
                let mut query = String::new();
                let mut i: usize = path_len + 1;
                while i < chars.len()
                    invariant
                        path_len < i <= chars@.len(),
                        query@ == chars@.subrange(path_len + 1, i as int),
                    decreases chars@.len() - i,
                {
                    query.push(chars[i]);
                    i += 1;
                }
                assert(chars@.subrange(path_len + 1, i as int) == chars@.skip(path_len + 1));
                Some(query)
            },
            None => None,
        }
    }
}

/// A request without its body.
#[derive(Debug)]
pub struct RequestHead {
    pub method: Method,
    pub uri: RequestUri,
    pub version: Version,
    pub headers: HeaderMap,
}

/// A response without its body.
#[derive(Debug)]
pub struct Reply {
    pub status: u16,
    pub headers: HeaderMap,
}

/// Switching Protocols.
pub const SWITCHING_PROTOCOLS: u16 = 101;

/// Permanent Redirect.
pub const PERMANENT_REDIRECT: u16 = 308;

/// Bad Request.
pub const BAD_REQUEST: u16 = 400;

/// Forbidden.
pub const FORBIDDEN: u16 = 403;

/// Method Not Allowed.
pub const METHOD_NOT_ALLOWED: u16 = 405;

/// Payload Too Large.
pub const PAYLOAD_TOO_LARGE: u16 = 413;

/// URI Too Long.
pub const URI_TOO_LONG: u16 = 414;

/// Too Many Requests.
pub const TOO_MANY_REQUESTS: u16 = 429;

/// Internal Server Error.
pub const INTERNAL_SERVER_ERROR: u16 = 500;

/// Bad Gateway.
pub const BAD_GATEWAY: u16 = 502;

/// Gateway Timeout.
pub const GATEWAY_TIMEOUT: u16 = 504;

/// A target is a path, then a question mark and a query where there is one. The path ends
/// at the first question mark, and an empty one is `/`.
pub proof fn targets_are_paths_and_queries(uri: RequestUri, path: Seq<char>, query: Seq<char>)
    requires
        !path.contains('?'),
        uri.path_and_query matches Some(text) && (text@ == path + seq!['?'] + query || text@
            == path),
    ensures
        uri.path() == if path.len() == 0 {
            "/"@
        } else {
            path
        },
        uri.path_and_query->0@ == path + seq!['?'] + query ==> uri.query() == Some(query),
        uri.path_and_query->0@ == path ==> uri.query() is None,
        uri.target() == uri.path_and_query->0@,
{
    let text = uri.path_and_query->0@;
    if text == path + seq!['?'] + query {
        let n = path.len() as int;
        assert(text[n] == '?');
        assert(text.take(n) == path);
        crate::text::split_first_piece(text, '?', n);
        assert(text.skip(n + 1) == query);
    } else {
        crate::text::split_without_separator(text, '?');
    }
}

/// A target that names only an authority counts as `/` where it is inspected, and has
/// neither path nor query.
pub proof fn authorities_have_no_path(uri: RequestUri)
    requires
        uri.path_and_query is None,
    ensures
        uri.target() == "/"@,
        uri.path().len() == 0,
        uri.query() is None,
{
}

} // verus!
