//! Parsing a raw HTTP/1.1 request into its method, path, version, headers and
//! body.

use vstd::prelude::*;
use itertools::Itertools;
use vstd::string::StringSliceAdditionalSpecFns;
use crate::bytes::{
    copy_range, eq_bytes, find_from, find_from_exec, parse_decimal, parse_decimal_exec, split,
    split_exec, views,
};

verus! {

/// The request methods this server accepts.
#[derive(Clone, Copy, Debug, PartialEq, Eq, Structural)]
pub enum HttpMethod {
    GET,
    POST,
}

/// Why a request could not be parsed.
#[derive(Clone, Copy, Debug, PartialEq, Eq, Structural)]
pub enum ParseError {
    /// The first line is not three tokens separated by single spaces.
    InvalidRequestLine,
    /// The method token is neither `GET` nor `POST`.
    UnsupportedMethod,
    /// Bytes follow the header block but no `Content-Length` header was given.
    MissingContentLength,
    /// The `Content-Length` header is not a non-negative decimal integer.
    InvalidContentLength,
    /// Fewer bytes follow the header block than `Content-Length` declares.
    IncompleteBody,
}

/// A parsed request. Header names are kept as written, in the order they came;
/// when a name repeats, the last value wins on lookup.
pub struct HttpRequest {
    pub method: HttpMethod,
    pub path: Vec<u8>,
    pub version: Vec<u8>,
    pub headers: Vec<(Vec<u8>, Vec<u8>)>,
    pub body: Option<Vec<u8>>,
}

/// The mathematical content of an `HttpRequest`.
pub struct RequestView {
    pub method: HttpMethod,
    pub path: Seq<u8>,
    pub version: Seq<u8>,
    pub headers: Seq<(Seq<u8>, Seq<u8>)>,
    pub body: Option<Seq<u8>>,
}

pub open spec fn header_views(h: Seq<(Vec<u8>, Vec<u8>)>) -> Seq<(Seq<u8>, Seq<u8>)> {
    h.map_values(|p: (Vec<u8>, Vec<u8>)| (p.0@, p.1@))
}

pub open spec fn opt_view(b: Option<Vec<u8>>) -> Option<Seq<u8>> {
    match b {
        Some(v) => Some(v@),
        None => None,
    }
}

impl View for HttpRequest {
    type V = RequestView;

    open spec fn view(&self) -> RequestView {
        RequestView {
            method: self.method,
            path: self.path@,
            version: self.version@,
            headers: header_views(self.headers@),
            body: opt_view(self.body),
        }
    }
}

/// Carriage return and line feed.
pub open spec fn crlf() -> Seq<u8> {
    seq![13u8, 10u8]
}

/// The blank line that ends the header block, with the line end before it.
pub open spec fn header_end() -> Seq<u8> {
    seq![13u8, 10u8, 13u8, 10u8]
}

/// The separator between a header's name and its value.
pub open spec fn colon_space() -> Seq<u8> {
    seq![58u8, 32u8]
}

/// `Content-Length`
pub open spec fn content_length_name() -> Seq<u8> {
    seq![67u8, 111u8, 110u8, 116u8, 101u8, 110u8, 116u8, 45u8, 76u8, 101u8, 110u8, 103u8, 116u8, 104u8]
}

/// `GET`
pub open spec fn get_token() -> Seq<u8> {
    seq![71u8, 69u8, 84u8]
}

/// `POST`
pub open spec fn post_token() -> Seq<u8> {
    seq![80u8, 79u8, 83u8, 84u8]
}

/// The request line and header lines: everything before the first blank line.
pub open spec fn head_of(raw: Seq<u8>) -> Seq<u8> {
    match find_from(raw, header_end(), 0) {
        Some(i) => raw.subrange(0, i),
        None => raw,
    }
}

/// Everything after the first blank line; empty when there is none.
pub open spec fn rest_of(raw: Seq<u8>) -> Seq<u8> {
    match find_from(raw, header_end(), 0) {
        Some(i) => raw.subrange(i + 4, raw.len() as int),
        None => Seq::empty(),
    }
}

/// The lines of the head; the first is the request line.
pub open spec fn head_lines(raw: Seq<u8>) -> Seq<Seq<u8>> {
    split(head_of(raw), crlf())
}

/// The request line's tokens, separated by single spaces.
pub open spec fn request_tokens(raw: Seq<u8>) -> Seq<Seq<u8>> {
    split(head_lines(raw)[0], seq![32u8])
}

pub open spec fn method_of(t: Seq<u8>) -> Option<HttpMethod> {
    if t == get_token() {
        Some(HttpMethod::GET)
    } else if t == post_token() {
        Some(HttpMethod::POST)
    } else {
        None
    }
}

/// A header line split at the first `": "`; a line without it is no header.
pub open spec fn header_of(line: Seq<u8>) -> Option<(Seq<u8>, Seq<u8>)> {
    match find_from(line, colon_space(), 0) {
        Some(i) => Some((line.subrange(0, i), line.subrange(i + 2, line.len() as int))),
        None => None,
    }
}

/// The headers of the given lines, in order, skipping lines that are no header.
pub open spec fn headers_of(lines: Seq<Seq<u8>>) -> Seq<(Seq<u8>, Seq<u8>)>
    decreases lines.len(),
{
    if lines.len() == 0 {
        Seq::empty()
    } else {
        let init = headers_of(lines.drop_last());
        match header_of(lines.last()) {
            Some(h) => init.push(h),
            None => init,
        }
    }
}

/// The value of the last header named exactly `name`.
pub open spec fn lookup(headers: Seq<(Seq<u8>, Seq<u8>)>, name: Seq<u8>) -> Option<Seq<u8>>
    decreases headers.len(),
{
    if headers.len() == 0 {
        None
    } else if headers.last().0 == name {
        Some(headers.last().1)
    } else {
        lookup(headers.drop_last(), name)
    }
}

/// The headers of a raw request: those of every line after the request line.
pub open spec fn request_headers(raw: Seq<u8>) -> Seq<(Seq<u8>, Seq<u8>)> {
    headers_of(head_lines(raw).drop_first())
}

/// The body of a raw request with the given headers: absent when nothing
/// follows the header block, otherwise exactly the first `Content-Length`
/// bytes of what follows.
pub open spec fn body_of(rest: Seq<u8>, headers: Seq<(Seq<u8>, Seq<u8>)>) -> Result<
    Option<Seq<u8>>,
    ParseError,
> {
    if rest.len() == 0 {
        Ok(None)
    } else {
        match lookup(headers, content_length_name()) {
            None => Err(ParseError::MissingContentLength),
            Some(v) => match parse_decimal(v) {
                None => Err(ParseError::InvalidContentLength),
                Some(n) => if n > rest.len() {
                    Err(ParseError::IncompleteBody)
                } else {
                    Ok(Some(rest.subrange(0, n as int)))
                },
            },
        }
    }
}

/// What a raw request parses to.
pub open spec fn parse_request(raw: Seq<u8>) -> Result<RequestView, ParseError> {
    let t = request_tokens(raw);
    if t.len() != 3 {
        Err(ParseError::InvalidRequestLine)
    } else if method_of(t[0]) is None {
        Err(ParseError::UnsupportedMethod)
    } else {
        match body_of(rest_of(raw), request_headers(raw)) {
            Err(e) => Err(e),
            Ok(body) => Ok(
                RequestView {
                    method: method_of(t[0])->0,
                    path: t[1],
                    version: t[2],
                    headers: request_headers(raw),
                    body,
                },
            ),
        }
    }
}

/// Relies on itertools' `Itertools::collect_tuple`: it yields the first three
/// items, in order, when the iterator has exactly three, and `None` otherwise.
#[verifier::external_body]
fn collect_three(parts: Vec<Vec<u8>>) -> (r: Option<(Vec<u8>, Vec<u8>, Vec<u8>)>)
    ensures
        match r {
            Some(t) => parts@.len() == 3 && t.0@ == parts@[0]@ && t.1@ == parts@[1]@ && t.2@
                == parts@[2]@,
            None => parts@.len() != 3,
        },
{
    parts.into_iter().collect_tuple()
}

/// Recognises the method token.
pub fn parse_method(t: &[u8]) -> (r: Option<HttpMethod>)
    ensures
        r == method_of(t@),
{
    let get: [u8; 3] = [71, 69, 84];
    let post: [u8; 4] = [80, 79, 83, 84];
    assert(get@ =~= get_token());
    assert(post@ =~= post_token());
    if eq_bytes(t, &get) {
        Some(HttpMethod::GET)
    } else if eq_bytes(t, &post) {
        Some(HttpMethod::POST)
    } else {
        None
    }
}

/// The header of one line, split at the first `": "`.
fn parse_header_line(line: &[u8]) -> (r: Option<(Vec<u8>, Vec<u8>)>)
    ensures
        match r {
            Some(h) => header_of(line@) == Some((h.0@, h.1@)),
            None => header_of(line@) is None,
        },
{
    let sep: [u8; 2] = [58, 32];
    assert(sep@ =~= colon_space());
    let n = line.len();
    match find_from_exec(line, &sep, 0) {
        Some(i) => Some((copy_range(line, 0, i), copy_range(line, i + 2, n))),
        None => None,
    }
}

/// The headers of `lines[1..]`, in order.
fn parse_headers(lines: &Vec<Vec<u8>>) -> (r: Vec<(Vec<u8>, Vec<u8>)>)
    requires
        lines@.len() > 0,
    ensures
        header_views(r@) == headers_of(views(lines@).drop_first()),
{
    let mut headers: Vec<(Vec<u8>, Vec<u8>)> = Vec::new();
    let mut k: usize = 1;
    assert(views(lines@).subrange(1, 1) =~= Seq::<Seq<u8>>::empty());
    assert(header_views(headers@) =~= Seq::<(Seq<u8>, Seq<u8>)>::empty());
    while k < lines.len()
        invariant
            1 <= k <= lines@.len(),
            header_views(headers@) == headers_of(views(lines@).subrange(1, k as int)),
        decreases lines@.len() - k,
    {
        let ghost before = headers@;
        let ghost ls = views(lines@).subrange(1, k + 1);
        assert(ls.drop_last() =~= views(lines@).subrange(1, k as int));
        assert(ls.last() == lines@[k as int]@);
        match parse_header_line(lines[k].as_slice()) {
            Some(h) => {
                headers.push(h);
                assert(header_views(headers@) =~= header_views(before).push((h.0@, h.1@)));
            },
            None => {},
        }
        k = k + 1;
    }
    assert(views(lines@).subrange(1, lines@.len() as int) =~= views(lines@).drop_first());
    headers
}

/// The value of the last header named exactly `name`.
pub fn find_header<'a>(headers: &'a Vec<(Vec<u8>, Vec<u8>)>, name: &[u8]) -> (r: Option<&'a Vec<u8>>)
    ensures
        match r {
            Some(v) => lookup(header_views(headers@), name@) == Some(v@),
            None => lookup(header_views(headers@), name@) is None,
        },
{
    let ghost hv = header_views(headers@);
    let mut i: usize = headers.len();
    assert(hv.subrange(0, i as int) =~= hv);
    while i > 0
        invariant
            i <= headers@.len(),
            hv == header_views(headers@),
            lookup(hv, name@) == lookup(hv.subrange(0, i as int), name@),
        decreases i,
    {
        let h = &headers[i - 1];
        let ghost pre = hv.subrange(0, i as int);
        assert(pre.drop_last() =~= hv.subrange(0, i - 1));
        assert(pre.last() == (h.0@, h.1@));
        if eq_bytes(h.0.as_slice(), name) {
            return Some(&h.1);
        }
        i = i - 1;
    }
    None
}

/// The headers of a raw request, and where the bytes after its header block
/// begin (its length when the block does not end).
pub fn split_request(raw: &[u8]) -> (r: (Vec<Vec<u8>>, Vec<(Vec<u8>, Vec<u8>)>, usize))
    ensures
        r.0@.len() > 0,
        views(r.0@) == head_lines(raw@),
        header_views(r.1@) == request_headers(raw@),
        r.2 <= raw@.len(),
        raw@.subrange(r.2 as int, raw@.len() as int) == rest_of(raw@),
        find_from(raw@, header_end(), 0) is None ==> r.2 == raw@.len(),
{
    let end: [u8; 4] = [13, 10, 13, 10];
    let nl: [u8; 2] = [13, 10];
    assert(end@ =~= header_end());
    assert(nl@ =~= crlf());
    let n = raw.len();
    let (head_len, rest_start) = match find_from_exec(raw, &end, 0) {
        Some(i) => (i, i + 4),
        None => (n, n),
    };
    let head = vstd::slice::slice_subrange(raw, 0, head_len);
    assert(head@ =~= head_of(raw@));
    let lines = split_exec(head, &nl);
    let headers = parse_headers(&lines);
    assert(raw@.subrange(rest_start as int, n as int) =~= rest_of(raw@));
    (lines, headers, rest_start)
}

impl HttpRequest {
    /// The value of the last header named exactly `name`.
    pub fn header(&self, name: &[u8]) -> (r: Option<&Vec<u8>>)
        ensures
            match r {
                Some(v) => lookup(self@.headers, name@) == Some(v@),
                None => lookup(self@.headers, name@) is None,
            },
    {
        find_header(&self.headers, name)
    }

    /// Parses a request held in a string, by its UTF-8 bytes.
    pub fn from_request_str(buffer: &str) -> (r: Result<HttpRequest, ParseError>)
        ensures
            match r {
                Ok(req) => parse_request(buffer.spec_bytes()) == Ok::<RequestView, ParseError>(
                    req@,
                ),
                Err(e) => parse_request(buffer.spec_bytes()) == Err::<RequestView, ParseError>(e),
            },
    {
        HttpRequest::from_request_bytes(buffer.as_bytes())
    }

    /// Parses a raw request.
    pub fn from_request_bytes(raw: &[u8]) -> (r: Result<HttpRequest, ParseError>)
        ensures
            match r {
                Ok(req) => parse_request(raw@) == Ok::<RequestView, ParseError>(req@),
                Err(e) => parse_request(raw@) == Err::<RequestView, ParseError>(e),
            },
    {
        let sp: [u8; 1] = [32];
        assert(sp@ =~= seq![32u8]);
        let (lines, headers, rest_start) = split_request(raw);
        assert(lines@[0]@ == views(lines@)[0]);
        let tokens = split_exec(lines[0].as_slice(), &sp);
        let (m, path, version) = match collect_three(tokens) {
            Some(t) => t,
            None => {
                return Err(ParseError::InvalidRequestLine);
            },
        };
        assert(m@ == views(tokens@)[0]);
        let method = match parse_method(m.as_slice()) {
            Some(x) => x,
            None => {
                return Err(ParseError::UnsupportedMethod);
            },
        };
        let rest = vstd::slice::slice_subrange(raw, rest_start, raw.len());
        assert(rest@ =~= rest_of(raw@));
        let body = if rest.len() == 0 {
            None
        } else {
            let cl: [u8; 14] = [67, 111, 110, 116, 101, 110, 116, 45, 76, 101, 110, 103, 116, 104];
            assert(cl@ =~= content_length_name());
            let n = match find_header(&headers, &cl) {
                None => {
                    return Err(ParseError::MissingContentLength);
                },
                Some(v) => match parse_decimal_exec(v.as_slice()) {
                    None => {
                        return Err(ParseError::InvalidContentLength);
                    },
                    Some(n) => n,
                },
            };
            if n > rest.len() {
                return Err(ParseError::IncompleteBody);
            }
            let b = copy_range(rest, 0, n);
            return Ok(HttpRequest { method, path, version, headers, body: Some(b) });
        };
        Ok(HttpRequest { method, path, version, headers, body })
    }
}

} // verus!
