//! One exchange on a connection: reading until the request is complete,
//! parsing it, routing it, and deciding the response, with file access handed
//! to the caller as a step to perform.

use vstd::prelude::*;
use crate::bytes::{copy_range, find_from, find_from_exec, parse_decimal, parse_decimal_exec};
use crate::request::{
    content_length_name, find_header, header_end, lookup, parse_request, request_headers, rest_of,
    split_request, HttpRequest, ParseError, RequestView,
};
use crate::response::{ContentType, Response, ResponseView, Status};
use crate::route::{is_safe_name, route, route_of, safe_name, Route};

verus! {

/// The largest request, in bytes, that is read before giving up on it.
pub const MAX_REQUEST_BYTES: usize = 65536;

/// The server's configuration: set once at startup and only read afterwards.
pub struct Config {
    /// The directory under which `/files/` names are read and written.
    pub dir: Option<String>,
}

impl Config {
    pub fn new(dir: Option<String>) -> (r: Config)
        ensures
            r.dir == dir,
    {
        Config { dir }
    }
}

/// Whether the bytes read so far hold a whole request.
#[derive(Clone, Copy, Debug, PartialEq, Eq, Structural)]
pub enum ReadState {
    /// Read more bytes and ask again.
    NeedMore,
    /// Stop reading and handle the bytes read.
    Complete,
    /// Give up: the request is larger than `MAX_REQUEST_BYTES`.
    TooLarge,
}

/// The header block has ended, and so has the body if a usable
/// `Content-Length` declares one.
pub open spec fn request_complete(raw: Seq<u8>) -> bool {
    &&& find_from(raw, header_end(), 0) is Some
    &&& match lookup(request_headers(raw), content_length_name()) {
        Some(v) => match parse_decimal(v) {
            Some(n) => rest_of(raw).len() >= n,
            None => true,
        },
        None => true,
    }
}

pub open spec fn read_state_of(raw: Seq<u8>) -> ReadState {
    if request_complete(raw) {
        ReadState::Complete
    } else if raw.len() >= MAX_REQUEST_BYTES {
        ReadState::TooLarge
    } else {
        ReadState::NeedMore
    }
}

/// Decides, from the bytes read so far, whether to keep reading.
pub fn read_state(raw: &[u8]) -> (r: ReadState)
    ensures
        r == read_state_of(raw@),
{
    let (_lines, headers, rest_start) = split_request(raw);
    let end: [u8; 4] = [13, 10, 13, 10];
    assert(end@ =~= header_end());
    let ended = find_from_exec(raw, &end, 0).is_some();
    let mut complete = ended;
    if ended {
        let cl: [u8; 14] = [67, 111, 110, 116, 101, 110, 116, 45, 76, 101, 110, 103, 116, 104];
        assert(cl@ =~= content_length_name());
        match find_header(&headers, &cl) {
            Some(v) => match parse_decimal_exec(v.as_slice()) {
                Some(n) => {
                    complete = raw.len() - rest_start >= n;
                },
                None => {},
            },
            None => {},
        }
    }
    if complete {
        ReadState::Complete
    } else if raw.len() >= MAX_REQUEST_BYTES {
        ReadState::TooLarge
    } else {
        ReadState::NeedMore
    }
}

/// What the caller does next for this exchange.
pub enum Step {
    /// Send nothing and close: the request could not be parsed.
    Abandon(ParseError),
    /// Send this response and close.
    Reply(Response),
    /// Read file `name` under `dir`, then answer with `file_response`.
    ReadFile { dir: String, name: Vec<u8> },
    /// Write `data` to file `name` under `dir`, then answer with `write_response`.
    WriteFile { dir: String, name: Vec<u8>, data: Vec<u8> },
}

/// The mathematical content of a `Step`.
pub enum StepView {
    Abandon(ParseError),
    Reply(ResponseView),
    ReadFile(Seq<char>, Seq<u8>),
    WriteFile(Seq<char>, Seq<u8>, Seq<u8>),
}

impl View for Step {
    type V = StepView;

    open spec fn view(&self) -> StepView {
        match self {
            Step::Abandon(e) => StepView::Abandon(*e),
            Step::Reply(r) => StepView::Reply(r@),
            Step::ReadFile { dir, name } => StepView::ReadFile(dir@, name@),
            Step::WriteFile { dir, name, data } => StepView::WriteFile(dir@, name@, data@),
        }
    }
}

/// `User-Agent`
pub open spec fn user_agent_name() -> Seq<u8> {
    seq![85u8, 115u8, 101u8, 114u8, 45u8, 65u8, 103u8, 101u8, 110u8, 116u8]
}

/// A response with no body.
pub open spec fn empty_response(s: Status) -> ResponseView {
    ResponseView { status: s, content_type: None, body: Seq::empty() }
}

/// A `200 OK` plain-text response.
pub open spec fn text_response(b: Seq<u8>) -> ResponseView {
    ResponseView { status: Status::Success, content_type: Some(ContentType::TextPlain), body: b }
}

/// The answer to a file read: its bytes, or `404 Not Found` when it could not
/// be read.
pub open spec fn file_response(data: Option<Seq<u8>>) -> ResponseView {
    match data {
        Some(d) => ResponseView {
            status: Status::Success,
            content_type: Some(ContentType::OctetStream),
            body: d,
        },
        None => empty_response(Status::NotFound),
    }
}

/// The answer to a file write: `201 Created`, or `500` when it failed.
pub open spec fn write_response(ok: bool) -> ResponseView {
    if ok {
        empty_response(Status::Created)
    } else {
        empty_response(Status::InternalServerError)
    }
}

/// What to do for a parsed request, given the configured directory.
pub open spec fn plan_of(req: RequestView, dir: Option<Seq<char>>) -> StepView {
    let path = req.path;
    match route_of(req.method, path) {
        Route::Root => StepView::Reply(empty_response(Status::Success)),
        Route::Echo => StepView::Reply(text_response(path.subrange(6, path.len() as int))),
        Route::UserAgent => match lookup(req.headers, user_agent_name()) {
            Some(v) => StepView::Reply(text_response(v)),
            None => StepView::Reply(empty_response(Status::BadRequest)),
        },
        Route::GetFile => {
            let name = path.subrange(7, path.len() as int);
            match dir {
                None => StepView::Reply(empty_response(Status::InternalServerError)),
                Some(d) => if !safe_name(name) {
                    StepView::Reply(empty_response(Status::Forbidden))
                } else {
                    StepView::ReadFile(d, name)
                },
            }
        },
        Route::PostFile => {
            let name = path.subrange(7, path.len() as int);
            match dir {
                None => StepView::Reply(empty_response(Status::InternalServerError)),
                Some(d) => if !safe_name(name) {
                    StepView::Reply(empty_response(Status::Forbidden))
                } else {
                    match req.body {
                        None => StepView::Reply(empty_response(Status::BadRequest)),
                        Some(b) => StepView::WriteFile(d, name, b),
                    }
                },
            }
        },
        Route::NotFound => StepView::Reply(empty_response(Status::NotFound)),
    }
}

pub open spec fn dir_view(dir: Option<String>) -> Option<Seq<char>> {
    match dir {
        Some(d) => Some(d@),
        None => None,
    }
}

/// What to do for a raw request: nothing when it does not parse.
pub open spec fn handle_of(raw: Seq<u8>, dir: Option<Seq<char>>) -> StepView {
    match parse_request(raw) {
        Err(e) => StepView::Abandon(e),
        Ok(req) => plan_of(req, dir),
    }
}

fn empty(s: Status) -> (r: Response)
    ensures
        r@ == empty_response(s),
{
    Response { status: s, content_type: None, body: Vec::new() }
}

fn text(b: Vec<u8>) -> (r: Response)
    ensures
        r@ == text_response(b@),
{
    Response { status: Status::Success, content_type: Some(ContentType::TextPlain), body: b }
}

/// The response to a file read, given its bytes or `None` when it failed.
pub fn after_read(data: Option<Vec<u8>>) -> (r: Response)
    ensures
        r@ == file_response(
            match data {
                Some(d) => Some(d@),
                None => None,
            },
        ),
{
    match data {
        Some(d) => Response {
            status: Status::Success,
            content_type: Some(ContentType::OctetStream),
            body: d,
        },
        None => empty(Status::NotFound),
    }
}

/// The response to a file write, given whether it succeeded.
pub fn after_write(ok: bool) -> (r: Response)
    ensures
        r@ == write_response(ok),
{
    if ok {
        empty(Status::Created)
    } else {
        empty(Status::InternalServerError)
    }
}

impl Config {
    /// Decides what to do for a parsed request.
    pub fn plan(&self, req: &HttpRequest) -> (r: Step)
        ensures
            r@ == plan_of(req@, dir_view(self.dir)),
    {
        let path = req.path.as_slice();
        let n = path.len();
        match route(req.method, path) {
            Route::Root => Step::Reply(empty(Status::Success)),
            Route::Echo => Step::Reply(text(copy_range(path, 6, n))),
            Route::UserAgent => {
                let ua: [u8; 10] = [85, 115, 101, 114, 45, 65, 103, 101, 110, 116];
                assert(ua@ =~= user_agent_name());
                match find_header(&req.headers, &ua) {
                    Some(v) => Step::Reply(text(v.clone())),
                    None => Step::Reply(empty(Status::BadRequest)),
                }
            },
            Route::GetFile => {
                let name = copy_range(path, 7, n);
                match &self.dir {
                    None => Step::Reply(empty(Status::InternalServerError)),
                    Some(d) => if !is_safe_name(name.as_slice()) {
                        Step::Reply(empty(Status::Forbidden))
                    } else {
                        Step::ReadFile { dir: d.clone(), name }
                    },
                }
            },
            Route::PostFile => {
                let name = copy_range(path, 7, n);
                match &self.dir {
                    None => Step::Reply(empty(Status::InternalServerError)),
                    Some(d) => if !is_safe_name(name.as_slice()) {
                        Step::Reply(empty(Status::Forbidden))
                    } else {
                        match &req.body {
                            None => Step::Reply(empty(Status::BadRequest)),
                            Some(b) => Step::WriteFile { dir: d.clone(), name, data: b.clone() },
                        }
                    },
                }
            },
            Route::NotFound => Step::Reply(empty(Status::NotFound)),
        }
    }

    /// Decides what to do for a raw request.
    pub fn handle(&self, raw: &[u8]) -> (r: Step)
        ensures
            r@ == handle_of(raw@, dir_view(self.dir)),
    {
        match HttpRequest::from_request_bytes(raw) {
            Err(e) => Step::Abandon(e),
            Ok(req) => self.plan(&req),
        }
    }
}

} // verus!
