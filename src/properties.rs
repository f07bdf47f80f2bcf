//! Properties that relate the parser, the router and the response writer.

use vstd::prelude::*;
use crate::bytes::{decimal_digits, lemma_decimal_round_trip, parse_decimal};
use crate::request::{
    colon_space, content_length_name, parse_request, request_tokens, HttpMethod, ParseError,
    RequestView,
};
use crate::response::{
    content_length_label, head_terminator, leading_headers, serialize, status_line, ResponseView,
    Status,
};
use crate::route::{echo_prefix, files_prefix, has_prefix, root_path, safe_name, user_agent_prefix};
use crate::server::{empty_response, file_response, handle_of, plan_of, StepView};

verus! {

/// A body posted to `/files/x` is read back unchanged by `GET /files/x`: the
/// post is carried out as a write of exactly that body to `x`, the get as a
/// read of `x`, and a read that finds what was written is answered with that
/// body, whose `Content-Length` spells its length.
pub proof fn post_then_get_round_trip(
    post: RequestView,
    get: RequestView,
    dir: Seq<char>,
    store: Map<Seq<u8>, Seq<u8>>,
    b: Seq<u8>,
)
    requires
        post.method == HttpMethod::POST,
        get.method == HttpMethod::GET,
        post.path == get.path,
        has_prefix(post.path, files_prefix()),
        safe_name(post.path.subrange(7, post.path.len() as int)),
        post.body == Some(b),
        b.len() <= usize::MAX,
    ensures
        ({
            let name = post.path.subrange(7, post.path.len() as int);
            let stored = store.insert(name, b);
            &&& plan_of(post, Some(dir)) == StepView::WriteFile(dir, name, b)
            &&& plan_of(get, Some(dir)) == StepView::ReadFile(dir, name)
            &&& file_response(Some(stored[name])).body == b
            &&& parse_decimal(decimal_digits(file_response(Some(stored[name])).body.len())) == Some(
                b.len(),
            )
        }),
{
    let p = get.path;
    assert(p[1] == files_prefix()[1]);
    assert(p != root_path());
    assert(!has_prefix(p, echo_prefix())) by {
        if has_prefix(p, echo_prefix()) {
            assert(p[1] == echo_prefix()[1]);
        }
    }
    assert(!has_prefix(p, user_agent_prefix())) by {
        if has_prefix(p, user_agent_prefix()) {
            assert(p[1] == user_agent_prefix()[1]);
        }
    }
    lemma_decimal_round_trip(b.len());
}

/// A path that is not `/` and starts with none of `/echo/`, `/user-agent` and
/// `/files/` is answered with `404 Not Found`, whatever the method.
pub proof fn unknown_path_not_found(req: RequestView, dir: Option<Seq<char>>)
    requires
        req.path != root_path(),
        !has_prefix(req.path, echo_prefix()),
        !has_prefix(req.path, user_agent_prefix()),
        !has_prefix(req.path, files_prefix()),
    ensures
        plan_of(req, dir) == StepView::Reply(empty_response(Status::NotFound)),
{
}

/// A request whose first line is not three tokens separated by single spaces
/// fails to parse, and nothing is sent in reply.
pub proof fn malformed_request_line_abandoned(raw: Seq<u8>, dir: Option<Seq<char>>)
    requires
        request_tokens(raw).len() != 3,
    ensures
        parse_request(raw) == Err::<RequestView, ParseError>(ParseError::InvalidRequestLine),
        handle_of(raw, dir) == StepView::Abandon(ParseError::InvalidRequestLine),
{
}

/// Every response carries a `Content-Length` header, which the request parser's
/// own rules read back as exactly the length of the body that follows the
/// blank line.
pub proof fn content_length_matches_body(r: ResponseView)
    requires
        r.body.len() <= usize::MAX,
    ensures
        content_length_label() == content_length_name() + colon_space(),
        serialize(r) == status_line(r.status) + leading_headers(r.content_type)
            + content_length_label() + decimal_digits(r.body.len()) + head_terminator() + r.body,
        parse_decimal(decimal_digits(r.body.len())) == Some(r.body.len()),
{
    assert(content_length_label() =~= content_length_name() + colon_space());
    lemma_decimal_round_trip(r.body.len());
}

} // verus!
