//! Serializing a response: status line, `Content-Type` when the body has one,
//! `Content-Length` always, a blank line, then the body.

use vstd::prelude::*;
use crate::bytes::{decimal_digits, push_decimal};

verus! {

/// The statuses this server answers with.
#[derive(Clone, Copy, Debug, PartialEq, Eq, Structural)]
pub enum Status {
    /// `200 OK`
    Success,
    /// `201 Created`
    Created,
    /// `400 Bad Request`
    BadRequest,
    /// `403 Forbidden`
    Forbidden,
    /// `404 Not Found`
    NotFound,
    /// `500 Internal Server Error`
    InternalServerError,
}

/// The media types of the bodies this server sends.
#[derive(Clone, Copy, Debug, PartialEq, Eq, Structural)]
pub enum ContentType {
    /// `text/plain`
    TextPlain,
    /// `application/octet-stream`
    OctetStream,
}

/// A response. Its `Content-Length` is never stored: it is computed from the
/// body when the response is written.
pub struct Response {
    pub status: Status,
    pub content_type: Option<ContentType>,
    pub body: Vec<u8>,
}

/// The mathematical content of a `Response`.
pub struct ResponseView {
    pub status: Status,
    pub content_type: Option<ContentType>,
    pub body: Seq<u8>,
}

impl View for Response {
    type V = ResponseView;

    open spec fn view(&self) -> ResponseView {
        ResponseView { status: self.status, content_type: self.content_type, body: self.body@ }
    }
}

/// The status line, with its line end.
pub open spec fn status_line(s: Status) -> Seq<u8> {
    match s {
        Status::Success => seq![72u8, 84u8, 84u8, 80u8, 47u8, 49u8, 46u8, 49u8, 32u8, 50u8, 48u8, 48u8, 32u8, 79u8, 75u8, 13u8, 10u8],
        Status::Created => seq![72u8, 84u8, 84u8, 80u8, 47u8, 49u8, 46u8, 49u8, 32u8, 50u8, 48u8, 49u8, 32u8, 67u8, 114u8, 101u8, 97u8, 116u8, 101u8, 100u8, 13u8, 10u8],
        Status::BadRequest => seq![72u8, 84u8, 84u8, 80u8, 47u8, 49u8, 46u8, 49u8, 32u8, 52u8, 48u8, 48u8, 32u8, 66u8, 97u8, 100u8, 32u8, 82u8, 101u8, 113u8, 117u8, 101u8, 115u8, 116u8, 13u8, 10u8],
        Status::Forbidden => seq![72u8, 84u8, 84u8, 80u8, 47u8, 49u8, 46u8, 49u8, 32u8, 52u8, 48u8, 51u8, 32u8, 70u8, 111u8, 114u8, 98u8, 105u8, 100u8, 100u8, 101u8, 110u8, 13u8, 10u8],
        Status::NotFound => seq![72u8, 84u8, 84u8, 80u8, 47u8, 49u8, 46u8, 49u8, 32u8, 52u8, 48u8, 52u8, 32u8, 78u8, 111u8, 116u8, 32u8, 70u8, 111u8, 117u8, 110u8, 100u8, 13u8, 10u8],
        Status::InternalServerError => seq![72u8, 84u8, 84u8, 80u8, 47u8, 49u8, 46u8, 49u8, 32u8, 53u8, 48u8, 48u8, 32u8, 73u8, 110u8, 116u8, 101u8, 114u8, 110u8, 97u8, 108u8, 32u8, 83u8, 101u8, 114u8, 118u8, 101u8, 114u8, 32u8, 69u8, 114u8, 114u8, 111u8, 114u8, 13u8, 10u8],
    }
}

/// The `Content-Type` header line, with its line end.
pub open spec fn content_type_line(c: ContentType) -> Seq<u8> {
    match c {
        ContentType::TextPlain => seq![67u8, 111u8, 110u8, 116u8, 101u8, 110u8, 116u8, 45u8, 84u8, 121u8, 112u8, 101u8, 58u8, 32u8, 116u8, 101u8, 120u8, 116u8, 47u8, 112u8, 108u8, 97u8, 105u8, 110u8, 13u8, 10u8],
        ContentType::OctetStream => seq![67u8, 111u8, 110u8, 116u8, 101u8, 110u8, 116u8, 45u8, 84u8, 121u8, 112u8, 101u8, 58u8, 32u8, 97u8, 112u8, 112u8, 108u8, 105u8, 99u8, 97u8, 116u8, 105u8, 111u8, 110u8, 47u8, 111u8, 99u8, 116u8, 101u8, 116u8, 45u8, 115u8, 116u8, 114u8, 101u8, 97u8, 109u8, 13u8, 10u8],
    }
}

/// `Content-Length: `
pub open spec fn content_length_label() -> Seq<u8> {
    seq![67u8, 111u8, 110u8, 116u8, 101u8, 110u8, 116u8, 45u8, 76u8, 101u8, 110u8, 103u8, 116u8, 104u8, 58u8, 32u8]
}

/// The line end of the last header and the blank line after it.
pub open spec fn head_terminator() -> Seq<u8> {
    seq![13u8, 10u8, 13u8, 10u8]
}

/// The header lines before `Content-Length`.
pub open spec fn leading_headers(c: Option<ContentType>) -> Seq<u8> {
    match c {
        Some(t) => content_type_line(t),
        None => Seq::empty(),
    }
}

/// The bytes of a response on the wire.
pub open spec fn serialize(r: ResponseView) -> Seq<u8> {
    status_line(r.status) + leading_headers(r.content_type) + content_length_label()
        + decimal_digits(r.body.len()) + head_terminator() + r.body
}

/// Appends `s` to `out`.
pub fn push_bytes(out: &mut Vec<u8>, s: &[u8])
    ensures
        final(out)@ == old(out)@ + s@,
{
    let ghost start = out@;
    let mut i: usize = 0;
    while i < s.len()
        invariant
            i <= s@.len(),
            out@ == start + s@.subrange(0, i as int),
        decreases s@.len() - i,
    {
        out.push(s[i]);
        i = i + 1;
        assert(out@ =~= start + s@.subrange(0, i as int));
    }
    assert(s@.subrange(0, s@.len() as int) =~= s@);
}

/// Appends the status line of `s`.
fn push_status_line(out: &mut Vec<u8>, s: Status)
    ensures
        final(out)@ == old(out)@ + status_line(s),
{
    match s {
        Status::Success => {
            let a: [u8; 17] = [72, 84, 84, 80, 47, 49, 46, 49, 32, 50, 48, 48, 32, 79, 75, 13, 10];
            assert(a@ =~= status_line(s));
            push_bytes(out, &a);
        },
        Status::Created => {
            let a: [u8; 22] = [72, 84, 84, 80, 47, 49, 46, 49, 32, 50, 48, 49, 32, 67, 114, 101, 97, 116, 101, 100, 13, 10];
            assert(a@ =~= status_line(s));
            push_bytes(out, &a);
        },
        Status::BadRequest => {
            let a: [u8; 26] = [72, 84, 84, 80, 47, 49, 46, 49, 32, 52, 48, 48, 32, 66, 97, 100, 32, 82, 101, 113, 117, 101, 115, 116, 13, 10];
            assert(a@ =~= status_line(s));
            push_bytes(out, &a);
        },
        Status::Forbidden => {
            let a: [u8; 24] = [72, 84, 84, 80, 47, 49, 46, 49, 32, 52, 48, 51, 32, 70, 111, 114, 98, 105, 100, 100, 101, 110, 13, 10];
            assert(a@ =~= status_line(s));
            push_bytes(out, &a);
        },
        Status::NotFound => {
            let a: [u8; 24] = [72, 84, 84, 80, 47, 49, 46, 49, 32, 52, 48, 52, 32, 78, 111, 116, 32, 70, 111, 117, 110, 100, 13, 10];
            assert(a@ =~= status_line(s));
            push_bytes(out, &a);
        },
        Status::InternalServerError => {
            let a: [u8; 36] = [72, 84, 84, 80, 47, 49, 46, 49, 32, 53, 48, 48, 32, 73, 110, 116, 101, 114, 110, 97, 108, 32, 83, 101, 114, 118, 101, 114, 32, 69, 114, 114, 111, 114, 13, 10];
            assert(a@ =~= status_line(s));
            push_bytes(out, &a);
        },
    }
}

/// Appends the `Content-Type` line of `c`.
fn push_content_type_line(out: &mut Vec<u8>, c: ContentType)
    ensures
        final(out)@ == old(out)@ + content_type_line(c),
{
    match c {
        ContentType::TextPlain => {
            let a: [u8; 26] = [67, 111, 110, 116, 101, 110, 116, 45, 84, 121, 112, 101, 58, 32, 116, 101, 120, 116, 47, 112, 108, 97, 105, 110, 13, 10];
            assert(a@ =~= content_type_line(c));
            push_bytes(out, &a);
        },
        ContentType::OctetStream => {
            let a: [u8; 40] = [67, 111, 110, 116, 101, 110, 116, 45, 84, 121, 112, 101, 58, 32, 97, 112, 112, 108, 105, 99, 97, 116, 105, 111, 110, 47, 111, 99, 116, 101, 116, 45, 115, 116, 114, 101, 97, 109, 13, 10];
            assert(a@ =~= content_type_line(c));
            push_bytes(out, &a);
        },
    }
}

impl Response {
    /// The bytes of this response on the wire.
    pub fn to_bytes(&self) -> (r: Vec<u8>)
        ensures
            r@ == serialize(self@),
    {
        let mut out: Vec<u8> = Vec::new();
        push_status_line(&mut out, self.status);
        match self.content_type {
            Some(c) => push_content_type_line(&mut out, c),
            None => {},
        }
        let label: [u8; 16] = [67, 111, 110, 116, 101, 110, 116, 45, 76, 101, 110, 103, 116, 104, 58, 32];
        assert(label@ =~= content_length_label());
        push_bytes(&mut out, &label);
        push_decimal(self.body.len(), &mut out);
        let end: [u8; 4] = [13, 10, 13, 10];
        assert(end@ =~= head_terminator());
        push_bytes(&mut out, &end);
        push_bytes(&mut out, self.body.as_slice());
        assert(out@ =~= serialize(self@));
        out
    }
}

} // verus!
