//! Responses: the status set the server can emit, the error
//! classifier, and wire serialization of a response.

use vstd::prelude::*;
use crate::bytes::SP;
use crate::bytes::CR;
use crate::bytes::LF;
use crate::bytes::spec_dec;
use crate::bytes::push_dec;

verus! {

/// The two protocol-level failures a request can be charged with.
#[derive(Clone, Copy, PartialEq, Eq, Structural, Debug)]
pub enum HttpError {
    /// The request line or a header line is malformed.
    BadRequest,
    /// The requested resource is absent.
    NotFound,
}

/// The full status set the server ever emits.
#[derive(Clone, Copy, PartialEq, Eq, Structural, Debug)]
pub enum Status {
    /// 200 OK
    Success,
    /// 400 Bad Request
    BadRequest,
    /// 404 Not Found
    NotFound,
    /// 500 Internal Server Error
    InternalServerError,
}

impl Status {
    /// The numeric status code.
    pub open spec fn spec_code(&self) -> nat {
        match self {
            Status::Success => 200,
            Status::BadRequest => 400,
            Status::NotFound => 404,
            Status::InternalServerError => 500,
        }
    }

    /// The reason phrase paired with the code.
    pub open spec fn spec_reason(&self) -> Seq<u8> {
        match self {
            Status::Success => seq![79u8, 75u8],
            Status::BadRequest => seq![66u8, 97u8, 100u8, 32u8, 82u8, 101u8, 113u8, 117u8, 101u8, 115u8, 116u8],
            Status::NotFound => seq![78u8, 111u8, 116u8, 32u8, 70u8, 111u8, 117u8, 110u8, 100u8],
            Status::InternalServerError => seq![73u8, 110u8, 116u8, 101u8, 114u8, 110u8, 97u8, 108u8, 32u8, 83u8, 101u8, 114u8, 118u8, 101u8, 114u8, 32u8, 69u8, 114u8, 114u8, 111u8, 114u8],
        }
    }

    /// The numeric status code.
    pub fn code(&self) -> (r: u16)
        ensures
            r as nat == self.spec_code(),
    {
        match self {
            Status::Success => 200,
            Status::BadRequest => 400,
            Status::NotFound => 404,
            Status::InternalServerError => 500,
        }
    }

    /// The reason phrase as bytes.
    pub fn reason(&self) -> (r: Vec<u8>)
        ensures
            r@ == self.spec_reason(),
    {
        let mut out: Vec<u8> = Vec::new();
        push_reason(&mut out, self);
        proof {
            assert(out@ =~= self.spec_reason());
        }
        out
    }
}

/// Where every failure reaching the connection handler lands: a
/// recognized protocol error keeps its own status, anything else
/// is charged as an internal error. The mapping is total.
pub open spec fn spec_classify(e: Option<HttpError>) -> Status {
    match e {
        Some(HttpError::BadRequest) => Status::BadRequest,
        Some(HttpError::NotFound) => Status::NotFound,
        None => Status::InternalServerError,
    }
}

/// Map a failure to the status answered for it; `None` stands for a
/// failure that is no protocol error.
pub fn classify(e: Option<HttpError>) -> (r: Status)
    ensures
        r == spec_classify(e),
{
    match e {
        Some(HttpError::BadRequest) => Status::BadRequest,
        Some(HttpError::NotFound) => Status::NotFound,
        None => Status::InternalServerError,
    }
}

/// "HTTP/1.1 " — the fixed prefix of every status line.
pub open spec fn status_line_prefix() -> Seq<u8> {
    seq![72u8, 84u8, 84u8, 80u8, 47u8, 49u8, 46u8, 49u8, 32u8]
}

/// "Content-Length: "
pub open spec fn content_length_prefix() -> Seq<u8> {
    seq![67u8, 111u8, 110u8, 116u8, 101u8, 110u8, 116u8, 45u8, 76u8, 101u8, 110u8, 103u8, 116u8, 104u8, 58u8, 32u8]
}

/// "Connection: "
pub open spec fn connection_prefix() -> Seq<u8> {
    seq![67u8, 111u8, 110u8, 110u8, 101u8, 99u8, 116u8, 105u8, 111u8, 110u8, 58u8, 32u8]
}

/// "\r\n"
pub open spec fn crlf() -> Seq<u8> {
    seq![13u8, 10u8]
}

/// The wire form of a response: status line, Content-Length header
/// equal to the exact body length, the Connection header the caller
/// supplied (if any), a blank line, then the body.
pub open spec fn spec_response(st: Status, conn: Option<Seq<u8>>, body: Seq<u8>) -> Seq<u8> {
    status_line_prefix() + spec_dec(st.spec_code()) + seq![32u8] + st.spec_reason() + crlf()
        + content_length_prefix() + spec_dec(body.len()) + crlf() + (match conn {
        Some(c) => connection_prefix() + c + crlf(),
        None => Seq::<u8>::empty(),
    }) + crlf() + body
}

/// The views of an optional borrowed header value.
pub open spec fn opt_view(c: Option<&Vec<u8>>) -> Option<Seq<u8>> {
    match c {
        Some(v) => Some(v@),
        None => None,
    }
}

/// Append a copy of `src` to `out`.
pub fn push_bytes(out: &mut Vec<u8>, src: &Vec<u8>)
    ensures
        final(out)@ == old(out)@ + src@,
{
    let mut i: usize = 0;
    while i < src.len()
        invariant
            0 <= i <= src@.len(),
            out@ == old(out)@ + src@.subrange(0, i as int),
        decreases src@.len() - i,
    {
        out.push(src[i]);
        proof {
            assert(old(out)@ + src@.subrange(0, i + 1 as int)
                =~= (old(out)@ + src@.subrange(0, i as int)).push(src@[i as int]));
        }
        i = i + 1;
    }
    proof {
        assert(src@.subrange(0, src@.len() as int) =~= src@);
    }
}

/// Append "\r\n".
pub fn push_crlf(out: &mut Vec<u8>)
    ensures
        final(out)@ == old(out)@ + crlf(),
{
    out.push(CR);
    out.push(LF);
    proof {
        assert(out@ =~= old(out)@ + crlf());
    }
}

/// Append "HTTP/1.1 ".
fn push_status_prefix(out: &mut Vec<u8>)
    ensures
        final(out)@ == old(out)@ + status_line_prefix(),
{
    out.push(72);
    out.push(84);
    out.push(84);
    out.push(80);
    out.push(47);
    out.push(49);
    out.push(46);
    out.push(49);
    out.push(32);
    proof {
        assert(out@ =~= old(out)@ + status_line_prefix());
    }
}

/// Append "Content-Length: ".
fn push_cl_prefix(out: &mut Vec<u8>)
    ensures
        final(out)@ == old(out)@ + content_length_prefix(),
{
    out.push(67);
    out.push(111);
    out.push(110);
    out.push(116);
    out.push(101);
    out.push(110);
    out.push(116);
    out.push(45);
    out.push(76);
    out.push(101);
    out.push(110);
    out.push(103);
    out.push(116);
    out.push(104);
    out.push(58);
    out.push(32);
    proof {
        assert(out@ =~= old(out)@ + content_length_prefix());
    }
}

/// Append "Connection: ".
fn push_conn_prefix(out: &mut Vec<u8>)
    ensures
        final(out)@ == old(out)@ + connection_prefix(),
{
    out.push(67);
    out.push(111);
    out.push(110);
    out.push(110);
    out.push(101);
    out.push(99);
    out.push(116);
    out.push(105);
    out.push(111);
    out.push(110);
    out.push(58);
    out.push(32);
    proof {
        assert(out@ =~= old(out)@ + connection_prefix());
    }
}

/// Append the reason phrase of `st`.
fn push_reason(out: &mut Vec<u8>, st: &Status)
    ensures
        final(out)@ == old(out)@ + st.spec_reason(),
{
    match st {
        Status::Success => {
            out.push(79);
            out.push(75);
        },
        Status::BadRequest => {
            out.push(66);
            out.push(97);
            out.push(100);
            out.push(32);
            out.push(82);
            out.push(101);
            out.push(113);
            out.push(117);
            out.push(101);
            out.push(115);
            out.push(116);
        },
        Status::NotFound => {
            out.push(78);
            out.push(111);
            out.push(116);
            out.push(32);
            out.push(70);
            out.push(111);
            out.push(117);
            out.push(110);
            out.push(100);
        },
        Status::InternalServerError => {
            out.push(73);
            out.push(110);
            out.push(116);
            out.push(101);
            out.push(114);
            out.push(110);
            out.push(97);
            out.push(108);
            out.push(32);
            out.push(83);
            out.push(101);
            out.push(114);
            out.push(118);
            out.push(101);
            out.push(114);
            out.push(32);
            out.push(69);
            out.push(114);
            out.push(114);
            out.push(111);
            out.push(114);
        },
    }
    proof {
        assert(out@ =~= old(out)@ + st.spec_reason());
    }
}

/// Serialize a response: status line, `Content-Length` equal to the
/// exact byte length of `body`, the `Connection` value the caller
/// supplies (this function does not decide keep-alive), a blank
/// line, then the raw body, as one contiguous byte vector.
pub fn serialize_response(status: &Status, connection: Option<&Vec<u8>>, body: &Vec<u8>) -> (r:
    Vec<u8>)
    ensures
        r@ == spec_response(*status, opt_view(connection), body@),
{
    let mut out: Vec<u8> = Vec::new();
    push_status_prefix(&mut out);
    push_dec(&mut out, status.code() as usize);
    out.push(SP);
    push_reason(&mut out, status);
    push_crlf(&mut out);
    push_cl_prefix(&mut out);
    push_dec(&mut out, body.len());
    push_crlf(&mut out);
    match connection {
        Some(c) => {
            push_conn_prefix(&mut out);
            push_bytes(&mut out, c);
            push_crlf(&mut out);
        },
        None => {},
    }
    push_crlf(&mut out);
    push_bytes(&mut out, body);
    proof {
        assert(out@ =~= spec_response(*status, opt_view(connection), body@));
    }
    out
}

} // verus!
