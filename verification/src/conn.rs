//! The connection handler as a state machine: a pure step function
//! from state and event to next state and action. The surrounding
//! program performs each action (read a line, read body bytes,
//! resolve a path, write bytes) and feeds the outcome back as the
//! next event; every decision is made here.

use vstd::prelude::*;
use crate::bytes::all_digits;
use crate::bytes::dec_val;
use crate::bytes::subvec;
use crate::request::Header;
use crate::request::Request;
use crate::request::RequestM;
use crate::request::headers_map;
use crate::request::hview;
use crate::request::unique_names;
use crate::request::insert_header;
use crate::request::find_header;
use crate::parse::spec_parse_request_line;
use crate::parse::spec_parse_header;
use crate::parse::parse_request_line;
use crate::parse::parse_header_line;
use crate::parse::is_blank_line;
use crate::parse::content_length_name;
use crate::response::Status;
use crate::response::HttpError;
use crate::response::spec_classify;
use crate::response::classify;
use crate::response::spec_response;
use crate::response::serialize_response;
use crate::response::crlf;

verus! {

/// "/index.html" — the default resource a bare "/" is mapped to.
pub open spec fn index_html() -> Seq<u8> {
    seq![47u8, 105u8, 110u8, 100u8, 101u8, 120u8, 46u8, 104u8, 116u8, 109u8, 108u8]
}

/// The path handed to the content resolver: "/" becomes the default
/// resource, every other path is passed through unchanged.
pub open spec fn spec_map_path(p: Seq<u8>) -> Seq<u8> {
    if p == seq![47u8] {
        index_html()
    } else {
        p
    }
}

/// Map "/" to the default resource name; leave other paths alone.
pub fn map_default_path(p: &Vec<u8>) -> (r: Vec<u8>)
    ensures
        r@ == spec_map_path(p@),
{
    if p.len() == 1 && p[0] == 47 {
        proof {
            assert(p@ =~= seq![47u8]);
        }
        let mut out: Vec<u8> = Vec::new();
        out.push(47);
        out.push(105);
        out.push(110);
        out.push(100);
        out.push(101);
        out.push(120);
        out.push(46);
        out.push(104);
        out.push(116);
        out.push(109);
        out.push(108);
        proof {
            assert(out@ =~= index_html());
        }
        out
    } else {
        proof {
            if p@ == seq![47u8] {
                assert(p@.len() == 1 && p@[0] == 47);
            }
            assert(p@.subrange(0, p@.len() as int) =~= p@);
        }
        subvec(p, 0, p.len())
    }
}

/// "Content-Length" as a byte vector.
pub fn content_length_name_vec() -> (r: Vec<u8>)
    ensures
        r@ == content_length_name(),
{
    let mut out: Vec<u8> = Vec::new();
    out.push(67);
    out.push(111);
    out.push(110);
    out.push(116);
    out.push(101);
    out.push(110);
    out.push(116);
    out.push(45);
    out.push(76);
    out.push(101);
    out.push(110);
    out.push(103);
    out.push(116);
    out.push(104);
    proof {
        assert(out@ =~= content_length_name());
    }
    out
}

/// The connection handler's state.
pub enum Conn {
    /// Awaiting a request line (or the peer's clean close).
    AwaitRequestLine,
    /// Request line parsed; reading header lines.
    InHeaders { method: Vec<u8>, path: Vec<u8>, version: Vec<u8>, header: Vec<Header> },
    /// Header block done; awaiting exactly `need` body bytes.
    AwaitBody {
        method: Vec<u8>,
        path: Vec<u8>,
        version: Vec<u8>,
        header: Vec<Header>,
        need: usize,
    },
    /// Request complete; awaiting the content resolver's answer.
    AwaitContent { request: Request },
    /// Terminal: the connection is (to be) closed.
    Closed,
}

/// Mathematical image of `Conn`.
pub enum ConnM {
    AwaitRequestLine,
    InHeaders {
        method: Seq<u8>,
        path: Seq<u8>,
        version: Seq<u8>,
        headers: Map<Seq<u8>, Seq<u8>>,
    },
    AwaitBody {
        method: Seq<u8>,
        path: Seq<u8>,
        version: Seq<u8>,
        headers: Map<Seq<u8>, Seq<u8>>,
        need: nat,
    },
    AwaitContent { request: RequestM },
    Closed,
}

impl View for Conn {
    type V = ConnM;

    open spec fn view(&self) -> ConnM {
        match self {
            Conn::AwaitRequestLine => ConnM::AwaitRequestLine,
            Conn::InHeaders { method, path, version, header } => ConnM::InHeaders {
                method: method@,
                path: path@,
                version: version@,
                headers: headers_map(hview(header@)),
            },
            Conn::AwaitBody { method, path, version, header, need } => ConnM::AwaitBody {
                method: method@,
                path: path@,
                version: version@,
                headers: headers_map(hview(header@)),
                need: *need as nat,
            },
            Conn::AwaitContent { request } => ConnM::AwaitContent { request: request@ },
            Conn::Closed => ConnM::Closed,
        }
    }
}

impl Conn {
    /// Header names stay unique in every state that carries headers.
    pub open spec fn wf(&self) -> bool {
        match self {
            Conn::InHeaders { header, .. } => unique_names(hview(header@)),
            Conn::AwaitBody { header, .. } => unique_names(hview(header@)),
            Conn::AwaitContent { request } => request.wf(),
            _ => true,
        }
    }
}

/// What the transport or the content resolver reports.
pub enum Event {
    /// One line arrived, terminator included (a line cut short by the
    /// stream's end carries no terminator and is malformed).
    Line(Vec<u8>),
    /// Zero bytes were read: the peer closed the stream.
    Eof,
    /// Exactly the requested body bytes.
    Body(Vec<u8>),
    /// The resolver found the resource.
    Content(Vec<u8>),
    /// The resolver reports the resource absent.
    Missing,
    /// The resolver failed after lookup (e.g. while reading).
    ResolveFault,
    /// A transport-level read failure.
    IoFault,
}

/// Mathematical image of `Event`.
pub enum EventM {
    Line(Seq<u8>),
    Eof,
    Body(Seq<u8>),
    Content(Seq<u8>),
    Missing,
    ResolveFault,
    IoFault,
}

impl View for Event {
    type V = EventM;

    open spec fn view(&self) -> EventM {
        match self {
            Event::Line(l) => EventM::Line(l@),
            Event::Eof => EventM::Eof,
            Event::Body(b) => EventM::Body(b@),
            Event::Content(b) => EventM::Content(b@),
            Event::Missing => EventM::Missing,
            Event::ResolveFault => EventM::ResolveFault,
            Event::IoFault => EventM::IoFault,
        }
    }
}

/// What the surrounding program must do next.
pub enum Action {
    /// Read the next line.
    ReadLine,
    /// Read exactly this many body bytes.
    ReadBody(usize),
    /// Ask the content resolver for this (already mapped) path.
    Resolve(Vec<u8>),
    /// Write these bytes, keep the connection, read the next line.
    WriteThenRead(Vec<u8>),
    /// Write these bytes, then close the connection.
    WriteThenClose(Vec<u8>),
    /// Close the connection without writing anything.
    CloseNow,
}

/// Mathematical image of `Action`.
pub enum ActionM {
    ReadLine,
    ReadBody(nat),
    Resolve(Seq<u8>),
    WriteThenRead(Seq<u8>),
    WriteThenClose(Seq<u8>),
    CloseNow,
}

impl View for Action {
    type V = ActionM;

    open spec fn view(&self) -> ActionM {
        match self {
            Action::ReadLine => ActionM::ReadLine,
            Action::ReadBody(n) => ActionM::ReadBody(*n as nat),
            Action::Resolve(p) => ActionM::Resolve(p@),
            Action::WriteThenRead(b) => ActionM::WriteThenRead(b@),
            Action::WriteThenClose(b) => ActionM::WriteThenClose(b@),
            Action::CloseNow => ActionM::CloseNow,
        }
    }
}

/// The complete transition relation of the connection handler.
///
/// A stray blank line before a request is skipped. A malformed
/// request or header line is answered with 400 and the connection
/// closes. End of stream before any request line is a clean close
/// with no response. An unusable `Content-Length` (not a non-empty
/// digit string whose value fits the machine word), a short body,
/// and a transport failure are fatal: the connection closes with no
/// response. A resolved request is answered with 200 and the
/// connection is kept for the next request; a missing resource is
/// answered with 404, a resolver failure with 500, and after either
/// the connection closes.
pub open spec fn step_m(s: ConnM, e: EventM) -> (ConnM, ActionM) {
    match (s, e) {
        (ConnM::AwaitRequestLine, EventM::Line(l)) => {
            if l == crlf() {
                (ConnM::AwaitRequestLine, ActionM::ReadLine)
            } else {
                match spec_parse_request_line(l) {
                    Some(rl) => (
                        ConnM::InHeaders {
                            method: rl.method,
                            path: rl.path,
                            version: rl.version,
                            headers: Map::empty(),
                        },
                        ActionM::ReadLine,
                    ),
                    None => (
                        ConnM::Closed,
                        ActionM::WriteThenClose(
                            spec_response(
                                spec_classify(Some(HttpError::BadRequest)),
                                None,
                                Seq::empty(),
                            ),
                        ),
                    ),
                }
            }
        },
        (ConnM::AwaitRequestLine, EventM::Eof) => (ConnM::Closed, ActionM::CloseNow),
        (ConnM::InHeaders { method, path, version, headers }, EventM::Line(l)) => {
            if l == crlf() {
                if !headers.contains_key(content_length_name()) {
                    (
                        ConnM::AwaitContent {
                            request: RequestM { method, path, version, headers, body: Seq::empty() },
                        },
                        ActionM::Resolve(spec_map_path(path)),
                    )
                } else {
                    let val = headers[content_length_name()];
                    if val.len() > 0 && all_digits(val) && dec_val(val) <= usize::MAX {
                        (
                            ConnM::AwaitBody { method, path, version, headers, need: dec_val(val) },
                            ActionM::ReadBody(dec_val(val)),
                        )
                    } else {
                        (ConnM::Closed, ActionM::CloseNow)
                    }
                }
            } else {
                match spec_parse_header(l) {
                    Some(h) => (
                        ConnM::InHeaders {
                            method,
                            path,
                            version,
                            headers: headers.insert(h.name, h.value),
                        },
                        ActionM::ReadLine,
                    ),
                    None => (
                        ConnM::Closed,
                        ActionM::WriteThenClose(
                            spec_response(
                                spec_classify(Some(HttpError::BadRequest)),
                                None,
                                Seq::empty(),
                            ),
                        ),
                    ),
                }
            }
        },
        (ConnM::InHeaders { .. }, EventM::Eof) => (
            ConnM::Closed,
            ActionM::WriteThenClose(
                spec_response(spec_classify(Some(HttpError::BadRequest)), None, Seq::empty()),
            ),
        ),
        (ConnM::AwaitBody { method, path, version, headers, need }, EventM::Body(b)) => {
            if b.len() == need {
                (
                    ConnM::AwaitContent {
                        request: RequestM { method, path, version, headers, body: b },
                    },
                    ActionM::Resolve(spec_map_path(path)),
                )
            } else {
                (ConnM::Closed, ActionM::CloseNow)
            }
        },
        (ConnM::AwaitContent { .. }, EventM::Content(b)) => (
            ConnM::AwaitRequestLine,
            ActionM::WriteThenRead(spec_response(Status::Success, None, b)),
        ),
        (ConnM::AwaitContent { .. }, EventM::Missing) => (
            ConnM::Closed,
            ActionM::WriteThenClose(
                spec_response(spec_classify(Some(HttpError::NotFound)), None, Seq::empty()),
            ),
        ),
        (ConnM::AwaitContent { .. }, EventM::ResolveFault) => (
            ConnM::Closed,
            ActionM::WriteThenClose(spec_response(spec_classify(None), None, Seq::empty())),
        ),
        _ => (ConnM::Closed, ActionM::CloseNow),
    }
}

/// The initial state of a fresh connection, and what to do first.
pub fn conn_init() -> (r: (Conn, Action))
    ensures
        r.0 == Conn::AwaitRequestLine,
        r.1 == Action::ReadLine,
        r.0.wf(),
{
    (Conn::AwaitRequestLine, Action::ReadLine)
}

/// One step of the connection handler; the executable twin of
/// `step_m`, which its result equals exactly.
pub fn conn_step(state: Conn, event: Event) -> (r: (Conn, Action))
    requires
        state.wf(),
    ensures
        r.0.wf(),
        (r.0@, r.1@) == step_m(state@, event@),
{
    match (state, event) {
        (Conn::AwaitRequestLine, Event::Line(l)) => {
            if is_blank_line(&l) {
                (Conn::AwaitRequestLine, Action::ReadLine)
            } else {
                match parse_request_line(&l) {
                    Ok(rl) => {
                        let header: Vec<Header> = Vec::new();
                        proof {
                            assert(hview(header@) =~= Seq::<crate::request::HeaderM>::empty());
                        }
                        (
                            Conn::InHeaders {
                                method: rl.method,
                                path: rl.path,
                                version: rl.version,
                                header,
                            },
                            Action::ReadLine,
                        )
                    },
                    Err(e) => {
                        let empty_body: Vec<u8> = Vec::new();
                        let resp = serialize_response(&classify(Some(e)), None, &empty_body);
                        (Conn::Closed, Action::WriteThenClose(resp))
                    },
                }
            }
        },
        (Conn::AwaitRequestLine, Event::Eof) => (Conn::Closed, Action::CloseNow),
        (Conn::InHeaders { method, path, version, mut header }, Event::Line(l)) => {
            if is_blank_line(&l) {
                let cl_name = content_length_name_vec();
                match find_header(&header, &cl_name) {
                    None => {
                        let mapped = map_default_path(&path);
                        let request = Request {
                            method,
                            path,
                            version,
                            header,
                            body: Vec::new(),
                        };
                        (Conn::AwaitContent { request }, Action::Resolve(mapped))
                    },
                    Some(val) => {
                        match crate::bytes::parse_dec(&val) {
                            Some(need) => (
                                Conn::AwaitBody { method, path, version, header, need },
                                Action::ReadBody(need),
                            ),
                            None => (Conn::Closed, Action::CloseNow),
                        }
                    },
                }
            } else {
                match parse_header_line(&l) {
                    Ok(h) => {
                        insert_header(&mut header, h.name, h.value);
                        (
                            Conn::InHeaders { method, path, version, header },
                            Action::ReadLine,
                        )
                    },
                    Err(e) => {
                        let empty_body: Vec<u8> = Vec::new();
                        let resp = serialize_response(&classify(Some(e)), None, &empty_body);
                        (Conn::Closed, Action::WriteThenClose(resp))
                    },
                }
            }
        },
        (Conn::InHeaders { .. }, Event::Eof) => {
            let empty_body: Vec<u8> = Vec::new();
            let resp = serialize_response(
                &classify(Some(HttpError::BadRequest)),
                None,
                &empty_body,
            );
            (Conn::Closed, Action::WriteThenClose(resp))
        },
        (Conn::AwaitBody { method, path, version, header, need }, Event::Body(b)) => {
            if b.len() == need {
                let mapped = map_default_path(&path);
                let request = Request { method, path, version, header, body: b };
                (Conn::AwaitContent { request }, Action::Resolve(mapped))
            } else {
                (Conn::Closed, Action::CloseNow)
            }
        },
        (Conn::AwaitContent { .. }, Event::Content(b)) => {
            let resp = serialize_response(&Status::Success, None, &b);
            (Conn::AwaitRequestLine, Action::WriteThenRead(resp))
        },
        (Conn::AwaitContent { .. }, Event::Missing) => {
            let empty_body: Vec<u8> = Vec::new();
            let resp = serialize_response(&classify(Some(HttpError::NotFound)), None, &empty_body);
            (Conn::Closed, Action::WriteThenClose(resp))
        },
        (Conn::AwaitContent { .. }, Event::ResolveFault) => {
            let empty_body: Vec<u8> = Vec::new();
            let resp = serialize_response(&classify(None), None, &empty_body);
            (Conn::Closed, Action::WriteThenClose(resp))
        },
        _ => (Conn::Closed, Action::CloseNow),
    }
}

} // verus!
