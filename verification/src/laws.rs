//! The protocol-level laws of the connection handler, proved over
//! the transition relation `step_m`.

use vstd::prelude::*;
use crate::bytes::SP;
use crate::bytes::all_digits;
use crate::bytes::dec_val;
use crate::bytes::spec_dec;
use crate::bytes::space_count;
use crate::bytes::spec_find_byte;
use crate::bytes::lemma_find_byte;
use crate::bytes::lemma_space_count_from;
use crate::request::RequestM;
use crate::parse::ends_crlf;
use crate::parse::strip_crlf;
use crate::parse::http_lit;
use crate::parse::content_length_name;
use crate::parse::spec_parse_request_line;
use crate::parse::spec_parse_header;
use crate::parse::lemma_blank_line_is_no_header;
use crate::response::Status;
use crate::response::spec_response;
use crate::response::crlf;
use crate::conn::ConnM;
use crate::conn::EventM;
use crate::conn::ActionM;
use crate::conn::step_m;
use crate::conn::spec_map_path;

verus! {

/// The state after the handler has consumed a sequence of events.
pub open spec fn run_m(s: ConnM, evs: Seq<EventM>) -> ConnM
    decreases evs.len(),
{
    if evs.len() == 0 {
        s
    } else {
        run_m(step_m(s, evs[0]).0, evs.drop_first())
    }
}

/// Running two event sequences in turn is running their concatenation.
pub proof fn lemma_run_append(s: ConnM, evs1: Seq<EventM>, evs2: Seq<EventM>)
    ensures
        run_m(s, evs1 + evs2) == run_m(run_m(s, evs1), evs2),
    decreases evs1.len(),
{
    if evs1.len() == 0 {
        assert(evs1 + evs2 =~= evs2);
    } else {
        assert((evs1 + evs2)[0] == evs1[0]);
        assert((evs1 + evs2).drop_first() =~= evs1.drop_first() + evs2);
        lemma_run_append(step_m(s, evs1[0]).0, evs1.drop_first(), evs2);
    }
}

/// A single event steps the machine once.
pub proof fn lemma_run_one(s: ConnM, e: EventM)
    ensures
        run_m(s, seq![e]) == step_m(s, e).0,
{
    let evs = seq![e];
    assert(evs.len() == 1);
    assert(evs[0] == e);
    assert(evs.drop_first() =~= Seq::<EventM>::empty());
    assert(run_m(s, evs) == run_m(step_m(s, e).0, evs.drop_first()));
    assert(run_m(step_m(s, e).0, evs.drop_first()) == step_m(s, e).0);
}

/// The header map that a sequence of header lines builds on top of
/// `m`: each well-formed line inserts its header, a later duplicate
/// name overwriting an earlier value.
pub open spec fn hfold(m: Map<Seq<u8>, Seq<u8>>, lines: Seq<Seq<u8>>) -> Map<Seq<u8>, Seq<u8>>
    decreases lines.len(),
{
    if lines.len() == 0 {
        m
    } else {
        match spec_parse_header(lines[0]) {
            Some(h) => hfold(m.insert(h.name, h.value), lines.drop_first()),
            None => hfold(m, lines.drop_first()),
        }
    }
}

/// Feeding well-formed header lines to a handler in its header phase
/// folds exactly those headers into its map and asks for the next
/// line each time.
pub proof fn lemma_run_header_lines(
    method: Seq<u8>,
    path: Seq<u8>,
    version: Seq<u8>,
    hm: Map<Seq<u8>, Seq<u8>>,
    lines: Seq<Seq<u8>>,
)
    requires
        forall|i: int| 0 <= i < lines.len() ==> spec_parse_header(lines[i]) is Some,
    ensures
        run_m(
            ConnM::InHeaders { method, path, version, headers: hm },
            lines.map_values(|l: Seq<u8>| EventM::Line(l)),
        ) == (ConnM::InHeaders { method, path, version, headers: hfold(hm, lines) }),
    decreases lines.len(),
{
    let evs = lines.map_values(|l: Seq<u8>| EventM::Line(l));
    if lines.len() > 0 {
        let l0 = lines[0];
        lemma_blank_line_is_no_header();
        assert(l0 != crlf());
        assert(evs[0] == EventM::Line(l0));
        match spec_parse_header(l0) {
            Some(h) => {
                assert(evs.drop_first() =~= lines.drop_first().map_values(
                    |l: Seq<u8>| EventM::Line(l),
                ));
                lemma_run_header_lines(
                    method,
                    path,
                    version,
                    hm.insert(h.name, h.value),
                    lines.drop_first(),
                );
            },
            None => {
                assert(false);
            },
        }
    }
}

/// A well-formed request line, any well-formed header lines among
/// which none declares a Content-Length, and the blank line, leave
/// the handler holding a request whose body is empty and whose
/// header map is exactly the map of the input headers
/// (last duplicate wins), about to resolve the request's path.
pub proof fn lemma_request_without_body(rl: Seq<u8>, hlines: Seq<Seq<u8>>)
    requires
        spec_parse_request_line(rl) is Some,
        forall|i: int| 0 <= i < hlines.len() ==> spec_parse_header(hlines[i]) is Some,
        !hfold(Map::empty(), hlines).contains_key(content_length_name()),
    ensures
        match spec_parse_request_line(rl) {
            Some(q) => run_m(
                ConnM::AwaitRequestLine,
                seq![EventM::Line(rl)] + hlines.map_values(|l: Seq<u8>| EventM::Line(l))
                    + seq![EventM::Line(crlf())],
            ) == ConnM::AwaitContent {
                request: RequestM {
                    method: q.method,
                    path: q.path,
                    version: q.version,
                    headers: hfold(Map::empty(), hlines),
                    body: Seq::empty(),
                },
            },
            None => false,
        },
{
    let evs_mid = hlines.map_values(|l: Seq<u8>| EventM::Line(l));
    let evs = seq![EventM::Line(rl)] + evs_mid + seq![EventM::Line(crlf())];
    lemma_blank_line_is_no_header();
    assert(rl != crlf());
    match spec_parse_request_line(rl) {
        Some(q) => {
            let s1 = ConnM::InHeaders {
                method: q.method,
                path: q.path,
                version: q.version,
                headers: Map::empty(),
            };
            assert(evs[0] == EventM::Line(rl));
            assert(step_m(ConnM::AwaitRequestLine, EventM::Line(rl)).0 == s1);
            assert(evs.drop_first() =~= evs_mid + seq![EventM::Line(crlf())]);
            lemma_run_append(s1, evs_mid, seq![EventM::Line(crlf())]);
            lemma_run_header_lines(q.method, q.path, q.version, Map::empty(), hlines);
            let s2 = ConnM::InHeaders {
                method: q.method,
                path: q.path,
                version: q.version,
                headers: hfold(Map::empty(), hlines),
            };
            lemma_run_one(s2, EventM::Line(crlf()));
        },
        None => {},
    }
}

/// When the header block declares `Content-Length: n` (a non-empty
/// digit string whose value fits the machine word), the handler asks
/// for exactly `n` body bytes, and a body of exactly `n` bytes
/// completes the request with that body.
pub proof fn lemma_declared_body_read_exactly(
    method: Seq<u8>,
    path: Seq<u8>,
    version: Seq<u8>,
    hm: Map<Seq<u8>, Seq<u8>>,
    b: Seq<u8>,
)
    requires
        hm.contains_key(content_length_name()),
        hm[content_length_name()].len() > 0,
        all_digits(hm[content_length_name()]),
        dec_val(hm[content_length_name()]) <= usize::MAX,
        b.len() == dec_val(hm[content_length_name()]),
    ensures
        step_m(ConnM::InHeaders { method, path, version, headers: hm }, EventM::Line(crlf())) == (
            ConnM::AwaitBody {
                method,
                path,
                version,
                headers: hm,
                need: dec_val(hm[content_length_name()]),
            },
            ActionM::ReadBody(dec_val(hm[content_length_name()])),
        ),
        step_m(
            ConnM::AwaitBody {
                method,
                path,
                version,
                headers: hm,
                need: dec_val(hm[content_length_name()]),
            },
            EventM::Body(b),
        ) == (
            ConnM::AwaitContent { request: RequestM { method, path, version, headers: hm, body: b } },
            ActionM::Resolve(spec_map_path(path)),
        ),
{
}

/// The stream ending (or failing) before the full declared body has
/// arrived is fatal to the connection: it closes with nothing
/// written — in particular, no 400.
pub proof fn lemma_short_body_is_fatal(
    method: Seq<u8>,
    path: Seq<u8>,
    version: Seq<u8>,
    hm: Map<Seq<u8>, Seq<u8>>,
    need: nat,
)
    ensures
        step_m(ConnM::AwaitBody { method, path, version, headers: hm, need }, EventM::Eof) == (
            ConnM::Closed,
            ActionM::CloseNow,
        ),
        step_m(ConnM::AwaitBody { method, path, version, headers: hm, need }, EventM::IoFault) == (
            ConnM::Closed,
            ActionM::CloseNow,
        ),
{
}

/// A request line that does not split into exactly three
/// space-separated tokens is answered with 400 and the connection
/// closes. (The lone blank line is not a request line: it is
/// skipped, so it stands outside this law.)
pub proof fn lemma_wrong_token_count_yields_400(line: Seq<u8>)
    requires
        ends_crlf(line),
        line != crlf(),
        space_count(strip_crlf(line)) != 2,
    ensures
        step_m(ConnM::AwaitRequestLine, EventM::Line(line)) == (
            ConnM::Closed,
            ActionM::WriteThenClose(spec_response(Status::BadRequest, None, Seq::empty())),
        ),
{
    let s = strip_crlf(line);
    if spec_parse_request_line(line) is Some {
        match spec_find_byte(s, SP, 0) {
            Some(i) => {
                lemma_find_byte(s, SP, 0);
                match spec_find_byte(s, SP, i + 1) {
                    Some(j) => {
                        lemma_find_byte(s, SP, i + 1);
                        lemma_space_count_from(s, 0);
                        lemma_space_count_from(s, i + 1);
                        lemma_space_count_from(s, j + 1);
                        assert(s.subrange(0, s.len() as int) =~= s);
                        assert(space_count(s) == 2);
                        assert(false);
                    },
                    None => {
                        assert(false);
                    },
                }
            },
            None => {
                assert(false);
            },
        }
    }
}

/// A request line of three tokens whose version token does not start
/// with "HTTP" is answered with 400 and the connection closes.
/// `i` and `j` are the positions of the two token separators.
pub proof fn lemma_bad_version_yields_400(line: Seq<u8>, i: int, j: int)
    requires
        ends_crlf(line),
        line != crlf(),
        spec_find_byte(strip_crlf(line), SP, 0) == Some(i),
        spec_find_byte(strip_crlf(line), SP, i + 1) == Some(j),
        spec_find_byte(strip_crlf(line), SP, j + 1) is None,
        !(strip_crlf(line).len() - (j + 1) >= 4 && strip_crlf(line).subrange(
            j + 1,
            strip_crlf(line).len() as int,
        ).subrange(0, 4) == http_lit()),
    ensures
        step_m(ConnM::AwaitRequestLine, EventM::Line(line)) == (
            ConnM::Closed,
            ActionM::WriteThenClose(spec_response(Status::BadRequest, None, Seq::empty())),
        ),
{
    let s = strip_crlf(line);
    lemma_find_byte(s, SP, 0);
    lemma_find_byte(s, SP, i + 1);
}

/// "HTTP/1.1 404 Not Found\r\nContent-Length: 0\r\n\r\n"
pub open spec fn not_found_bytes() -> Seq<u8> {
    seq![
        72u8, 84u8, 84u8, 80u8, 47u8, 49u8, 46u8, 49u8, 32u8, 52u8, 48u8, 52u8, 32u8, 78u8, 111u8,
        116u8, 32u8, 70u8, 111u8, 117u8, 110u8, 100u8, 13u8, 10u8, 67u8, 111u8, 110u8, 116u8,
        101u8, 110u8, 116u8, 45u8, 76u8, 101u8, 110u8, 103u8, 116u8, 104u8, 58u8, 32u8, 48u8,
        13u8, 10u8, 13u8, 10u8,
    ]
}

/// Whatever the request was, a resource the resolver reports missing
/// is answered with exactly the 404 response with an empty body, and
/// the connection closes.
pub proof fn lemma_missing_resource_yields_404(request: RequestM)
    ensures
        step_m(ConnM::AwaitContent { request }, EventM::Missing) == (
            ConnM::Closed,
            ActionM::WriteThenClose(spec_response(Status::NotFound, None, Seq::empty())),
        ),
        spec_response(Status::NotFound, None, Seq::empty()) == not_found_bytes(),
{
    assert(spec_dec(4) =~= seq![52u8]);
    assert(spec_dec(40) =~= seq![52u8, 48u8]);
    assert(spec_dec(404) =~= seq![52u8, 48u8, 52u8]);
    assert(spec_dec(0) =~= seq![48u8]);
    assert(spec_response(Status::NotFound, None, Seq::empty()) =~= not_found_bytes());
}

/// The response to resolved content is a function of the resolved
/// bytes alone: no other part of the request, and no hidden server
/// state, influences it. With the whole step function pure, equal
/// requests on two connections are answered byte-identically.
pub proof fn lemma_response_idempotent(r1: RequestM, r2: RequestM, b: Seq<u8>)
    ensures
        step_m(ConnM::AwaitContent { request: r1 }, EventM::Content(b)).1 == step_m(
            ConnM::AwaitContent { request: r2 },
            EventM::Content(b),
        ).1,
{
}

/// A peer that closes the stream without sending a byte gets a clean
/// close: the handler terminates with no response written.
pub proof fn lemma_empty_connection_closes_cleanly()
    ensures
        step_m(ConnM::AwaitRequestLine, EventM::Eof) == (ConnM::Closed, ActionM::CloseNow),
{
}

} // verus!
