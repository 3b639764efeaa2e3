//! The request parser: request-line and header-line grammar, the
//! line boundary primitive, and `Content-Length` extraction, each
//! stated over byte sequences.

use vstd::prelude::*;
use crate::bytes::SP;
use crate::bytes::CR;
use crate::bytes::LF;
use crate::bytes::spec_find_byte;
use crate::bytes::find_byte;
use crate::bytes::subvec;
use crate::bytes::trim_copy;
use crate::bytes::spec_trim;
use crate::request::HeaderM;
use crate::request::Header;
use crate::response::HttpError;
use crate::response::crlf;

verus! {

/// A line ends with "\r\n".
pub open spec fn ends_crlf(line: Seq<u8>) -> bool {
    line.len() >= 2 && line[line.len() - 2] == CR && line[line.len() - 1] == LF
}

/// The line without its trailing "\r\n".
pub open spec fn strip_crlf(line: Seq<u8>) -> Seq<u8>
    recommends
        ends_crlf(line),
{
    line.subrange(0, line.len() - 2)
}

/// "HTTP" — the required version-token prefix.
pub open spec fn http_lit() -> Seq<u8> {
    seq![72u8, 84u8, 84u8, 80u8]
}

/// "Content-Length"
pub open spec fn content_length_name() -> Seq<u8> {
    seq![67u8, 111u8, 110u8, 116u8, 101u8, 110u8, 116u8, 45u8, 76u8, 101u8, 110u8, 103u8, 116u8, 104u8]
}

/// The parsed first line of a request.
pub struct RequestLine {
    pub method: Vec<u8>,
    pub path: Vec<u8>,
    pub version: Vec<u8>,
}

/// Mathematical image of a `RequestLine`.
pub struct RequestLineM {
    pub method: Seq<u8>,
    pub path: Seq<u8>,
    pub version: Seq<u8>,
}

impl View for RequestLine {
    type V = RequestLineM;

    open spec fn view(&self) -> RequestLineM {
        RequestLineM { method: self.method@, path: self.path@, version: self.version@ }
    }
}

/// The request-line grammar: a CRLF-terminated line that splits on
/// single spaces into exactly three tokens — method, path, version —
/// where the version token starts with "HTTP". Anything else is
/// malformed.
pub open spec fn spec_parse_request_line(line: Seq<u8>) -> Option<RequestLineM> {
    if !ends_crlf(line) {
        None
    } else {
        let s = strip_crlf(line);
        match spec_find_byte(s, SP, 0) {
            None => None,
            Some(i) => match spec_find_byte(s, SP, i + 1) {
                None => None,
                Some(j) => if spec_find_byte(s, SP, j + 1) is Some {
                    None
                } else {
                    let version = s.subrange(j + 1, s.len() as int);
                    if version.len() >= 4 && version.subrange(0, 4) == http_lit() {
                        Some(
                            RequestLineM {
                                method: s.subrange(0, i),
                                path: s.subrange(i + 1, j),
                                version,
                            },
                        )
                    } else {
                        None
                    }
                },
            },
        }
    }
}

/// The first position in `s` at or after `from` where ": " occurs.
pub open spec fn spec_find_colon_sp(s: Seq<u8>, from: int) -> Option<int>
    decreases s.len() - from,
{
    if from < 0 || from + 1 >= s.len() {
        None
    } else if s[from] == 58 && s[from + 1] == 32 {
        Some(from)
    } else {
        spec_find_colon_sp(s, from + 1)
    }
}

/// The header-line grammar: a CRLF-terminated line split at the
/// first occurrence of ": " into a name and a value, each trimmed of
/// surrounding whitespace. A line of any other shape is malformed.
pub open spec fn spec_parse_header(line: Seq<u8>) -> Option<HeaderM> {
    if !ends_crlf(line) {
        None
    } else {
        let s = strip_crlf(line);
        match spec_find_colon_sp(s, 0) {
            None => None,
            Some(i) => Some(
                HeaderM {
                    name: spec_trim(s.subrange(0, i)),
                    value: spec_trim(s.subrange(i + 2, s.len() as int)),
                },
            ),
        }
    }
}

/// The end (exclusive) of the first line of `buf` at or after `pos`:
/// one past the first line feed, with every byte before it on the
/// same line. `None` when no complete line has arrived yet.
pub fn next_line_end(buf: &Vec<u8>, pos: usize) -> (r: Option<usize>)
    requires
        pos <= buf@.len(),
    ensures
        match r {
            Some(e) => pos < e <= buf@.len() && spec_find_byte(buf@, LF, pos as int) == Some(
                e - 1,
            ),
            None => spec_find_byte(buf@, LF, pos as int) is None,
        },
{
    let n = buf.len();
    match find_byte(buf, LF, pos) {
        Some(i) => {
            proof {
                assert(i < n);
            }
            Some(i + 1)
        },
        None => None,
    }
}

/// Is this line exactly the blank "\r\n" that ends a header block?
pub fn is_blank_line(line: &Vec<u8>) -> (r: bool)
    ensures
        r == (line@ == crlf()),
{
    let r = line.len() == 2 && line[0] == CR && line[1] == LF;
    proof {
        if r {
            assert(line@ =~= crlf());
        }
    }
    r
}

/// Parse a request line; a line the grammar refuses is a bad request.
pub fn parse_request_line(line: &Vec<u8>) -> (r: Result<RequestLine, HttpError>)
    ensures
        match r {
            Ok(rl) => spec_parse_request_line(line@) == Some(rl@),
            Err(e) => e == HttpError::BadRequest && spec_parse_request_line(line@) is None,
        },
{
    let n = line.len();
    if n < 2 || line[n - 1] != LF || line[n - 2] != CR {
        return Err(HttpError::BadRequest);
    }
    let s = subvec(line, 0, n - 2);
    proof {
        assert(s@ == strip_crlf(line@));
    }
    let i = match find_byte(&s, SP, 0) {
        Some(i) => i,
        None => {
            return Err(HttpError::BadRequest);
        },
    };
    let j = match find_byte(&s, SP, i + 1) {
        Some(j) => j,
        None => {
            return Err(HttpError::BadRequest);
        },
    };
    match find_byte(&s, SP, j + 1) {
        Some(_) => {
            return Err(HttpError::BadRequest);
        },
        None => {},
    }
    let ghost version = s@.subrange(j + 1, s@.len() as int);
    if s.len() - j - 1 < 4 {
        return Err(HttpError::BadRequest);
    }
    if s[j + 1] != 72 || s[j + 2] != 84 || s[j + 3] != 84 || s[j + 4] != 80 {
        proof {
            assert(version[0] == s@[j + 1]);
            assert(version[1] == s@[j + 2]);
            assert(version[2] == s@[j + 3]);
            assert(version[3] == s@[j + 4]);
            assert(version.subrange(0, 4) != http_lit());
        }
        return Err(HttpError::BadRequest);
    }
    let method = subvec(&s, 0, i);
    let path = subvec(&s, i + 1, j);
    let ver = subvec(&s, j + 1, s.len());
    proof {
        assert(version.subrange(0, 4) =~= http_lit());
    }
    Ok(RequestLine { method, path, version: ver })
}

/// Parse a header line; a line the grammar refuses is a bad request.
pub fn parse_header_line(line: &Vec<u8>) -> (r: Result<Header, HttpError>)
    ensures
        match r {
            Ok(h) => spec_parse_header(line@) == Some(h@),
            Err(e) => e == HttpError::BadRequest && spec_parse_header(line@) is None,
        },
{
    let n = line.len();
    if n < 2 || line[n - 1] != LF || line[n - 2] != CR {
        return Err(HttpError::BadRequest);
    }
    let s = subvec(line, 0, n - 2);
    proof {
        assert(s@ == strip_crlf(line@));
    }
    let i = match find_colon_sp(&s) {
        Some(i) => i,
        None => {
            return Err(HttpError::BadRequest);
        },
    };
    let name = trim_copy(&s, 0, i);
    let value = trim_copy(&s, i + 2, s.len());
    Ok(Header { name, value })
}

/// First occurrence of ": " in `s`.
fn find_colon_sp(s: &Vec<u8>) -> (r: Option<usize>)
    ensures
        match r {
            Some(i) => i + 1 < s@.len() && spec_find_colon_sp(s@, 0) == Some(i as int),
            None => spec_find_colon_sp(s@, 0) is None,
        },
{
    let n = s.len();
    if n < 2 {
        return None;
    }
    let mut i: usize = 0;
    while i < n - 1
        invariant
            n == s@.len(),
            2 <= n,
            0 <= i <= n - 1,
            spec_find_colon_sp(s@, 0) == spec_find_colon_sp(s@, i as int),
        decreases s@.len() - i,
    {
        if s[i] == 58 && s[i + 1] == 32 {
            return Some(i);
        }
        i = i + 1;
    }
    None
}

/// The blank line is no header line: the header grammar refuses it.
pub proof fn lemma_blank_line_is_no_header()
    ensures
        spec_parse_header(crlf()) is None,
        spec_parse_request_line(crlf()) is None,
{
    assert(strip_crlf(crlf()) =~= Seq::<u8>::empty());
}

} // verus!
