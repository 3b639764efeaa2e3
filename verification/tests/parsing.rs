use httpcore::bytes::bytes_eq;
use httpcore::bytes::find_byte;
use httpcore::bytes::parse_dec;
use httpcore::bytes::subvec;
use httpcore::bytes::trim_copy;
use httpcore::parse::is_blank_line;
use httpcore::parse::next_line_end;
use httpcore::parse::parse_header_line;
use httpcore::parse::parse_request_line;
use httpcore::request::Header;
use httpcore::request::Request;
use httpcore::request::find_header;
use httpcore::request::insert_header;
use httpcore::response::HttpError;

#[test]
fn request_line_splits_into_three_tokens() {
    let rl = parse_request_line(&b"GET /abc HTTP/1.1\r\n".to_vec()).unwrap();
    assert_eq!(rl.method, b"GET".to_vec());
    assert_eq!(rl.path, b"/abc".to_vec());
    assert_eq!(rl.version, b"HTTP/1.1".to_vec());
}

#[test]
fn request_line_rejects_wrong_token_counts() {
    assert!(matches!(
        parse_request_line(&b"GET /\r\n".to_vec()),
        Err(HttpError::BadRequest)
    ));
    assert!(matches!(
        parse_request_line(&b"GET / HTTP/1.1 x\r\n".to_vec()),
        Err(HttpError::BadRequest)
    ));
    assert!(matches!(
        parse_request_line(&b"GET  / HTTP/1.1\r\n".to_vec()),
        Err(HttpError::BadRequest)
    ));
}

#[test]
fn request_line_rejects_version_without_http_prefix() {
    assert!(matches!(
        parse_request_line(&b"GET / FOO\r\n".to_vec()),
        Err(HttpError::BadRequest)
    ));
    assert!(parse_request_line(&b"GET / HTTP/1.0\r\n".to_vec()).is_ok());
}

#[test]
fn request_line_requires_crlf_terminator() {
    assert!(matches!(
        parse_request_line(&b"GET / HTTP/1.1".to_vec()),
        Err(HttpError::BadRequest)
    ));
    assert!(matches!(
        parse_request_line(&b"GET / HTTP/1.1\n".to_vec()),
        Err(HttpError::BadRequest)
    ));
}

#[test]
fn header_line_splits_at_first_colon_space() {
    let h = parse_header_line(&b"Host: example: 8080\r\n".to_vec()).unwrap();
    assert_eq!(h.name, b"Host".to_vec());
    assert_eq!(h.value, b"example: 8080".to_vec());
}

#[test]
fn header_line_trims_surrounding_whitespace() {
    let h = parse_header_line(&b"  Host :  a b \r\n".to_vec()).unwrap();
    assert_eq!(h.name, b"Host".to_vec());
    assert_eq!(h.value, b"a b".to_vec());
}

#[test]
fn header_line_without_separator_is_rejected() {
    assert!(matches!(
        parse_header_line(&b"Host\r\n".to_vec()),
        Err(HttpError::BadRequest)
    ));
    assert!(matches!(
        parse_header_line(&b"Host:no-space\r\n".to_vec()),
        Err(HttpError::BadRequest)
    ));
}

#[test]
fn blank_line_is_exactly_crlf() {
    assert!(is_blank_line(&b"\r\n".to_vec()));
    assert!(!is_blank_line(&b"\n".to_vec()));
    assert!(!is_blank_line(&b" \r\n".to_vec()));
}

#[test]
fn decimal_parsing_accepts_digit_strings_only() {
    assert_eq!(parse_dec(&b"0".to_vec()), Some(0));
    assert_eq!(parse_dec(&b"42".to_vec()), Some(42));
    assert_eq!(parse_dec(&b"007".to_vec()), Some(7));
    assert_eq!(parse_dec(&b"".to_vec()), None);
    assert_eq!(parse_dec(&b"4x2".to_vec()), None);
    assert_eq!(parse_dec(&b"-1".to_vec()), None);
    assert_eq!(parse_dec(&b"99999999999999999999999999".to_vec()), None);
}

#[test]
fn line_boundaries_follow_the_line_feed() {
    let buf = b"ab\r\ncd\r\n".to_vec();
    assert_eq!(next_line_end(&buf, 0), Some(4));
    assert_eq!(next_line_end(&buf, 4), Some(8));
    assert_eq!(next_line_end(&b"abc".to_vec(), 0), None);
}

#[test]
fn byte_helpers_behave() {
    assert!(bytes_eq(&b"abc".to_vec(), &b"abc".to_vec()));
    assert!(!bytes_eq(&b"abc".to_vec(), &b"abd".to_vec()));
    assert!(!bytes_eq(&b"abc".to_vec(), &b"ab".to_vec()));
    assert_eq!(find_byte(&b"a c".to_vec(), 32, 0), Some(1));
    assert_eq!(find_byte(&b"a c".to_vec(), 32, 2), None);
    assert_eq!(subvec(&b"abcd".to_vec(), 1, 3), b"bc".to_vec());
    assert_eq!(trim_copy(&b" \ta b\t ".to_vec(), 0, 7), b"a b".to_vec());
}

#[test]
fn inserting_a_duplicate_header_overwrites() {
    let mut hs: Vec<Header> = Vec::new();
    insert_header(&mut hs, b"A".to_vec(), b"1".to_vec());
    insert_header(&mut hs, b"B".to_vec(), b"2".to_vec());
    insert_header(&mut hs, b"A".to_vec(), b"3".to_vec());
    assert_eq!(hs.len(), 2);
    assert_eq!(find_header(&hs, &b"A".to_vec()), Some(b"3".to_vec()));
    assert_eq!(find_header(&hs, &b"B".to_vec()), Some(b"2".to_vec()));
    assert_eq!(find_header(&hs, &b"a".to_vec()), None);
}

#[test]
fn a_new_request_is_empty() {
    let r = Request::new();
    assert!(r.method.is_empty());
    assert!(r.path.is_empty());
    assert!(r.version.is_empty());
    assert!(r.header.is_empty());
    assert!(r.body.is_empty());
}
