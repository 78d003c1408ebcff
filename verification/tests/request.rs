//! Tests of the session bootstrapper's token extraction and of page-request
//! construction.

use tutti_frutti::client::{
    build_page_request, extract_csrf_token, fresh_fingerprint, Fingerprint,
};
use tutti_frutti::util::init_headers;

fn fingerprint() -> Fingerprint {
    Fingerprint {
        correlation_id: b"0a1b2c3d-4e5f-6071-8293-a4b5c6d7e8f9".to_vec(),
        timestamp: b"2024-05-06-07-08".to_vec(),
        referer_hash: b"feedfacefeedfacefeedfacefeedface".to_vec(),
    }
}

fn contains(haystack: &[u8], needle: &[u8]) -> bool {
    haystack.windows(needle.len()).any(|w| w == needle)
}

#[test]
fn test_extract_csrf_token_present() {
    let header = b"a=1; tutti_csrftoken=secret-value; b=2".to_vec();
    assert_eq!(extract_csrf_token(&header), Some(b"secret-value".to_vec()));
}

#[test]
fn test_extract_csrf_token_absent() {
    let header = b"a=1; b=2".to_vec();
    assert_eq!(extract_csrf_token(&header), None);
    assert_eq!(extract_csrf_token(&Vec::new()), None);
}

#[test]
fn test_extract_csrf_token_trims_whitespace() {
    let header = b"a=1;\t tutti_csrftoken=tok \t;b=2".to_vec();
    assert_eq!(extract_csrf_token(&header), Some(b"tok".to_vec()));
}

#[test]
fn test_extract_csrf_token_alone() {
    let header = b"tutti_csrftoken=only".to_vec();
    assert_eq!(extract_csrf_token(&header), Some(b"only".to_vec()));
}

#[test]
fn test_extract_csrf_token_value_may_hold_equals() {
    let header = b"tutti_csrftoken=a=b=c".to_vec();
    assert_eq!(extract_csrf_token(&header), Some(b"a=b=c".to_vec()));
}

#[test]
fn test_extract_csrf_token_first_match_wins() {
    let header = b"tutti_csrftoken=one; tutti_csrftoken=two".to_vec();
    assert_eq!(extract_csrf_token(&header), Some(b"one".to_vec()));
}

#[test]
fn test_extract_csrf_token_name_must_start_cookie() {
    let header = b"xtutti_csrftoken=nope".to_vec();
    assert_eq!(extract_csrf_token(&header), None);
}

#[test]
fn test_init_headers_contents() {
    let headers = init_headers();
    let pairs: Vec<(&[u8], &[u8])> = headers
        .iter()
        .map(|h| (h.name.as_slice(), h.value.as_slice()))
        .collect();
    let expected: Vec<(&[u8], &[u8])> = vec![
        (b"user-agent", b"Mozilla/5.0"),
        (b"accept", b"*/*"),
        (b"accept-language", b"de,en-US;q=0.7,en;q=0.3"),
        (b"accept-encoding", b"gzip, deflate, br, zstd"),
        (b"origin", b"https://www.tutti.ch"),
        (b"connection", b"keep-alive"),
    ];
    assert_eq!(pairs, expected);
}

#[test]
fn test_build_page_request_url_and_header_names() {
    let req = build_page_request(&b"tok".to_vec(), "pencil", 0, &fingerprint());
    assert_eq!(req.url, b"https://www.tutti.ch/api/v10/graphql".to_vec());
    let names: Vec<&[u8]> = req.headers.iter().map(|h| h.name.as_slice()).collect();
    let expected: Vec<&[u8]> = vec![
        b"user-agent",
        b"accept",
        b"accept-language",
        b"accept-encoding",
        b"origin",
        b"connection",
        b"referer",
        b"x-tutti-hash",
        b"x-tutti-source",
        b"x-tutti-client-identifier",
        b"x-csrf-token",
        b"content-type",
    ];
    assert_eq!(names, expected);
}

#[test]
fn test_build_page_request_dynamic_headers() {
    let req = build_page_request(&b"csrf-abc".to_vec(), "pencil", 0, &fingerprint());
    let value = |name: &[u8]| -> Vec<u8> {
        req.headers
            .iter()
            .find(|h| h.name == name)
            .map(|h| h.value.clone())
            .unwrap()
    };
    assert_eq!(
        value(b"referer"),
        b"https://www.tutti.ch/de/q/suche/feedfacefeedfacefeedfacefeedface?sorting=newest&page=1&query=pencil"
            .to_vec()
    );
    assert_eq!(
        value(b"x-tutti-hash"),
        b"0a1b2c3d-4e5f-6071-8293-a4b5c6d7e8f9".to_vec()
    );
    assert_eq!(value(b"x-tutti-source"), b"web r1.0-2024-05-06-07-08".to_vec());
    // the fragment is the first eight bytes of the correlation identifier
    // with its hyphens removed
    assert_eq!(
        value(b"x-tutti-client-identifier"),
        b"web/1.0.0+env-live.git-0a1b2c3d".to_vec()
    );
    assert_eq!(value(b"x-csrf-token"), b"csrf-abc".to_vec());
    assert_eq!(value(b"content-type"), b"application/json".to_vec());
}

#[test]
fn test_build_page_request_percent_encodes_query() {
    // Were the percent-encoding handed back its input unchanged, the space
    // would survive and this referer check would fail.
    let req = build_page_request(&b"tok".to_vec(), "red pencil & pen", 0, &fingerprint());
    let referer = &req.headers[6].value;
    assert!(contains(referer, b"query=red%20pencil%20%26%20pen"));
    assert!(!contains(referer, b"query=red pencil"));
}

#[test]
fn test_build_page_request_body_variables() {
    let req = build_page_request(&b"tok".to_vec(), "pencil", 60, &fingerprint());
    assert!(req.body.starts_with(b"{\"query\":\""));
    // the query document is carried with its line breaks escaped
    assert!(contains(&req.body, b"\\nquery SearchListingsByConstraints"));
    assert!(contains(&req.body, b"searchListingsByQuery"));
    let tail: &[u8] = b"\",\"variables\":{\"category\":null,\"constraints\":null,\"direction\":\"DESCENDING\",\"first\":30,\"offset\":60,\"query\":\"pencil\",\"sort\":\"TIMESTAMP\"}}";
    assert!(req.body.ends_with(tail));
}

#[test]
fn test_build_page_request_escapes_query_text() {
    let req = build_page_request(&b"tok".to_vec(), "say \"hi\"\\\n", 0, &fingerprint());
    assert!(contains(
        &req.body,
        b"\"query\":\"say \\\"hi\\\"\\\\\\n\",\"sort\""
    ));
}

#[test]
fn test_build_page_request_escapes_control_bytes() {
    let req = build_page_request(&b"tok".to_vec(), "a\u{1f}b", 0, &fingerprint());
    assert!(contains(&req.body, b"\"query\":\"a\\u001fb\""));
}

#[test]
fn test_fresh_fingerprint_shape() {
    let fp = fresh_fingerprint();
    assert_eq!(fp.correlation_id.len(), 36);
    for &pos in &[8usize, 13, 18, 23] {
        assert_eq!(fp.correlation_id[pos], b'-');
    }
    for (i, &b) in fp.correlation_id.iter().enumerate() {
        if ![8usize, 13, 18, 23].contains(&i) {
            assert!(b.is_ascii_hexdigit() && !b.is_ascii_uppercase());
        }
    }
    // the referer hash is a compacted, lowered identifier: 32 hex bytes
    assert_eq!(fp.referer_hash.len(), 32);
    for &b in &fp.referer_hash {
        assert!(b.is_ascii_hexdigit() && !b.is_ascii_uppercase());
    }
    // two fingerprints differ in their random parts
    let other = fresh_fingerprint();
    assert_ne!(fp.correlation_id, other.correlation_id);
}
