use std::io::Write;

use intercept_proxy::cache_path::{cache_entry_segments, sanitize};
use intercept_proxy::caching::{cache_step, plan_cache_request, start_cache_request, CacheAction, CacheEvent, CachePlan, CacheState};
use intercept_proxy::decode::{cache_entry_body, content_encoding, decode_body, ContentEncoding, DecodeError};
use intercept_proxy::rewrite::{host_port, route_request, scheme_is_http, RewriteAction};
use intercept_proxy::rules::{parse_rules, RuleTable};
use intercept_proxy::text::{same_text, split_arrow, split_char};

fn pair(a: &str, b: &str) -> (String, String) {
    (a.to_string(), b.to_string())
}

fn strings(v: &[&str]) -> Vec<String> {
    v.iter().map(|s| s.to_string()).collect()
}

fn example_table() -> RuleTable {
    RuleTable::build(&vec![pair("example.com:80", "backend.local:80")])
}

fn gzip(data: &[u8]) -> Vec<u8> {
    let mut enc = flate2::write::GzEncoder::new(Vec::new(), flate2::Compression::default());
    enc.write_all(data).unwrap();
    enc.finish().unwrap()
}

fn deflate(data: &[u8]) -> Vec<u8> {
    let mut enc = flate2::write::DeflateEncoder::new(Vec::new(), flate2::Compression::default());
    enc.write_all(data).unwrap();
    enc.finish().unwrap()
}

#[test]
fn parse_keeps_two_rules_and_skips_one_entry() {
    let parsed = parse_rules("a:80->b:80;bad;c:1->d:2");
    assert_eq!(parsed.rules, vec![pair("a:80", "b:80"), pair("c:1", "d:2")]);
    assert_eq!(parsed.rejected, strings(&["bad"]));
}

#[test]
fn parse_rejects_empty_sides_and_double_arrows() {
    let parsed = parse_rules("a->;->b;a->b->c;x->y");
    assert_eq!(parsed.rules, vec![pair("x", "y")]);
    assert_eq!(parsed.rejected, strings(&["a->", "->b", "a->b->c"]));
}

#[test]
fn parse_of_empty_text_skips_the_empty_entry() {
    let parsed = parse_rules("");
    assert!(parsed.rules.is_empty());
    assert_eq!(parsed.rejected, strings(&[""]));
    let trailing = parse_rules("a->b;");
    assert_eq!(trailing.rules, vec![pair("a", "b")]);
    assert_eq!(trailing.rejected, strings(&[""]));
}

#[test]
fn parse_does_not_trim_whitespace() {
    let parsed = parse_rules(" a -> b ");
    assert_eq!(parsed.rules, vec![pair(" a ", " b ")]);
}

#[test]
fn split_matches_str_split() {
    for s in ["", ";", "a;;b", ";a;", "abc"] {
        let expected: Vec<String> = s.split(';').map(|p| p.to_string()).collect();
        assert_eq!(split_char(s, ';'), expected);
    }
    for s in ["", "->", "-->", "->>", "a->b", "a-->b->", "--", "->->"] {
        let expected: Vec<String> = s.split("->").map(|p| p.to_string()).collect();
        assert_eq!(split_arrow(s), expected);
    }
}

#[test]
fn same_text_compares_characters() {
    assert!(same_text("http", "http"));
    assert!(!same_text("http", "https"));
    assert!(!same_text("HTTP", "http"));
    assert!(same_text("", ""));
}

#[test]
fn later_rule_for_a_source_wins() {
    let table = RuleTable::build(&vec![pair("a:1", "b:1"), pair("c:2", "d:2"), pair("a:1", "e:3")]);
    assert_eq!(table.lookup("a:1"), Some("e:3".to_string()));
    assert_eq!(table.lookup("c:2"), Some("d:2".to_string()));
}

#[test]
fn lookup_is_exact() {
    let table = example_table();
    assert_eq!(table.lookup("example.com:80"), Some("backend.local:80".to_string()));
    assert_eq!(table.lookup("example.com"), None);
    assert_eq!(table.lookup("EXAMPLE.COM:80"), None);
    assert_eq!(table.lookup("example.com:8080"), None);
}

#[test]
fn table_from_text() {
    let table = RuleTable::from_text("a:80->b:80;bad;c:1->d:2;a:80->z:9");
    assert_eq!(table.lookup("a:80"), Some("z:9".to_string()));
    assert_eq!(table.lookup("c:1"), Some("d:2".to_string()));
    assert_eq!(table.lookup("bad"), None);
}

#[test]
fn host_port_writes_the_port_in_decimal() {
    assert_eq!(host_port("example.com", Some(80)), "example.com:80");
    assert_eq!(host_port("h", Some(0)), "h:0");
    assert_eq!(host_port("h", Some(65535)), "h:65535");
    assert_eq!(host_port("h", Some(10)), "h:10");
    assert_eq!(host_port("example.com", None), "example.com");
}

#[test]
fn matching_request_is_forwarded_to_the_replacement() {
    let table = example_table();
    let action = route_request(&table, Some("http"), Some("example.com"), Some(80));
    assert!(matches!(action, RewriteAction::Forward(Some(a)) if a == "backend.local:80"));
}

#[test]
fn request_without_rule_is_forwarded_unchanged() {
    let table = example_table();
    let no_port = route_request(&table, Some("http"), Some("example.com"), None);
    assert!(matches!(no_port, RewriteAction::Forward(None)));
    let other = route_request(&table, Some("http"), Some("other.org"), Some(80));
    assert!(matches!(other, RewriteAction::Forward(None)));
}

#[test]
fn non_http_scheme_is_not_found_whatever_the_rules() {
    let table = RuleTable::build(&vec![pair("example.com:443", "backend.local:80"), pair("example.com:80", "x:1")]);
    for scheme in [Some("https"), Some("HTTP"), Some("ftp"), Some(""), None] {
        assert!(matches!(route_request(&table, scheme, Some("example.com"), Some(443)), RewriteAction::NotFound));
        assert!(matches!(route_request(&table, scheme, Some("example.com"), Some(80)), RewriteAction::NotFound));
    }
    assert!(scheme_is_http(Some("http")));
    assert!(!scheme_is_http(Some("https")));
    assert!(!scheme_is_http(None));
}

#[test]
fn sanitize_drops_traversal_segments() {
    assert_eq!(sanitize("/a/../b/"), strings(&["a", "b", "index.html"]));
    assert_eq!(sanitize("/../../etc/passwd"), strings(&["etc", "passwd"]));
    assert_eq!(sanitize("/./x//y"), strings(&["x", "y"]));
    assert_eq!(sanitize("/"), strings(&["index.html"]));
    assert_eq!(sanitize(""), strings(&[]));
    assert_eq!(sanitize("/..."), strings(&["..."]));
}

#[test]
fn cache_entry_puts_the_host_first() {
    assert_eq!(cache_entry_segments("example.com", "/b/"), strings(&["example.com", "b", "index.html"]));
    assert_eq!(cache_entry_segments("example.com", "/a/../b/"), strings(&["example.com", "a", "b", "index.html"]));
    assert_eq!(cache_entry_segments("..", "/x"), strings(&[]));
    assert_eq!(cache_entry_segments("a/b", "/x"), strings(&[]));
    assert_eq!(cache_entry_segments("", "/x"), strings(&[]));
}

#[test]
fn cache_entry_segments_never_leave_the_root() {
    for (host, path) in [("..", "/../.."), (".", "/./.."), ("h", "//../../..//"), ("", "/a/b/../../../c")] {
        for seg in cache_entry_segments(host, path) {
            assert!(!seg.is_empty() && seg != "." && seg != ".." && !seg.contains('/'));
        }
    }
}

#[test]
fn plan_refuses_non_http() {
    assert!(matches!(plan_cache_request(Some("https"), Some("example.com"), "/x"), CachePlan::NotFound));
    assert!(matches!(plan_cache_request(None, Some("example.com"), "/x"), CachePlan::NotFound));
}

#[test]
fn plan_looks_up_host_and_path() {
    match plan_cache_request(Some("http"), Some("example.com"), "/x/y.css") {
        CachePlan::Lookup(segs) => assert_eq!(segs, strings(&["example.com", "x", "y.css"])),
        CachePlan::NotFound => panic!("an http request is looked up"),
    }
    match plan_cache_request(Some("http"), Some("example.com"), "/") {
        CachePlan::Lookup(segs) => assert_eq!(segs, strings(&["example.com", "index.html"])),
        CachePlan::NotFound => panic!("an http request is looked up"),
    }
}

#[test]
fn encoding_tokens_are_exact() {
    assert!(matches!(content_encoding(None), ContentEncoding::Identity));
    assert!(matches!(content_encoding(Some("gzip")), ContentEncoding::Gzip));
    assert!(matches!(content_encoding(Some("deflate")), ContentEncoding::Deflate));
    assert!(matches!(content_encoding(Some("br")), ContentEncoding::Brotli));
    assert!(matches!(content_encoding(Some("GZIP")), ContentEncoding::Unrecognized(t) if t == "GZIP"));
    assert!(matches!(content_encoding(Some("compress")), ContentEncoding::Unrecognized(t) if t == "compress"));
}

#[test]
fn gzip_body_is_stored_decompressed() {
    let plain = b"<html>hello, cache</html>".to_vec();
    let body = gzip(&plain);
    assert_ne!(body, plain);
    assert_eq!(cache_entry_body(Some("gzip"), &body), Ok(plain.clone()));
    assert_eq!(decode_body(&body, &ContentEncoding::Gzip), Ok(plain));
}

#[test]
fn deflate_body_is_stored_decompressed() {
    let plain = b"deflated text deflated text deflated text".to_vec();
    let body = deflate(&plain);
    assert_ne!(body, plain);
    assert_eq!(cache_entry_body(Some("deflate"), &body), Ok(plain));
}

#[test]
fn malformed_bodies_are_decode_errors() {
    let junk = b"this is not compressed".to_vec();
    assert_eq!(cache_entry_body(Some("gzip"), &junk), Err(DecodeError::MalformedGzip));
    assert_eq!(cache_entry_body(Some("deflate"), &[0xff, 0xff, 0xff]), Err(DecodeError::MalformedDeflate));
}

#[test]
fn unrecognized_or_absent_encoding_passes_through() {
    let body = gzip(b"kept as sent");
    assert_eq!(cache_entry_body(Some("compress"), &body), Ok(body.clone()));
    assert_eq!(cache_entry_body(None, &body), Ok(body.clone()));
    assert_eq!(cache_entry_body(None, &[]), Ok(vec![]));
}

#[test]
fn brotli_body_is_stored_decompressed() {
    // An empty brotli stream: window bits 16, then a last, empty meta-block.
    assert_eq!(cache_entry_body(Some("br"), &[0x06]), Ok(vec![]));
    // One uncompressed meta-block holding "hi", then a last, empty one.
    let body = [0x10, 0x00, 0x10, b'h', b'i', 0x03];
    assert_eq!(cache_entry_body(Some("br"), &body), Ok(b"hi".to_vec()));
}

#[test]
fn truncated_brotli_is_a_decode_error() {
    assert_eq!(cache_entry_body(Some("br"), &[0x01]), Err(DecodeError::MalformedBrotli));
}

fn start(scheme: Option<&str>, host: Option<&str>, path: &str) -> (CacheState, CacheAction) {
    start_cache_request(scheme, host, path)
}

#[test]
fn cache_request_starts_by_reading_its_entry() {
    let (state, action) = start(Some("http"), Some("example.com"), "/b/");
    assert!(matches!(state, CacheState::Reading(s) if s == strings(&["example.com", "b", "index.html"])));
    assert!(matches!(action, CacheAction::ReadEntry(s) if s == strings(&["example.com", "b", "index.html"])));
    let (state, action) = start(Some("https"), Some("example.com"), "/b/");
    assert!(matches!(state, CacheState::Done));
    assert!(matches!(action, CacheAction::RespondNotFound));
    let (state, action) = start(Some("http"), Some(".."), "/..");
    assert!(matches!(state, CacheState::Fetching(s) if s.is_empty()));
    assert!(matches!(action, CacheAction::FetchOrigin));
}

#[test]
fn cached_entry_is_served_as_stored() {
    let segs = strings(&["example.com", "x"]);
    let (state, action) = cache_step(CacheState::Reading(segs), CacheEvent::EntryRead(Some(b"plain".to_vec())));
    assert!(matches!(state, CacheState::Done));
    assert!(matches!(action, CacheAction::ServeEntry(b) if b == b"plain".to_vec()));
}

#[test]
fn missing_entry_goes_to_the_origin() {
    let segs = strings(&["example.com", "x"]);
    let (state, action) = cache_step(CacheState::Reading(segs.clone()), CacheEvent::EntryRead(None));
    assert!(matches!(state, CacheState::Fetching(s) if s == segs));
    assert!(matches!(action, CacheAction::FetchOrigin));
}

#[test]
fn gzip_origin_response_is_stored_decoded_then_relayed() {
    let segs = strings(&["example.com", "x"]);
    let plain = b"<p>decoded</p>".to_vec();
    let event = CacheEvent::OriginAnswered(Some("gzip".to_string()), gzip(&plain));
    let (state, action) = cache_step(CacheState::Fetching(segs.clone()), event);
    assert!(matches!(state, CacheState::Writing));
    assert!(matches!(action, CacheAction::WriteEntry(s, b) if s == segs && b == plain));
    for written in [true, false] {
        let (state, action) = cache_step(CacheState::Writing, CacheEvent::EntryWritten(written));
        assert!(matches!(state, CacheState::Done));
        assert!(matches!(action, CacheAction::RelayOrigin));
    }
}

#[test]
fn corrupt_origin_body_is_rejected_without_writing() {
    let segs = strings(&["example.com", "x"]);
    let event = CacheEvent::OriginAnswered(Some("gzip".to_string()), b"not gzip".to_vec());
    let (state, action) = cache_step(CacheState::Fetching(segs), event);
    assert!(matches!(state, CacheState::Done));
    assert!(matches!(action, CacheAction::RejectBody(DecodeError::MalformedGzip)));
}

#[test]
fn origin_failure_is_passed_on() {
    let segs = strings(&["example.com", "x"]);
    let (state, action) = cache_step(CacheState::Fetching(segs), CacheEvent::OriginFailed);
    assert!(matches!(state, CacheState::Done));
    assert!(matches!(action, CacheAction::PropagateFailure));
}

#[test]
fn entry_without_segments_is_relayed_unstored() {
    let event = CacheEvent::OriginAnswered(None, b"body".to_vec());
    let (state, action) = cache_step(CacheState::Fetching(Vec::new()), event);
    assert!(matches!(state, CacheState::Done));
    assert!(matches!(action, CacheAction::RelayOrigin));
}

#[test]
fn unawaited_event_ends_the_request() {
    let (state, action) = cache_step(CacheState::Writing, CacheEvent::OriginFailed);
    assert!(matches!(state, CacheState::Done));
    assert!(matches!(action, CacheAction::PropagateFailure));
    let (_, action) = cache_step(CacheState::Done, CacheEvent::EntryWritten(true));
    assert!(matches!(action, CacheAction::PropagateFailure));
}

#[test]
fn entries_of_different_hosts_never_meet() {
    assert_ne!(cache_entry_segments("..", "/x/a"), cache_entry_segments("x", "/a"));
    assert!(cache_entry_segments("..", "/x/a").is_empty());
    assert_eq!(cache_entry_segments("x", "/a"), strings(&["x", "a"]));
    assert_ne!(cache_entry_segments("a", "/b/c"), cache_entry_segments("b", "/c"));
}

#[test]
fn unknown_token_is_reported_by_name() {
    assert!(matches!(content_encoding(Some("identity")), ContentEncoding::Unrecognized(t) if t == "identity"));
    assert!(matches!(content_encoding(Some("")), ContentEncoding::Unrecognized(t) if t.is_empty()));
}
