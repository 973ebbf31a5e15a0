use pico_lte_proxy::decimal::{decimal_len, push_decimal};
use pico_lte_proxy::message::{Diagnostic, ProxyRequest, ProxyResult};
use pico_lte_proxy::search::{contains, find, matches_at, starts_with};
use pico_lte_proxy::text::{
    append, host_from, path_from, payload_from, truncate, AnnounceText, Payload,
    ANNOUNCE_CAPACITY, COMMAND_CAPACITY, HOST_CAPACITY, PATH_CAPACITY, PAYLOAD_CAPACITY,
    UPSTREAM_CAPACITY,
};

#[test]
fn capacities() {
    assert_eq!(HOST_CAPACITY, 64);
    assert_eq!(PATH_CAPACITY, 128);
    assert_eq!(PAYLOAD_CAPACITY, 8192);
    assert_eq!(ANNOUNCE_CAPACITY, 64);
    assert_eq!(COMMAND_CAPACITY, 256);
    assert_eq!(UPSTREAM_CAPACITY, 512);
}

#[test]
fn append_stores_what_fits() {
    let mut buffer: Payload = payload_from("abc");
    assert!(append(&mut buffer, "def"));
    assert_eq!(buffer.as_str(), "abcdef");
    assert!(append(&mut buffer, ""));
    assert_eq!(buffer.as_str(), "abcdef");
}

#[test]
fn append_up_to_the_capacity() {
    let mut buffer: Payload = payload_from(&"a".repeat(8000));
    assert!(append(&mut buffer, &"b".repeat(192)));
    assert_eq!(buffer.len(), 8192);
    assert_eq!(buffer.as_str(), format!("{}{}", "a".repeat(8000), "b".repeat(192)));
    assert!(append(&mut buffer, ""));
    assert!(!append(&mut buffer, "c"));
    assert_eq!(buffer.len(), 8192);
}

#[test]
fn append_drops_whole_what_does_not_fit() {
    let mut buffer: Payload = payload_from(&"a".repeat(8000));
    assert!(!append(&mut buffer, &"b".repeat(193)));
    assert_eq!(buffer.as_str(), "a".repeat(8000));
    assert!(append(&mut buffer, &"b".repeat(192)));
    assert_eq!(buffer.len(), 8192);
}

#[test]
fn truncate_keeps_the_beginning() {
    let mut buffer: Payload = payload_from("abcdef");
    assert!(truncate(&mut buffer, 4));
    assert_eq!(buffer.as_str(), "abcd");
    assert!(truncate(&mut buffer, 4));
    assert_eq!(buffer.as_str(), "abcd");
    assert!(!truncate(&mut buffer, 5));
    assert_eq!(buffer.as_str(), "abcd");
    assert!(truncate(&mut buffer, 0));
    assert_eq!(buffer.as_str(), "");
    assert!(truncate(&mut buffer, 0));
    assert!(!truncate(&mut buffer, 1));
}

#[test]
fn truncate_does_not_cut_a_character() {
    let mut buffer: Payload = payload_from("a\u{e4}\u{4e2d}b");
    assert!(!truncate(&mut buffer, 2));
    assert!(!truncate(&mut buffer, 4));
    assert!(!truncate(&mut buffer, 5));
    assert_eq!(buffer.as_str(), "a\u{e4}\u{4e2d}b");
    assert!(truncate(&mut buffer, 6));
    assert_eq!(buffer.as_str(), "a\u{e4}\u{4e2d}");
    assert!(truncate(&mut buffer, 3));
    assert_eq!(buffer.as_str(), "a\u{e4}");
    assert!(truncate(&mut buffer, 1));
    assert_eq!(buffer.as_str(), "a");
}

#[test]
fn fresh_buffers_hold_what_fits() {
    assert_eq!(host_from("example.com").as_str(), "example.com");
    assert_eq!(host_from(&"h".repeat(64)).len(), 64);
    assert_eq!(host_from(&"h".repeat(65)).as_str(), "");
    assert_eq!(path_from("/index.html").as_str(), "/index.html");
    assert_eq!(path_from(&"p".repeat(128)).len(), 128);
    assert_eq!(path_from(&"p".repeat(129)).as_str(), "");
    assert_eq!(payload_from("text").as_str(), "text");
    assert_eq!(payload_from(&"t".repeat(8192)).len(), 8192);
    assert_eq!(payload_from(&"t".repeat(8193)).as_str(), "");
}

#[test]
fn capacity_counts_bytes() {
    assert_eq!(host_from(&"\u{e4}".repeat(32)).len(), 64);
    assert_eq!(host_from(&"\u{e4}".repeat(33)).as_str(), "");
}

#[test]
fn request_keeps_its_parts() {
    let request = ProxyRequest::new("example.com", "/page");
    assert_eq!(request.host(), "example.com");
    assert_eq!(request.path(), "/page");
    let request = ProxyRequest::new(&"h".repeat(65), &"p".repeat(129));
    assert_eq!(request.host(), "");
    assert_eq!(request.path(), "");
    let request = ProxyRequest::new(&"h".repeat(65), "/kept");
    assert_eq!(request.host(), "");
    assert_eq!(request.path(), "/kept");
}

#[test]
fn results_carry_payload_or_diagnostic() {
    let result = ProxyResult::success(payload_from("<html></html>"));
    assert!(result.succeeded());
    assert_eq!(result.payload(), "<html></html>");
    let result = ProxyResult::failure(Diagnostic::ConnectionFailed);
    assert!(!result.succeeded());
    assert_eq!(result.payload(), "TCP connection failed");
    let result = ProxyResult::failure(Diagnostic::NoSendPrompt);
    assert!(!result.succeeded());
    assert_eq!(result.payload(), "No send prompt");
}

#[test]
fn diagnostic_texts() {
    assert_eq!(Diagnostic::ConnectionFailed.as_str(), "TCP connection failed");
    assert_eq!(Diagnostic::ConnectionFailed.as_str().len(), 21);
    assert_eq!(Diagnostic::NoSendPrompt.as_str(), "No send prompt");
    assert_eq!(Diagnostic::NoSendPrompt.as_str().len(), 14);
}

#[test]
fn find_names_the_first_occurrence() {
    assert_eq!(find(b"abcabc", b"bc"), Some(1));
    assert_eq!(find(b"abcabc", b"abc"), Some(0));
    assert_eq!(find(b"abcabc", b"cab"), Some(2));
    assert_eq!(find(b"aaab", b"aab"), Some(1));
    assert_eq!(find(b"abc", b"abc"), Some(0));
    assert_eq!(find(b"abc", b"c"), Some(2));
}

#[test]
fn find_names_nothing_without_an_occurrence() {
    assert_eq!(find(b"abc", b"d"), None);
    assert_eq!(find(b"abc", b"abcd"), None);
    assert_eq!(find(b"", b"a"), None);
    assert_eq!(find(b"abc", b"ac"), None);
}

#[test]
fn empty_needle_occurs_at_the_beginning() {
    assert_eq!(find(b"abc", b""), Some(0));
    assert_eq!(find(b"", b""), Some(0));
    assert!(contains(b"", b""));
    assert!(starts_with(b"abc", b""));
}

#[test]
fn contains_and_starts_with() {
    assert!(contains(b"xx+QIOPEN: 0,0\r\n", b"+QIOPEN: 0,0"));
    assert!(!contains(b"xx+QIOPEN: 0,1\r\n", b"+QIOPEN: 0,0"));
    assert!(starts_with(b"GET /proxy?url=x", b"GET /proxy?url="));
    assert!(!starts_with(b" GET /proxy?url=x", b"GET /proxy?url="));
    assert!(!starts_with(b"GET", b"GET /proxy?url="));
}

#[test]
fn matches_at_an_offset() {
    assert!(matches_at(b"abcd", b"cd", 2));
    assert!(!matches_at(b"abcd", b"cd", 1));
    assert!(!matches_at(b"abcd", b"cd", 3));
    assert!(!matches_at(b"abcd", b"cd", 4));
    assert!(!matches_at(b"abcd", b"cd", usize::MAX));
    assert!(matches_at(b"abcd", b"", 4));
    assert!(!matches_at(b"abcd", b"", 5));
}

#[test]
fn decimal_digits_of_lengths() {
    let mut out: AnnounceText = host_from("#");
    assert!(push_decimal(&mut out, 0));
    assert_eq!(out.as_str(), "#0");
    let mut out = AnnounceText::new();
    assert!(push_decimal(&mut out, 7));
    assert!(push_decimal(&mut out, 10));
    assert!(push_decimal(&mut out, 270));
    assert_eq!(out.as_str(), "710270");
    let mut out = AnnounceText::new();
    assert!(push_decimal(&mut out, usize::MAX));
    assert_eq!(out.as_str(), usize::MAX.to_string());
}

#[test]
fn decimal_digits_are_stored_whole_or_not_at_all() {
    let mut out: AnnounceText = host_from(&"x".repeat(60));
    assert!(!push_decimal(&mut out, 12345));
    assert_eq!(out.len(), 60);
    assert!(push_decimal(&mut out, 1234));
    assert_eq!(out.as_str(), format!("{}1234", "x".repeat(60)));
    assert!(!push_decimal(&mut out, 0));
    assert_eq!(out.len(), 64);
}

#[test]
fn number_of_decimal_digits() {
    assert_eq!(decimal_len(0), 1);
    assert_eq!(decimal_len(9), 1);
    assert_eq!(decimal_len(10), 2);
    assert_eq!(decimal_len(99), 2);
    assert_eq!(decimal_len(100), 3);
    assert_eq!(decimal_len(999), 3);
    assert_eq!(decimal_len(1000), 4);
    assert_eq!(decimal_len(usize::MAX), usize::MAX.to_string().len());
}
