use pico_lte_proxy::extract::{extract, find_artifact, find_content_start};

fn recovered(transcript: &str) -> String {
    extract(transcript).as_str().to_string()
}

#[test]
fn content_behind_header_cut_at_artifact() {
    assert_eq!(
        recovered("junk\r\n\r\n<!DOCTYPE html><html>hi</html>AT+OK\r\n"),
        "<!DOCTYPE html><html>hi</html>"
    );
}

#[test]
fn content_begins_behind_the_first_blank_line() {
    assert_eq!(recovered("HTTP/1.1 200\r\nA: b\r\n\r\nbody"), "body");
    assert_eq!(recovered("a\r\n\r\nb\r\n\r\nc"), "b\r\n\r\nc");
    assert_eq!(recovered("\r\n\r\n"), "");
    assert_eq!(recovered("x<html>\r\n\r\n<body>"), "<body>");
}

#[test]
fn content_begins_at_the_document_type() {
    assert_eq!(recovered("noise<!DOCTYPE html><html>x"), "<!DOCTYPE html><html>x");
    assert_eq!(recovered("<html>a<!DOCTYPE b"), "<!DOCTYPE b");
}

#[test]
fn content_begins_at_the_html_tag() {
    assert_eq!(recovered("noise<html lang>x<body>"), "<html lang>x<body>");
    assert_eq!(recovered("<body>a<html>b"), "<html>b");
}

#[test]
fn content_begins_at_the_body_tag() {
    assert_eq!(recovered("noise<body>x"), "<body>x");
}

#[test]
fn content_is_the_whole_transcript_without_any_mark() {
    assert_eq!(recovered("plain text"), "plain text");
    assert_eq!(recovered(""), "");
    assert_eq!(recovered("<HTML>upper case is no mark"), "<HTML>upper case is no mark");
}

#[test]
fn earliest_artifact_decides_the_cut() {
    assert_eq!(recovered("a+QIb AT+c"), "a");
    assert_eq!(recovered("x+QIy AT+z"), "x");
    assert_eq!(recovered("xAT+y +QIz"), "x");
    assert_eq!(recovered("abc+QIOPEN: 0,0"), "abc");
    assert_eq!(recovered("abcSEND OKdef"), "abc");
    assert_eq!(recovered("abc OK\r\ndef"), "abc ");
    assert_eq!(recovered("aSEND OK b+QI"), "a");
    assert_eq!(recovered("a OK\r\nSEND OK AT+"), "a ");
    assert_eq!(recovered("body\r\nSEND OK\r\n"), "body\r\n");
    assert_eq!(recovered("AT+"), "");
    assert_eq!(recovered("OK\r"), "OK\r");
    assert_eq!(recovered("AT +Q I SEND  OK OK\n"), "AT +Q I SEND  OK OK\n");
}

#[test]
fn no_artifact_remains() {
    for transcript in [
        "a+QIb AT+c",
        "x\r\n\r\n<html>SEND OK</html>+QIAT+OK\r\n",
        "OK\r\nOK\r\n",
        "+QAT+QI",
        "SEND OSEND OK",
        "plain",
    ] {
        let once = recovered(transcript);
        for artifact in ["AT+", "+QI", "SEND OK", "OK\r\n"] {
            assert!(!once.contains(artifact));
        }
    }
    assert_eq!(recovered("+QAT+QI"), "+Q");
    assert_eq!(recovered("SEND OSEND OK"), "SEND O");
}

#[test]
fn cut_applies_to_the_region_only() {
    assert_eq!(recovered("AT+QISEND\r\n\r\n<p>kept</p>"), "<p>kept</p>");
}

#[test]
fn text_that_is_not_ascii_is_kept_whole() {
    assert_eq!(recovered("x\r\n\r\n\u{e4}\u{4e2d}\u{1f600}AT+"), "\u{e4}\u{4e2d}\u{1f600}");
    assert_eq!(recovered("\u{4e2d}<body>\u{4e2d}OK\r\n"), "<body>\u{4e2d}");
}

#[test]
fn extraction_leaves_isolated_content_alone() {
    for transcript in [
        "junk\r\n\r\n<!DOCTYPE html><html>hi</html>AT+OK\r\n",
        "HTTP/1.1 200 OK\r\n\r\n<html><body>x</body></html>\r\nOK\r\n",
        "plain",
        "",
    ] {
        let once = recovered(transcript);
        assert_eq!(recovered(&once), once);
    }
}

#[test]
fn extraction_goes_on_where_marks_remain() {
    let once = recovered("a\r\n\r\nb\r\n\r\nc");
    assert_eq!(once, "b\r\n\r\nc");
    assert_eq!(recovered(&once), "c");
    let once = recovered("a<body>b<html>c");
    assert_eq!(once, "<html>c");
    assert_eq!(recovered(&once), once);
    let once = recovered("<html>a<body>AT+");
    assert_eq!(once, "<html>a<body>");
    assert_eq!(recovered(&once), once);
}

#[test]
fn region_at_the_capacity_is_kept() {
    let body = "b".repeat(8192);
    let transcript = format!("h\r\n\r\n{}", body);
    assert_eq!(recovered(&transcript), body);
}

#[test]
fn region_over_the_capacity_is_dropped() {
    let body = "b".repeat(8193);
    let transcript = format!("h\r\n\r\n{}", body);
    assert_eq!(recovered(&transcript), "");
    assert_eq!(recovered(&body), "");
}

#[test]
fn start_of_content() {
    assert_eq!(find_content_start(b"ab\r\n\r\ncd"), 6);
    assert_eq!(find_content_start(b"ab<!DOCTYPE"), 2);
    assert_eq!(find_content_start(b"abc<html"), 3);
    assert_eq!(find_content_start(b"a<body"), 1);
    assert_eq!(find_content_start(b"abcd"), 0);
    assert_eq!(find_content_start(b""), 0);
}

#[test]
fn place_of_the_cut() {
    assert_eq!(find_artifact(b"abcAT+"), Some(3));
    assert_eq!(find_artifact(b"+QI AT+"), Some(0));
    assert_eq!(find_artifact(b"a+QIb AT+c"), Some(1));
    assert_eq!(find_artifact(b"abc OK\r\n AT+"), Some(4));
    assert_eq!(find_artifact(b"abSEND OK\r\n"), Some(2));
    assert_eq!(find_artifact(b"ab+QI"), Some(2));
    assert_eq!(find_artifact(b"SEND OK"), Some(0));
    assert_eq!(find_artifact(b"xOK\r\n"), Some(1));
    assert_eq!(find_artifact(b"nothing here"), None);
    assert_eq!(find_artifact(b""), None);
}
