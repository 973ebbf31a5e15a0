//! The HTTP response formatter.
//!
//! Every reply to a client is an HTTP/1.1 response with status 200 that
//! closes the connection: a page of upstream content, or a page that shows
//! an error message. A reply is made up in a payload buffer, so what does
//! not fit into its 8192 bytes is dropped whole.
use crate::search::{has_prefix, occurs, occurs_at};
use crate::text::{appended, payload_bytes, payload_from, payload_push_str, Payload};
use vstd::prelude::*;
use vstd::string::StringSliceAdditionalSpecFns;

verus! {

/// The status line of every reply.
pub open spec fn status_line() -> Seq<u8> {
    "HTTP/1.1 200 OK\r\n".spec_bytes()
}

/// The header of a reply that carries upstream content.
pub open spec fn success_header() -> Seq<u8> {
    "HTTP/1.1 200 OK\r\nContent-Type: text/html; charset=utf-8\r\nConnection: close\r\n\r\n".spec_bytes()
}

/// The header of an error reply and its page up to the message.
pub open spec fn error_head() -> Seq<u8> {
    "HTTP/1.1 200 OK\r\nContent-Type: text/html\r\nConnection: close\r\n\r\n<!DOCTYPE html><html><head><title>Pico LTE Proxy - Error</title><style>body{font-family:Arial,sans-serif;margin:40px;}.error{color:red;background:#ffe6e6;padding:15px;border-radius:5px;}</style></head><body><h1>Pico LTE Proxy</h1><div class=\"error\"><h2>Error</h2><p>".spec_bytes()
}

/// The page of an error reply behind the message.
pub open spec fn error_tail() -> Seq<u8> {
    "</p></div><p>Baud rate: <strong>921600</strong></p><p>Try: <a href=\"/\">Auto-proxy www.gzxxzlk.com</a></p><p>Or: /proxy?url=http://example.com</p></body></html>".spec_bytes()
}

/// The reply that carries `content`: the header and the content, or the
/// header alone where the content does not fit behind it.
pub open spec fn framed_success(content: Seq<u8>) -> Seq<u8> {
    appended(success_header(), content, 8192)
}

/// The reply that shows `message`: the head of the page, the message and the
/// tail of the page. A message that does not fit behind the head is dropped
/// together with the tail; a tail that does not fit behind the message is
/// dropped.
pub open spec fn framed_error(message: Seq<u8>) -> Seq<u8> {
    if error_head().len() + message.len() <= 8192 {
        appended(error_head() + message, error_tail(), 8192)
    } else {
        error_head()
    }
}

/// The lengths of the fixed parts of a reply: 78 bytes of success header,
/// 329 bytes of error head and 159 bytes of error tail; each begins with
/// the status line of 17 bytes.
pub proof fn lemma_fixed_parts()
    ensures
        status_line().len() == 17,
        success_header().len() == 78,
        error_head().len() == 329,
        error_tail().len() == 159,
        has_prefix(success_header(), status_line()),
        has_prefix(error_head(), status_line()),
{
    reveal_strlit("HTTP/1.1 200 OK\r\n");
    assert(vstd::string::is_ascii("HTTP/1.1 200 OK\r\n"));
    vstd::string::is_ascii_spec_bytes("HTTP/1.1 200 OK\r\n");
    reveal_strlit("HTTP/1.1 200 OK\r\nContent-Type: text/html; charset=utf-8\r\nConnection: close\r\n\r\n");
    assert(vstd::string::is_ascii("HTTP/1.1 200 OK\r\nContent-Type: text/html; charset=utf-8\r\nConnection: close\r\n\r\n"));
    vstd::string::is_ascii_spec_bytes("HTTP/1.1 200 OK\r\nContent-Type: text/html; charset=utf-8\r\nConnection: close\r\n\r\n");
    reveal_strlit("HTTP/1.1 200 OK\r\nContent-Type: text/html\r\nConnection: close\r\n\r\n<!DOCTYPE html><html><head><title>Pico LTE Proxy - Error</title><style>body{font-family:Arial,sans-serif;margin:40px;}.error{color:red;background:#ffe6e6;padding:15px;border-radius:5px;}</style></head><body><h1>Pico LTE Proxy</h1><div class=\"error\"><h2>Error</h2><p>");
    assert(vstd::string::is_ascii("HTTP/1.1 200 OK\r\nContent-Type: text/html\r\nConnection: close\r\n\r\n<!DOCTYPE html><html><head><title>Pico LTE Proxy - Error</title><style>body{font-family:Arial,sans-serif;margin:40px;}.error{color:red;background:#ffe6e6;padding:15px;border-radius:5px;}</style></head><body><h1>Pico LTE Proxy</h1><div class=\"error\"><h2>Error</h2><p>"));
    vstd::string::is_ascii_spec_bytes("HTTP/1.1 200 OK\r\nContent-Type: text/html\r\nConnection: close\r\n\r\n<!DOCTYPE html><html><head><title>Pico LTE Proxy - Error</title><style>body{font-family:Arial,sans-serif;margin:40px;}.error{color:red;background:#ffe6e6;padding:15px;border-radius:5px;}</style></head><body><h1>Pico LTE Proxy</h1><div class=\"error\"><h2>Error</h2><p>");
    reveal_strlit("</p></div><p>Baud rate: <strong>921600</strong></p><p>Try: <a href=\"/\">Auto-proxy www.gzxxzlk.com</a></p><p>Or: /proxy?url=http://example.com</p></body></html>");
    assert(vstd::string::is_ascii("</p></div><p>Baud rate: <strong>921600</strong></p><p>Try: <a href=\"/\">Auto-proxy www.gzxxzlk.com</a></p><p>Or: /proxy?url=http://example.com</p></body></html>"));
    vstd::string::is_ascii_spec_bytes("</p></div><p>Baud rate: <strong>921600</strong></p><p>Try: <a href=\"/\">Auto-proxy www.gzxxzlk.com</a></p><p>Or: /proxy?url=http://example.com</p></body></html>");
    assert(success_header().subrange(0, 17) =~= status_line());
    assert(error_head().subrange(0, 17) =~= status_line());
}

/// Wraps `content` in a reply with an HTML content type.
pub fn format_success(content: &str) -> (reply: Payload)
    ensures
        payload_bytes(&reply) == framed_success(content.spec_bytes()),
{
    proof {
        lemma_fixed_parts();
    }
    let mut reply = payload_from(
        "HTTP/1.1 200 OK\r\nContent-Type: text/html; charset=utf-8\r\nConnection: close\r\n\r\n",
    );
    let _ = payload_push_str(&mut reply, content);
    reply
}

/// Wraps `message` in a reply that shows it on an error page.
pub fn format_error(message: &str) -> (reply: Payload)
    ensures
        payload_bytes(&reply) == framed_error(message.spec_bytes()),
{
    proof {
        lemma_fixed_parts();
    }
    let mut reply = payload_from(
        "HTTP/1.1 200 OK\r\nContent-Type: text/html\r\nConnection: close\r\n\r\n<!DOCTYPE html><html><head><title>Pico LTE Proxy - Error</title><style>body{font-family:Arial,sans-serif;margin:40px;}.error{color:red;background:#ffe6e6;padding:15px;border-radius:5px;}</style></head><body><h1>Pico LTE Proxy</h1><div class=\"error\"><h2>Error</h2><p>",
    );
    if payload_push_str(&mut reply, message).is_ok() {
        let _ = payload_push_str(
            &mut reply,
            "</p></div><p>Baud rate: <strong>921600</strong></p><p>Try: <a href=\"/\">Auto-proxy www.gzxxzlk.com</a></p><p>Or: /proxy?url=http://example.com</p></body></html>",
        );
    }
    reply
}

/// A text occurs in the concatenation that it is part of.
proof fn lemma_occurs_in_middle(before: Seq<u8>, text: Seq<u8>, after: Seq<u8>)
    ensures
        occurs(before + text + after, text),
{
    let whole = before + text + after;
    assert(whole.subrange(before.len() as int, (before.len() + text.len()) as int) =~= text);
    assert(occurs_at(whole, text, before.len() as int));
}

/// Every reply begins with the status line of status 200.
pub proof fn lemma_reply_has_status_line(text: Seq<u8>)
    ensures
        has_prefix(framed_success(text), status_line()),
        has_prefix(framed_error(text), status_line()),
{
    lemma_fixed_parts();
    assert(framed_success(text).subrange(0, 17) =~= success_header().subrange(0, 17));
    assert(framed_error(text).subrange(0, 17) =~= error_head().subrange(0, 17));
}

/// A reply holds its content word for word exactly when the content fits
/// behind the header: a content of up to 8114 bytes.
pub proof fn lemma_success_holds_content(content: Seq<u8>)
    ensures
        occurs(framed_success(content), content) <==> content.len() <= 8192 - 78,
        content.len() <= 8192 - 78 ==> framed_success(content) == success_header() + content,
{
    lemma_fixed_parts();
    if content.len() <= 8192 - 78 {
        lemma_occurs_in_middle(success_header(), content, Seq::<u8>::empty());
        assert(success_header() + content + Seq::<u8>::empty() =~= success_header() + content);
    } else {
        assert forall|at: int| !occurs_at(framed_success(content), content, at) by {}
    }
}

/// An error reply holds its message word for word exactly when the message
/// fits behind the head of the page: a message of up to 7863 bytes. The
/// page is whole for a message of up to 7704 bytes.
pub proof fn lemma_error_holds_message(message: Seq<u8>)
    ensures
        occurs(framed_error(message), message) <==> message.len() <= 8192 - 329,
        message.len() <= 8192 - 329 - 159 ==> framed_error(message) == error_head() + message
            + error_tail(),
{
    lemma_fixed_parts();
    if message.len() <= 8192 - 329 {
        lemma_occurs_in_middle(error_head(), message, error_tail());
        lemma_occurs_in_middle(error_head(), message, Seq::<u8>::empty());
        assert(error_head() + message + Seq::<u8>::empty() =~= error_head() + message);
    } else {
        assert forall|at: int| !occurs_at(framed_error(message), message, at) by {}
    }
}

} // verus!
