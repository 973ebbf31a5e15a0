//! The proxy request parser.
//!
//! A client asks for a page in one of two ways. A request that begins with
//! `GET /proxy?url=` names its target itself: the value right behind that
//! prefix has to begin with `http://`, and what follows up to the first
//! white space or `&` is split at its first `/` into host and path. Any
//! other request is served from a fixed default origin.
use crate::message::{ProxyRequest, RequestView};
use crate::search::{
    find, first_occurrence, has_prefix, lemma_first_occurrence, matches_at, occurs, occurs_at,
    starts_with,
};
use crate::text::{
    bounded, lemma_boundary_after_ascii, lemma_boundary_at, lemma_str_is_utf8, slice_between,
    slice_from,
};
use vstd::prelude::*;
use vstd::string::StringSliceAdditionalSpecFns;

verus! {

/// How a request begins that names its target itself.
pub open spec fn proxy_prefix() -> Seq<u8> {
    "GET /proxy?url=".spec_bytes()
}

/// How the value of such a request has to begin.
pub open spec fn http_scheme() -> Seq<u8> {
    "http://".spec_bytes()
}

/// The value of a request of the proxy form begins with `http://`.
pub open spec fn names_http_target(text: Seq<u8>) -> bool {
    occurs_at(text, http_scheme(), proxy_prefix().len() as int)
}

/// The separator between host and path.
pub open spec fn slash() -> Seq<u8> {
    "/".spec_bytes()
}

/// The host that is asked where a request names none.
pub open spec fn default_host() -> Seq<u8> {
    "www.gzxxzlk.com".spec_bytes()
}

/// The path that is asked for where a request names none.
pub open spec fn default_path() -> Seq<u8> {
    "/".spec_bytes()
}

/// The number of bytes of the white-space character whose UTF-8 encoding
/// begins at offset `at` of `text`, and 0 where none begins there. White
/// space is what Unicode gives the property `White_Space`: U+0009 to U+000D,
/// U+0020, U+0085, U+00A0, U+1680, U+2000 to U+200A, U+2028, U+2029,
/// U+202F, U+205F and U+3000.
pub open spec fn white_space_width(text: Seq<u8>, at: int) -> int {
    if at < 0 || at >= text.len() {
        0
    } else if (0x09 <= text[at] <= 0x0d) || text[at] == 0x20 {
        1
    } else if at + 1 < text.len() && text[at] == 0xc2 && (text[at + 1] == 0x85 || text[at + 1]
        == 0xa0) {
        2
    } else if at + 2 < text.len() && text[at] == 0xe1 && text[at + 1] == 0x9a && text[at + 2]
        == 0x80 {
        3
    } else if at + 2 < text.len() && text[at] == 0xe2 && text[at + 1] == 0x80 && ((0x80 <= text[at
        + 2] <= 0x8a) || text[at + 2] == 0xa8 || text[at + 2] == 0xa9 || text[at + 2] == 0xaf) {
        3
    } else if at + 2 < text.len() && text[at] == 0xe2 && text[at + 1] == 0x81 && text[at + 2]
        == 0x9f {
        3
    } else if at + 2 < text.len() && text[at] == 0xe3 && text[at + 1] == 0x80 && text[at + 2]
        == 0x80 {
        3
    } else {
        0
    }
}

/// A target value ends at offset `at` of `text`: a white-space character or
/// `&` begins there.
pub open spec fn ends_value(text: Seq<u8>, at: int) -> bool {
    0 <= at < text.len() && (text[at] == 0x26 || white_space_width(text, at) > 0)
}

/// Offset `at` is the first at which a target value ends in `text`.
pub open spec fn is_value_end(text: Seq<u8>, at: int) -> bool {
    ends_value(text, at) && forall|j: int| 0 <= j < at ==> !ends_value(text, j)
}

/// The first offset at which a target value ends in `text`, if there is
/// one.
pub open spec fn value_end(text: Seq<u8>) -> Option<int> {
    if exists|at: int| is_value_end(text, at) {
        Some(choose|at: int| is_value_end(text, at))
    } else {
        None
    }
}

/// The target value of a request of the proxy form: what stands between
/// the `http://` right behind the prefix and the first white space or `&`
/// behind it. There is none where the value does not begin with `http://`
/// or where it does not end.
pub open spec fn url_value(text: Seq<u8>) -> Option<Seq<u8>> {
    if names_http_target(text) {
        let rest = text.subrange(
            (proxy_prefix().len() + http_scheme().len()) as int,
            text.len() as int,
        );
        match value_end(rest) {
            None => None,
            Some(end) => Some(rest.subrange(0, end)),
        }
    } else {
        None
    }
}

/// Host and path of a target value: what stands before its first `/`, and
/// the rest from that `/` on; a value without `/` is a host, with the path
/// `/`.
pub open spec fn split_target(value: Seq<u8>) -> (Seq<u8>, Seq<u8>) {
    match first_occurrence(value, slash()) {
        Some(at) => (value.subrange(0, at), value.subrange(at, value.len() as int)),
        None => (value, slash()),
    }
}

/// The request that the text of a client request asks for, if it asks for
/// one. A host of more than 64 bytes or a path of more than 128 bytes is
/// dropped and left empty.
pub open spec fn parsed(text: Seq<u8>) -> Option<RequestView> {
    if !has_prefix(text, proxy_prefix()) {
        Some(RequestView { host: default_host(), path: default_path() })
    } else {
        match url_value(text) {
            None => None,
            Some(value) => Some(
                RequestView {
                    host: bounded(split_target(value).0, 64),
                    path: bounded(split_target(value).1, 128),
                },
            ),
        }
    }
}

/// A first end of a value is the one that `value_end` names.
proof fn lemma_value_end_unique(text: Seq<u8>, at: int)
    requires
        is_value_end(text, at),
    ensures
        value_end(text) == Some(at),
{
    let chosen = choose|at: int| is_value_end(text, at);
    assert(is_value_end(text, chosen));
    if chosen < at {
        assert(!ends_value(text, chosen));
    } else if at < chosen {
        assert(!ends_value(text, at));
    }
}

/// The number of bytes of the white-space character that begins at offset
/// `at` of `text`, and 0 where none begins there.
pub fn white_space_at(text: &[u8], at: usize) -> (width: usize)
    ensures
        width == white_space_width(text@, at as int),
{
    if at >= text.len() {
        return 0;
    }
    let first = text[at];
    if (0x09 <= first && first <= 0x0d) || first == 0x20 {
        return 1;
    }
    if text.len() - at >= 2 && first == 0xc2 {
        let second = text[at + 1];
        if second == 0x85 || second == 0xa0 {
            return 2;
        }
    }
    if text.len() - at >= 3 {
        let second = text[at + 1];
        let third = text[at + 2];
        if first == 0xe1 && second == 0x9a && third == 0x80 {
            return 3;
        }
        if first == 0xe2 && second == 0x80 && ((0x80 <= third && third <= 0x8a) || third == 0xa8
            || third == 0xa9 || third == 0xaf) {
            return 3;
        }
        if first == 0xe2 && second == 0x81 && third == 0x9f {
            return 3;
        }
        if first == 0xe3 && second == 0x80 && third == 0x80 {
            return 3;
        }
    }
    0
}

/// The first offset of `text` at which a white-space character or `&`
/// begins.
pub fn find_value_end(text: &[u8]) -> (r: Option<usize>)
    ensures
        match r {
            Some(at) => value_end(text@) == Some(at as int),
            None => value_end(text@) is None,
        },
{
    let mut at: usize = 0;
    while at < text.len()
        invariant
            at <= text.len(),
            forall|j: int| 0 <= j < at ==> !ends_value(text@, j),
        decreases text.len() - at,
    {
        if text[at] == 0x26 || white_space_at(text, at) > 0 {
            proof {
                lemma_value_end_unique(text@, at as int);
            }
            return Some(at);
        }
        at += 1;
    }
    assert forall|k: int| !is_value_end(text@, k) by {
        if is_value_end(text@, k) {
            assert(ends_value(text@, k));
        }
    }
    None
}

/// The prefix of the proxy form has 15 bytes, and `http://` has 7, the
/// last of which is `/`: a target value begins at offset 22.
pub proof fn lemma_request_heads()
    ensures
        proxy_prefix().len() == 15,
        http_scheme().len() == 7,
        http_scheme()[6] == 0x2f,
{
    reveal_strlit("GET /proxy?url=");
    assert(vstd::string::is_ascii("GET /proxy?url="));
    vstd::string::is_ascii_spec_bytes("GET /proxy?url=");
    reveal_strlit("http://");
    assert(vstd::string::is_ascii("http://"));
    vstd::string::is_ascii_spec_bytes("http://");
}

/// The default origin fits the buffers of a request.
proof fn lemma_default_origin()
    ensures
        default_host().len() == 15,
        default_path().len() == 1,
{
    reveal_strlit("www.gzxxzlk.com");
    assert(vstd::string::is_ascii("www.gzxxzlk.com"));
    vstd::string::is_ascii_spec_bytes("www.gzxxzlk.com");
    lemma_slash();
}

/// The request that a client request asks for: its own target where it has
/// the proxy form, and the default origin otherwise. A request of the proxy
/// form is turned down where its value does not begin with `http://` or
/// does not end.
pub fn parse_request(text: &str) -> (r: Option<ProxyRequest>)
    ensures
        match parsed(text.spec_bytes()) {
            Some(request) => r is Some && r->Some_0@ == request,
            None => r is None,
        },
{
    let bytes = text.as_bytes();
    proof {
        lemma_slash();
        lemma_default_origin();
        lemma_request_heads();
        lemma_str_is_utf8(text);
    }
    if !starts_with(bytes, "GET /proxy?url=".as_bytes()) {
        return Some(ProxyRequest::new("www.gzxxzlk.com", "/"));
    }
    if !matches_at(bytes, "http://".as_bytes(), 15) {
        return None;
    }
    proof {
        let window = bytes@.subrange(15, 22);
        assert(window[6] == bytes@[21]);
        lemma_boundary_after_ascii(bytes@, 21);
    }
    let rest = slice_from(text, 22);
    match find_value_end(rest.as_bytes()) {
        None => None,
        Some(end) => {
            proof {
                lemma_str_is_utf8(rest);
                assert(ends_value(rest.spec_bytes(), end as int));
                lemma_boundary_at(rest.spec_bytes(), end as int);
                lemma_boundary_at(rest.spec_bytes(), 0);
            }
            let value = slice_between(rest, 0, end);
            proof {
                lemma_str_is_utf8(value);
                lemma_first_occurrence(value.spec_bytes(), slash());
            }
            match find(value.as_bytes(), "/".as_bytes()) {
                Some(cut) => {
                    proof {
                        let window = value.spec_bytes().subrange(cut as int, cut + 1);
                        assert(window[0] == value.spec_bytes()[cut as int]);
                        lemma_boundary_at(value.spec_bytes(), cut as int);
                        lemma_boundary_at(value.spec_bytes(), 0);
                    }
                    let host = slice_between(value, 0, cut);
                    let path = slice_from(value, cut);
                    Some(ProxyRequest::new(host, path))
                },
                None => Some(ProxyRequest::new(value, "/")),
            }
        },
    }
}

/// Every byte of `text` is ASCII.
pub open spec fn is_ascii_text(text: Seq<u8>) -> bool {
    forall|i: int| 0 <= i < text.len() ==> #[trigger] text[i] <= 0x7f
}

/// The separator between host and path is the one byte `/`.
pub proof fn lemma_slash()
    ensures
        slash() == seq![0x2fu8],
{
    reveal_strlit("/");
    assert(vstd::string::is_ascii("/"));
    vstd::string::is_ascii_spec_bytes("/");
    assert(slash() =~= seq![0x2fu8]);
}

/// A request of the proxy form is accepted exactly when its value begins
/// with `http://` and ends in white space or `&`.
pub proof fn lemma_accepted_has_a_value(text: Seq<u8>)
    requires
        has_prefix(text, proxy_prefix()),
    ensures
        parsed(text) is Some <==> url_value(text) is Some,
        url_value(text) is Some ==> names_http_target(text),
{
}

/// The host of an accepted request of the proxy form is what stands before
/// the first `/` of the target value, or the whole value where it has no
/// `/`. This holds where that part has at most 64 bytes; a longer one is
/// dropped.
pub proof fn lemma_accepted_host_is_before_the_slash(text: Seq<u8>)
    requires
        has_prefix(text, proxy_prefix()),
        parsed(text) is Some,
        split_target(url_value(text)->Some_0).0.len() <= 64,
    ensures
        ({
            let value = url_value(text)->Some_0;
            let host = parsed(text)->Some_0.host;
            &&& !occurs(host, slash())
            &&& host.len() <= value.len()
            &&& host == value.subrange(0, host.len() as int)
            &&& host.len() < value.len() ==> value[host.len() as int] == 0x2f
            &&& host.len() == value.len() <==> !occurs(value, slash())
        }),
{
    lemma_slash();
    let value = url_value(text)->Some_0;
    let host = parsed(text)->Some_0.host;
    lemma_first_occurrence(value, slash());
    match first_occurrence(value, slash()) {
        Some(at) => {
            assert(value.subrange(at, at + 1)[0] == value[at]);
            assert(occurs(value, slash()));
            assert forall|j: int| !occurs_at(host, slash(), j) by {
                if occurs_at(host, slash(), j) {
                    assert(host.subrange(j, j + 1) =~= value.subrange(j, j + 1));
                    assert(occurs_at(value, slash(), j));
                }
            }
        },
        None => {
            assert(host =~= value.subrange(0, host.len() as int));
        },
    }
}

/// The path of an accepted request of the proxy form is the target value
/// from its first `/` on, or `/` where the value has none; it is not empty
/// and begins with `/`. This holds where that part has at most 128 bytes; a
/// longer one is dropped.
pub proof fn lemma_accepted_path_is_the_rest(text: Seq<u8>)
    requires
        has_prefix(text, proxy_prefix()),
        parsed(text) is Some,
        split_target(url_value(text)->Some_0).1.len() <= 128,
    ensures
        ({
            let value = url_value(text)->Some_0;
            let path = parsed(text)->Some_0.path;
            &&& path.len() > 0
            &&& path[0] == 0x2f
            &&& first_occurrence(value, slash()) matches Some(at) ==> path == value.subrange(
                at,
                value.len() as int,
            )
            &&& !occurs(value, slash()) ==> path == slash()
        }),
{
    lemma_slash();
    let value = url_value(text)->Some_0;
    lemma_first_occurrence(value, slash());
    match first_occurrence(value, slash()) {
        Some(at) => {
            assert(value.subrange(at, at + 1)[0] == value[at]);
        },
        None => {},
    }
}

/// Host and path of an accepted request of the proxy form make up the
/// target value where the value has a `/` and both parts fit.
pub proof fn lemma_accepted_target_is_split(text: Seq<u8>)
    requires
        has_prefix(text, proxy_prefix()),
        parsed(text) is Some,
        split_target(url_value(text)->Some_0).0.len() <= 64,
        split_target(url_value(text)->Some_0).1.len() <= 128,
        occurs(url_value(text)->Some_0, slash()),
    ensures
        url_value(text)->Some_0 == parsed(text)->Some_0.host + parsed(text)->Some_0.path,
{
    let value = url_value(text)->Some_0;
    let request = parsed(text)->Some_0;
    lemma_first_occurrence(value, slash());
    assert(value =~= request.host + request.path);
}

/// Host and path of an accepted request of the proxy form are ASCII where
/// the target value is.
pub proof fn lemma_accepted_target_is_ascii(text: Seq<u8>)
    requires
        has_prefix(text, proxy_prefix()),
        parsed(text) is Some,
        is_ascii_text(url_value(text)->Some_0),
    ensures
        is_ascii_text(parsed(text)->Some_0.host),
        is_ascii_text(parsed(text)->Some_0.path),
{
    lemma_slash();
    let value = url_value(text)->Some_0;
    lemma_first_occurrence(value, slash());
}

/// The host of an accepted request of the proxy form is not empty where the
/// target value begins with a host of at most 64 bytes: where the value is
/// not empty and does not begin with `/`.
pub proof fn lemma_accepted_host_is_not_empty(text: Seq<u8>)
    requires
        has_prefix(text, proxy_prefix()),
        parsed(text) is Some,
        split_target(url_value(text)->Some_0).0.len() <= 64,
        url_value(text)->Some_0.len() > 0,
        url_value(text)->Some_0[0] != 0x2f,
    ensures
        parsed(text)->Some_0.host.len() > 0,
{
    lemma_slash();
    let value = url_value(text)->Some_0;
    lemma_first_occurrence(value, slash());
    match first_occurrence(value, slash()) {
        Some(at) => {
            assert(value.subrange(at, at + 1)[0] == value[at]);
        },
        None => {},
    }
}

/// A request of the proxy form whose value does not begin with `http://` is
/// turned down, whatever stands further on in the request.
pub proof fn lemma_rejects_value_without_scheme(text: Seq<u8>)
    requires
        has_prefix(text, proxy_prefix()),
        !names_http_target(text),
    ensures
        parsed(text) is None,
{
}

} // verus!
