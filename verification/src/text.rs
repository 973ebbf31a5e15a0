//! Bounded text buffers and slicing of UTF-8 text.
//!
//! Host names, paths, payloads and the lines that are written to the modem
//! live in the fixed-capacity strings of the `heapless` crate. Such a buffer
//! takes an append whole or not at all: a text that does not fit into what
//! is left of the capacity is dropped and the buffer stays as it was.
//! Contracts speak of a text by its UTF-8 bytes.
use vstd::prelude::*;
use vstd::string::StringSliceAdditionalSpecFns;
use vstd::utf8::*;

verus! {

/// `heapless::String<N>`: a string of at most `N` bytes that is stored in
/// place. Its contents are read and changed only through the functions of
/// this module.
#[verifier::external_type_specification]
#[verifier::external_body]
pub struct ExBoundedString<const N: usize>(heapless::String<N>);

/// Capacity of a host name, in bytes.
pub const HOST_CAPACITY: usize = 64;

/// Capacity of a request path, in bytes.
pub const PATH_CAPACITY: usize = 128;

/// Capacity of the command that announces a length, in bytes.
pub const ANNOUNCE_CAPACITY: usize = 64;

/// Capacity of a command line, in bytes.
pub const COMMAND_CAPACITY: usize = 256;

/// Capacity of the request that is sent upstream, in bytes.
pub const UPSTREAM_CAPACITY: usize = 512;

/// Capacity of a payload, a transcript or a framed reply, in bytes.
pub const PAYLOAD_CAPACITY: usize = 8192;

/// Buffer of a host name.
pub type HostText = heapless::String<HOST_CAPACITY>;

/// Buffer of a request path.
pub type PathText = heapless::String<PATH_CAPACITY>;

/// Buffer of the command that announces a length. It is of the same type
/// as the buffer of a host name.
pub type AnnounceText = heapless::String<ANNOUNCE_CAPACITY>;

/// Buffer of a command line.
pub type CommandText = heapless::String<COMMAND_CAPACITY>;

/// Buffer of the request that is sent upstream.
pub type UpstreamText = heapless::String<UPSTREAM_CAPACITY>;

/// Buffer of a payload: a session transcript, extracted content or a framed
/// reply.
pub type Payload = heapless::String<PAYLOAD_CAPACITY>;

/// The UTF-8 bytes that a buffer of 64 bytes holds: a host name, or the
/// command that announces a length.
pub uninterp spec fn short_bytes(text: &heapless::String<64>) -> Seq<u8>;

/// The UTF-8 bytes that a path buffer holds.
pub uninterp spec fn path_bytes(text: &PathText) -> Seq<u8>;

/// The UTF-8 bytes that a command buffer holds.
pub uninterp spec fn command_bytes(text: &CommandText) -> Seq<u8>;

/// The UTF-8 bytes that an upstream buffer holds.
pub uninterp spec fn upstream_bytes(text: &UpstreamText) -> Seq<u8>;

/// The UTF-8 bytes that a payload buffer holds.
pub uninterp spec fn payload_bytes(text: &Payload) -> Seq<u8>;

/// What a buffer of capacity `capacity` holds after an append of `added` to
/// `held`: both, if they fit together, and `held` alone otherwise.
pub open spec fn appended(held: Seq<u8>, added: Seq<u8>, capacity: int) -> Seq<u8> {
    if held.len() + added.len() <= capacity {
        held + added
    } else {
        held
    }
}

/// What a fresh buffer of capacity `capacity` holds after one append of
/// `text`: the text if it fits, and nothing otherwise.
pub open spec fn bounded(text: Seq<u8>, capacity: int) -> Seq<u8> {
    appended(Seq::<u8>::empty(), text, capacity)
}

/// Calls `heapless::String::<64>::new`, which returns an empty buffer.
#[verifier::external_body]
pub(crate) fn short_new() -> (text: heapless::String<64>)
    ensures
        short_bytes(&text) == Seq::<u8>::empty(),
{
    heapless::String::new()
}

/// Calls `heapless::String::<64>::push_str`. It succeeds exactly when the
/// bytes of `s` fit into what is left of the 64 bytes and then appends all
/// of them; otherwise it returns an error and the buffer is unchanged.
#[verifier::external_body]
pub(crate) fn short_push_str(text: &mut heapless::String<64>, s: &str) -> (r: Result<(), ()>)
    ensures
        r is Ok <==> short_bytes(old(text)).len() + s.spec_bytes().len() <= 64,
        short_bytes(final(text)) == appended(short_bytes(old(text)), s.spec_bytes(), 64),
{
    text.push_str(s)
}

/// Calls `heapless::String::<64>::as_str`, which returns the contents of the
/// buffer; they never exceed 64 bytes.
#[verifier::external_body]
pub(crate) fn short_as_str(text: &heapless::String<64>) -> (s: &str)
    ensures
        s.spec_bytes() == short_bytes(text),
        s.spec_bytes().len() <= 64,
{
    text.as_str()
}

/// Calls `heapless::String::<128>::new`, which returns an empty buffer.
#[verifier::external_body]
pub(crate) fn path_new() -> (text: PathText)
    ensures
        path_bytes(&text) == Seq::<u8>::empty(),
{
    heapless::String::new()
}

/// Calls `heapless::String::<128>::push_str`. It succeeds exactly when the
/// bytes of `s` fit into what is left of the 128 bytes and then appends all
/// of them; otherwise it returns an error and the buffer is unchanged.
#[verifier::external_body]
pub(crate) fn path_push_str(text: &mut PathText, s: &str) -> (r: Result<(), ()>)
    ensures
        r is Ok <==> path_bytes(old(text)).len() + s.spec_bytes().len() <= 128,
        path_bytes(final(text)) == appended(path_bytes(old(text)), s.spec_bytes(), 128),
{
    text.push_str(s)
}

/// Calls `heapless::String::<128>::as_str`, which returns the contents of
/// the buffer; they never exceed 128 bytes.
#[verifier::external_body]
pub(crate) fn path_as_str(text: &PathText) -> (s: &str)
    ensures
        s.spec_bytes() == path_bytes(text),
        s.spec_bytes().len() <= 128,
{
    text.as_str()
}

/// Calls `heapless::String::<256>::new`, which returns an empty buffer.
#[verifier::external_body]
pub(crate) fn command_new() -> (text: CommandText)
    ensures
        command_bytes(&text) == Seq::<u8>::empty(),
{
    heapless::String::new()
}

/// Calls `heapless::String::<256>::push_str`. It succeeds exactly when the
/// bytes of `s` fit into what is left of the 256 bytes and then appends all
/// of them; otherwise it returns an error and the buffer is unchanged.
#[verifier::external_body]
pub(crate) fn command_push_str(text: &mut CommandText, s: &str) -> (r: Result<(), ()>)
    ensures
        r is Ok <==> command_bytes(old(text)).len() + s.spec_bytes().len() <= 256,
        command_bytes(final(text)) == appended(command_bytes(old(text)), s.spec_bytes(), 256),
{
    text.push_str(s)
}

/// Calls `heapless::String::<256>::as_str`, which returns the contents of
/// the buffer; they never exceed 256 bytes.
#[verifier::external_body]
pub(crate) fn command_as_str(text: &CommandText) -> (s: &str)
    ensures
        s.spec_bytes() == command_bytes(text),
        s.spec_bytes().len() <= 256,
{
    text.as_str()
}

/// Calls `heapless::String::<512>::new`, which returns an empty buffer.
#[verifier::external_body]
pub(crate) fn upstream_new() -> (text: UpstreamText)
    ensures
        upstream_bytes(&text) == Seq::<u8>::empty(),
{
    heapless::String::new()
}

/// Calls `heapless::String::<512>::push_str`. It succeeds exactly when the
/// bytes of `s` fit into what is left of the 512 bytes and then appends all
/// of them; otherwise it returns an error and the buffer is unchanged.
#[verifier::external_body]
pub(crate) fn upstream_push_str(text: &mut UpstreamText, s: &str) -> (r: Result<(), ()>)
    ensures
        r is Ok <==> upstream_bytes(old(text)).len() + s.spec_bytes().len() <= 512,
        upstream_bytes(final(text)) == appended(upstream_bytes(old(text)), s.spec_bytes(), 512),
{
    text.push_str(s)
}

/// Calls `heapless::String::<512>::as_str`, which returns the contents of
/// the buffer; they never exceed 512 bytes.
#[verifier::external_body]
pub(crate) fn upstream_as_str(text: &UpstreamText) -> (s: &str)
    ensures
        s.spec_bytes() == upstream_bytes(text),
        s.spec_bytes().len() <= 512,
{
    text.as_str()
}

/// Calls `heapless::String::<8192>::new`, which returns an empty buffer.
#[verifier::external_body]
pub(crate) fn payload_new() -> (text: Payload)
    ensures
        payload_bytes(&text) == Seq::<u8>::empty(),
{
    heapless::String::new()
}

/// Calls `heapless::String::<8192>::push_str`. It succeeds exactly when the
/// bytes of `s` fit into what is left of the 8192 bytes and then appends all
/// of them; otherwise it returns an error and the buffer is unchanged.
#[verifier::external_body]
pub(crate) fn payload_push_str(text: &mut Payload, s: &str) -> (r: Result<(), ()>)
    ensures
        r is Ok <==> payload_bytes(old(text)).len() + s.spec_bytes().len() <= 8192,
        payload_bytes(final(text)) == appended(payload_bytes(old(text)), s.spec_bytes(), 8192),
{
    text.push_str(s)
}

/// Calls `heapless::String::<8192>::as_str`, which returns the contents of
/// the buffer; they never exceed 8192 bytes.
#[verifier::external_body]
pub(crate) fn payload_as_str(text: &Payload) -> (s: &str)
    ensures
        s.spec_bytes() == payload_bytes(text),
        s.spec_bytes().len() <= 8192,
{
    text.as_str()
}

/// Calls `heapless::String::<8192>::truncate`. A `new_len` above the current
/// length changes nothing; otherwise the first `new_len` bytes stay. The
/// outside function panics where `new_len` is within the text and not on a
/// character boundary, so such a length is not admitted.
#[verifier::external_body]
pub(crate) fn payload_truncate(text: &mut Payload, new_len: usize)
    requires
        new_len <= payload_bytes(old(text)).len() ==> is_char_boundary(
            payload_bytes(old(text)),
            new_len as int,
        ),
    ensures
        payload_bytes(final(text)) == if new_len <= payload_bytes(old(text)).len() {
            payload_bytes(old(text)).subrange(0, new_len as int)
        } else {
            payload_bytes(old(text))
        },
{
    text.truncate(new_len)
}

/// Calls `core::str::from_utf8`, which returns the bytes as text exactly when
/// they are valid UTF-8.
#[verifier::external_body]
pub(crate) fn utf8_text(bytes: &[u8]) -> (r: Option<&str>)
    ensures
        r is Some <==> valid_utf8(bytes@),
        r matches Some(s) ==> s.spec_bytes() == bytes@,
{
    match core::str::from_utf8(bytes) {
        Ok(s) => Some(s),
        Err(_) => None,
    }
}

/// The bytes of a string slice are valid UTF-8.
pub proof fn lemma_str_is_utf8(s: &str)
    ensures
        valid_utf8(s.spec_bytes()),
{
    encode_utf8_valid_utf8(s@);
}

/// In valid UTF-8 every offset that does not point at a continuation byte
/// is a character boundary, and so is the end of the text.
pub proof fn lemma_boundary_at(bytes: Seq<u8>, at: int)
    requires
        valid_utf8(bytes),
        0 <= at <= bytes.len(),
        at < bytes.len() ==> !is_continuation_byte(bytes[at]),
    ensures
        is_char_boundary(bytes, at),
{
    if at == bytes.len() {
        is_char_boundary_start_end_of_seq(bytes);
    } else {
        is_char_boundary_iff_not_is_continuation_byte(bytes, at);
    }
}

/// In valid UTF-8 the offset behind an ASCII byte is a character boundary.
pub proof fn lemma_boundary_after_ascii(bytes: Seq<u8>, at: int)
    requires
        valid_utf8(bytes),
        0 <= at < bytes.len(),
        bytes[at] <= 0x7f,
    ensures
        is_char_boundary(bytes, at + 1),
{
    if at + 1 == bytes.len() {
        is_char_boundary_start_end_of_seq(bytes);
    } else {
        lemma_boundary_at(bytes, at);
        valid_utf8_split(bytes, at);
        let rest = bytes.subrange(at, bytes.len() as int);
        assert(rest[0] == bytes[at]);
        assert(valid_utf8(rest));
        assert(length_of_first_scalar(rest) == 1);
        let after = pop_first_scalar(rest);
        assert(after =~= bytes.subrange(at + 1, bytes.len() as int));
        assert(valid_utf8(after));
        assert(after.len() > 0);
        assert(valid_first_scalar(after));
        assert(after[0] == bytes[at + 1]);
        assert(!is_continuation_byte(after[0]));
        lemma_boundary_at(bytes, at + 1);
    }
}

/// A character boundary of a text that lies within a part of it, cut out at
/// character boundaries, is a character boundary of that part.
pub proof fn lemma_boundary_within(bytes: Seq<u8>, from: int, to: int, at: int)
    requires
        valid_utf8(bytes),
        is_char_boundary(bytes, from),
        is_char_boundary(bytes, to),
        is_char_boundary(bytes, at),
        0 <= from <= at <= to <= bytes.len(),
    ensures
        valid_utf8(bytes.subrange(from, to)),
        is_char_boundary(bytes.subrange(from, to), at - from),
{
    valid_utf8_split(bytes, to);
    let head = bytes.subrange(0, to);
    assert(is_char_boundary(head, from)) by {
        if from < to {
            is_char_boundary_iff_not_is_continuation_byte(bytes, from);
            assert(head[from] == bytes[from]);
        }
        lemma_boundary_at(head, from);
    }
    valid_utf8_split(head, from);
    let part = bytes.subrange(from, to);
    assert(part =~= head.subrange(from, head.len() as int));
    if at < to {
        is_char_boundary_iff_not_is_continuation_byte(bytes, at);
        assert(part[at - from] == bytes[at]);
    }
    lemma_boundary_at(part, at - from);
}

/// The part of `s` between the byte offsets `from` and `to`.
pub(crate) fn slice_between<'a>(s: &'a str, from: usize, to: usize) -> (part: &'a str)
    requires
        from <= to <= s.spec_bytes().len(),
        is_char_boundary(s.spec_bytes(), from as int),
        is_char_boundary(s.spec_bytes(), to as int),
    ensures
        part.spec_bytes() == s.spec_bytes().subrange(from as int, to as int),
{
    proof {
        lemma_str_is_utf8(s);
        lemma_boundary_within(s.spec_bytes(), 0, to as int, from as int);
        assert(s.spec_bytes().subrange(0, to as int).len() == to);
    }
    let (head, _) = s.split_at(to);
    let (_, part) = head.split_at(from);
    assert(part.spec_bytes() =~= s.spec_bytes().subrange(from as int, to as int));
    part
}

/// The part of `s` from the byte offset `from` to its end.
pub(crate) fn slice_from<'a>(s: &'a str, from: usize) -> (part: &'a str)
    requires
        from <= s.spec_bytes().len(),
        is_char_boundary(s.spec_bytes(), from as int),
    ensures
        part.spec_bytes() == s.spec_bytes().subrange(from as int, s.spec_bytes().len() as int),
{
    let (_, part) = s.split_at(from);
    part
}

/// Appends `bytes` to `out`.
pub(crate) fn push_bytes(out: &mut Vec<u8>, bytes: &[u8])
    ensures
        final(out)@ == old(out)@ + bytes@,
{
    out.extend_from_slice(bytes);
    assert(final(out)@ =~= old(out)@ + bytes@);
}

/// A fresh host buffer that holds `s`, or nothing where `s` exceeds the
/// capacity.
pub fn host_from(s: &str) -> (text: HostText)
    ensures
        short_bytes(&text) == bounded(s.spec_bytes(), 64),
{
    let mut text = short_new();
    let _ = short_push_str(&mut text, s);
    text
}

/// A fresh path buffer that holds `s`, or nothing where `s` exceeds the
/// capacity.
pub fn path_from(s: &str) -> (text: PathText)
    ensures
        path_bytes(&text) == bounded(s.spec_bytes(), 128),
{
    let mut text = path_new();
    let _ = path_push_str(&mut text, s);
    text
}

/// A fresh payload buffer that holds `s`, or nothing where `s` exceeds the
/// capacity.
pub fn payload_from(s: &str) -> (text: Payload)
    ensures
        payload_bytes(&text) == bounded(s.spec_bytes(), 8192),
{
    let mut text = payload_new();
    let _ = payload_push_str(&mut text, s);
    text
}

/// Appends `s` to `buffer` where it fits whole, and reports whether it did.
/// A text that does not fit is dropped and the buffer stays as it was.
pub fn append(buffer: &mut Payload, s: &str) -> (stored: bool)
    ensures
        stored <==> payload_bytes(old(buffer)).len() + s.spec_bytes().len() <= 8192,
        payload_bytes(final(buffer)) == appended(payload_bytes(old(buffer)), s.spec_bytes(), 8192),
{
    payload_push_str(buffer, s).is_ok()
}

/// Shortens `buffer` to its first `new_len` bytes, and reports whether it
/// did. A length beyond the text, or one that would cut a character in two,
/// leaves the buffer as it was.
pub fn truncate(buffer: &mut Payload, new_len: usize) -> (cut: bool)
    ensures
        cut <==> new_len <= payload_bytes(old(buffer)).len() && is_char_boundary(
            payload_bytes(old(buffer)),
            new_len as int,
        ),
        payload_bytes(final(buffer)) == if cut {
            payload_bytes(old(buffer)).subrange(0, new_len as int)
        } else {
            payload_bytes(old(buffer))
        },
{
    let held = payload_as_str(buffer);
    if new_len <= held.len() && held.is_char_boundary(new_len) {
        payload_truncate(buffer, new_len);
        true
    } else {
        false
    }
}

} // verus!
