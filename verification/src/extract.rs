//! The response extractor.
//!
//! The capture of a modem session mixes the upstream response with the
//! chatter of the modem. The extractor recovers the upstream content: it
//! looks for where the content begins, and cuts the content off where
//! chatter of the modem shows in it.
use crate::search::{find, first_occurrence, lemma_first_occurrence, occurs, occurs_at};
use crate::text::{
    bounded, lemma_boundary_after_ascii, lemma_boundary_at, lemma_str_is_utf8, payload_as_str,
    payload_bytes, payload_from, payload_truncate, slice_from, Payload,
};
use vstd::prelude::*;
use vstd::string::StringSliceAdditionalSpecFns;

verus! {

/// The blank line that separates the header of a response from its body.
pub open spec fn blank_line() -> Seq<u8> {
    "\r\n\r\n".spec_bytes()
}

/// The beginning of a document type declaration.
pub open spec fn doctype_tag() -> Seq<u8> {
    "<!DOCTYPE".spec_bytes()
}

/// The beginning of an opening `html` tag.
pub open spec fn html_tag() -> Seq<u8> {
    "<html".spec_bytes()
}

/// The beginning of an opening `body` tag.
pub open spec fn body_tag() -> Seq<u8> {
    "<body".spec_bytes()
}

/// The number of artifacts that the extractor knows.
pub const ARTIFACTS: usize = 4;

/// Artifact `index` of the modem's chatter: the beginning of a command echo,
/// the beginning of a status line, the send acknowledgement and the end of
/// an acknowledgement line.
pub open spec fn artifact(index: int) -> Seq<u8> {
    if index == 0 {
        "AT+".spec_bytes()
    } else if index == 1 {
        "+QI".spec_bytes()
    } else if index == 2 {
        "SEND OK".spec_bytes()
    } else {
        "OK\r\n".spec_bytes()
    }
}

/// The offset at which the content of `transcript` begins: behind the first
/// blank line; without one at the first document type declaration; without
/// that at the first `html` tag; without that at the first `body` tag; and
/// at the very beginning where there is none of these.
pub open spec fn content_start(transcript: Seq<u8>) -> int {
    match first_occurrence(transcript, blank_line()) {
        Some(at) => at + blank_line().len(),
        None => match first_occurrence(transcript, doctype_tag()) {
            Some(at) => at,
            None => match first_occurrence(transcript, html_tag()) {
                Some(at) => at,
                None => match first_occurrence(transcript, body_tag()) {
                    Some(at) => at,
                    None => 0,
                },
            },
        },
    }
}

/// The smaller of `limit` and the offset that was found, if one was.
pub open spec fn earlier(found: Option<int>, limit: int) -> int {
    match found {
        Some(at) => if at < limit {
            at
        } else {
            limit
        },
        None => limit,
    }
}

/// The offset at which `content` is cut off: the smallest offset at which
/// any of the artifacts occurs, and the end of the content where none
/// does.
pub open spec fn artifact_cut(content: Seq<u8>) -> int {
    earlier(
        first_occurrence(content, artifact(0)),
        earlier(
            first_occurrence(content, artifact(1)),
            earlier(
                first_occurrence(content, artifact(2)),
                earlier(first_occurrence(content, artifact(3)), content.len() as int),
            ),
        ),
    )
}

/// The part of `transcript` from where its content begins, as a payload
/// buffer holds it: a part of more than 8192 bytes is dropped.
pub open spec fn content_region(transcript: Seq<u8>) -> Seq<u8> {
    bounded(transcript.subrange(content_start(transcript), transcript.len() as int), 8192)
}

/// The content that is recovered from `transcript`.
pub open spec fn extracted(transcript: Seq<u8>) -> Seq<u8> {
    content_region(transcript).subrange(0, artifact_cut(content_region(transcript)))
}

/// The offset at which the content of `transcript` begins.
pub fn find_content_start(transcript: &[u8]) -> (start: usize)
    ensures
        start == content_start(transcript@),
        start <= transcript@.len(),
        first_occurrence(transcript@, blank_line()) is Some ==> 0 < start && transcript@[start
            - 1] <= 0x7f,
        first_occurrence(transcript@, blank_line()) is None && 0 < start ==> start
            < transcript@.len() && transcript@[start as int] <= 0x7f,
{
    proof {
        reveal_strlit("\r\n\r\n");
        assert(vstd::string::is_ascii("\r\n\r\n"));
        vstd::string::is_ascii_spec_bytes("\r\n\r\n");
        reveal_strlit("<!DOCTYPE");
        assert(vstd::string::is_ascii("<!DOCTYPE"));
        vstd::string::is_ascii_spec_bytes("<!DOCTYPE");
        reveal_strlit("<html");
        assert(vstd::string::is_ascii("<html"));
        vstd::string::is_ascii_spec_bytes("<html");
        reveal_strlit("<body");
        assert(vstd::string::is_ascii("<body"));
        vstd::string::is_ascii_spec_bytes("<body");
        lemma_first_occurrence(transcript@, blank_line());
        lemma_first_occurrence(transcript@, doctype_tag());
        lemma_first_occurrence(transcript@, html_tag());
        lemma_first_occurrence(transcript@, body_tag());
    }
    if let Some(at) = find(transcript, "\r\n\r\n".as_bytes()) {
        assert(occurs_at(transcript@, blank_line(), at as int));
        assert(at + 4 <= transcript.len());
        assert(transcript@.subrange(at as int, at + 4)[3] == transcript@[at + 3]);
        return at + 4;
    }
    if let Some(at) = find(transcript, "<!DOCTYPE".as_bytes()) {
        assert(transcript@.subrange(at as int, at + 9)[0] == transcript@[at as int]);
        return at;
    }
    if let Some(at) = find(transcript, "<html".as_bytes()) {
        assert(transcript@.subrange(at as int, at + 5)[0] == transcript@[at as int]);
        return at;
    }
    if let Some(at) = find(transcript, "<body".as_bytes()) {
        assert(transcript@.subrange(at as int, at + 5)[0] == transcript@[at as int]);
        return at;
    }
    0
}

/// Facts on the artifacts: none is empty, and each begins with an ASCII
/// byte.
pub proof fn lemma_artifacts()
    ensures
        forall|i: int| #![trigger artifact(i)] artifact(i).len() > 0 && artifact(i)[0] <= 0x7f,
{
    reveal_strlit("AT+");
    assert(vstd::string::is_ascii("AT+"));
    vstd::string::is_ascii_spec_bytes("AT+");
    reveal_strlit("+QI");
    assert(vstd::string::is_ascii("+QI"));
    vstd::string::is_ascii_spec_bytes("+QI");
    reveal_strlit("SEND OK");
    assert(vstd::string::is_ascii("SEND OK"));
    vstd::string::is_ascii_spec_bytes("SEND OK");
    reveal_strlit("OK\r\n");
    assert(vstd::string::is_ascii("OK\r\n"));
    vstd::string::is_ascii_spec_bytes("OK\r\n");
}

/// What the cut is: it lies within the content, no artifact occurs before
/// it, an artifact occurs at it unless it is the end of the content, and it
/// is the end of the content exactly when no artifact occurs at all.
pub proof fn lemma_artifact_cut(content: Seq<u8>)
    ensures
        0 <= artifact_cut(content) <= content.len(),
        forall|i: int, j: int|
            0 <= i < ARTIFACTS && 0 <= j < artifact_cut(content) ==> !#[trigger] occurs_at(
                content,
                artifact(i),
                j,
            ),
        artifact_cut(content) < content.len() ==> exists|i: int|
            0 <= i < ARTIFACTS && occurs_at(content, #[trigger] artifact(i), artifact_cut(content)),
        artifact_cut(content) == content.len() <==> forall|i: int|
            0 <= i < ARTIFACTS ==> !occurs(content, #[trigger] artifact(i)),
{
    lemma_artifacts();
    lemma_first_occurrence(content, artifact(0));
    lemma_first_occurrence(content, artifact(1));
    lemma_first_occurrence(content, artifact(2));
    lemma_first_occurrence(content, artifact(3));
    let cut = artifact_cut(content);
    if cut < content.len() {
        if first_occurrence(content, artifact(0)) == Some(cut) {
            assert(occurs_at(content, artifact(0), cut));
            assert(occurs(content, artifact(0)));
        } else if first_occurrence(content, artifact(1)) == Some(cut) {
            assert(occurs_at(content, artifact(1), cut));
            assert(occurs(content, artifact(1)));
        } else if first_occurrence(content, artifact(2)) == Some(cut) {
            assert(occurs_at(content, artifact(2), cut));
            assert(occurs(content, artifact(2)));
        } else {
            assert(occurs_at(content, artifact(3), cut));
            assert(occurs(content, artifact(3)));
        }
    }
}

/// The offset at which `content` is cut off, and nothing where no artifact
/// occurs in it.
pub fn find_artifact(content: &[u8]) -> (cut: Option<usize>)
    ensures
        match cut {
            Some(at) => at == artifact_cut(content@) && at < content@.len() && content@[at as int]
                <= 0x7f,
            None => artifact_cut(content@) == content@.len() && forall|i: int|
                0 <= i < ARTIFACTS ==> !occurs(content@, #[trigger] artifact(i)),
        },
{
    let mut cut = content.len();
    if let Some(at) = find(content, "OK\r\n".as_bytes()) {
        if at < cut {
            cut = at;
        }
    }
    if let Some(at) = find(content, "SEND OK".as_bytes()) {
        if at < cut {
            cut = at;
        }
    }
    if let Some(at) = find(content, "+QI".as_bytes()) {
        if at < cut {
            cut = at;
        }
    }
    if let Some(at) = find(content, "AT+".as_bytes()) {
        if at < cut {
            cut = at;
        }
    }
    proof {
        lemma_artifacts();
        lemma_artifact_cut(content@);
        if cut < content.len() {
            let i = choose|i: int|
                0 <= i < ARTIFACTS && occurs_at(content@, #[trigger] artifact(i), cut as int);
            assert(content@.subrange(cut as int, cut + artifact(i).len())[0] == content@[cut as int]);
        }
    }
    if cut < content.len() {
        Some(cut)
    } else {
        None
    }
}

/// Recovers the upstream content from the transcript of a session.
pub fn extract(transcript: &str) -> (content: Payload)
    ensures
        payload_bytes(&content) == extracted(transcript.spec_bytes()),
{
    let start = find_content_start(transcript.as_bytes());
    proof {
        lemma_str_is_utf8(transcript);
        let bytes = transcript.spec_bytes();
        if start == 0 {
            lemma_boundary_at(bytes, 0);
        } else if first_occurrence(bytes, blank_line()) is Some {
            lemma_boundary_after_ascii(bytes, start - 1);
        } else {
            lemma_boundary_at(bytes, start as int);
        }
    }
    let mut content = payload_from(slice_from(transcript, start));
    let held = payload_as_str(&content);
    let cut = find_artifact(held.as_bytes());
    proof {
        lemma_str_is_utf8(held);
    }
    match cut {
        Some(at) => {
            proof {
                lemma_boundary_at(payload_bytes(&content), at as int);
            }
            payload_truncate(&mut content, at);
        },
        None => {
            assert(payload_bytes(&content) =~= extracted(transcript.spec_bytes()));
        },
    }
    content
}

/// `content` has been isolated: nothing in it marks a beginning of content
/// further in, and no artifact occurs in it.
pub open spec fn is_isolated(content: Seq<u8>) -> bool {
    &&& content_start(content) == 0
    &&& forall|i: int| 0 <= i < ARTIFACTS ==> !occurs(content, #[trigger] artifact(i))
}

/// Where the content begins lies within the text.
pub proof fn lemma_content_start(transcript: Seq<u8>)
    ensures
        0 <= content_start(transcript) <= transcript.len(),
{
    lemma_first_occurrence(transcript, blank_line());
    lemma_first_occurrence(transcript, doctype_tag());
    lemma_first_occurrence(transcript, html_tag());
    lemma_first_occurrence(transcript, body_tag());
}

/// What is recovered fits a payload buffer.
pub proof fn lemma_extracted_fits(transcript: Seq<u8>)
    ensures
        extracted(transcript).len() <= content_region(transcript).len() <= 8192,
        content_region(transcript).len() <= transcript.len() - content_start(transcript),
{
    lemma_content_start(transcript);
    lemma_artifact_cut(content_region(transcript));
}

/// No artifact is left in what is recovered: the content ends before the
/// first place at which any artifact stands.
pub proof fn lemma_no_artifact_remains(transcript: Seq<u8>)
    ensures
        forall|i: int| 0 <= i < ARTIFACTS ==> !occurs(extracted(transcript), #[trigger] artifact(i)),
{
    lemma_artifacts();
    let region = content_region(transcript);
    let kept = extracted(transcript);
    lemma_artifact_cut(region);
    assert forall|i: int| 0 <= i < ARTIFACTS implies !occurs(kept, #[trigger] artifact(i)) by {
        assert forall|j: int| !occurs_at(kept, artifact(i), j) by {
            if occurs_at(kept, artifact(i), j) {
                assert(kept.subrange(j, j + artifact(i).len()) =~= region.subrange(
                    j,
                    j + artifact(i).len(),
                ));
                assert(occurs_at(region, artifact(i), j));
            }
        }
    }
}

/// The extractor leaves a content as it is exactly when the content has
/// been isolated.
pub proof fn lemma_isolated_is_fixed(content: Seq<u8>)
    requires
        content.len() <= 8192,
    ensures
        extracted(content) == content <==> is_isolated(content),
{
    lemma_content_start(content);
    lemma_extracted_fits(content);
    let region = content_region(content);
    lemma_artifact_cut(region);
    if content_start(content) == 0 {
        assert(region =~= content);
        if is_isolated(content) {
            assert(extracted(content) =~= content);
        }
    }
}

/// Extracting once more from what was extracted yields the same again, once
/// the content has been isolated: that is, once nothing in it marks a
/// beginning of content further in. No artifact is left in it in any case.
pub proof fn lemma_extract_again(transcript: Seq<u8>)
    requires
        content_start(extracted(transcript)) == 0,
    ensures
        is_isolated(extracted(transcript)),
        extracted(extracted(transcript)) == extracted(transcript),
{
    lemma_extracted_fits(transcript);
    lemma_no_artifact_remains(transcript);
    lemma_isolated_is_fixed(extracted(transcript));
}

} // verus!
