//! The two messages that pass between the client side and the modem side.
use crate::text::{
    bounded, host_from, path_as_str, path_bytes, path_from, short_as_str, short_bytes,
    payload_as_str, payload_bytes, payload_from, HostText, PathText, Payload,
};
use vstd::prelude::*;
use vstd::string::StringSliceAdditionalSpecFns;

verus! {

/// What a `ProxyRequest` holds: the bytes of its host and of its path.
pub struct RequestView {
    pub host: Seq<u8>,
    pub path: Seq<u8>,
}

/// The target of one proxied fetch. It does not change once made.
pub struct ProxyRequest {
    host: HostText,
    path: PathText,
}

impl View for ProxyRequest {
    type V = RequestView;

    closed spec fn view(&self) -> RequestView {
        RequestView { host: short_bytes(&self.host), path: path_bytes(&self.path) }
    }
}

impl ProxyRequest {
    /// A request for `path` on `host`. A part that exceeds its capacity (64
    /// bytes for the host, 128 for the path) is dropped and left empty.
    pub fn new(host: &str, path: &str) -> (request: ProxyRequest)
        ensures
            request@.host == bounded(host.spec_bytes(), 64),
            request@.path == bounded(path.spec_bytes(), 128),
    {
        ProxyRequest { host: host_from(host), path: path_from(path) }
    }

    /// The host name, of at most 64 bytes.
    pub fn host(&self) -> (s: &str)
        ensures
            s.spec_bytes() == self@.host,
            self@.host.len() <= 64,
    {
        short_as_str(&self.host)
    }

    /// The path, of at most 128 bytes.
    pub fn path(&self) -> (s: &str)
        ensures
            s.spec_bytes() == self@.path,
            self@.path.len() <= 128,
    {
        path_as_str(&self.path)
    }
}

/// Why a fetch did not get as far as sending its request upstream.
#[derive(Clone, Copy, Debug, PartialEq, Eq, Structural)]
pub enum Diagnostic {
    /// The modem never acknowledged that the connection was open.
    ConnectionFailed,
    /// The modem never showed the prompt that invites the payload.
    NoSendPrompt,
}

impl Diagnostic {
    /// The text that a failed result carries for this diagnostic.
    pub open spec fn text(self) -> Seq<u8> {
        match self {
            Diagnostic::ConnectionFailed => "TCP connection failed".spec_bytes(),
            Diagnostic::NoSendPrompt => "No send prompt".spec_bytes(),
        }
    }

    /// The text that a failed result carries for this diagnostic.
    pub fn as_str(self) -> (s: &'static str)
        ensures
            s.spec_bytes() == self.text(),
    {
        match self {
            Diagnostic::ConnectionFailed => "TCP connection failed",
            Diagnostic::NoSendPrompt => "No send prompt",
        }
    }

    /// The diagnostic texts are 21 and 14 bytes long.
    pub proof fn lemma_text_len(self)
        ensures
            self.text().len() == match self {
                Diagnostic::ConnectionFailed => 21nat,
                Diagnostic::NoSendPrompt => 14nat,
            },
    {
        reveal_strlit("TCP connection failed");
        reveal_strlit("No send prompt");
        let s = "TCP connection failed";
        assert(vstd::string::is_ascii(s));
        vstd::string::is_ascii_spec_bytes(s);
        let t = "No send prompt";
        assert(vstd::string::is_ascii(t));
        vstd::string::is_ascii_spec_bytes(t);
    }
}

/// What a `ProxyResult` holds.
pub struct ResultView {
    pub payload: Seq<u8>,
    pub succeeded: bool,
}

/// `payload` is one of the diagnostic texts.
pub open spec fn is_diagnostic(payload: Seq<u8>) -> bool {
    exists|d: Diagnostic| payload == #[trigger] d.text()
}

/// The outcome of one fetch. A result that did not succeed carries a
/// diagnostic text and never upstream content.
pub struct ProxyResult {
    payload: Payload,
    succeeded: bool,
}

impl View for ProxyResult {
    type V = ResultView;

    closed spec fn view(&self) -> ResultView {
        ResultView { payload: payload_bytes(&self.payload), succeeded: self.succeeded }
    }
}

impl ProxyResult {
    #[verifier::type_invariant]
    spec fn well_formed(self) -> bool {
        !self.succeeded ==> is_diagnostic(payload_bytes(&self.payload))
    }

    /// A successful result that carries `payload`.
    pub fn success(payload: Payload) -> (result: ProxyResult)
        ensures
            result@.succeeded,
            result@.payload == payload_bytes(&payload),
    {
        ProxyResult { payload, succeeded: true }
    }

    /// A failed result that carries the text of `diagnostic`.
    pub fn failure(diagnostic: Diagnostic) -> (result: ProxyResult)
        ensures
            !result@.succeeded,
            result@.payload == diagnostic.text(),
    {
        proof {
            diagnostic.lemma_text_len();
        }
        let payload = payload_from(diagnostic.as_str());
        ProxyResult { payload, succeeded: false }
    }

    /// Whether the fetch got its request through to the upstream host. Where
    /// it did not, the payload is a diagnostic text, which is not empty.
    pub fn succeeded(&self) -> (b: bool)
        ensures
            b == self@.succeeded,
            !b ==> is_diagnostic(self@.payload) && self@.payload.len() > 0,
    {
        proof {
            use_type_invariant(self);
            if !self.succeeded {
                let d = choose|d: Diagnostic| payload_bytes(&self.payload) == d.text();
                d.lemma_text_len();
            }
        }
        self.succeeded
    }

    /// The payload: the session transcript of a fetch that succeeded, the
    /// diagnostic text of one that failed. It has at most 8192 bytes.
    pub fn payload(&self) -> (s: &str)
        ensures
            s.spec_bytes() == self@.payload,
            self@.payload.len() <= 8192,
    {
        payload_as_str(&self.payload)
    }
}

} // verus!
