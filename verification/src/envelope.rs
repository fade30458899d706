//! The uniform success/failure envelope that every boundary
//! operation returns.
//!
//! Success carries no message; failure always carries one.  Building
//! an error envelope never fails: a message the wire string encoding
//! cannot carry (one holding a NUL) is replaced by a fixed sentinel
//! rather than failing the error path itself.
use vstd::prelude::*;
use vstd::string::StrSliceExecFns;
use vstd::string::StringExecFns;

verus! {

/// The outcome of one boundary operation.
#[derive(Clone, PartialEq, Debug)]
pub struct Envelope {
    pub success: bool,
    pub message: Option<String>,
}

/// Mathematical image of `Envelope`.
pub ghost struct EnvelopeV {
    pub success: bool,
    pub message: Option<Seq<char>>,
}

impl DeepView for Envelope {
    type V = EnvelopeV;

    open spec fn deep_view(&self) -> EnvelopeV {
        EnvelopeV {
            success: self.success,
            message: match &self.message {
                Some(m) => Some(m@),
                None => None,
            },
        }
    }
}

impl EnvelopeV {
    /// The envelope's invariant: success exactly when no message.
    pub open spec fn wf(self) -> bool {
        self.success <==> self.message is None
    }
}

/// Whether `s` holds a NUL character, which the wire string encoding
/// cannot carry.
pub open spec fn has_nul(s: Seq<char>) -> bool {
    exists|i: int| 0 <= i < s.len() && s[i] == '\0'
}

/// The message as the wire will carry it: itself, or the sentinel
/// when it holds a NUL.
pub open spec fn wire_text(s: Seq<char>) -> Seq<char> {
    if has_nul(s) {
        "Invalid error message"@
    } else {
        s
    }
}

/// Whether this string holds a NUL character.
fn scan_nul(s: &str) -> (r: bool)
    ensures
        r == has_nul(s@),
{
    let n = s.unicode_len();
    let mut i: usize = 0;
    while i < n
        invariant
            n == s@.len(),
            i <= n,
            forall|j: int| 0 <= j < i ==> s@[j] != '\0',
        decreases n - i,
    {
        if s.get_char(i) == '\0' {
            return true;
        }
        i += 1;
    }
    false
}

impl Envelope {
    /// The success envelope.
    pub fn ok() -> (r: Envelope)
        ensures
            r.deep_view().wf(),
            r.deep_view().success,
    {
        Envelope { success: true, message: None }
    }

    /// A failure envelope carrying `msg`, or the sentinel where the
    /// wire cannot carry `msg`.  Error construction is infallible.
    pub fn error(msg: String) -> (r: Envelope)
        ensures
            r.deep_view().wf(),
            !r.deep_view().success,
            r.deep_view().message == Some(wire_text(msg@)),
    {
        if scan_nul(msg.as_str()) {
            Envelope { success: false, message: Some(String::from_str("Invalid error message")) }
        } else {
            Envelope { success: false, message: Some(msg) }
        }
    }

    /// The failure envelope for a contained fault inside the named
    /// operation.
    pub fn fault(op: &str) -> (r: Envelope)
        ensures
            r.deep_view().wf(),
            !r.deep_view().success,
            r.deep_view().message == Some(wire_text("Fault in "@ + op@)),
    {
        Envelope::error(String::from_str("Fault in ").concat(op))
    }
}

} // verus!
