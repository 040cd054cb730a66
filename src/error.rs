//! The one error that crosses the library's boundary.
use vstd::prelude::*;

verus! {

/// Which part of a call failed.
#[derive(Clone, Copy, Debug, PartialEq, Eq, Structural)]
pub enum FailKind {
    /// The daemon could not be reached, or refused the initial request.
    Connection,
    /// The daemon failed while producing fragments.
    Stream,
    /// The notification sink rejected a fragment.
    Delivery,
}

/// A failed call: what failed, and the daemon's or sink's own words.
pub struct OperationError {
    pub kind: FailKind,
    pub detail: String,
}

pub const STREAM_PREFIX: &'static str = "Stream error ";

pub const LIST_PREFIX: &'static str = "Failed to list models: ";

/// The text a caller sees for an error of the given kind and detail.
pub open spec fn reason_text(kind: FailKind, detail: Seq<char>) -> Seq<char> {
    match kind {
        FailKind::Stream => STREAM_PREFIX@ + detail,
        _ => detail,
    }
}

impl OperationError {
    pub fn new(kind: FailKind, detail: String) -> (e: OperationError)
        ensures
            e.kind == kind,
            e.detail@ == detail@,
    {
        OperationError { kind, detail }
    }

    /// The caller-facing reason string: a stream failure is marked as such,
    /// the other kinds carry their detail as it came.
    pub fn reason(&self) -> (r: String)
        ensures
            r@ == reason_text(self.kind, self.detail@),
    {
        match self.kind {
            FailKind::Stream => {
                let s = String::from_str(STREAM_PREFIX);
                s.concat(self.detail.as_str())
            },
            _ => self.detail.clone(),
        }
    }
}

} // verus!
