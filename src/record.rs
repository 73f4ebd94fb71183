use vstd::prelude::*;

verus! {

/// The outcome of one URL, in the shape the caller serialises.
///
/// A record either describes a completed HTTP exchange (`status` set, `error`
/// unset, `len` set when the response declared a usable content length), or a
/// failure (`error` set, `status` and `len` unset).
#[derive(Debug, Clone, PartialEq, Eq)]
pub struct OutRow {
    pub url: String,
    pub status: Option<u16>,
    pub len: Option<u64>,
    pub error: Option<String>,
}

/// The mathematical content of an [`OutRow`].
pub struct RecordView {
    pub url: Seq<char>,
    pub status: Option<u16>,
    pub len: Option<u64>,
    pub error: Option<Seq<char>>,
}

impl RecordView {
    /// Exactly one of `status` and `error` is populated, and a failure carries
    /// no length.
    pub open spec fn wf(self) -> bool {
        &&& (self.status is Some) != (self.error is Some)
        &&& self.status is None ==> self.len is None
    }

    /// A record of a completed exchange.
    pub open spec fn answered(url: Seq<char>, status: u16, len: Option<u64>) -> RecordView {
        RecordView { url, status: Some(status), len, error: None }
    }

    /// A record of a failure described by `error`.
    pub open spec fn failed(url: Seq<char>, error: Seq<char>) -> RecordView {
        RecordView { url, status: None, len: None, error: Some(error) }
    }
}

/// The text of an optional error, if any.
pub open spec fn opt_string_view(s: Option<String>) -> Option<Seq<char>> {
    match s {
        Some(e) => Some(e@),
        None => None,
    }
}

impl View for OutRow {
    type V = RecordView;

    open spec fn view(&self) -> RecordView {
        RecordView {
            url: self.url@,
            status: self.status,
            len: self.len,
            error: opt_string_view(self.error),
        }
    }
}

impl OutRow {
    /// Record of an exchange that completed with `status`.
    pub fn answered(url: String, status: u16, len: Option<u64>) -> (r: OutRow)
        ensures
            r@ == RecordView::answered(url@, status, len),
            r@.wf(),
    {
        OutRow { url, status: Some(status), len, error: None }
    }

    /// Record of a failure described by `error`.
    pub fn failed(url: String, error: String) -> (r: OutRow)
        ensures
            r@ == RecordView::failed(url@, error@),
            r@.wf(),
    {
        OutRow { url, status: None, len: None, error: Some(error) }
    }

    /// Whether the record describes a completed exchange.
    pub fn is_success(&self) -> (r: bool)
        ensures
            r == (self.status is Some && self.error is None),
    {
        self.status.is_some() && self.error.is_none()
    }
}

} // verus!
