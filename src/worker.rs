use vstd::prelude::*;
use vstd::string::StringExecFns;

use crate::content_length::{content_length_of, parse_content_length};
use crate::record::{OutRow, RecordView};

verus! {

/// The error text of a record whose exchange outlived its timeout.
pub const TIMEOUT_SENTINEL: &'static str = "timeout";

/// What came of one GET, as the transport reports it.
#[derive(Debug)]
pub enum Exchange {
    /// A response arrived: its status code and the raw bytes of its
    /// `Content-Length` header, if it had one.
    Response { status: u16, content_length: Option<Vec<u8>> },
    /// The exchange failed at the transport or protocol level.
    Transport(String),
    /// The timeout elapsed before the exchange completed.
    TimedOut,
}

/// The length that an optional `Content-Length` header declares.
pub open spec fn header_length(h: Option<Vec<u8>>) -> Option<u64> {
    match h {
        Some(b) => content_length_of(b@),
        None => None,
    }
}

/// The record that an exchange for `url` settles into.
pub open spec fn exchange_record(url: Seq<char>, ex: Exchange) -> RecordView {
    match ex {
        Exchange::Response { status, content_length } => RecordView::answered(
            url,
            status,
            header_length(content_length),
        ),
        Exchange::Transport(e) => RecordView::failed(url, e@),
        Exchange::TimedOut => RecordView::failed(url, TIMEOUT_SENTINEL@),
    }
}

/// Normalises the outcome of the exchange for `url` into a record.
pub fn settle(url: String, ex: Exchange) -> (r: OutRow)
    ensures
        r@ == exchange_record(url@, ex),
        r@.wf(),
{
    match ex {
        Exchange::Response { status, content_length } => {
            let len = match content_length {
                Some(b) => parse_content_length(b.as_slice()),
                None => None,
            };
            OutRow::answered(url, status, len)
        },
        Exchange::Transport(e) => OutRow::failed(url, e),
        Exchange::TimedOut => OutRow::failed(url, String::from_str(TIMEOUT_SENTINEL)),
    }
}

} // verus!
