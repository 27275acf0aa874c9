//! Log messages sent back to a websocket client.

use vstd::prelude::*;

use crate::types::ws::{LogArgs, ResponseData, WebSocketResponse};

verus! {

/// `r` is a log message with text `text`.
pub open spec fn is_log(r: WebSocketResponse, text: Seq<char>, is_error: bool) -> bool {
    r.data matches ResponseData::Log(l) && l.message@ == text && l.is_error == is_error
}

/// A log message for a client; `is_error` marks a failure.
pub fn prepare_log(message: String, is_error: bool) -> (response: WebSocketResponse)
    ensures
        response.data == ResponseData::Log(LogArgs { message, is_error }),
{
    WebSocketResponse { data: ResponseData::Log(LogArgs { message, is_error }) }
}

/// A log message with the text of `text`.
pub fn log_text(text: &str, is_error: bool) -> (response: WebSocketResponse)
    ensures
        is_log(response, text@, is_error),
{
    prepare_log(String::from_str(text), is_error)
}

} // verus!
