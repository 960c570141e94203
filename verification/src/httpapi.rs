//! The command surface's payload types and the reply owed for each
//! way an ask can end.
//!
//! The HTTP server itself stays outside the library; it hands each
//! ask's outcome in here and sends back exactly the status and body
//! decided here.

use vstd::prelude::*;
use vstd::string::StringExecFns;

verus! {

/// An ask, as the command surface receives it.
#[derive(Debug, Clone, PartialEq, Eq)]
pub struct AskRequest {
    pub prompt: String,
}

/// A successful answer.
#[derive(Debug, Clone, PartialEq, Eq)]
pub struct AskResponse {
    pub answer: String,
}

/// A failed ask.
#[derive(Debug, Clone, PartialEq, Eq)]
pub struct ErrorResponse {
    pub error: String,
}

/// How an ask ended for its waiting caller: answered; failed by the
/// Leader or transport; never handed to the reactor; timed out at the
/// caller's own bound; or its slot was dropped unresolved.
#[derive(Debug, Clone, PartialEq, Eq)]
pub enum AskOutcome {
    Answer(String),
    Failure(String),
    SendFailed(String),
    Timeout,
    ChannelClosed,
}

/// One HTTP reply: a status code, and an answer or an error body.
#[derive(Debug, PartialEq, Eq)]
pub struct HttpReply {
    pub status: u16,
    pub body: Result<AskResponse, ErrorResponse>,
}

/// The reply owed for each outcome: the answer with status 200; a
/// caller-side timeout with 408; every other failure with 500 and the
/// reason in the error body.
pub fn http_reply(outcome: AskOutcome) -> (r: HttpReply)
    ensures
        match outcome {
            AskOutcome::Answer(t) => {
                &&& r.status == 200
                &&& r.body matches Ok(b) && b.answer@ == t@
            },
            AskOutcome::Failure(e) => {
                &&& r.status == 500
                &&& r.body matches Err(b) && b.error@ == e@
            },
            AskOutcome::SendFailed(e) => {
                &&& r.status == 500
                &&& r.body matches Err(b) && b.error@ == "Failed to send command: "@ + e@
            },
            AskOutcome::Timeout => {
                &&& r.status == 408
                &&& r.body matches Err(b) && b.error@ == "Request timeout"@
            },
            AskOutcome::ChannelClosed => {
                &&& r.status == 500
                &&& r.body matches Err(b) && b.error@ == "Channel closed"@
            },
        },
{
    match outcome {
        AskOutcome::Answer(t) => HttpReply { status: 200, body: Ok(AskResponse { answer: t }) },
        AskOutcome::Failure(e) => HttpReply { status: 500, body: Err(ErrorResponse { error: e }) },
        AskOutcome::SendFailed(e) => HttpReply {
            status: 500,
            body: Err(
                ErrorResponse {
                    error: String::from_str("Failed to send command: ").concat(e.as_str()),
                },
            ),
        },
        AskOutcome::Timeout => HttpReply {
            status: 408,
            body: Err(ErrorResponse { error: String::from_str("Request timeout") }),
        },
        AskOutcome::ChannelClosed => HttpReply {
            status: 500,
            body: Err(ErrorResponse { error: String::from_str("Channel closed") }),
        },
    }
}

} // verus!
