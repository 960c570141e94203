//! The two role state machines.
//!
//! A Leader listens and answers each inbound request through its
//! backend, never initiating requests of its own.  A Subordinate
//! discovers a peer, sends exactly one request to the first peer seen,
//! and ends at the first resolution: completed on a response, failed
//! on an outbound failure.  The backend call and the transport sends
//! happen outside the library; these types decide what to send and how
//! each event moves the state.

use vstd::prelude::*;

use crate::protocol::InferenceRequest;
use crate::protocol::InferenceResponse;

verus! {

/// The Leader role: its configured default model.  Serving is
/// stateless and re-entrant, one inbound request at a time.
pub struct Leader {
    pub default_model: String,
}

impl Leader {
    pub fn new(default_model: String) -> (r: Self)
        ensures
            r.default_model == default_model,
    {
        Leader { default_model }
    }

    /// The model to serve an inbound request with: the one it names,
    /// or the configured default when it names none.
    pub fn choose_model(&self, req: &InferenceRequest) -> (r: String)
        ensures
            req.model matches Some(m) ==> r@ == m@,
            req.model is None ==> r@ == self.default_model@,
    {
        match &req.model {
            Some(m) => m.clone(),
            None => self.default_model.clone(),
        }
    }

    /// The response owed for a backend outcome: the generated text on
    /// success; an empty text and the message on failure.  The result
    /// always satisfies the response invariant.
    pub fn build_response(outcome: Result<String, String>) -> (r: InferenceResponse)
        ensures
            r@.wf(),
            match outcome {
                Ok(text) => r@.text == text@ && r@.success && r@.error is None,
                Err(msg) => {
                    &&& r@.text == Seq::<char>::empty()
                    &&& !r@.success
                    &&& r@.error == Some(msg@)
                },
            },
    {
        match outcome {
            Ok(text) => InferenceResponse { text, success: true, error: None },
            Err(msg) => InferenceResponse { text: String::new(), success: false, error: Some(msg) },
        }
    }
}

/// The view of a `Result<String, String>`.
pub open spec fn res_view(r: Result<String, String>) -> Result<Seq<char>, Seq<char>> {
    match r {
        Ok(t) => Ok(t@),
        Err(e) => Err(e@),
    }
}

/// The outcome a response resolves its waiting caller with: the text
/// on success, the carried error (or a fixed fallback) on failure.
pub open spec fn spec_outcome(resp: crate::protocol::InferenceResponseView) -> Result<
    Seq<char>,
    Seq<char>,
> {
    if resp.success {
        Ok(resp.text)
    } else {
        match resp.error {
            Some(m) => Err(m),
            None => Err("Unknown error"@),
        }
    }
}

/// Translates a response into the outcome its waiting caller sees.
pub fn response_outcome(resp: InferenceResponse) -> (r: Result<String, String>)
    ensures
        res_view(r) == spec_outcome(resp@),
{
    if resp.success {
        Ok(resp.text)
    } else {
        match resp.error {
            Some(m) => Err(m),
            None => Err("Unknown error".to_owned()),
        }
    }
}

/// Where a Subordinate stands: discovering peers; a peer adopted but
/// the request's transport id not yet known; the one request in
/// flight; or past its single resolution.
#[derive(Debug, Clone, Copy, PartialEq, Eq, Structural)]
pub enum SubordinateState {
    Discovering,
    Dispatching { target: crate::registry::PeerId },
    RequestSent { target: crate::registry::PeerId, request_id: u64 },
    Completed { success: bool },
    Failed,
}

/// The Subordinate role: one prompt, one request, one resolution.
pub struct Subordinate {
    prompt: String,
    state: SubordinateState,
}

impl Subordinate {
    /// The prompt this Subordinate was started with.
    pub closed spec fn spec_prompt(self) -> Seq<char> {
        self.prompt@
    }

    /// The current state.
    pub closed spec fn spec_state(self) -> SubordinateState {
        self.state
    }

    pub fn new(prompt: String) -> (r: Self)
        ensures
            r.spec_prompt() == prompt@,
            r.spec_state() == SubordinateState::Discovering,
    {
        Subordinate { prompt, state: SubordinateState::Discovering }
    }

    /// The current state, for the loop around the role.
    pub fn state(&self) -> (s: SubordinateState)
        ensures
            s == self.spec_state(),
    {
        self.state
    }

    /// A discovery appearance.  The first peer seen while still
    /// discovering is adopted (first-discovered-wins) and the one
    /// request is built, with no model so the Leader applies its
    /// default; any later appearance changes nothing.
    pub fn on_peer_appeared(&mut self, p: crate::registry::PeerId) -> (req: Option<
        InferenceRequest,
    >)
        ensures
            final(self).spec_prompt() == old(self).spec_prompt(),
            match req {
                Some(r) => {
                    &&& old(self).spec_state() == SubordinateState::Discovering
                    &&& final(self).spec_state() == (SubordinateState::Dispatching { target: p })
                    &&& r@.prompt == old(self).spec_prompt()
                    &&& r@.model is None
                },
                None => {
                    &&& !(old(self).spec_state() is Discovering)
                    &&& *final(self) == *old(self)
                },
            },
    {
        match self.state {
            SubordinateState::Discovering => {
                self.state = SubordinateState::Dispatching { target: p };
                Some(InferenceRequest { prompt: self.prompt.clone(), model: None })
            },
            _ => None,
        }
    }

    /// Notes the transport-assigned id of the request just sent to the
    /// adopted peer.
    pub fn on_dispatched(&mut self, request_id: u64)
        requires
            old(self).spec_state() is Dispatching,
        ensures
            final(self).spec_prompt() == old(self).spec_prompt(),
            old(self).spec_state() matches SubordinateState::Dispatching { target }
                ==> final(self).spec_state() == (SubordinateState::RequestSent {
                target,
                request_id,
            }),
    {
        match self.state {
            SubordinateState::Dispatching { target } => {
                self.state = SubordinateState::RequestSent { target, request_id };
            },
            _ => (),
        }
    }

    /// An inbound response.  It completes the run exactly when it
    /// answers the request in flight; a response for any other id is a
    /// correlation miss and is dropped.  The completed run reports
    /// success or failure as the response says; either way the process
    /// may then exit successfully.
    pub fn on_response(&mut self, request_id: u64, resp: InferenceResponse) -> (done: Option<
        InferenceResponse,
    >)
        ensures
            final(self).spec_prompt() == old(self).spec_prompt(),
            match done {
                Some(r) => {
                    &&& old(self).spec_state() matches SubordinateState::RequestSent {
                        target: _,
                        request_id: rid,
                    } && rid == request_id
                    &&& r == resp
                    &&& final(self).spec_state() == (SubordinateState::Completed {
                        success: resp.success,
                    })
                },
                None => {
                    &&& !(old(self).spec_state() matches SubordinateState::RequestSent {
                        target: _,
                        request_id: rid,
                    } && rid == request_id)
                    &&& *final(self) == *old(self)
                },
            },
    {
        match self.state {
            SubordinateState::RequestSent { target: _, request_id: rid } => {
                if rid == request_id {
                    self.state = SubordinateState::Completed { success: resp.success };
                    Some(resp)
                } else {
                    None
                }
            },
            _ => None,
        }
    }

    /// An outbound failure (the transport's timeout, a disconnected
    /// peer).  It fails the run exactly when it concerns the request
    /// in flight, handing the reason back so the process can surface
    /// it and exit with a non-zero status; any other id is dropped.
    pub fn on_outbound_failure(&mut self, request_id: u64, reason: String) -> (failed: Option<
        String,
    >)
        ensures
            final(self).spec_prompt() == old(self).spec_prompt(),
            match failed {
                Some(r) => {
                    &&& old(self).spec_state() matches SubordinateState::RequestSent {
                        target: _,
                        request_id: rid,
                    } && rid == request_id
                    &&& r == reason
                    &&& final(self).spec_state() == SubordinateState::Failed
                },
                None => {
                    &&& !(old(self).spec_state() matches SubordinateState::RequestSent {
                        target: _,
                        request_id: rid,
                    } && rid == request_id)
                    &&& *final(self) == *old(self)
                },
            },
    {
        match self.state {
            SubordinateState::RequestSent { target: _, request_id: rid } => {
                if rid == request_id {
                    self.state = SubordinateState::Failed;
                    Some(reason)
                } else {
                    None
                }
            },
            _ => None,
        }
    }

    /// Expiry of any peer, the adopted one included, leaves the
    /// request in flight untouched: no proactive cancellation, the
    /// transport's own timeout governs eventual failure.
    pub fn on_peer_expired(&mut self, p: crate::registry::PeerId)
        ensures
            *final(self) == *old(self),
    {
        let _ = p;
    }
}

} // verus!
