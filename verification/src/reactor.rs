//! The decision core of the event reactor.
//!
//! The loop around it multiplexes three sources — the external command
//! queue, transport messages, discovery events — and calls in here for
//! every decision: whether an ask can be dispatched and to whom, which
//! waiting caller an inbound response resolves, and how discovery
//! changes the peer registry.  The reactor is the only writer of this
//! state; the command surface reaches it solely through the command
//! queue and the single-use slots the correlator guards.

use vstd::prelude::*;

use crate::correlator::Correlator;
use crate::protocol::InferenceRequest;
use crate::protocol::InferenceResponse;
use crate::registry::PeerId;
use crate::registry::PeerRegistry;
use crate::roles::Leader;
use crate::roles::res_view;
use crate::roles::response_outcome;
use crate::roles::spec_outcome;

verus! {

/// Bound of the command queue between the command surface and the
/// reactor: producers wait or fail when it is full.
pub const COMMAND_QUEUE_BOUND: usize = 32;

/// The protocol-level request timeout the transport enforces, and
/// equally the caller-side bound an ask waits before failing.
pub const REQUEST_TIMEOUT_SECS: u64 = 120;

/// What to do with an external ask: fail it at once for want of a
/// peer, or send the built request to the chosen peer.
#[derive(Debug, Clone, PartialEq, Eq)]
pub enum AskDecision {
    NoPeer,
    Dispatch { target: PeerId, request: InferenceRequest },
}

/// The reactor-local state: the peers discovery reports, the callers
/// awaiting an answer, and the Leader configuration.  `S` is the
/// single-use slot an external caller awaits on.
pub struct Reactor<S> {
    pub registry: PeerRegistry,
    pub correlator: Correlator<S>,
    pub leader: Leader,
}

impl<S> Reactor<S> {
    /// Both component invariants.
    pub open spec fn wf(self) -> bool {
        &&& self.registry.wf()
        &&& self.correlator.wf()
    }

    /// A reactor with no peers and no outstanding requests.
    pub fn new(default_model: String) -> (r: Self)
        ensures
            r.wf(),
            r.registry@.len() == 0,
            r.correlator@.len() == 0,
            r.leader.default_model == default_model,
    {
        Reactor {
            registry: PeerRegistry::new(),
            correlator: Correlator::new(),
            leader: Leader::new(default_model),
        }
    }

    /// Decides an external ask.  With no peer known it is refused at
    /// once — the caller must not be left to a timeout.  Otherwise the
    /// earliest-seen peer still known is chosen (first-discovered
    /// policy) and the request carries the configured model.
    pub fn handle_ask(&self, prompt: String) -> (d: AskDecision)
        ensures
            match d {
                AskDecision::NoPeer => self.registry@.len() == 0,
                AskDecision::Dispatch { target, request } => {
                    &&& self.registry@.len() > 0
                    &&& target == self.registry.peers()[0]
                    &&& self.registry.spec_contains(target)
                    &&& request@.prompt == prompt@
                    &&& request@.model == Some(self.leader.default_model@)
                },
            },
    {
        match self.registry.first_peer() {
            None => AskDecision::NoPeer,
            Some(p) => AskDecision::Dispatch {
                target: p,
                request: InferenceRequest {
                    prompt,
                    model: Some(self.leader.default_model.clone()),
                },
            },
        }
    }

    /// The failure an ask is resolved with when no peer is known.
    pub fn no_peer_error() -> (r: String)
        ensures
            r@ == "no peer available"@,
    {
        "no peer available".to_owned()
    }

    /// Files the slot of a dispatched ask under the transport-assigned
    /// request id, so the matching response can find its caller.
    pub fn note_dispatched(&mut self, request_id: u64, slot: S) -> (fresh: bool)
        requires
            old(self).wf(),
        ensures
            final(self).wf(),
            final(self).registry == old(self).registry,
            final(self).leader == old(self).leader,
            Correlator::register_spec(
                old(self).correlator,
                final(self).correlator,
                request_id,
                slot,
                fresh,
            ),
    {
        self.correlator.register(request_id, slot)
    }

    /// A transport response for an outbound request: takes the waiting
    /// slot, if the id is tracked, together with the outcome owed to
    /// it — the text on success, the carried error on failure.  An
    /// untracked id is a correlation miss: nothing comes back and
    /// nothing changes, the response is dropped.
    pub fn on_response(&mut self, request_id: u64, resp: InferenceResponse) -> (r: Option<
        (S, Result<String, String>),
    >)
        requires
            old(self).wf(),
        ensures
            final(self).wf(),
            final(self).registry == old(self).registry,
            final(self).leader == old(self).leader,
            match r {
                Some((slot, outcome)) => {
                    &&& old(self).correlator.spec_contains(request_id)
                    &&& Correlator::resolve_spec(
                        old(self).correlator,
                        final(self).correlator,
                        request_id,
                        Some(slot),
                    )
                    &&& res_view(outcome) == spec_outcome(resp@)
                },
                None => {
                    &&& !old(self).correlator.spec_contains(request_id)
                    &&& final(self).correlator@ == old(self).correlator@
                },
            },
    {
        match self.correlator.resolve(request_id) {
            None => None,
            Some(slot) => Some((slot, response_outcome(resp))),
        }
    }

    /// An outbound failure for an outbound request: takes the waiting
    /// slot, if the id is tracked, so the caller can be failed with
    /// the reason.  An untracked id is dropped.
    pub fn on_outbound_failure(&mut self, request_id: u64) -> (r: Option<S>)
        requires
            old(self).wf(),
        ensures
            final(self).wf(),
            final(self).registry == old(self).registry,
            final(self).leader == old(self).leader,
            Correlator::resolve_spec(
                old(self).correlator,
                final(self).correlator,
                request_id,
                r,
            ),
    {
        self.correlator.resolve(request_id)
    }

    /// A discovery appearance updates the registry; nothing else
    /// moves.
    pub fn on_peer_appeared(&mut self, p: PeerId) -> (added: bool)
        requires
            old(self).wf(),
        ensures
            final(self).wf(),
            final(self).correlator == old(self).correlator,
            final(self).leader == old(self).leader,
            PeerRegistry::appeared_spec(old(self).registry, final(self).registry, p, added),
    {
        self.registry.on_appeared(p)
    }

    /// A discovery expiry updates the registry; outstanding requests
    /// stay pending — the transport's timeout governs them.
    pub fn on_peer_expired(&mut self, p: PeerId) -> (removed: bool)
        requires
            old(self).wf(),
        ensures
            final(self).wf(),
            final(self).correlator == old(self).correlator,
            final(self).leader == old(self).leader,
            PeerRegistry::expired_spec(old(self).registry, final(self).registry, p, removed),
    {
        self.registry.on_expired(p)
    }

    /// Shutdown: every waiting slot comes back, oldest first, so each
    /// caller can be failed; nothing stays outstanding.
    pub fn fail_all(&mut self) -> (slots: Vec<S>)
        requires
            old(self).wf(),
        ensures
            final(self).wf(),
            final(self).registry == old(self).registry,
            final(self).leader == old(self).leader,
            final(self).correlator@ == Seq::<(u64, S)>::empty(),
            slots@ == old(self).correlator@.map_values(|e: (u64, S)| e.1),
    {
        self.correlator.fail_all()
    }
}

} // verus!
