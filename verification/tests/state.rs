use axon_cluster::correlator::Correlator;
use axon_cluster::protocol::InferenceRequest;
use axon_cluster::protocol::InferenceResponse;
use axon_cluster::reactor::AskDecision;
use axon_cluster::reactor::Reactor;
use axon_cluster::registry::PeerId;
use axon_cluster::registry::PeerRegistry;
use axon_cluster::roles::Leader;
use axon_cluster::roles::Subordinate;
use axon_cluster::roles::SubordinateState;
use axon_cluster::roles::response_outcome;

fn peer(id: u64) -> PeerId {
    PeerId { id }
}

#[test]
fn registry_appearance_is_idempotent() {
    let mut reg = PeerRegistry::new();
    assert!(reg.on_appeared(peer(1)));
    assert!(!reg.on_appeared(peer(1)));
    assert_eq!(reg.known_peers(), vec![peer(1)]);
}

#[test]
fn registry_expiry_removes_and_unknown_expiry_is_noop() {
    let mut reg = PeerRegistry::new();
    reg.on_appeared(peer(1));
    reg.on_appeared(peer(2));
    assert!(reg.on_expired(peer(1)));
    assert_eq!(reg.known_peers(), vec![peer(2)]);
    assert!(!reg.on_expired(peer(3)));
    assert_eq!(reg.known_peers(), vec![peer(2)]);
}

#[test]
fn registry_is_new_and_reappearance_after_expiry() {
    let mut reg = PeerRegistry::new();
    assert!(reg.is_new(peer(5)));
    reg.on_appeared(peer(5));
    assert!(!reg.is_new(peer(5)));
    reg.on_expired(peer(5));
    assert!(reg.is_new(peer(5)));
    assert!(reg.on_appeared(peer(5)));
    assert_eq!(reg.len(), 1);
}

#[test]
fn registry_first_peer_follows_first_seen_order() {
    let mut reg = PeerRegistry::new();
    assert_eq!(reg.first_peer(), None);
    reg.on_appeared(peer(9));
    reg.on_appeared(peer(4));
    assert_eq!(reg.first_peer(), Some(peer(9)));
    reg.on_expired(peer(9));
    assert_eq!(reg.first_peer(), Some(peer(4)));
}

#[test]
fn correlator_resolves_exactly_once() {
    let mut cor: Correlator<&'static str> = Correlator::new();
    assert!(cor.register(7, "slot-a"));
    assert_eq!(cor.resolve(7), Some("slot-a"));
    assert_eq!(cor.resolve(7), None);
    assert_eq!(cor.len(), 0);
}

#[test]
fn correlator_keeps_first_slot_for_duplicate_id() {
    let mut cor: Correlator<&'static str> = Correlator::new();
    assert!(cor.register(7, "first"));
    assert!(!cor.register(7, "second"));
    assert_eq!(cor.resolve(7), Some("first"));
}

#[test]
fn correlator_miss_changes_nothing() {
    let mut cor: Correlator<u32> = Correlator::new();
    cor.register(1, 10);
    assert_eq!(cor.resolve(2), None);
    assert_eq!(cor.len(), 1);
    assert_eq!(cor.resolve(1), Some(10));
}

#[test]
fn correlator_fail_all_drains_in_order() {
    let mut cor: Correlator<u32> = Correlator::new();
    cor.register(1, 10);
    cor.register(2, 20);
    cor.register(3, 30);
    assert_eq!(cor.fail_all(), vec![10, 20, 30]);
    assert_eq!(cor.len(), 0);
}

#[test]
fn leader_chooses_requested_model_or_default() {
    let leader = Leader::new("qwen:0.5b".to_string());
    let with_model = InferenceRequest {
        prompt: "hi".to_string(),
        model: Some("llama".to_string()),
    };
    let without_model = InferenceRequest {
        prompt: "hi".to_string(),
        model: None,
    };
    assert_eq!(leader.choose_model(&with_model), "llama");
    assert_eq!(leader.choose_model(&without_model), "qwen:0.5b");
}

#[test]
fn leader_success_scenario() {
    // Inbound {prompt: "2+2?", model: None}, backend answers "4".
    let leader = Leader::new("qwen:0.5b".to_string());
    let req = InferenceRequest {
        prompt: "2+2?".to_string(),
        model: None,
    };
    assert_eq!(leader.choose_model(&req), "qwen:0.5b");
    let resp = Leader::build_response(Ok("4".to_string()));
    assert_eq!(
        resp,
        InferenceResponse {
            text: "4".to_string(),
            success: true,
            error: None,
        }
    );
}

#[test]
fn leader_failure_scenario() {
    let resp = Leader::build_response(Err("connection refused".to_string()));
    assert_eq!(
        resp,
        InferenceResponse {
            text: String::new(),
            success: false,
            error: Some("connection refused".to_string()),
        }
    );
}

#[test]
fn subordinate_adopts_first_peer_and_sends_once() {
    let mut sub = Subordinate::new("hi".to_string());
    assert_eq!(sub.state(), SubordinateState::Discovering);
    let req = sub.on_peer_appeared(peer(1)).unwrap();
    assert_eq!(
        req,
        InferenceRequest {
            prompt: "hi".to_string(),
            model: None,
        }
    );
    // A second peer cannot displace the adopted target.
    assert_eq!(sub.on_peer_appeared(peer(2)), None);
    sub.on_dispatched(42);
    assert_eq!(
        sub.state(),
        SubordinateState::RequestSent {
            target: peer(1),
            request_id: 42,
        }
    );
}

#[test]
fn subordinate_completes_on_matching_response() {
    let mut sub = Subordinate::new("hi".to_string());
    sub.on_peer_appeared(peer(1)).unwrap();
    sub.on_dispatched(42);
    let other = InferenceResponse {
        text: "nope".to_string(),
        success: true,
        error: None,
    };
    // A response for a different request id is dropped.
    assert_eq!(sub.on_response(41, other), None);
    let resp = InferenceResponse {
        text: "4".to_string(),
        success: true,
        error: None,
    };
    let done = sub.on_response(42, resp.clone()).unwrap();
    assert_eq!(done, resp);
    assert_eq!(sub.state(), SubordinateState::Completed { success: true });
    // Once resolved, a late failure event is dropped.
    assert_eq!(sub.on_outbound_failure(42, "late".to_string()), None);
}

#[test]
fn subordinate_timeout_scenario() {
    // The peer never answers; the transport delivers an outbound
    // failure for the tracked request, and the run fails with the
    // reason to surface.
    let mut sub = Subordinate::new("hi".to_string());
    sub.on_peer_appeared(peer(1)).unwrap();
    sub.on_dispatched(7);
    sub.on_peer_expired(peer(1));
    assert_eq!(
        sub.state(),
        SubordinateState::RequestSent {
            target: peer(1),
            request_id: 7,
        }
    );
    let reason = sub.on_outbound_failure(7, "request timed out".to_string()).unwrap();
    assert_eq!(reason, "request timed out");
    assert_eq!(sub.state(), SubordinateState::Failed);
    // The single resolution is spent; a late response is dropped.
    let late = InferenceResponse {
        text: "4".to_string(),
        success: true,
        error: None,
    };
    assert_eq!(sub.on_response(7, late), None);
}

#[test]
fn reactor_refuses_ask_without_peers() {
    let reactor: Reactor<u32> = Reactor::new("qwen:0.5b".to_string());
    assert_eq!(reactor.handle_ask("hi".to_string()), AskDecision::NoPeer);
    assert_eq!(Reactor::<u32>::no_peer_error(), "no peer available");
}

#[test]
fn reactor_dispatches_to_first_discovered_peer() {
    let mut reactor: Reactor<u32> = Reactor::new("qwen:0.5b".to_string());
    reactor.on_peer_appeared(peer(3));
    reactor.on_peer_appeared(peer(8));
    let decision = reactor.handle_ask("hi".to_string());
    assert_eq!(
        decision,
        AskDecision::Dispatch {
            target: peer(3),
            request: InferenceRequest {
                prompt: "hi".to_string(),
                model: Some("qwen:0.5b".to_string()),
            },
        }
    );
}

#[test]
fn reactor_resolves_tracked_response_and_drops_untracked() {
    let mut reactor: Reactor<u32> = Reactor::new("qwen:0.5b".to_string());
    assert!(reactor.note_dispatched(5, 99));
    let stray = InferenceResponse {
        text: "stray".to_string(),
        success: true,
        error: None,
    };
    assert_eq!(reactor.on_response(6, stray), None);
    let resp = InferenceResponse {
        text: "ok".to_string(),
        success: true,
        error: None,
    };
    let (slot, outcome) = reactor.on_response(5, resp).unwrap();
    assert_eq!(slot, 99);
    assert_eq!(outcome, Ok("ok".to_string()));
    let late = InferenceResponse {
        text: "late".to_string(),
        success: true,
        error: None,
    };
    assert_eq!(reactor.on_response(5, late), None);
}

#[test]
fn reactor_outbound_failure_returns_slot() {
    let mut reactor: Reactor<u32> = Reactor::new("qwen:0.5b".to_string());
    reactor.note_dispatched(5, 99);
    assert_eq!(reactor.on_outbound_failure(4), None);
    assert_eq!(reactor.on_outbound_failure(5), Some(99));
    assert_eq!(reactor.on_outbound_failure(5), None);
}

#[test]
fn reactor_fail_all_returns_every_slot() {
    let mut reactor: Reactor<u32> = Reactor::new("qwen:0.5b".to_string());
    reactor.note_dispatched(1, 10);
    reactor.note_dispatched(2, 20);
    assert_eq!(reactor.fail_all(), vec![10, 20]);
    assert_eq!(reactor.on_outbound_failure(1), None);
}

#[test]
fn response_outcome_translation() {
    let ok = InferenceResponse {
        text: "4".to_string(),
        success: true,
        error: None,
    };
    assert_eq!(response_outcome(ok), Ok("4".to_string()));
    let failed = InferenceResponse {
        text: String::new(),
        success: false,
        error: Some("boom".to_string()),
    };
    assert_eq!(response_outcome(failed), Err("boom".to_string()));
    let bare = InferenceResponse {
        text: String::new(),
        success: false,
        error: None,
    };
    assert_eq!(response_outcome(bare), Err("Unknown error".to_string()));
}
