use kv_router::prefill_router::conditional_bypass::{
    asks_decode_load, conclude_bypass, considers_bypass, decode_gate_allows_bypass, prefill_busy_signal,
    prefill_busy_threshold, probes_prefill_worker, BypassRequest, DecodeGateDecision, ProbeError,
};

#[test]
fn decode_gate_calm_and_policy_bypass_allows_bypass() {
    assert!(decode_gate_allows_bypass(true, true, Some(false)));
}

#[test]
fn decode_gate_busy_vetoes_policy_bypass() {
    assert!(!decode_gate_allows_bypass(true, true, Some(true)));
}

#[test]
fn decode_gate_does_not_bypass_when_policy_declines() {
    assert!(!decode_gate_allows_bypass(false, true, Some(false)));
    assert!(!decode_gate_allows_bypass(false, true, Some(true)));
    assert!(!decode_gate_allows_bypass(false, true, None));
}

#[test]
fn disabled_decode_gate_does_not_block_bypass() {
    assert!(decode_gate_allows_bypass(true, false, None));
    assert!(decode_gate_allows_bypass(true, false, Some(true)));
}

#[test]
fn configured_decode_gate_signal_unavailable_vetoes_bypass() {
    assert!(!decode_gate_allows_bypass(true, true, None));
}

#[test]
fn conclusion_agrees_with_gate_and_names_its_reason() {
    for policy in [false, true] {
        for configured in [false, true] {
            for load in [None, Some(false), Some(true)] {
                let conclusion = conclude_bypass(policy, configured, load, 3, 16);
                let asked = if policy && configured { load } else { None };
                assert_eq!(conclusion.decode_busy, asked);
                assert_eq!(
                    conclusion.bypass,
                    decode_gate_allows_bypass(policy, configured, asked)
                );
                assert_eq!(conclusion.overlap_tokens, 48);
                let expected = if !policy {
                    "bypass_declined_by_policy"
                } else if !configured {
                    "bypass_allowed_decode_gate_disabled"
                } else if asked.is_none() {
                    "bypass_denied_decode_busy_unknown"
                } else if asked == Some(true) {
                    "bypass_denied_decode_busy"
                } else {
                    "bypass_allowed_decode_not_busy"
                };
                assert_eq!(conclusion.decision.label(), expected);
            }
        }
    }
    assert_eq!(
        conclude_bypass(true, true, Some(false), u32::MAX, u32::MAX).overlap_tokens,
        18446744065119617025
    );
    assert_eq!(
        conclude_bypass(true, true, Some(true), 0, 1).decision,
        DecodeGateDecision::DeniedBusy
    );
}

#[test]
fn bypass_is_considered_only_for_fresh_kv_routed_requests() {
    let request = BypassRequest {
        decode_is_kv_routed: true,
        has_prefill_worker: false,
        decode_host_available: true,
        routing_tokens: 5,
    };
    assert!(considers_bypass(&request));
    assert!(!considers_bypass(&BypassRequest { decode_is_kv_routed: false, ..request }));
    assert!(!considers_bypass(&BypassRequest { has_prefill_worker: true, ..request }));
    assert!(!considers_bypass(&BypassRequest { decode_host_available: false, ..request }));
    assert!(!considers_bypass(&BypassRequest { routing_tokens: 0, ..request }));
}

#[test]
fn failed_probe_counts_as_unknown_load_but_cancellation_ends_the_request() {
    assert_eq!(prefill_busy_signal(None), Ok(None));
    assert_eq!(prefill_busy_signal(Some(Ok(true))), Ok(Some(true)));
    assert_eq!(prefill_busy_signal(Some(Err(ProbeError::Failed))), Ok(None));
    assert_eq!(
        prefill_busy_signal(Some(Err(ProbeError::Cancelled))),
        Err(ProbeError::Cancelled)
    );
    assert!(probes_prefill_worker(true, true));
    assert!(!probes_prefill_worker(true, false));
    assert!(!probes_prefill_worker(false, true));
    assert_eq!(prefill_busy_threshold(Some(1.5), Some(2.5)), Some(1.5));
    assert_eq!(prefill_busy_threshold(None, Some(2.5)), Some(2.5));
    assert_eq!(prefill_busy_threshold::<f64>(None, None), None);
}

#[test]
fn decode_load_is_asked_for_a_gated_bypass_alone() {
    assert!(asks_decode_load(true, true));
    assert!(!asks_decode_load(true, false));
    assert!(!asks_decode_load(false, true));
}
