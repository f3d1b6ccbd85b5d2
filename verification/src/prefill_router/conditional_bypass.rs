//! Conditional bypass of the prefill hop: when a decode worker takes the whole request.
use vstd::prelude::*;

verus! {

/// A bypass that the policy wants still needs a decode worker that is known not to be busy,
/// where that is checked at all.
pub fn decode_gate_allows_bypass(
    policy_says_bypass: bool,
    decode_gate_configured: bool,
    decode_busy: Option<bool>,
) -> (allowed: bool)
    ensures
        allowed == (policy_says_bypass && (!decode_gate_configured || decode_busy == Some(false))),
{
    policy_says_bypass && (!decode_gate_configured || (match decode_busy {
        Some(busy) => !busy,
        None => false,
    }))
}

/// Why a bypass was allowed or denied.
#[derive(Clone, Copy, Debug, PartialEq, Eq, Structural)]
pub enum DecodeGateDecision {
    DeclinedByPolicy,
    AllowedGateDisabled,
    DeniedBusyUnknown,
    DeniedBusy,
    AllowedNotBusy,
}

impl DecodeGateDecision {
    pub open spec fn allows(self) -> bool {
        self == DecodeGateDecision::AllowedGateDisabled || self
            == DecodeGateDecision::AllowedNotBusy
    }

    /// The decision as it is logged.
    pub fn label(&self) -> (label: &'static str)
        ensures
            label@ == match self {
                DecodeGateDecision::DeclinedByPolicy => "bypass_declined_by_policy"@,
                DecodeGateDecision::AllowedGateDisabled => "bypass_allowed_decode_gate_disabled"@,
                DecodeGateDecision::DeniedBusyUnknown => "bypass_denied_decode_busy_unknown"@,
                DecodeGateDecision::DeniedBusy => "bypass_denied_decode_busy"@,
                DecodeGateDecision::AllowedNotBusy => "bypass_allowed_decode_not_busy"@,
            },
    {
        match self {
            DecodeGateDecision::DeclinedByPolicy => "bypass_declined_by_policy",
            DecodeGateDecision::AllowedGateDisabled => "bypass_allowed_decode_gate_disabled",
            DecodeGateDecision::DeniedBusyUnknown => "bypass_denied_decode_busy_unknown",
            DecodeGateDecision::DeniedBusy => "bypass_denied_decode_busy",
            DecodeGateDecision::AllowedNotBusy => "bypass_allowed_decode_not_busy",
        }
    }
}

pub open spec fn gate_decision(
    policy_says_bypass: bool,
    decode_gate_configured: bool,
    decode_busy: Option<bool>,
) -> DecodeGateDecision {
    if !policy_says_bypass {
        DecodeGateDecision::DeclinedByPolicy
    } else if !decode_gate_configured {
        DecodeGateDecision::AllowedGateDisabled
    } else if decode_busy is None {
        DecodeGateDecision::DeniedBusyUnknown
    } else if decode_busy == Some(true) {
        DecodeGateDecision::DeniedBusy
    } else {
        DecodeGateDecision::AllowedNotBusy
    }
}

/// A decision allows a bypass exactly where the policy wants one and no check stands against it.
pub proof fn law_decision_label_matches_gate(
    policy_says_bypass: bool,
    decode_gate_configured: bool,
    decode_busy: Option<bool>,
)
    ensures
        gate_decision(policy_says_bypass, decode_gate_configured, decode_busy).allows() <==> (
        policy_says_bypass && (!decode_gate_configured || decode_busy == Some(false))),
{
    match decode_busy {
        Some(busy) => assert(busy || !busy),
        None => {},
    }
}

/// What is known of a request before its decode route is previewed.
#[derive(Clone, Copy, Debug, PartialEq, Eq, Structural)]
pub struct BypassRequest {
    pub decode_is_kv_routed: bool,
    /// Whether the request already names a prefill worker.
    pub has_prefill_worker: bool,
    pub decode_host_available: bool,
    pub routing_tokens: usize,
}

/// Whether a bypass is considered at all: only for a KV-routed decode set, and for a request
/// that has tokens and no prefill worker yet.
pub fn considers_bypass(request: &BypassRequest) -> (considered: bool)
    ensures
        considered == (request.decode_is_kv_routed && !request.has_prefill_worker
            && request.decode_host_available && request.routing_tokens > 0),
{
    request.decode_is_kv_routed && !request.has_prefill_worker && request.decode_host_available
        && request.routing_tokens > 0
}

/// Why the load of the prefill worker could not be told.
#[derive(Clone, Copy, Debug, PartialEq, Eq, Structural)]
pub enum ProbeError {
    Cancelled,
    Failed,
}

/// Whether the prefill worker is to be probed: with a threshold, and a hop to ask.
pub fn probes_prefill_worker(threshold_configured: bool, hop_activated: bool) -> (probes: bool)
    ensures
        probes == (threshold_configured && hop_activated),
{
    threshold_configured && hop_activated
}

/// What a probe tells the policy. A failed probe counts as unknown load, a cancelled one ends
/// the request.
pub fn prefill_busy_signal(probe: Option<Result<bool, ProbeError>>) -> (signal: Result<
    Option<bool>,
    ProbeError,
>)
    ensures
        signal == match probe {
            None => Ok::<Option<bool>, ProbeError>(None),
            Some(Ok(busy)) => Ok(Some(busy)),
            Some(Err(ProbeError::Failed)) => Ok(None),
            Some(Err(ProbeError::Cancelled)) => Err(ProbeError::Cancelled),
        },
{
    match probe {
        None => Ok(None),
        Some(Ok(busy)) => Ok(Some(busy)),
        Some(Err(ProbeError::Failed)) => Ok(None),
        Some(Err(ProbeError::Cancelled)) => Err(ProbeError::Cancelled),
    }
}

/// The threshold that a prefill worker counts as busy from: its own, or else the queue's.
pub fn prefill_busy_threshold<T>(own: Option<T>, queue: Option<T>) -> (threshold: Option<T>)
    ensures
        threshold == if own is Some {
            own
        } else {
            queue
        },
{
    match own {
        Some(value) => Some(value),
        None => queue,
    }
}

/// The outcome of considering a bypass.
#[derive(Clone, Copy, Debug, PartialEq, Eq, Structural)]
pub struct BypassConclusion {
    pub bypass: bool,
    pub decision: DecodeGateDecision,
    /// What is known of the decode worker's load; not asked unless the policy wants a bypass.
    pub decode_busy: Option<bool>,
    pub overlap_tokens: u64,
}

pub open spec fn asked_decode_busy(
    policy_says_bypass: bool,
    decode_gate_configured: bool,
    decode_load_exceeds: Option<bool>,
) -> Option<bool> {
    if policy_says_bypass && decode_gate_configured {
        decode_load_exceeds
    } else {
        None
    }
}

/// Whether the load of the decode worker matters.
pub fn asks_decode_load(policy_says_bypass: bool, decode_gate_configured: bool) -> (asks: bool)
    ensures
        asks == (policy_says_bypass && decode_gate_configured),
{
    policy_says_bypass && decode_gate_configured
}

/// Decide on a bypass, given what the policy says and how loaded the decode worker would be.
pub fn conclude_bypass(
    policy_says_bypass: bool,
    decode_gate_configured: bool,
    decode_load_exceeds: Option<bool>,
    overlap_blocks: u32,
    block_size: u32,
) -> (conclusion: BypassConclusion)
    ensures
        ({
            let busy = asked_decode_busy(
                policy_says_bypass,
                decode_gate_configured,
                decode_load_exceeds,
            );
            &&& conclusion.decode_busy == busy
            &&& conclusion.decision == gate_decision(
                policy_says_bypass,
                decode_gate_configured,
                busy,
            )
            &&& conclusion.bypass == conclusion.decision.allows()
        }),
        conclusion.overlap_tokens == overlap_blocks * block_size,
{
    let decode_busy: Option<bool> = if asks_decode_load(
        policy_says_bypass,
        decode_gate_configured,
    ) {
        decode_load_exceeds
    } else {
        None
    };
    let bypass: bool = decode_gate_allows_bypass(
        policy_says_bypass,
        decode_gate_configured,
        decode_busy,
    );
    let decision = if !policy_says_bypass {
        DecodeGateDecision::DeclinedByPolicy
    } else if !decode_gate_configured {
        DecodeGateDecision::AllowedGateDisabled
    } else {
        match decode_busy {
            None => DecodeGateDecision::DeniedBusyUnknown,
            Some(true) => DecodeGateDecision::DeniedBusy,
            Some(false) => DecodeGateDecision::AllowedNotBusy,
        }
    };
    let overlap_blocks: u64 = overlap_blocks as u64;
    let block_size: u64 = block_size as u64;
    proof {
        assert(overlap_blocks * block_size <= u32::MAX * u32::MAX) by (nonlinear_arith)
            requires
                overlap_blocks <= u32::MAX,
                block_size <= u32::MAX,
        ;
    }
    BypassConclusion { bypass, decision, decode_busy, overlap_tokens: overlap_blocks * block_size }
}

/// A bypass that the policy does not want is never allowed; one that it wants is allowed without a
/// gate, and with one exactly if the decode worker is known not to be busy.
pub proof fn law_gate_denies_what_is_busy_or_unknown(
    policy_says_bypass: bool,
    decode_gate_configured: bool,
    decode_busy: Option<bool>,
    allowed: bool,
)
    requires
        call_ensures(
            decode_gate_allows_bypass,
            (policy_says_bypass, decode_gate_configured, decode_busy),
            allowed,
        ),
    ensures
        !policy_says_bypass ==> !allowed,
        policy_says_bypass && !decode_gate_configured ==> allowed,
        policy_says_bypass && decode_gate_configured && decode_busy is None ==> !allowed,
        policy_says_bypass && decode_gate_configured && decode_busy is Some ==> allowed
            == !decode_busy->0,
{
}

/// A bypass is considered only for a KV-routed decode set that can host it, and only for a request
/// that has tokens and names no prefill worker.
pub proof fn law_bypass_is_considered(request: &BypassRequest, considered: bool)
    requires
        call_ensures(considers_bypass, (request,), considered),
    ensures
        !request.decode_is_kv_routed ==> !considered,
        request.has_prefill_worker ==> !considered,
        !request.decode_host_available ==> !considered,
        request.routing_tokens == 0 ==> !considered,
        request.decode_is_kv_routed && !request.has_prefill_worker
            && request.decode_host_available && request.routing_tokens >= 1 ==> considered,
{
}

/// The prefill worker is probed where there is a threshold and an activated hop; the decode
/// worker's load is asked for where the policy wants a bypass and a gate is configured. What a
/// probe could not tell counts as unknown, and only a cancelled one ends the request.
pub proof fn law_probes_and_their_answers(
    threshold_configured: bool,
    hop_activated: bool,
    probes: bool,
    policy_says_bypass: bool,
    decode_gate_configured: bool,
    asks: bool,
    probe: Option<Result<bool, ProbeError>>,
    signal: Result<Option<bool>, ProbeError>,
)
    requires
        call_ensures(probes_prefill_worker, (threshold_configured, hop_activated), probes),
        call_ensures(asks_decode_load, (policy_says_bypass, decode_gate_configured), asks),
        call_ensures(prefill_busy_signal, (probe,), signal),
    ensures
        probes <==> threshold_configured && hop_activated,
        asks <==> policy_says_bypass && decode_gate_configured,
        signal is Err <==> probe == Some(Err::<bool, ProbeError>(ProbeError::Cancelled)),
        signal is Err ==> signal->Err_0 is Cancelled,
        probe is Some && probe->0 is Ok ==> signal->Ok_0 == Some(probe->0->Ok_0),
        signal is Ok && !(probe is Some && probe->0 is Ok) ==> signal->Ok_0 is None,
{
}

/// A prefill worker's own threshold goes before the queue's.
pub proof fn law_own_threshold_goes_first<T>(
    own: Option<T>,
    queue: Option<T>,
    threshold: Option<T>,
)
    requires
        call_ensures(prefill_busy_threshold::<T>, (own, queue), threshold),
    ensures
        own is Some ==> threshold == own,
        own is None ==> threshold == queue,
{
}

/// A conclusion bypasses exactly if the policy wants it and either no gate is configured or the
/// decode worker's load is known not to exceed; its decision says which, the load is reported only
/// where it was asked for, and the overlap is counted in tokens.
pub proof fn law_bypass_conclusion_is_explained(
    policy_says_bypass: bool,
    decode_gate_configured: bool,
    decode_load_exceeds: Option<bool>,
    overlap_blocks: u32,
    block_size: u32,
    conclusion: BypassConclusion,
)
    requires
        call_ensures(
            conclude_bypass,
            (
                policy_says_bypass,
                decode_gate_configured,
                decode_load_exceeds,
                overlap_blocks,
                block_size,
            ),
            conclusion,
        ),
    ensures
        conclusion.bypass <==> policy_says_bypass && (!decode_gate_configured
            || decode_load_exceeds == Some(false)),
        conclusion.decision is DeclinedByPolicy <==> !policy_says_bypass,
        conclusion.decision is AllowedGateDisabled <==> policy_says_bypass
            && !decode_gate_configured,
        conclusion.decision is DeniedBusyUnknown <==> policy_says_bypass && decode_gate_configured
            && decode_load_exceeds is None,
        conclusion.decision is DeniedBusy <==> policy_says_bypass && decode_gate_configured
            && decode_load_exceeds == Some(true),
        conclusion.decision is AllowedNotBusy <==> policy_says_bypass && decode_gate_configured
            && decode_load_exceeds == Some(false),
        policy_says_bypass && decode_gate_configured ==> conclusion.decode_busy
            == decode_load_exceeds,
        !policy_says_bypass || !decode_gate_configured ==> conclusion.decode_busy is None,
        conclusion.overlap_tokens == overlap_blocks * block_size,
{
    match decode_load_exceeds {
        Some(busy) => assert(busy || !busy),
        None => {},
    }
}

/// Each decision is logged under its own name.
pub proof fn law_decisions_are_named(decision: &DecodeGateDecision, label: &'static str)
    requires
        call_ensures(DecodeGateDecision::label, (decision,), label),
    ensures
        *decision is DeclinedByPolicy ==> label@ == "bypass_declined_by_policy"@,
        *decision is AllowedGateDisabled ==> label@ == "bypass_allowed_decode_gate_disabled"@,
        *decision is DeniedBusyUnknown ==> label@ == "bypass_denied_decode_busy_unknown"@,
        *decision is DeniedBusy ==> label@ == "bypass_denied_decode_busy"@,
        *decision is AllowedNotBusy ==> label@ == "bypass_allowed_decode_not_busy"@,
{
}

} // verus!
