//! The life of an optional routing hop: which worker set it is to use, and whether it can.
use vstd::prelude::*;

verus! {

/// Pause before a failed activation is tried again.
pub const HOP_RETRY_DELAY_MS: u64 = 1000;

#[derive(Clone, Copy, Debug, PartialEq, Eq, Structural)]
pub enum HopLifecycleState {
    Pending,
    Active,
    Unavailable,
}

impl HopLifecycleState {
    pub open spec fn code(self) -> u8 {
        match self {
            HopLifecycleState::Pending => 0,
            HopLifecycleState::Active => 1,
            HopLifecycleState::Unavailable => 2,
        }
    }

    /// The state that a stored code stands for.
    pub fn load(value: u8) -> (state: Self)
        requires
            value <= 2,
        ensures
            state.code() == value,
    {
        match value {
            0 => HopLifecycleState::Pending,
            1 => HopLifecycleState::Active,
            _ => HopLifecycleState::Unavailable,
        }
    }

    pub fn store(&self) -> (value: u8)
        ensures
            value == self.code(),
            value <= 2,
    {
        match self {
            HopLifecycleState::Pending => 0,
            HopLifecycleState::Active => 1,
            HopLifecycleState::Unavailable => 2,
        }
    }
}

/// What the task that drives a hop does next.
#[derive(Clone, Copy, Debug, PartialEq, Eq, Structural)]
pub enum DriveStep {
    /// Nothing to build: wait for another target.
    AwaitChange,
    /// Build a binding for the target; drop it when the target changes.
    Build { target_id: u64 },
}

/// What follows a build.
#[derive(Clone, Copy, Debug, PartialEq, Eq, Structural)]
pub enum BuiltStep {
    /// The target changed meanwhile: the result is dropped.
    Superseded,
    Activated,
    /// Wait, or for another target, and build again.
    RetryAfter { delay_ms: u64 },
}

/// A hop. Targets are told apart by id.
#[derive(Clone, Copy, Debug, PartialEq, Eq, Structural)]
pub struct RoutingHop {
    /// The target that requests are sent to once the hop is active.
    pub binding: Option<u64>,
    /// The target that is asked for.
    pub target: Option<u64>,
    pub lifecycle: HopLifecycleState,
    /// Whether a task follows the target; without one the hop never activates.
    pub driven: bool,
}

impl RoutingHop {
    /// An active hop uses exactly the target that is asked for.
    pub open spec fn wf(self) -> bool {
        self.lifecycle == HopLifecycleState::Active ==> self.binding is Some && self.binding
            == self.target
    }

    pub open spec fn idle(driven: bool) -> RoutingHop {
        RoutingHop {
            binding: None,
            target: None,
            lifecycle: HopLifecycleState::Pending,
            driven,
        }
    }

    pub open spec fn retargeted(self, target: Option<u64>) -> RoutingHop {
        if target == self.target {
            self
        } else if target is None {
            RoutingHop { target, lifecycle: HopLifecycleState::Unavailable, ..self }
        } else if self.binding == target {
            RoutingHop { target, lifecycle: HopLifecycleState::Active, ..self }
        } else {
            RoutingHop { target, binding: None, lifecycle: HopLifecycleState::Pending, ..self }
        }
    }

    pub open spec fn built(self, target_id: u64, success: bool) -> RoutingHop {
        if success && self.target == Some(target_id) {
            RoutingHop {
                binding: Some(target_id),
                lifecycle: HopLifecycleState::Active,
                ..self
            }
        } else {
            self
        }
    }

    pub fn new(driven: bool) -> (hop: Self)
        ensures
            hop == RoutingHop::idle(driven),
            hop.wf(),
    {
        RoutingHop {
            binding: None,
            target: None,
            lifecycle: HopLifecycleState::Pending,
            driven,
        }
    }

    /// Ask for another target, or for none. Takes effect at once: whoever looks next no longer
    /// uses the old target. `true` asks to notify the driving task.
    pub fn set_target(&mut self, target: Option<u64>) -> (notify: bool)
        requires
            old(self).wf(),
        ensures
            final(self).wf(),
            *final(self) == old(self).retargeted(target),
            notify == (target != old(self).target && old(self).driven),
    {
        if self.target == target {
            return false;
        }
        self.target = target;
        if target.is_none() {
            self.lifecycle = HopLifecycleState::Unavailable;
        } else if self.binding == target {
            self.lifecycle = HopLifecycleState::Active;
        } else {
            self.binding = None;
            self.lifecycle = HopLifecycleState::Pending;
        }
        self.driven
    }

    /// Decide what the driving task does about the target it sees.
    pub fn drive(&self, target: Option<u64>) -> (step: DriveStep)
        ensures
            step == match target {
                Some(target_id) => if self.binding == target && self.lifecycle
                    == HopLifecycleState::Active {
                    DriveStep::AwaitChange
                } else {
                    DriveStep::Build { target_id }
                },
                None => DriveStep::AwaitChange,
            },
    {
        match target {
            Some(target_id) => {
                if self.binding == target && self.lifecycle == HopLifecycleState::Active {
                    DriveStep::AwaitChange
                } else {
                    DriveStep::Build { target_id }
                }
            },
            None => DriveStep::AwaitChange,
        }
    }

    /// Take the outcome of a build. One for another target than is now asked for is dropped.
    pub fn on_built(&mut self, target_id: u64, success: bool) -> (step: BuiltStep)
        requires
            old(self).wf(),
        ensures
            final(self).wf(),
            *final(self) == old(self).built(target_id, success),
            step == if old(self).target != Some(target_id) {
                BuiltStep::Superseded
            } else if success {
                BuiltStep::Activated
            } else {
                BuiltStep::RetryAfter { delay_ms: HOP_RETRY_DELAY_MS }
            },
    {
        if self.target != Some(target_id) {
            return BuiltStep::Superseded;
        }
        if success {
            self.binding = Some(target_id);
            self.lifecycle = HopLifecycleState::Active;
            BuiltStep::Activated
        } else {
            BuiltStep::RetryAfter { delay_ms: HOP_RETRY_DELAY_MS }
        }
    }

    pub fn is_activated(&self) -> (activated: bool)
        ensures
            activated == (self.binding is Some),
    {
        self.binding.is_some()
    }

    pub fn lifecycle_state(&self) -> (state: HopLifecycleState)
        ensures
            state == self.lifecycle,
    {
        self.lifecycle
    }
}

/// From the moment a target is withdrawn or replaced, the hop is not active until a binding for
/// the new target was built.
pub proof fn law_retargeting_stops_use_at_once(hop: RoutingHop, target: Option<u64>)
    requires
        hop.wf(),
        target != hop.target,
        hop.binding != target || target is None,
    ensures
        hop.retargeted(target).lifecycle != HopLifecycleState::Active,
        target is Some ==> hop.retargeted(target).binding is None,
{
}

/// A build that comes too late never activates its target.
pub proof fn law_stale_build_is_dropped(hop: RoutingHop, target_id: u64, success: bool)
    requires
        hop.target != Some(target_id),
    ensures
        hop.built(target_id, success) == hop,
{
}

/// Returning to a target whose binding is still there makes the hop active again without a
/// build.
pub proof fn law_return_to_bound_target_reactivates(hop: RoutingHop)
    requires
        hop.wf(),
        hop.lifecycle == HopLifecycleState::Active,
    ensures
        hop.retargeted(None).retargeted(hop.target) == hop,
{
}

/// What is stored of a state is loaded as the same state, and no two states are stored alike.
pub proof fn law_stored_state_is_loaded(
    state: &HopLifecycleState,
    value: u8,
    loaded: HopLifecycleState,
)
    requires
        call_ensures(HopLifecycleState::store, (state,), value),
        call_ensures(HopLifecycleState::load, (value,), loaded),
    ensures
        loaded == *state,
        value == 0 <==> *state is Pending,
        value == 1 <==> *state is Active,
        value == 2 <==> *state is Unavailable,
{
}

/// A hop that is given another target uses the old one no more: without a target it is
/// unavailable, with one that it is bound to it is active at once, and with any other it is
/// pending and unbound. The same target again changes nothing. The driving task is told of a
/// change, where there is one.
pub proof fn law_new_target_takes_effect_at_once(
    hop: &mut RoutingHop,
    target: Option<u64>,
    notify: bool,
)
    requires
        old(hop).wf(),
        call_ensures(RoutingHop::set_target, (hop, target), notify),
    ensures
        final(hop).target == target,
        final(hop).driven == old(hop).driven,
        notify <==> target != old(hop).target && old(hop).driven,
        target == old(hop).target ==> *final(hop) == *old(hop),
        target != old(hop).target && target is None ==> final(hop).lifecycle is Unavailable
            && final(hop).binding == old(hop).binding,
        target != old(hop).target && target is Some && old(hop).binding == target
            ==> final(hop).lifecycle is Active && final(hop).binding == target,
        target != old(hop).target && target is Some && old(hop).binding != target
            ==> final(hop).lifecycle is Pending && final(hop).binding is None,
{
}

/// The driving task builds a binding for the target it sees, unless the hop is active on that
/// very target already; without a target it waits.
pub proof fn law_driver_builds_what_is_missing(
    hop: &RoutingHop,
    target: Option<u64>,
    step: DriveStep,
)
    requires
        call_ensures(RoutingHop::drive, (hop, target), step),
    ensures
        target is None ==> step is AwaitChange,
        target is Some && hop.binding == target && hop.lifecycle is Active ==> step is AwaitChange,
        target is Some && !(hop.binding == target && hop.lifecycle is Active) ==> step == (
        DriveStep::Build { target_id: target->0 }),
{
}

/// A build for the target that is asked for activates the hop on it; a failed one is tried again
/// after 1000 ms; one for another target is dropped, whatever came of it.
pub proof fn law_build_activates_the_asked_target(
    hop: &mut RoutingHop,
    target_id: u64,
    success: bool,
    step: BuiltStep,
)
    requires
        old(hop).wf(),
        call_ensures(RoutingHop::on_built, (hop, target_id, success), step),
    ensures
        old(hop).target != Some(target_id) ==> step is Superseded && *final(hop) == *old(hop),
        old(hop).target == Some(target_id) && success ==> {
            &&& step is Activated
            &&& final(hop).binding == Some(target_id)
            &&& final(hop).lifecycle is Active
            &&& final(hop).target == old(hop).target
            &&& final(hop).driven == old(hop).driven
        },
        old(hop).target == Some(target_id) && !success ==> step == (BuiltStep::RetryAfter {
            delay_ms: 1000,
        }) && *final(hop) == *old(hop),
{
}

/// A new hop is pending, without a target or a binding; a hop counts as activated while it has a
/// binding.
pub proof fn law_new_hop_is_pending(
    driven: bool,
    fresh: RoutingHop,
    hop: &RoutingHop,
    activated: bool,
    state: HopLifecycleState,
)
    requires
        call_ensures(RoutingHop::new, (driven,), fresh),
        call_ensures(RoutingHop::is_activated, (hop,), activated),
        call_ensures(RoutingHop::lifecycle_state, (hop,), state),
    ensures
        fresh.binding is None && fresh.target is None && fresh.lifecycle is Pending,
        fresh.driven == driven,
        activated <==> hop.binding is Some,
        state == hop.lifecycle,
{
}

} // verus!
