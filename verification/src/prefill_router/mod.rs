//! The prefill hop of disaggregated serving: how it is configured and activated, and how its
//! workers are queried and reserved.
pub mod conditional_bypass;
pub mod stream;

use vstd::prelude::*;
use vstd::string::*;

use crate::hop::{HopLifecycleState, RoutingHop};
use crate::metrics::{decimal, decimal_digits};
use crate::prefill_router::stream::PrefillError;
use crate::protocols::WorkerWithDpRank;

verus! {

pub type PrefillLifecycleState = HopLifecycleState;

#[derive(Clone, Copy, Debug, PartialEq, Eq, Structural)]
pub enum RouterMode {
    RoundRobin,
    PowerOfTwoChoices,
    LeastLoaded,
    DeviceAwareWeighted,
    KV,
    /// Another mode, by number; none of these routes by KV.
    Other(u32),
}

impl RouterMode {
    pub fn is_kv_routing(&self) -> (is_kv: bool)
        ensures
            is_kv == (*self == RouterMode::KV),
    {
        match self {
            RouterMode::KV => true,
            _ => false,
        }
    }
}

/// Tuning of KV-aware routing.
#[derive(Clone, Copy, Debug, PartialEq, Eq, Structural)]
pub struct KvRouterConfig {
    /// Interned id of the remaining settings.
    pub tuning: u64,
    pub router_track_active_blocks: bool,
}

/// How a worker set wants to be routed to.
#[derive(Clone, Copy, Debug, PartialEq, Eq, Structural)]
pub struct RouterConfig {
    pub router_mode: RouterMode,
    pub kv_router_config: KvRouterConfig,
    pub session_affinity_ttl_secs: Option<u64>,
}

/// What of a worker's card concerns routing.
#[derive(Clone, Copy, Debug, PartialEq, Eq, Structural)]
pub struct ModelDeploymentCard {
    /// `None` when the worker says nothing of how to route to it.
    pub router_config: Option<RouterConfig>,
    pub enable_eagle: bool,
    /// Zero when the worker does not declare one.
    pub kv_cache_block_size: u32,
}

/// How the prefill set wants to be routed to.
#[derive(Clone, Copy, Debug, PartialEq, Eq, Structural)]
pub struct PrefillAdvertisement {
    pub router_mode: RouterMode,
    /// `None` when nothing was declared, so that the decode set's tuning applies.
    pub kv_router_config: Option<KvRouterConfig>,
    /// Taken whole from a declaration: `Some(None)` declares that there is no affinity.
    pub session_affinity_ttl: Option<Option<u64>>,
    pub is_eagle: bool,
    pub kv_cache_block_size: u32,
}

/// No card of the prefill set could be read.
#[derive(Clone, Copy, Debug, PartialEq, Eq, Structural)]
pub struct NoReadableCard;

impl NoReadableCard {
    /// The error in words.
    pub fn message(&self) -> (message: &'static str)
        ensures
            message@ == "no readable prefill model card; cannot resolve prefill routing"@,
    {
        "no readable prefill model card; cannot resolve prefill routing"
    }
}

/// A card's own mode, or else the decode set's.
pub open spec fn mode_of(card: ModelDeploymentCard, decode_router_mode: RouterMode) -> RouterMode {
    match card.router_config {
        Some(config) => config.router_mode,
        None => decode_router_mode,
    }
}

pub open spec fn advertisement_of(
    card: ModelDeploymentCard,
    decode_router_mode: RouterMode,
) -> PrefillAdvertisement {
    PrefillAdvertisement {
        router_mode: mode_of(card, decode_router_mode),
        kv_router_config: match card.router_config {
            Some(config) => Some(config.kv_router_config),
            None => None,
        },
        session_affinity_ttl: match card.router_config {
            Some(config) => Some(config.session_affinity_ttl_secs),
            None => None,
        },
        is_eagle: card.enable_eagle,
        kv_cache_block_size: card.kv_cache_block_size,
    }
}

fn card_mode(card: &ModelDeploymentCard, decode_router_mode: RouterMode) -> (mode: RouterMode)
    ensures
        mode == mode_of(*card, decode_router_mode),
{
    match card.router_config {
        Some(config) => config.router_mode,
        None => decode_router_mode,
    }
}

/// Resolve the routing of the prefill set from its cards: the first one speaks for all.
///
/// Without a card there is an error rather than a silent fall-back to the decode set's mode.
pub fn resolve_advertisement_from_cards(
    cards: &Vec<ModelDeploymentCard>,
    decode_router_mode: RouterMode,
) -> (advertisement: Result<PrefillAdvertisement, NoReadableCard>)
    ensures
        advertisement == if cards@.len() == 0 {
            Err::<PrefillAdvertisement, NoReadableCard>(NoReadableCard)
        } else {
            Ok(advertisement_of(cards@[0], decode_router_mode))
        },
{
    if cards.len() == 0 {
        return Err(NoReadableCard);
    }
    let first = cards[0];
    let (kv_router_config, session_affinity_ttl): (Option<KvRouterConfig>, Option<Option<u64>>) =
        match first.router_config {
        Some(config) => (Some(config.kv_router_config), Some(config.session_affinity_ttl_secs)),
        None => (None, None),
    };
    Ok(
        PrefillAdvertisement {
            router_mode: card_mode(&first, decode_router_mode),
            kv_router_config,
            session_affinity_ttl,
            is_eagle: first.enable_eagle,
            kv_cache_block_size: first.kv_cache_block_size,
        },
    )
}

/// The cards whose mode is not `resolved`.
pub open spec fn disagreeing(
    cards: Seq<ModelDeploymentCard>,
    decode_router_mode: RouterMode,
    resolved: RouterMode,
) -> nat
    decreases cards.len(),
{
    if cards.len() == 0 {
        0
    } else {
        disagreeing(cards.drop_last(), decode_router_mode, resolved) + if mode_of(
            cards.last(),
            decode_router_mode,
        ) != resolved {
            1nat
        } else {
            0nat
        }
    }
}

/// How many cards disagree with the mode that was resolved.
pub fn count_disagreeing(
    cards: &Vec<ModelDeploymentCard>,
    decode_router_mode: RouterMode,
    resolved: RouterMode,
) -> (count: usize)
    ensures
        count == disagreeing(cards@, decode_router_mode, resolved),
{
    let mut count: usize = 0;
    let mut i: usize = 0;
    while i < cards.len()
        invariant
            i <= cards.len(),
            count <= i,
            count == disagreeing(cards@.subrange(0, i as int), decode_router_mode, resolved),
        decreases cards.len() - i,
    {
        proof {
            let next = cards@.subrange(0, i + 1);
            assert(next.drop_last() =~= cards@.subrange(0, i as int));
            assert(next.last() == cards@[i as int]);
        }
        if card_mode(&cards[i], decode_router_mode) != resolved {
            count = count + 1;
        }
        i = i + 1;
    }
    proof {
        assert(cards@.subrange(0, i as int) =~= cards@);
    }
    count
}

/// The decode set's configuration, which the prefill hop falls back to.
#[derive(Clone, Copy, Debug, PartialEq, Eq, Structural)]
pub struct DecodeDefaults {
    pub kv_cache_block_size: u32,
    pub kv_router_config: Option<KvRouterConfig>,
    pub session_affinity_ttl: Option<u64>,
}

/// The configuration that a prefill binding is built with.
#[derive(Clone, Copy, Debug, PartialEq, Eq, Structural)]
pub struct PrefillBindingConfig {
    pub router_mode: RouterMode,
    pub block_size: u32,
    pub session_affinity_ttl: Option<u64>,
    pub kv_router_config: Option<KvRouterConfig>,
    pub is_eagle: bool,
}

pub open spec fn binding_config(
    advertisement: PrefillAdvertisement,
    defaults: DecodeDefaults,
) -> PrefillBindingConfig {
    PrefillBindingConfig {
        router_mode: advertisement.router_mode,
        block_size: if advertisement.kv_cache_block_size == 0 {
            defaults.kv_cache_block_size
        } else {
            advertisement.kv_cache_block_size
        },
        session_affinity_ttl: match advertisement.session_affinity_ttl {
            Some(ttl) => ttl,
            None => defaults.session_affinity_ttl,
        },
        kv_router_config: match advertisement.kv_router_config {
            Some(config) => Some(
                KvRouterConfig { router_track_active_blocks: false, ..config },
            ),
            None => defaults.kv_router_config,
        },
        is_eagle: advertisement.is_eagle,
    }
}

/// Join what the prefill set declares with what it inherits. Declared tuning never tracks active
/// blocks: prefill load is on the prompt side, and decode blocks would count twice.
pub fn resolve_binding_config(
    advertisement: &PrefillAdvertisement,
    defaults: &DecodeDefaults,
) -> (config: PrefillBindingConfig)
    ensures
        config == binding_config(*advertisement, *defaults),
{
    let block_size: u32 = if advertisement.kv_cache_block_size == 0 {
        defaults.kv_cache_block_size
    } else {
        advertisement.kv_cache_block_size
    };
    let session_affinity_ttl: Option<u64> = match advertisement.session_affinity_ttl {
        Some(ttl) => ttl,
        None => defaults.session_affinity_ttl,
    };
    let kv_router_config: Option<KvRouterConfig> = match advertisement.kv_router_config {
        Some(config) => Some(
            KvRouterConfig { tuning: config.tuning, router_track_active_blocks: false },
        ),
        None => defaults.kv_router_config,
    };
    PrefillBindingConfig {
        router_mode: advertisement.router_mode,
        block_size,
        session_affinity_ttl,
        kv_router_config,
        is_eagle: advertisement.is_eagle,
    }
}

/// A refused admission to a queue.
#[derive(Debug, PartialEq, Eq)]
pub struct QueueRejection {
    pub policy_class: String,
    pub limit_kind: String,
    pub current: u64,
    pub limit: u64,
}

impl QueueRejection {
    /// The rejection in words.
    pub fn message(&self) -> (message: String)
        ensures
            message@ == "prefill router policy-class queue rejection: policy_class="@
                + self.policy_class@ + ", limit_kind="@ + self.limit_kind@ + ", current="@
                + decimal_digits(self.current as nat) + ", limit="@ + decimal_digits(
                self.limit as nat,
            ),
    {
        "prefill router policy-class queue rejection: policy_class=".to_owned().concat(
            self.policy_class.as_str(),
        ).concat(", limit_kind=").concat(self.limit_kind.as_str()).concat(", current=").concat(
            decimal(self.current).as_str(),
        ).concat(", limit=").concat(decimal(self.limit).as_str())
    }
}

/// What the scheduler found.
#[derive(Debug, PartialEq, Eq)]
pub enum FindBestMatchOutcome {
    Routed { worker: WorkerWithDpRank },
    QueueRejected { rejection: QueueRejection },
}

/// How the scheduler books a request.
#[derive(Clone, Copy, Debug, PartialEq, Eq, Structural)]
pub enum AdmissionAttempt {
    Unbooked,
    Booked(u64),
}

/// Exactly the booking that an admission made.
#[derive(Debug, PartialEq, Eq)]
pub struct SchedulerBookingDescriptor {
    pub request_id: String,
    pub worker: WorkerWithDpRank,
    pub attempt_id: u64,
}

#[derive(Debug, PartialEq, Eq)]
pub enum ReservationError {
    EmptyReservationId,
    NotActivated,
    NoWorkers,
    /// The scheduler did not track the booking.
    Unbooked,
    QueueRejected(QueueRejection),
}

#[derive(Debug, PartialEq, Eq)]
pub enum PrefillQueryOutcome {
    Routed { worker_id: u64, dp_rank: Option<u32> },
    QueueRejected { rejection: QueueRejection },
}

/// A reserved prefill worker. A tracked reservation holds its booking until it is released; one
/// of a built-in mode is advisory and holds nothing.
#[derive(Debug)]
pub struct PrefillReservation {
    worker: WorkerWithDpRank,
    dp_rank: Option<u32>,
    booking: Option<SchedulerBookingDescriptor>,
}

impl PrefillReservation {
    pub closed spec fn spec_worker(self) -> WorkerWithDpRank {
        self.worker
    }

    pub closed spec fn spec_dp_rank(self) -> Option<u32> {
        self.dp_rank
    }

    pub closed spec fn spec_booking(self) -> Option<SchedulerBookingDescriptor> {
        self.booking
    }

    pub fn worker_id(&self) -> (worker_id: u64)
        ensures
            worker_id == self.spec_worker().worker_id,
    {
        self.worker.worker_id
    }

    pub fn dp_rank(&self) -> (dp_rank: Option<u32>)
        ensures
            dp_rank == self.spec_dp_rank(),
    {
        self.dp_rank
    }

    /// Give up the booking: it comes out once, to be cleaned up, and never again.
    pub fn release(&mut self) -> (booking: Option<SchedulerBookingDescriptor>)
        ensures
            booking == old(self).spec_booking(),
            final(self).spec_booking() is None,
            final(self).spec_worker() == old(self).spec_worker(),
            final(self).spec_dp_rank() == old(self).spec_dp_rank(),
    {
        self.booking.take()
    }
}

/// The optional prefill hop in front of a decode set.
#[derive(Debug)]
pub struct PrefillRouter {
    pub hop: RoutingHop,
    pub decode_router_mode: RouterMode,
    pub session_affinity_ttl_secs: Option<u64>,
}

impl PrefillRouter {
    /// A hop that never activates: everything is passed on to the decode set.
    pub fn disabled(decode_router_mode: RouterMode, session_affinity_ttl_secs: Option<u64>) -> (router:
        Self)
        ensures
            router.hop == RoutingHop::idle(false),
            router.hop.wf(),
            router.decode_router_mode == decode_router_mode,
            router.session_affinity_ttl_secs == session_affinity_ttl_secs,
    {
        PrefillRouter {
            hop: RoutingHop::new(false),
            decode_router_mode,
            session_affinity_ttl_secs,
        }
    }

    /// A hop that follows the targets it is given.
    pub fn new(decode_router_mode: RouterMode, session_affinity_ttl_secs: Option<u64>) -> (router:
        Self)
        ensures
            router.hop == RoutingHop::idle(true),
            router.hop.wf(),
            router.decode_router_mode == decode_router_mode,
            router.session_affinity_ttl_secs == session_affinity_ttl_secs,
    {
        PrefillRouter { hop: RoutingHop::new(true), decode_router_mode, session_affinity_ttl_secs }
    }

    /// Whether the hop has a binding.
    pub fn is_activated(&self) -> (activated: bool)
        ensures
            activated == (self.hop.binding is Some),
    {
        self.hop.is_activated()
    }

    pub fn lifecycle_state(&self) -> (state: PrefillLifecycleState)
        ensures
            state == self.hop.lifecycle,
    {
        self.hop.lifecycle_state()
    }

    /// Ask for another prefill set, or for none; `true` asks to notify the driving task.
    pub fn set_target(&mut self, target: Option<u64>) -> (notify: bool)
        requires
            old(self).hop.wf(),
        ensures
            final(self).hop.wf(),
            final(self).hop == old(self).hop.retargeted(target),
            final(self).decode_router_mode == old(self).decode_router_mode,
            final(self).session_affinity_ttl_secs == old(self).session_affinity_ttl_secs,
            notify == (target != old(self).hop.target && old(self).hop.driven),
    {
        self.hop.set_target(target)
    }

    /// Whether requests may use the hop now.
    pub open spec fn usable(self) -> bool {
        self.hop.lifecycle == HopLifecycleState::Active && self.hop.binding is Some
    }

    /// The binding to query, while the hop is active.
    pub fn begin_query<E>(&self) -> (binding: Result<u64, PrefillError<E>>)
        ensures
            binding == if self.usable() {
                Ok::<u64, PrefillError<E>>(self.hop.binding->0)
            } else {
                Err(PrefillError::NotActivated)
            },
    {
        if self.hop.lifecycle != HopLifecycleState::Active {
            return Err(PrefillError::NotActivated);
        }
        match self.hop.binding {
            Some(binding) => Ok(binding),
            None => Err(PrefillError::NotActivated),
        }
    }

    /// The binding to reserve on, for a reservation that has an id.
    pub fn begin_reservation(&self, reservation_id: &str) -> (binding: Result<u64, ReservationError>)
        ensures
            binding == if reservation_id@.len() == 0 {
                Err::<u64, ReservationError>(ReservationError::EmptyReservationId)
            } else if self.usable() {
                Ok(self.hop.binding->0)
            } else {
                Err(ReservationError::NotActivated)
            },
    {
        if reservation_id.unicode_len() == 0 {
            return Err(ReservationError::EmptyReservationId);
        }
        match self.begin_query::<()>() {
            Ok(binding) => Ok(binding),
            Err(_) => Err(ReservationError::NotActivated),
        }
    }

    /// Whether newly discovered workers are registered with the binding's scheduler.
    pub fn registers_workers(&self, binding_is_kv_routed: bool) -> (registers: bool)
        ensures
            registers == (self.hop.binding is Some && binding_is_kv_routed),
    {
        self.hop.binding.is_some() && binding_is_kv_routed
    }
}

/// A reservation on a built-in mode, from the worker that is next in turn.
pub fn reserve_builtin(next_worker: Option<u64>) -> (reservation: Result<
    PrefillReservation,
    ReservationError,
>)
    ensures
        match next_worker {
            Some(worker_id) => {
                &&& reservation is Ok
                &&& reservation->Ok_0.spec_worker() == (WorkerWithDpRank { worker_id, dp_rank: 0 })
                &&& reservation->Ok_0.spec_dp_rank() is None
                &&& reservation->Ok_0.spec_booking() is None
            },
            None => reservation == Err::<PrefillReservation, _>(ReservationError::NoWorkers),
        },
{
    match next_worker {
        Some(worker_id) => Ok(
            PrefillReservation {
                worker: WorkerWithDpRank { worker_id, dp_rank: 0 },
                dp_rank: None,
                booking: None,
            },
        ),
        None => Err(ReservationError::NoWorkers),
    }
}

/// A reservation on a KV-routed binding, from what the scheduler admitted.
pub fn reserve_scheduled(
    reservation_id: String,
    outcome: FindBestMatchOutcome,
    attempt: AdmissionAttempt,
) -> (reservation: Result<PrefillReservation, ReservationError>)
    ensures
        match outcome {
            FindBestMatchOutcome::Routed { worker } => match attempt {
                AdmissionAttempt::Booked(attempt_id) => {
                    &&& reservation is Ok
                    &&& reservation->Ok_0.spec_worker() == worker
                    &&& reservation->Ok_0.spec_dp_rank() == Some(worker.dp_rank)
                    &&& reservation->Ok_0.spec_booking() == Some(
                        SchedulerBookingDescriptor {
                            request_id: reservation_id,
                            worker,
                            attempt_id,
                        },
                    )
                },
                AdmissionAttempt::Unbooked => reservation == Err::<PrefillReservation, _>(
                    ReservationError::Unbooked,
                ),
            },
            FindBestMatchOutcome::QueueRejected { rejection } => reservation == Err::<
                PrefillReservation,
                _,
            >(ReservationError::QueueRejected(rejection)),
        },
{
    match outcome {
        FindBestMatchOutcome::Routed { worker } => match attempt {
            AdmissionAttempt::Booked(attempt_id) => Ok(
                PrefillReservation {
                    worker,
                    dp_rank: Some(worker.dp_rank),
                    booking: Some(
                        SchedulerBookingDescriptor {
                            request_id: reservation_id,
                            worker,
                            attempt_id,
                        },
                    ),
                },
            ),
            AdmissionAttempt::Unbooked => Err(ReservationError::Unbooked),
        },
        FindBestMatchOutcome::QueueRejected { rejection } => Err(
            ReservationError::QueueRejected(rejection),
        ),
    }
}

/// The answer to a query on a built-in mode.
pub fn query_builtin(next_worker: Option<u64>) -> (outcome: Result<
    PrefillQueryOutcome,
    ReservationError,
>)
    ensures
        outcome == match next_worker {
            Some(worker_id) => Ok::<_, ReservationError>(
                PrefillQueryOutcome::Routed { worker_id, dp_rank: None },
            ),
            None => Err(ReservationError::NoWorkers),
        },
{
    match next_worker {
        Some(worker_id) => Ok(PrefillQueryOutcome::Routed { worker_id, dp_rank: None }),
        None => Err(ReservationError::NoWorkers),
    }
}

/// The answer to a query on a KV-routed binding.
pub fn query_scheduled(found: FindBestMatchOutcome) -> (outcome: PrefillQueryOutcome)
    ensures
        outcome == match found {
            FindBestMatchOutcome::Routed { worker } => PrefillQueryOutcome::Routed {
                worker_id: worker.worker_id,
                dp_rank: Some(worker.dp_rank),
            },
            FindBestMatchOutcome::QueueRejected { rejection } =>
            PrefillQueryOutcome::QueueRejected { rejection },
        },
{
    match found {
        FindBestMatchOutcome::Routed { worker } => PrefillQueryOutcome::Routed {
            worker_id: worker.worker_id,
            dp_rank: Some(worker.dp_rank),
        },
        FindBestMatchOutcome::QueueRejected { rejection } => PrefillQueryOutcome::QueueRejected {
            rejection,
        },
    }
}

/// A declaration replaces the decode set's configuration as a whole, save for a block size it
/// does not give; without one everything is inherited.
pub proof fn law_declaration_is_taken_whole(
    card: ModelDeploymentCard,
    decode_router_mode: RouterMode,
    defaults: DecodeDefaults,
)
    ensures
        ({
            let config = binding_config(advertisement_of(card, decode_router_mode), defaults);
            match card.router_config {
                Some(declared) => {
                    &&& config.router_mode == declared.router_mode
                    &&& config.session_affinity_ttl == declared.session_affinity_ttl_secs
                    &&& config.kv_router_config is Some
                    &&& config.kv_router_config->0.tuning == declared.kv_router_config.tuning
                    &&& !config.kv_router_config->0.router_track_active_blocks
                },
                None => {
                    &&& config.router_mode == decode_router_mode
                    &&& config.session_affinity_ttl == defaults.session_affinity_ttl
                    &&& config.kv_router_config == defaults.kv_router_config
                },
            }
        }),
        card.kv_cache_block_size > 0 ==> binding_config(
            advertisement_of(card, decode_router_mode),
            defaults,
        ).block_size == card.kv_cache_block_size,
{
}

/// Whichever configuration wins, block tracking stays off: what is declared has it switched off,
/// and what is inherited brings it in only where the decode set has it on.
pub proof fn law_block_tracking_stays_off(
    advertisement: PrefillAdvertisement,
    defaults: DecodeDefaults,
)
    requires
        defaults.kv_router_config is Some ==> !defaults.kv_router_config->0.router_track_active_blocks,
    ensures
        ({
            let resolved = binding_config(advertisement, defaults).kv_router_config;
            resolved is Some ==> !resolved->0.router_track_active_blocks
        }),
{
}

/// Only the KV mode routes by KV.
pub proof fn law_only_kv_mode_routes_by_kv(mode: &RouterMode, is_kv: bool)
    requires
        call_ensures(RouterMode::is_kv_routing, (mode,), is_kv),
    ensures
        is_kv <==> *mode is KV,
{
}

/// The first card speaks for the prefill set: what it declares is advertised as it stands, and
/// without a declaration the mode is the decode set's and nothing else is advertised. Later cards
/// do not matter, and without a card there is an error.
pub proof fn law_first_card_speaks_for_the_set(
    cards: &Vec<ModelDeploymentCard>,
    decode_router_mode: RouterMode,
    advertisement: Result<PrefillAdvertisement, NoReadableCard>,
)
    requires
        call_ensures(
            resolve_advertisement_from_cards,
            (cards, decode_router_mode),
            advertisement,
        ),
    ensures
        advertisement is Err <==> cards@.len() == 0,
        cards@.len() > 0 ==> {
            let card = cards@[0];
            let made = advertisement->Ok_0;
            &&& made.is_eagle == card.enable_eagle
            &&& made.kv_cache_block_size == card.kv_cache_block_size
            &&& card.router_config is None ==> made.router_mode == decode_router_mode
                && made.kv_router_config is None && made.session_affinity_ttl is None
            &&& card.router_config is Some ==> {
                let declared = card.router_config->0;
                &&& made.router_mode == declared.router_mode
                &&& made.kv_router_config == Some(declared.kv_router_config)
                &&& made.session_affinity_ttl == Some(declared.session_affinity_ttl_secs)
            }
        },
{
}

/// No more cards disagree than there are. None does if all have the resolved mode, and each card
/// that is added counts exactly if its mode differs.
pub proof fn law_disagreeing_cards_are_counted(
    cards: &Vec<ModelDeploymentCard>,
    fewer: &Vec<ModelDeploymentCard>,
    card: ModelDeploymentCard,
    decode_router_mode: RouterMode,
    resolved: RouterMode,
    count: usize,
    fewer_count: usize,
)
    requires
        call_ensures(count_disagreeing, (cards, decode_router_mode, resolved), count),
        call_ensures(count_disagreeing, (fewer, decode_router_mode, resolved), fewer_count),
        cards@ == fewer@.push(card),
    ensures
        card.router_config is Some && card.router_config->0.router_mode != resolved ==> count
            == fewer_count + 1,
        card.router_config is Some && card.router_config->0.router_mode == resolved ==> count
            == fewer_count,
        card.router_config is None && decode_router_mode != resolved ==> count == fewer_count + 1,
        card.router_config is None && decode_router_mode == resolved ==> count == fewer_count,
        fewer@.len() == 0 ==> fewer_count == 0,
{
    assert(cards@.drop_last() =~= fewer@);
    assert(cards@.last() == card);
}

/// A binding takes its mode from the advertisement, its block size from it unless that is zero,
/// its affinity and tuning from it where they are declared and from the decode set otherwise;
/// declared tuning keeps everything but block tracking, which is off.
pub proof fn law_binding_inherits_what_is_not_declared(
    advertisement: &PrefillAdvertisement,
    defaults: &DecodeDefaults,
    config: PrefillBindingConfig,
)
    requires
        call_ensures(resolve_binding_config, (advertisement, defaults), config),
    ensures
        config.router_mode == advertisement.router_mode,
        config.is_eagle == advertisement.is_eagle,
        advertisement.kv_cache_block_size != 0 ==> config.block_size
            == advertisement.kv_cache_block_size,
        advertisement.kv_cache_block_size == 0 ==> config.block_size
            == defaults.kv_cache_block_size,
        advertisement.session_affinity_ttl is Some ==> config.session_affinity_ttl
            == advertisement.session_affinity_ttl->0,
        advertisement.session_affinity_ttl is None ==> config.session_affinity_ttl
            == defaults.session_affinity_ttl,
        advertisement.kv_router_config is None ==> config.kv_router_config
            == defaults.kv_router_config,
        advertisement.kv_router_config is Some ==> config.kv_router_config is Some
            && config.kv_router_config->0.tuning == advertisement.kv_router_config->0.tuning
            && !config.kv_router_config->0.router_track_active_blocks,
{
}

/// A booking comes out of its reservation once: the second release gives nothing, and the worker
/// and rank stay what they were.
pub proof fn law_booking_is_released_once(
    first: &mut PrefillReservation,
    booking: Option<SchedulerBookingDescriptor>,
    second: &mut PrefillReservation,
    again: Option<SchedulerBookingDescriptor>,
)
    requires
        call_ensures(PrefillReservation::release, (first,), booking),
        *old(second) == *final(first),
        call_ensures(PrefillReservation::release, (second,), again),
    ensures
        booking == old(first).spec_booking(),
        again is None,
        final(second).spec_worker() == old(first).spec_worker(),
        final(second).spec_dp_rank() == old(first).spec_dp_rank(),
{
}

/// Queries and reservations go to the binding of an active hop; without one they fail, and so does
/// a reservation without an id.
pub proof fn law_only_an_active_hop_is_queried(
    router: &PrefillRouter,
    queried: Result<u64, PrefillError<()>>,
    reservation_id: &str,
    reserved: Result<u64, ReservationError>,
)
    requires
        call_ensures(PrefillRouter::begin_query::<()>, (router,), queried),
        call_ensures(PrefillRouter::begin_reservation, (router, reservation_id), reserved),
    ensures
        ({
            let active = router.hop.lifecycle is Active && router.hop.binding is Some;
            &&& active ==> queried == Ok::<u64, PrefillError<()>>(router.hop.binding->0)
            &&& !active ==> queried == Err::<u64, PrefillError<()>>(PrefillError::NotActivated)
            &&& reservation_id@.len() == 0 ==> reserved == Err::<u64, ReservationError>(
                ReservationError::EmptyReservationId,
            )
            &&& reservation_id@.len() > 0 && active ==> reserved == Ok::<u64, ReservationError>(
                router.hop.binding->0,
            )
            &&& reservation_id@.len() > 0 && !active ==> reserved == Err::<u64, ReservationError>(
                ReservationError::NotActivated,
            )
        }),
{
}

/// A reservation on a built-in mode names the next worker on its first rank and holds no booking;
/// without a worker there is an error, for a reservation as for a query.
pub proof fn law_builtin_reservation_is_advisory(
    next_worker: Option<u64>,
    reservation: Result<PrefillReservation, ReservationError>,
    outcome: Result<PrefillQueryOutcome, ReservationError>,
)
    requires
        call_ensures(reserve_builtin, (next_worker,), reservation),
        call_ensures(query_builtin, (next_worker,), outcome),
    ensures
        next_worker is Some ==> {
            &&& reservation is Ok
            &&& reservation->Ok_0.spec_worker().worker_id == next_worker->0
            &&& reservation->Ok_0.spec_worker().dp_rank == 0
            &&& reservation->Ok_0.spec_dp_rank() is None
            &&& reservation->Ok_0.spec_booking() is None
            &&& outcome == Ok::<_, ReservationError>(
                PrefillQueryOutcome::Routed { worker_id: next_worker->0, dp_rank: None },
            )
        },
        next_worker is None ==> {
            &&& reservation is Err && reservation->Err_0 == ReservationError::NoWorkers
            &&& outcome is Err && outcome->Err_0 == ReservationError::NoWorkers
        },
{
}

/// A reservation that the scheduler booked names its worker and rank and holds exactly that
/// booking, under the reservation's id; one that was not booked, or was rejected, is an error. A
/// query tells the same worker, or the rejection.
pub proof fn law_scheduled_reservation_holds_its_booking(
    reservation_id: String,
    found: FindBestMatchOutcome,
    attempt: AdmissionAttempt,
    reservation: Result<PrefillReservation, ReservationError>,
    outcome: PrefillQueryOutcome,
)
    requires
        call_ensures(reserve_scheduled, (reservation_id, found, attempt), reservation),
        call_ensures(query_scheduled, (found,), outcome),
    ensures
        reservation is Ok <==> found is Routed && attempt is Booked,
        reservation is Ok ==> {
            let made = reservation->Ok_0;
            &&& made.spec_worker() == found->worker
            &&& made.spec_dp_rank() == Some(found->worker.dp_rank)
            &&& made.spec_booking() is Some
            &&& made.spec_booking()->0.request_id == reservation_id
            &&& made.spec_booking()->0.worker == found->worker
            &&& made.spec_booking()->0.attempt_id == attempt->Booked_0
        },
        found is Routed && attempt is Unbooked ==> reservation->Err_0
            == ReservationError::Unbooked,
        found is QueueRejected ==> reservation->Err_0 == ReservationError::QueueRejected(
            found->rejection,
        ),
        found is Routed ==> outcome == (PrefillQueryOutcome::Routed {
            worker_id: found->worker.worker_id,
            dp_rank: Some(found->worker.dp_rank),
        }),
        found is QueueRejected ==> outcome == (PrefillQueryOutcome::QueueRejected {
            rejection: found->rejection,
        }),
{
}

/// What a reservation tells of itself is the worker and rank it was made for.
pub proof fn law_reservation_names_its_worker(
    reservation: &PrefillReservation,
    worker_id: u64,
    dp_rank: Option<u32>,
)
    requires
        call_ensures(PrefillReservation::worker_id, (reservation,), worker_id),
        call_ensures(PrefillReservation::dp_rank, (reservation,), dp_rank),
    ensures
        worker_id == reservation.spec_worker().worker_id,
        dp_rank == reservation.spec_dp_rank(),
{
}

/// A disabled prefill hop follows no target; a new one does. Both start pending and without a
/// binding, and workers are registered only with a binding that is KV-routed.
pub proof fn law_new_prefill_hop_is_pending(
    mode: RouterMode,
    ttl: Option<u64>,
    disabled: PrefillRouter,
    fresh: PrefillRouter,
    router: &PrefillRouter,
    activated: bool,
    state: PrefillLifecycleState,
    kv_routed: bool,
    registers: bool,
)
    requires
        call_ensures(PrefillRouter::disabled, (mode, ttl), disabled),
        call_ensures(PrefillRouter::new, (mode, ttl), fresh),
        call_ensures(PrefillRouter::is_activated, (router,), activated),
        call_ensures(PrefillRouter::lifecycle_state, (router,), state),
        call_ensures(PrefillRouter::registers_workers, (router, kv_routed), registers),
    ensures
        !disabled.hop.driven && fresh.hop.driven,
        disabled.hop.lifecycle is Pending && fresh.hop.lifecycle is Pending,
        disabled.hop.binding is None && fresh.hop.binding is None,
        disabled.hop.target is None && fresh.hop.target is None,
        disabled.decode_router_mode == mode && fresh.decode_router_mode == mode,
        disabled.session_affinity_ttl_secs == ttl && fresh.session_affinity_ttl_secs == ttl,
        activated <==> router.hop.binding is Some,
        state == router.hop.lifecycle,
        registers <==> router.hop.binding is Some && kv_routed,
{
}

/// The prefill hop follows its target as any hop does, and keeps its settings.
pub proof fn law_prefill_hop_follows_its_target(
    router: &mut PrefillRouter,
    target: Option<u64>,
    notify: bool,
)
    requires
        old(router).hop.wf(),
        call_ensures(PrefillRouter::set_target, (router, target), notify),
    ensures
        final(router).hop.target == target,
        notify <==> target != old(router).hop.target && old(router).hop.driven,
        target is None && old(router).hop.target is Some ==> final(router).hop.lifecycle
            is Unavailable,
        target is Some && target != old(router).hop.target ==> (final(router).hop.lifecycle
            is Active <==> old(router).hop.binding == target),
        final(router).decode_router_mode == old(router).decode_router_mode,
        final(router).session_affinity_ttl_secs == old(router).session_affinity_ttl_secs,
{
}

/// A rejection names the policy class, the limit's kind, the current number and the limit, in that
/// order; an unreadable card is told in its own words.
pub proof fn law_rejection_is_told_in_words(
    rejection: &QueueRejection,
    message: String,
    unread: &NoReadableCard,
    unread_message: &'static str,
)
    requires
        call_ensures(QueueRejection::message, (rejection,), message),
        call_ensures(NoReadableCard::message, (unread,), unread_message),
    ensures
        unread_message@ == "no readable prefill model card; cannot resolve prefill routing"@,
        ({
            let class = "prefill router policy-class queue rejection: policy_class="@
                + rejection.policy_class@;
            let kind = ", limit_kind="@ + rejection.limit_kind@;
            let current = ", current="@ + decimal_digits(rejection.current as nat);
            let limit = ", limit="@ + decimal_digits(rejection.limit as nat);
            message@ == class + kind + current + limit
        }),
{
    let class = "prefill router policy-class queue rejection: policy_class="@
        + rejection.policy_class@;
    let kind = ", limit_kind="@ + rejection.limit_kind@;
    let current = ", current="@ + decimal_digits(rejection.current as nat);
    let limit = ", limit="@ + decimal_digits(rejection.limit as nat);
    assert(message@ =~= class + kind + current + limit);
}

} // verus!
