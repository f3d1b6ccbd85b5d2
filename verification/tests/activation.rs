use kv_router::hop::{BuiltStep, DriveStep, HopLifecycleState, RoutingHop};
use kv_router::prefill_router::stream::PrefillError;
use kv_router::prefill_router::{
    count_disagreeing, query_builtin, query_scheduled, reserve_builtin, reserve_scheduled,
    resolve_advertisement_from_cards, resolve_binding_config, AdmissionAttempt, DecodeDefaults,
    FindBestMatchOutcome, KvRouterConfig, ModelDeploymentCard, PrefillQueryOutcome, PrefillRouter,
    QueueRejection, ReservationError, RouterConfig, RouterMode,
};
use kv_router::protocols::WorkerWithDpRank;

const TUNING: KvRouterConfig = KvRouterConfig {
    tuning: 3,
    router_track_active_blocks: true,
};

fn declared(router_mode: RouterMode) -> Option<RouterConfig> {
    Some(RouterConfig {
        router_mode,
        kv_router_config: TUNING,
        session_affinity_ttl_secs: None,
    })
}

fn card(router_config: Option<RouterConfig>) -> ModelDeploymentCard {
    ModelDeploymentCard {
        router_config,
        enable_eagle: false,
        kv_cache_block_size: 0,
    }
}

#[test]
fn inherits_decode_mode_when_card_advertises_nothing() {
    let cards = vec![card(None)];
    let resolved =
        resolve_advertisement_from_cards(&cards, RouterMode::RoundRobin).expect("resolves");
    assert_eq!(resolved.router_mode, RouterMode::RoundRobin);
    assert!(resolved.kv_router_config.is_none());
}

#[test]
fn session_affinity_ttl_is_taken_whole_or_not_at_all() {
    // A card that advertises without a TTL means "no affinity", not "inherit the frontend's".
    // A card advertising nothing means inherit.
    let advertised = vec![card(declared(RouterMode::KV))];
    assert_eq!(
        resolve_advertisement_from_cards(&advertised, RouterMode::KV)
            .expect("resolves")
            .session_affinity_ttl,
        Some(None),
    );

    let silent = vec![card(None)];
    assert_eq!(
        resolve_advertisement_from_cards(&silent, RouterMode::KV)
            .expect("resolves")
            .session_affinity_ttl,
        None,
    );
}

#[test]
fn no_readable_card_is_an_error_not_a_silent_inherit() {
    let error = resolve_advertisement_from_cards(&vec![], RouterMode::KV)
        .expect_err("empty card list must not resolve");
    assert!(
        error.message().contains("no readable prefill model card"),
        "unexpected error: {}",
        error.message()
    );
}

#[test]
fn first_card_speaks_for_all() {
    let cards = vec![
        card(declared(RouterMode::KV)),
        card(None),
        card(declared(RouterMode::LeastLoaded)),
    ];
    let resolved = resolve_advertisement_from_cards(&cards, RouterMode::RoundRobin).unwrap();
    assert_eq!(resolved.router_mode, RouterMode::KV);
    assert_eq!(resolved.kv_router_config, Some(TUNING));
    assert_eq!(
        count_disagreeing(&cards, RouterMode::RoundRobin, resolved.router_mode),
        2
    );
    assert!(resolved.router_mode.is_kv_routing());
    assert!(!RouterMode::RoundRobin.is_kv_routing());
}

#[test]
fn binding_takes_what_is_declared_and_inherits_the_rest() {
    let defaults = DecodeDefaults {
        kv_cache_block_size: 16,
        kv_router_config: Some(TUNING),
        session_affinity_ttl: Some(60),
    };
    let mut own = card(declared(RouterMode::KV));
    own.kv_cache_block_size = 64;
    own.enable_eagle = true;
    let resolved = resolve_advertisement_from_cards(&vec![own], RouterMode::RoundRobin).unwrap();
    let config = resolve_binding_config(&resolved, &defaults);
    assert_eq!(config.router_mode, RouterMode::KV);
    assert_eq!(config.block_size, 64);
    assert_eq!(config.session_affinity_ttl, None);
    assert_eq!(
        config.kv_router_config,
        Some(KvRouterConfig {
            tuning: 3,
            router_track_active_blocks: false
        })
    );
    assert!(config.is_eagle);

    let silent = resolve_advertisement_from_cards(&vec![card(None)], RouterMode::RoundRobin).unwrap();
    let config = resolve_binding_config(&silent, &defaults);
    assert_eq!(config.block_size, 16);
    assert_eq!(config.session_affinity_ttl, Some(60));
    assert_eq!(config.kv_router_config, Some(TUNING));
}

#[test]
fn block_tracking_stays_off_whichever_configuration_wins() {
    let off = KvRouterConfig {
        tuning: 5,
        router_track_active_blocks: false,
    };
    for inherited in [None, Some(off)] {
        let defaults = DecodeDefaults {
            kv_cache_block_size: 16,
            kv_router_config: inherited,
            session_affinity_ttl: None,
        };
        for own in [card(None), card(declared(RouterMode::KV))] {
            let resolved = resolve_advertisement_from_cards(&vec![own], RouterMode::KV).unwrap();
            let config = resolve_binding_config(&resolved, &defaults).kv_router_config;
            assert!(!config.is_some_and(|config| config.router_track_active_blocks));
        }
    }
}

#[test]
fn committed_prefill_uses_selected_target_across_endpoint_reuse() {
    let mut router = PrefillRouter::new(RouterMode::RoundRobin, None);
    assert_eq!(router.begin_query::<()>(), Err(PrefillError::NotActivated));
    assert!(router.set_target(Some(1)));
    assert!(!router.set_target(Some(1)));
    assert_eq!(router.hop.drive(Some(1)), DriveStep::Build { target_id: 1 });
    assert_eq!(
        router.hop.on_built(1, false),
        BuiltStep::RetryAfter { delay_ms: 1000 }
    );
    assert!(!router.is_activated());
    assert_eq!(router.hop.on_built(1, true), BuiltStep::Activated);
    assert!(router.is_activated());
    assert_eq!(router.lifecycle_state(), HopLifecycleState::Active);
    assert_eq!(router.hop.drive(Some(1)), DriveStep::AwaitChange);
    assert_eq!(router.begin_query::<()>(), Ok(1));

    // Clearing takes effect at once, and the successor needs a build of its own.
    assert!(router.set_target(None));
    assert_eq!(router.begin_query::<()>(), Err(PrefillError::NotActivated));
    assert_eq!(router.lifecycle_state(), HopLifecycleState::Unavailable);
    assert_eq!(router.hop.drive(None), DriveStep::AwaitChange);
    assert!(router.set_target(Some(2)));
    assert!(!router.is_activated());
    assert_eq!(router.hop.on_built(1, true), BuiltStep::Superseded);
    assert_eq!(router.begin_query::<()>(), Err(PrefillError::NotActivated));
    assert_eq!(router.hop.on_built(2, true), BuiltStep::Activated);
    assert_eq!(router.begin_query::<()>(), Ok(2));

    // Returning to a target whose binding is kept needs no build.
    router.set_target(None);
    router.set_target(Some(2));
    assert_eq!(router.begin_query::<()>(), Ok(2));
}

#[test]
fn disabled_router_is_never_driven() {
    let mut router = PrefillRouter::disabled(RouterMode::KV, Some(5));
    assert_eq!(router.session_affinity_ttl_secs, Some(5));
    assert!(!router.set_target(Some(1)));
    assert!(!router.is_activated());
    assert!(!router.registers_workers(true));
}

#[test]
fn lifecycle_codes_round_trip() {
    for state in [
        HopLifecycleState::Pending,
        HopLifecycleState::Active,
        HopLifecycleState::Unavailable,
    ] {
        assert_eq!(HopLifecycleState::load(state.store()), state);
    }
    assert_eq!(HopLifecycleState::Active.store(), 1);
    assert_eq!(RoutingHop::new(true).lifecycle_state().store(), 0);
}

#[test]
fn prefill_reservation_cleans_exact_bookings_after_rebind() {
    let worker = WorkerWithDpRank::new(7, 2);
    let mut reservation = reserve_scheduled(
        "epp-prefill/rebind".to_string(),
        FindBestMatchOutcome::Routed { worker },
        AdmissionAttempt::Booked(5),
    )
    .unwrap();
    assert_eq!(reservation.worker_id(), 7);
    assert_eq!(reservation.dp_rank(), Some(2));
    let booking = reservation.release().unwrap();
    assert_eq!(booking.request_id, "epp-prefill/rebind");
    assert_eq!(booking.worker, worker);
    assert_eq!(booking.attempt_id, 5);
    assert!(reservation.release().is_none());
    assert_eq!(reservation.worker_id(), 7);

    assert_eq!(
        reserve_scheduled(
            "r".to_string(),
            FindBestMatchOutcome::Routed { worker },
            AdmissionAttempt::Unbooked
        )
        .unwrap_err(),
        ReservationError::Unbooked
    );
}

fn rejection() -> QueueRejection {
    QueueRejection {
        policy_class: "default".to_string(),
        limit_kind: "request_limit".to_string(),
        current: 9,
        limit: 8,
    }
}

#[test]
fn builtin_modes_reserve_and_query_without_booking() {
    let mut reservation = reserve_builtin(Some(3)).unwrap();
    assert_eq!(reservation.worker_id(), 3);
    assert_eq!(reservation.dp_rank(), None);
    assert!(reservation.release().is_none());
    assert_eq!(reserve_builtin(None).unwrap_err(), ReservationError::NoWorkers);
    assert_eq!(
        query_builtin(Some(3)),
        Ok(PrefillQueryOutcome::Routed {
            worker_id: 3,
            dp_rank: None
        })
    );
    assert_eq!(query_builtin(None), Err(ReservationError::NoWorkers));
    assert_eq!(
        query_scheduled(FindBestMatchOutcome::Routed {
            worker: WorkerWithDpRank::new(4, 1)
        }),
        PrefillQueryOutcome::Routed {
            worker_id: 4,
            dp_rank: Some(1)
        }
    );
    assert_eq!(
        query_scheduled(FindBestMatchOutcome::QueueRejected {
            rejection: rejection()
        }),
        PrefillQueryOutcome::QueueRejected {
            rejection: rejection()
        }
    );
    assert_eq!(
        reserve_scheduled(
            "r".to_string(),
            FindBestMatchOutcome::QueueRejected {
                rejection: rejection()
            },
            AdmissionAttempt::Booked(1)
        )
        .unwrap_err(),
        ReservationError::QueueRejected(rejection())
    );
}

#[test]
fn reservation_needs_an_id_and_an_active_hop() {
    let mut router = PrefillRouter::new(RouterMode::KV, None);
    assert_eq!(
        router.begin_reservation(""),
        Err(ReservationError::EmptyReservationId)
    );
    assert_eq!(
        router.begin_reservation("r"),
        Err(ReservationError::NotActivated)
    );
    router.set_target(Some(6));
    router.hop.on_built(6, true);
    assert_eq!(router.begin_reservation("r"), Ok(6));
    assert!(router.registers_workers(true));
    assert!(!router.registers_workers(false));
}

#[test]
fn queue_rejection_is_put_into_words() {
    assert_eq!(
        rejection().message(),
        "prefill router policy-class queue rejection: policy_class=default, limit_kind=request_limit, current=9, limit=8"
    );
}
