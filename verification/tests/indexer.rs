use kv_router::indexer::lookup::{
    join_tiers, merge_overlap_scores, merge_side_or_warn, HashInput, MatchDetails, OverlapScores,
    PrimaryQuery, Scores, SideQueryFailed, TieredLookup,
};
use kv_router::indexer::{
    append_tier_events, plan_indexer, resolve_approximate_primary_policy,
    ApproximateCachePolicyKind, ClearPrimary, DumpPlan, EventRoute, IndexLane, Indexer,
    IndexerConfig, IndexerConfigError, IndexerPlan, ResolvedApproximatePrimaryPolicy, Retention,
};
use kv_router::protocols::{
    EventResidency, KvCacheEventData, RouterEvent, StorageTier, WorkerWithDpRank,
};
use kv_router::table::Table;

fn make_test_indexer() -> Indexer {
    Indexer::KvIndexer {
        primary: 1,
        approximate_lru: false,
        approx: None,
        primary_records_routing_decisions: false,
    }
}

fn make_test_concurrent_indexer() -> Indexer {
    Indexer::Concurrent {
        primary: 1,
        approximate_lru: false,
        approx: None,
        primary_records_routing_decisions: false,
    }
}

fn make_test_concurrent_approx_indexer() -> Indexer {
    Indexer::Concurrent {
        primary: 1,
        approximate_lru: true,
        approx: None,
        primary_records_routing_decisions: true,
    }
}

fn remote(approx: Option<u64>) -> Indexer {
    Indexer::Remote {
        primary: 1,
        approx,
        primary_records_routing_decisions: false,
    }
}

#[test]
fn overlap_refresh_is_limited_to_local_indexers() {
    assert!(make_test_indexer().supports_overlap_refresh());
    assert!(make_test_concurrent_indexer().supports_overlap_refresh());
    assert!(!Indexer::Disabled.supports_overlap_refresh());
    assert!(!remote(None).supports_overlap_refresh());
}

#[test]
fn kv_transfer_chain_retention_requires_event_driven_primary() {
    assert!(make_test_indexer().supports_kv_transfer_chain_retention());
    assert!(make_test_concurrent_indexer().supports_kv_transfer_chain_retention());
    assert!(!make_test_concurrent_approx_indexer().supports_kv_transfer_chain_retention());
    assert!(!Indexer::Disabled.supports_kv_transfer_chain_retention());
}

fn config() -> IndexerConfig {
    IndexerConfig {
        use_kv_events: true,
        router_approximate_cache_policy: ApproximateCachePolicyKind::Ttl,
        overlap_earns_no_credit: false,
        use_remote_indexer: false,
        serve_indexer: false,
        predicts_on_route: false,
        router_event_threads: 1,
    }
}

#[test]
fn approximate_policy_is_resolved_from_the_configuration() {
    let lru = IndexerConfig {
        use_kv_events: false,
        router_approximate_cache_policy: ApproximateCachePolicyKind::Lru,
        ..config()
    };
    assert_eq!(
        resolve_approximate_primary_policy(&lru),
        Ok(ResolvedApproximatePrimaryPolicy::Lru)
    );
    assert_eq!(
        resolve_approximate_primary_policy(&IndexerConfig { serve_indexer: true, ..lru }),
        Ok(ResolvedApproximatePrimaryPolicy::TtlRemoteFallback)
    );
    let error = resolve_approximate_primary_policy(&IndexerConfig { use_kv_events: true, ..lru })
        .unwrap_err();
    assert_eq!(error, IndexerConfigError::LruNeedsEventsOff);
    assert!(error.message().contains("requires use_kv_events=false"));
    assert_eq!(
        resolve_approximate_primary_policy(&IndexerConfig {
            overlap_earns_no_credit: true,
            ..config()
        }),
        Ok(ResolvedApproximatePrimaryPolicy::Disabled)
    );
    assert_eq!(
        resolve_approximate_primary_policy(&config()),
        Ok(ResolvedApproximatePrimaryPolicy::Ttl)
    );
}

#[test]
fn configuration_decides_which_index_is_built() {
    assert_eq!(
        plan_indexer(&config(), false),
        Ok(IndexerPlan::KvIndexer {
            retention: None,
            side: true,
            primary_records_routing_decisions: false
        })
    );
    assert_eq!(
        plan_indexer(&IndexerConfig { router_event_threads: 4, ..config() }, false),
        Ok(IndexerPlan::Concurrent {
            threads: 4,
            retention: None,
            side: true,
            primary_records_routing_decisions: false
        })
    );
    let predicting = IndexerConfig { use_kv_events: false, ..config() };
    assert_eq!(
        plan_indexer(&predicting, false),
        Ok(IndexerPlan::KvIndexer {
            retention: Some(Retention::Ttl),
            side: false,
            primary_records_routing_decisions: true
        })
    );
    assert_eq!(
        plan_indexer(
            &IndexerConfig {
                router_approximate_cache_policy: ApproximateCachePolicyKind::Lru,
                router_event_threads: 2,
                ..predicting
            },
            false
        ),
        Ok(IndexerPlan::Concurrent {
            threads: 2,
            retention: Some(Retention::LruWithTtlFallback),
            side: false,
            primary_records_routing_decisions: true
        })
    );
    assert_eq!(
        plan_indexer(&IndexerConfig { predicts_on_route: true, ..predicting }, true),
        Err(IndexerConfigError::PredictionNeedsEvents)
    );
    let remote = IndexerConfig { use_remote_indexer: true, ..config() };
    assert_eq!(
        plan_indexer(&remote, false),
        Err(IndexerConfigError::RemoteNeedsModelName)
    );
    assert_eq!(
        plan_indexer(&remote, true),
        Ok(IndexerPlan::Remote {
            side: true,
            primary_records_routing_decisions: false
        })
    );
    assert_eq!(
        plan_indexer(&IndexerConfig { overlap_earns_no_credit: true, ..predicting }, false),
        Ok(IndexerPlan::Disabled)
    );
}

fn event(data: KvCacheEventData, targets_primary: Option<bool>, tier: StorageTier) -> RouterEvent {
    RouterEvent {
        worker_id: 7,
        dp_rank: 0,
        event_id: 1,
        data,
        storage_tier: tier,
        residency: EventResidency {
            domain: None,
            reset_scope: None,
            targets_primary,
        },
        state_source: None,
        details: 0,
    }
}

fn removed() -> KvCacheEventData {
    KvCacheEventData::Removed {
        block_hashes: vec![1],
    }
}

#[test]
fn events_go_to_the_tier_they_name() {
    let single = make_test_indexer();
    let concurrent = make_test_concurrent_indexer();
    let device = event(removed(), Some(true), StorageTier::Device);
    let host = event(removed(), Some(false), StorageTier::HostPinned);
    assert_eq!(single.route_event(&device), EventRoute::Primary);
    assert_eq!(
        concurrent.route_event(&host),
        EventRoute::LowerTier {
            tier: StorageTier::HostPinned
        }
    );
    let clear = event(KvCacheEventData::Cleared, Some(true), StorageTier::Device);
    assert_eq!(
        single.route_event(&clear),
        EventRoute::Clear {
            primary: ClearPrimary::ResetRank
        }
    );
    assert_eq!(
        concurrent.route_event(&clear),
        EventRoute::Clear {
            primary: ClearPrimary::ApplyEvent
        }
    );
    let owner_clear = event(KvCacheEventData::Cleared, Some(false), StorageTier::Device);
    assert_eq!(
        single.route_event(&owner_clear),
        EventRoute::Clear {
            primary: ClearPrimary::Untouched
        }
    );
    let unknown = event(removed(), None, StorageTier::Disk);
    assert_eq!(
        single.route_event(&unknown),
        EventRoute::RecordUnsupported {
            on_lower_tiers: true
        }
    );
    assert_eq!(
        remote(None).route_event(&unknown),
        EventRoute::RecordUnsupported {
            on_lower_tiers: false
        }
    );
    assert_eq!(Indexer::Disabled.route_event(&clear), EventRoute::Drop);
}

#[test]
fn rank_reset_waits_for_all_local_tiers() {
    let tiers = vec![StorageTier::HostPinned, StorageTier::Disk];
    let with_side = Indexer::KvIndexer {
        primary: 1,
        approximate_lru: false,
        approx: Some(2),
        primary_records_routing_decisions: false,
    };
    assert_eq!(
        with_side.plan_rank_reset(&tiers),
        vec![
            IndexLane::Primary,
            IndexLane::LowerTier(StorageTier::HostPinned),
            IndexLane::LowerTier(StorageTier::Disk),
            IndexLane::Side
        ]
    );
    assert_eq!(
        make_test_concurrent_indexer().plan_rank_reset(&vec![]),
        vec![IndexLane::Primary]
    );
    assert_eq!(remote(Some(3)).plan_rank_reset(&tiers), vec![IndexLane::Side]);
    assert!(Indexer::Disabled.plan_rank_reset(&tiers).is_empty());
}

#[test]
fn router_dump_includes_all_allocated_physical_tiers() {
    assert_eq!(make_test_indexer().plan_dump(), DumpPlan::Local);
    assert_eq!(remote(None).plan_dump(), DumpPlan::Empty);
    assert_eq!(Indexer::Disabled.plan_dump(), DumpPlan::Unsupported);
    let mut events = vec![event(removed(), Some(true), StorageTier::Device)];
    for tier in [StorageTier::HostPinned, StorageTier::Disk] {
        let mut second = event(removed(), Some(true), StorageTier::Device);
        second.event_id = 2;
        let dumped = vec![event(removed(), Some(true), StorageTier::Device), second];
        append_tier_events(&mut events, tier, dumped);
    }
    let tiers: Vec<_> = events.iter().map(|event| (event.storage_tier, event.event_id)).collect();
    assert_eq!(
        tiers,
        vec![
            (StorageTier::Device, 1),
            (StorageTier::HostPinned, 1),
            (StorageTier::HostPinned, 2),
            (StorageTier::Disk, 1),
            (StorageTier::Disk, 2)
        ]
    );
}

#[test]
fn only_local_primaries_use_approximate_lru_or_projections() {
    assert!(make_test_concurrent_approx_indexer().uses_approximate_lru());
    assert!(!make_test_indexer().uses_approximate_lru());
    assert!(!remote(None).uses_approximate_lru());
    assert!(make_test_indexer().takes_residency_routing());
    assert!(!remote(None).takes_residency_routing());
}

fn details(scores: &[(u64, u32)]) -> MatchDetails<&'static str> {
    let mut last_matched_hashes = Table::new();
    for (worker_id, _) in scores {
        last_matched_hashes.insert(WorkerWithDpRank::new(*worker_id, 0), *worker_id);
    }
    MatchDetails {
        overlap_scores: OverlapScores {
            scores: table(scores),
            frequencies: vec![3, 2],
            tree_sizes: Table::new(),
        },
        last_matched_hashes,
        retained: "chain",
    }
}

fn table(scores: &[(u64, u32)]) -> Scores {
    let mut table = Table::new();
    for (worker_id, score) in scores {
        table.insert(WorkerWithDpRank::new(*worker_id, 0), *score);
    }
    table
}

fn score(details: &MatchDetails<&'static str>, worker_id: u64) -> Option<u32> {
    details
        .overlap_scores
        .scores
        .get(&WorkerWithDpRank::new(worker_id, 0))
        .copied()
}

#[test]
fn side_only_worker_scored_but_not_used_as_lower_tier_anchor() {
    let merged = merge_overlap_scores(details(&[(10, 3), (11, 1)]), &table(&[(20, 3), (10, 2), (11, 4)]));
    assert_eq!(score(&merged, 10), Some(3));
    assert_eq!(score(&merged, 11), Some(4));
    assert_eq!(
        score(&merged, 20),
        Some(3),
        "side-only worker should appear in merged device scores"
    );
    assert!(merged
        .last_matched_hashes
        .get(&WorkerWithDpRank::new(20, 0))
        .is_none());
    assert_eq!(merged.overlap_scores.frequencies, vec![3, 2]);
    assert_eq!(merged.retained, "chain");
    let tiered = join_tiers(details(&[(10, 3)]), "lower", Some(Ok(table(&[(20, 3)]))));
    assert_eq!(tiered.lower_tier, "lower");
    assert_eq!(score(&tiered.device, 20), Some(3));
}

#[test]
fn failed_side_query_keeps_the_primary_answer() {
    let kept = merge_side_or_warn(details(&[(10, 3)]), Some(Err(SideQueryFailed)));
    assert_eq!(score(&kept, 10), Some(3));
    let kept = merge_side_or_warn(details(&[(10, 3)]), None);
    assert_eq!(kept.overlap_scores.scores.len(), 1);
}

#[test]
fn lookup_plans_follow_the_index() {
    let side = Indexer::Concurrent {
        primary: 1,
        approximate_lru: false,
        approx: Some(2),
        primary_records_routing_decisions: false,
    };
    assert_eq!(
        side.lookup_pipeline().plan_matches_by_tier(true),
        TieredLookup::Local {
            merge_side: true,
            retain_kv_transfer_chain: true
        }
    );
    assert_eq!(
        side.lookup_pipeline().plan_primary_matches_by_tier(),
        TieredLookup::Local {
            merge_side: false,
            retain_kv_transfer_chain: false
        }
    );
    assert_eq!(
        remote(Some(2)).lookup_pipeline().plan_matches_by_tier(true),
        TieredLookup::Remote {
            merge_side: true,
            warn_no_retention: true
        }
    );
    assert_eq!(
        Indexer::Disabled.lookup_pipeline().plan_matches_by_tier(false),
        TieredLookup::Empty
    );
}

#[test]
fn borrowed_and_owned_hashes_read_alike() {
    let hashes = vec![11, 12, 13];
    let borrowed = HashInput::Borrowed(&hashes);
    let owned = HashInput::Owned(hashes.clone());
    assert_eq!(borrowed.as_slice(), owned.as_slice());
    assert_eq!(borrowed.clone_for_boundary(), hashes);
    assert_eq!(borrowed.into_owned_at_boundary(), hashes);
    assert_eq!(owned.into_owned_at_boundary(), hashes);
}

#[test]
fn primary_queries_follow_the_kind_of_index() {
    let local = Indexer::KvIndexer {
        primary: 3,
        approximate_lru: false,
        approx: None,
        primary_records_routing_decisions: false,
    };
    let shared = Indexer::Concurrent {
        primary: 4,
        approximate_lru: false,
        approx: None,
        primary_records_routing_decisions: false,
    };
    let remote = Indexer::Remote {
        primary: 5,
        approx: None,
        primary_records_routing_decisions: false,
    };
    let query = |indexer: &Indexer, retain| indexer.lookup_pipeline().primary.plan_match_details(retain);
    assert_eq!(
        query(&local, true),
        PrimaryQuery::KvIndexer {
            retain_kv_transfer_chain: true
        }
    );
    assert_eq!(
        query(&shared, false),
        PrimaryQuery::Concurrent {
            retain_kv_transfer_chain: false
        }
    );
    assert_eq!(query(&remote, true), PrimaryQuery::Remote);
    assert_eq!(query(&Indexer::Disabled, true), PrimaryQuery::Empty);
    assert_eq!(local.local_primary(), Some(3));
    assert_eq!(shared.local_primary(), Some(4));
    assert_eq!(remote.local_primary(), None);
    assert_eq!(Indexer::Disabled.local_primary(), None);
}
