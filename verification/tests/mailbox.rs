use kv_router::load_mailbox::{
    fault_for_event, wake_result, ActiveLoad, ConsumerClosed, DirectKvMetricsFault, FanInEvent,
    PendingActiveLoads, PushOutcome, WakeOutcome, MAX_PENDING_ACTIVE_LOADS,
};

fn load(
    worker_id: u64,
    dp_rank: u32,
    active_decode_blocks: Option<u64>,
    active_prefill_tokens: Option<u64>,
    kv_used_blocks: Option<u64>,
) -> ActiveLoad {
    ActiveLoad {
        worker_id,
        dp_rank,
        active_decode_blocks,
        active_prefill_tokens,
        kv_used_blocks,
    }
}

#[test]
fn direct_metrics_mailbox_merges_partial_updates_in_key_order() {
    let mut mailbox = PendingActiveLoads::new(4);
    mailbox.send(false, load(1, 0, Some(7), None, None)).unwrap();
    mailbox.send(false, load(2, 0, None, None, Some(9))).unwrap();
    mailbox.send(false, load(1, 0, None, Some(11), None)).unwrap();
    mailbox.send(false, load(1, 0, Some(0), None, Some(5))).unwrap();
    mailbox.send(false, load(1, 1, None, None, Some(13))).unwrap();

    assert_eq!(mailbox.pop(), Some(Ok(load(1, 0, Some(0), Some(11), Some(5)))));
    mailbox.send(false, load(1, 0, None, None, Some(6))).unwrap();
    assert_eq!(mailbox.pop(), Some(Ok(load(2, 0, None, None, Some(9)))));
    assert_eq!(mailbox.pop(), Some(Ok(load(1, 1, None, None, Some(13)))));
    assert_eq!(mailbox.pop(), Some(Ok(load(1, 0, None, None, Some(6)))));
    assert_eq!(mailbox.pop(), None);
}

#[test]
fn direct_metrics_mailbox_bounds_distinct_keys_and_drains_on_close() {
    assert_eq!(
        PendingActiveLoads::new(MAX_PENDING_ACTIVE_LOADS).capacity(),
        100_000
    );
    let mut mailbox = PendingActiveLoads::new(1);
    mailbox.send(false, load(1, 0, Some(7), None, None)).unwrap();
    mailbox.send(false, load(1, 0, None, None, Some(8))).unwrap();
    mailbox.send(false, load(2, 0, None, None, Some(9))).unwrap();
    assert_eq!(mailbox.push(load(2, 0, None, None, Some(9))), PushOutcome::Full);

    assert_eq!(mailbox.pop(), Some(Ok(load(1, 0, Some(7), None, Some(8)))));
    mailbox.send(false, load(2, 0, None, None, Some(10))).unwrap();
    assert_eq!(mailbox.pop(), Some(Ok(load(2, 0, None, None, Some(10)))));
    assert_eq!(mailbox.pop(), None);
}

#[test]
fn direct_metrics_mailbox_wakes_a_waiter_and_reports_receiver_close() {
    let mut mailbox = PendingActiveLoads::new(2);
    assert_eq!(mailbox.send(false, load(1, 0, None, None, Some(3))), Ok(true));
    assert_eq!(mailbox.send(false, load(1, 0, None, None, Some(4))), Ok(false));
    assert_eq!(mailbox.send(false, load(2, 0, None, None, Some(4))), Ok(false));
    assert_eq!(
        mailbox.send(true, load(3, 0, None, None, Some(4))),
        Err(ConsumerClosed)
    );
    assert_eq!(
        mailbox.send_fault(true, DirectKvMetricsFault::Disconnected),
        Err(ConsumerClosed)
    );
    assert_eq!(wake_result(WakeOutcome::Woken), Ok(()));
    assert_eq!(wake_result(WakeOutcome::Pending), Ok(()));
    assert_eq!(wake_result(WakeOutcome::Closed), Err(ConsumerClosed));
}

#[test]
fn direct_metrics_fault_discards_stale_loads_before_later_updates() {
    let mut mailbox = PendingActiveLoads::new(4);
    mailbox.send(false, load(1, 0, None, None, Some(3))).unwrap();
    mailbox
        .send_fault(false, DirectKvMetricsFault::Disconnected)
        .unwrap();
    assert_eq!(mailbox.send(false, load(2, 0, None, None, Some(4))), Ok(false));

    let error = mailbox.pop().unwrap().unwrap_err();
    assert!(error.message().contains("transport disconnected"));
    assert_eq!(mailbox.pop(), Some(Ok(load(2, 0, None, None, Some(4)))));

    assert_eq!(
        fault_for_event(FanInEvent::EnvelopeDecodeError),
        Some(DirectKvMetricsFault::EnvelopeDecode)
    );
    assert_eq!(
        fault_for_event(FanInEvent::IdentityMismatch),
        Some(DirectKvMetricsFault::IdentityMismatch)
    );
    assert_eq!(
        fault_for_event(FanInEvent::DiscoveryReset),
        Some(DirectKvMetricsFault::DiscoveryReset)
    );
    assert_eq!(
        fault_for_event(FanInEvent::Disconnected),
        Some(DirectKvMetricsFault::Disconnected)
    );
    assert_eq!(fault_for_event(FanInEvent::SourceStarted), None);
    assert_eq!(
        DirectKvMetricsFault::PayloadDecode.message(),
        "direct-ZMQ KV metrics payload decode failed"
    );
}
