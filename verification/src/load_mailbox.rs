//! Mailbox of worker load updates: one pending update per rank, oldest rank first.
use std::collections::VecDeque;
use vstd::prelude::*;

use crate::protocols::WorkerWithDpRank;
use crate::table::Table;

verus! {

pub const MAX_PENDING_ACTIVE_LOADS: usize = 100_000;

/// A load update; what it does not mention stays as it was.
#[derive(Clone, Copy, Debug, PartialEq, Eq, Structural)]
pub struct ActiveLoad {
    pub worker_id: u64,
    pub dp_rank: u32,
    pub active_decode_blocks: Option<u64>,
    pub active_prefill_tokens: Option<u64>,
    pub kv_used_blocks: Option<u64>,
}

#[derive(Clone, Copy, Debug, PartialEq, Eq, Structural)]
pub enum DirectKvMetricsFault {
    PayloadDecode,
    EnvelopeDecode,
    IdentityMismatch,
    Disconnected,
    DiscoveryReset,
}

impl DirectKvMetricsFault {
    /// The fault in words.
    pub fn message(&self) -> (message: &'static str)
        ensures
            message@ == match self {
                DirectKvMetricsFault::PayloadDecode =>
                "direct-ZMQ KV metrics payload decode failed"@,
                DirectKvMetricsFault::EnvelopeDecode =>
                "direct-ZMQ KV metrics envelope decode failed"@,
                DirectKvMetricsFault::IdentityMismatch =>
                "direct-ZMQ KV metrics publisher identity mismatch"@,
                DirectKvMetricsFault::Disconnected =>
                "direct-ZMQ KV metrics transport disconnected"@,
                DirectKvMetricsFault::DiscoveryReset =>
                "direct-ZMQ KV metrics discovery watch reset"@,
            },
    {
        match self {
            DirectKvMetricsFault::PayloadDecode => "direct-ZMQ KV metrics payload decode failed",
            DirectKvMetricsFault::EnvelopeDecode => "direct-ZMQ KV metrics envelope decode failed",
            DirectKvMetricsFault::IdentityMismatch =>
            "direct-ZMQ KV metrics publisher identity mismatch",
            DirectKvMetricsFault::Disconnected => "direct-ZMQ KV metrics transport disconnected",
            DirectKvMetricsFault::DiscoveryReset => "direct-ZMQ KV metrics discovery watch reset",
        }
    }
}

/// What the fan-in of publishers reports.
#[derive(Clone, Copy, Debug, PartialEq, Eq, Structural)]
pub enum FanInEvent {
    SourceStarted,
    EnvelopeDecodeError,
    IdentityMismatch,
    Disconnected,
    DiscoveryReset,
    Other,
}

/// The fault that an event means for load updates, if it means one.
pub fn fault_for_event(event: FanInEvent) -> (fault: Option<DirectKvMetricsFault>)
    ensures
        fault == match event {
            FanInEvent::EnvelopeDecodeError => Some(DirectKvMetricsFault::EnvelopeDecode),
            FanInEvent::IdentityMismatch => Some(DirectKvMetricsFault::IdentityMismatch),
            FanInEvent::Disconnected => Some(DirectKvMetricsFault::Disconnected),
            FanInEvent::DiscoveryReset => Some(DirectKvMetricsFault::DiscoveryReset),
            FanInEvent::SourceStarted | FanInEvent::Other => None,
        },
{
    match event {
        FanInEvent::EnvelopeDecodeError => Some(DirectKvMetricsFault::EnvelopeDecode),
        FanInEvent::IdentityMismatch => Some(DirectKvMetricsFault::IdentityMismatch),
        FanInEvent::Disconnected => Some(DirectKvMetricsFault::Disconnected),
        FanInEvent::DiscoveryReset => Some(DirectKvMetricsFault::DiscoveryReset),
        _ => None,
    }
}

#[derive(Clone, Copy, Debug, PartialEq, Eq, Structural)]
pub enum PushOutcome {
    Accepted { should_wake: bool },
    Full,
}

/// The consumer of the mailbox is gone.
#[derive(Clone, Copy, Debug, PartialEq, Eq, Structural)]
pub struct ConsumerClosed;

/// How waking the consumer ended.
#[derive(Clone, Copy, Debug, PartialEq, Eq, Structural)]
pub enum WakeOutcome {
    Woken,
    /// A wake-up is pending already.
    Pending,
    Closed,
}

impl ActiveLoad {
    pub open spec fn rank(self) -> WorkerWithDpRank {
        WorkerWithDpRank { worker_id: self.worker_id, dp_rank: self.dp_rank }
    }

    /// This update with a later one of the same rank laid over it.
    pub open spec fn merged(self, later: ActiveLoad) -> ActiveLoad {
        ActiveLoad {
            active_decode_blocks: later_or(later.active_decode_blocks, self.active_decode_blocks),
            active_prefill_tokens: later_or(later.active_prefill_tokens, self.active_prefill_tokens),
            kv_used_blocks: later_or(later.kv_used_blocks, self.kv_used_blocks),
            ..self
        }
    }
}

pub open spec fn later_or(later: Option<u64>, earlier: Option<u64>) -> Option<u64> {
    match later {
        Some(value) => Some(value),
        None => earlier,
    }
}

#[derive(Debug)]
pub struct PendingActiveLoads {
    capacity: usize,
    order: VecDeque<WorkerWithDpRank>,
    values: Table<WorkerWithDpRank, ActiveLoad>,
    fault: Option<DirectKvMetricsFault>,
}

/// What a [`PendingActiveLoads`] holds: the pending updates, next one first.
pub struct MailboxView {
    pub capacity: nat,
    pub loads: Seq<ActiveLoad>,
    pub fault: Option<DirectKvMetricsFault>,
}

impl View for PendingActiveLoads {
    type V = MailboxView;

    closed spec fn view(&self) -> MailboxView {
        MailboxView {
            capacity: self.capacity as nat,
            loads: Seq::new(self.order@.len(), |i: int| self.values@[self.order@[i]]),
            fault: self.fault,
        }
    }
}

/// The position of the update of a rank, or `-1`.
pub open spec fn position_of(loads: Seq<ActiveLoad>, worker: WorkerWithDpRank) -> int
    decreases loads.len(),
{
    if loads.len() == 0 {
        -1
    } else if loads.last().rank() == worker {
        loads.len() - 1
    } else {
        position_of(loads.drop_last(), worker)
    }
}

pub open spec fn ranks_are_distinct(loads: Seq<ActiveLoad>) -> bool {
    forall|i: int, j: int|
        0 <= i < j < loads.len() ==> (#[trigger] loads[i]).rank() != (#[trigger] loads[j]).rank()
}

proof fn lemma_position_of(loads: Seq<ActiveLoad>, worker: WorkerWithDpRank)
    ensures
        -1 <= position_of(loads, worker) < loads.len(),
        position_of(loads, worker) >= 0 ==> loads[position_of(loads, worker)].rank() == worker,
        position_of(loads, worker) < 0 ==> forall|i: int|
            0 <= i < loads.len() ==> (#[trigger] loads[i]).rank() != worker,
    decreases loads.len(),
{
    if loads.len() > 0 {
        lemma_position_of(loads.drop_last(), worker);
        if position_of(loads, worker) < 0 {
            assert forall|i: int| 0 <= i < loads.len() implies (#[trigger] loads[i]).rank()
                != worker by {
                if i < loads.len() - 1 {
                    assert(loads.drop_last()[i] == loads[i]);
                }
            }
        }
    }
}

impl MailboxView {
    /// One update per rank, no more than there is room for.
    pub open spec fn wf(self) -> bool {
        &&& self.capacity > 0
        &&& self.loads.len() <= self.capacity
        &&& ranks_are_distinct(self.loads)
    }

    pub open spec fn pushed(self, load: ActiveLoad) -> (MailboxView, PushOutcome) {
        let at = position_of(self.loads, load.rank());
        if at >= 0 {
            (
                MailboxView {
                    loads: self.loads.update(at, self.loads[at].merged(load)),
                    ..self
                },
                PushOutcome::Accepted { should_wake: false },
            )
        } else if self.loads.len() >= self.capacity {
            (self, PushOutcome::Full)
        } else {
            (
                MailboxView { loads: self.loads.push(load), ..self },
                PushOutcome::Accepted { should_wake: self.loads.len() == 0 && self.fault is None },
            )
        }
    }

    pub open spec fn faulted(self, fault: DirectKvMetricsFault) -> MailboxView {
        MailboxView { loads: Seq::empty(), fault: Some(fault), ..self }
    }

    /// What comes out next: a fault before any update.
    pub open spec fn popped(self) -> (MailboxView, Option<Result<ActiveLoad, DirectKvMetricsFault>>) {
        match self.fault {
            Some(fault) => (MailboxView { fault: None, ..self }, Some(Err(fault))),
            None => if self.loads.len() == 0 {
                (self, None)
            } else {
                (
                    MailboxView {
                        loads: self.loads.subrange(1, self.loads.len() as int),
                        ..self
                    },
                    Some(Ok(self.loads[0])),
                )
            },
        }
    }
}

impl PendingActiveLoads {
    /// The queue names exactly the ranks that have an update, each once.
    pub closed spec fn synchronized(&self) -> bool {
        &&& self.order@.no_duplicates()
        &&& self.values@.dom() == self.order@.to_set()
        &&& forall|worker: WorkerWithDpRank| #[trigger]
            self.values@.dom().contains(worker) ==> self.values@[worker].rank() == worker
    }

    pub open spec fn wf(&self) -> bool {
        self.synchronized() && self@.wf()
    }

    pub fn new(capacity: usize) -> (mailbox: Self)
        requires
            capacity > 0,
        ensures
            mailbox.wf(),
            mailbox@ == (MailboxView {
                capacity: capacity as nat,
                loads: Seq::empty(),
                fault: None,
            }),
    {
        let mailbox = PendingActiveLoads {
            capacity,
            order: VecDeque::new(),
            values: Table::new(),
            fault: None,
        };
        proof {
            assert(mailbox@.loads =~= Seq::empty());
            assert(mailbox.values@.dom() =~= mailbox.order@.to_set());
        }
        mailbox
    }

    pub fn capacity(&self) -> (capacity: usize)
        ensures
            capacity == self@.capacity,
    {
        self.capacity
    }

    proof fn lemma_ranks(&self)
        requires
            self.synchronized(),
        ensures
            self@.loads.len() == self.order@.len(),
            forall|i: int|
                0 <= i < self.order@.len() ==> (#[trigger] self@.loads[i]).rank() == self.order@[i]
                    && self@.loads[i] == self.values@[self.order@[i]],
            ranks_are_distinct(self@.loads),
            forall|worker: WorkerWithDpRank|
                position_of(self@.loads, worker) >= 0 <==> #[trigger] self.values@.dom().contains(
                    worker,
                ),
            forall|worker: WorkerWithDpRank| #[trigger]
                self.values@.dom().contains(worker) ==> 0 <= position_of(self@.loads, worker)
                    < self.order@.len() && self.order@[position_of(self@.loads, worker)] == worker,
    {
        let loads = self@.loads;
        assert forall|i: int| 0 <= i < self.order@.len() implies (#[trigger] loads[i]).rank()
            == self.order@[i] && loads[i] == self.values@[self.order@[i]] by {
            assert(self.order@.to_set().contains(self.order@[i]));
            assert(self.values@.dom().contains(self.order@[i]));
        }
        assert forall|i: int, j: int| 0 <= i < j < loads.len() implies (#[trigger] loads[i]).rank()
            != (#[trigger] loads[j]).rank() by {
            assert(self.order@[i] != self.order@[j]);
        }
        assert forall|worker: WorkerWithDpRank| position_of(loads, worker) >= 0
            <==> #[trigger] self.values@.dom().contains(worker) by {
            lemma_position_of(loads, worker);
            if position_of(loads, worker) >= 0 {
                let i = position_of(loads, worker);
                assert(loads[i].rank() == self.order@[i]);
                assert(self.order@.to_set().contains(worker));
            }
            if self.values@.dom().contains(worker) {
                assert(self.order@.to_set().contains(worker));
                let i = choose|i: int| 0 <= i < self.order@.len() && self.order@[i] == worker;
                assert(loads[i].rank() == worker);
            }
        }
        assert forall|worker: WorkerWithDpRank| #[trigger]
            self.values@.dom().contains(worker) implies 0 <= position_of(loads, worker)
            < self.order@.len() && self.order@[position_of(loads, worker)] == worker by {
            lemma_position_of(loads, worker);
            let i = position_of(loads, worker);
            assert(loads[i].rank() == self.order@[i]);
        }
    }

    /// Take in an update: merge it into a pending one of its rank, or queue it while there is
    /// room.
    pub fn push(&mut self, load: ActiveLoad) -> (outcome: PushOutcome)
        requires
            old(self).wf(),
        ensures
            final(self).wf(),
            (final(self)@, outcome) == old(self)@.pushed(load),
    {
        let worker = WorkerWithDpRank { worker_id: load.worker_id, dp_rank: load.dp_rank };
        proof {
            self.lemma_ranks();
        }
        let ghost before = self@;
        let known: Option<ActiveLoad> = match self.values.get(&worker) {
            Some(pending) => Some(*pending),
            None => None,
        };
        if let Some(pending) = known {
            let mut pending: ActiveLoad = pending;
            if load.active_decode_blocks.is_some() {
                pending.active_decode_blocks = load.active_decode_blocks;
            }
            if load.active_prefill_tokens.is_some() {
                pending.active_prefill_tokens = load.active_prefill_tokens;
            }
            if load.kv_used_blocks.is_some() {
                pending.kv_used_blocks = load.kv_used_blocks;
            }
            self.values.insert(worker, pending);
            proof {
                let at = position_of(before.loads, worker);
                assert(self.values@.dom() =~= self.order@.to_set());
                assert(self@.loads =~= before.loads.update(at, pending)) by {
                    assert forall|i: int| 0 <= i < self.order@.len() implies self@.loads[i]
                        == before.loads.update(at, pending)[i] by {
                        if i != at {
                            assert(self.order@[i] != self.order@[at]);
                        }
                    }
                }
                self.lemma_ranks();
            }
            return PushOutcome::Accepted { should_wake: false };
        }
        if self.order.len() >= self.capacity {
            return PushOutcome::Full;
        }
        let should_wake: bool = self.order.len() == 0 && self.fault.is_none();
        let ghost order_before = self.order@;
        self.order.push_back(worker);
        self.values.insert(worker, load);
        proof {
            assert(!order_before.contains(worker)) by {
                if order_before.contains(worker) {
                    assert(order_before.to_set().contains(worker));
                }
            }
            assert(self.order@.no_duplicates());
            assert forall|w: WorkerWithDpRank| self.values@.dom().contains(w)
                <==> self.order@.to_set().contains(w) by {
                crate::lists::lemma_push_contains(order_before, worker);
                assert(self.order@ == order_before.push(worker));
                assert(self.order@.to_set().contains(w) <==> self.order@.contains(w));
                assert(order_before.to_set().contains(w) <==> order_before.contains(w));
            }
            assert(self.values@.dom() =~= self.order@.to_set());
            assert(self@.loads =~= before.loads.push(load)) by {
                assert forall|i: int| 0 <= i < self.order@.len() implies self@.loads[i]
                    == before.loads.push(load)[i] by {
                    if i < order_before.len() {
                        assert(order_before[i] != worker) by {
                            assert(order_before.contains(order_before[i]));
                        }
                    }
                }
            }
            self.lemma_ranks();
        }
        PushOutcome::Accepted { should_wake }
    }

    /// A fault makes every pending update stale.
    pub fn push_fault(&mut self, fault: DirectKvMetricsFault)
        requires
            old(self).wf(),
        ensures
            final(self).wf(),
            final(self)@ == old(self)@.faulted(fault),
    {
        self.order.clear();
        self.values = Table::new();
        self.fault = Some(fault);
        proof {
            assert(self@.loads =~= Seq::empty());
            assert(self.values@.dom() =~= self.order@.to_set());
        }
    }

    pub fn pop(&mut self) -> (next: Option<Result<ActiveLoad, DirectKvMetricsFault>>)
        requires
            old(self).wf(),
        ensures
            final(self).wf(),
            (final(self)@, next) == old(self)@.popped(),
    {
        if let Some(fault) = self.fault {
            self.fault = None;
            proof {
                assert(self@.loads =~= old(self)@.loads);
            }
            return Some(Err(fault));
        }
        proof {
            self.lemma_ranks();
        }
        let ghost order_before = self.order@;
        let ghost before = self@;
        match self.order.pop_front() {
            Some(worker) => {
                proof {
                    assert(order_before[0] == worker);
                    assert(order_before.to_set().contains(worker));
                }
                let value = self.values.remove(&worker);
                proof {
                    assert(self.order@ =~= order_before.subrange(1, order_before.len() as int));
                    assert forall|w: WorkerWithDpRank| self.values@.dom().contains(w)
                        <==> self.order@.to_set().contains(w) by {
                        assert(self.order@.to_set().contains(w) <==> self.order@.contains(w));
                        assert(order_before.to_set().contains(w) <==> order_before.contains(w));
                        if order_before.contains(w) && w != worker {
                            let i = choose|i: int| 0 <= i < order_before.len() && order_before[i] == w;
                            assert(self.order@[i - 1] == w);
                        }
                        if self.order@.contains(w) {
                            let i = choose|i: int| 0 <= i < self.order@.len() && self.order@[i] == w;
                            assert(order_before[i + 1] == w);
                        }
                    }
                    assert(self.values@.dom() =~= self.order@.to_set());
                    assert(self@.loads =~= before.loads.subrange(1, before.loads.len() as int)) by {
                        assert forall|i: int| 0 <= i < self.order@.len() implies self@.loads[i]
                            == before.loads[i + 1] by {
                            assert(order_before[i + 1] != order_before[0]);
                        }
                    }
                    self.lemma_ranks();
                }
                match value {
                    Some(load) => Some(Ok(load)),
                    None => None,
                }
            },
            None => None,
        }
    }

    /// Offer an update to the consumer; `true` asks to wake it.
    pub fn send(&mut self, consumer_closed: bool, load: ActiveLoad) -> (sent: Result<
        bool,
        ConsumerClosed,
    >)
        requires
            old(self).wf(),
        ensures
            final(self).wf(),
            if consumer_closed {
                sent == Err::<bool, ConsumerClosed>(ConsumerClosed) && final(self)@ == old(self)@
            } else {
                let (after, outcome) = old(self)@.pushed(load);
                final(self)@ == after && sent == Ok::<bool, ConsumerClosed>(
                    outcome == (PushOutcome::Accepted { should_wake: true }),
                )
            },
    {
        if consumer_closed {
            return Err(ConsumerClosed);
        }
        match self.push(load) {
            PushOutcome::Accepted { should_wake } => Ok(should_wake),
            PushOutcome::Full => Ok(false),
        }
    }

    /// Report a fault to the consumer, which is then to be woken.
    pub fn send_fault(&mut self, consumer_closed: bool, fault: DirectKvMetricsFault) -> (sent:
        Result<(), ConsumerClosed>)
        requires
            old(self).wf(),
        ensures
            final(self).wf(),
            if consumer_closed {
                sent == Err::<(), ConsumerClosed>(ConsumerClosed) && final(self)@ == old(self)@
            } else {
                sent == Ok::<(), ConsumerClosed>(()) && final(self)@ == old(self)@.faulted(fault)
            },
    {
        if consumer_closed {
            return Err(ConsumerClosed);
        }
        self.push_fault(fault);
        Ok(())
    }
}

/// A wake-up that is pending already is as good as a new one.
pub fn wake_result(outcome: WakeOutcome) -> (result: Result<(), ConsumerClosed>)
    ensures
        result == if outcome == WakeOutcome::Closed {
            Err::<(), ConsumerClosed>(ConsumerClosed)
        } else {
            Ok(())
        },
{
    match outcome {
        WakeOutcome::Closed => Err(ConsumerClosed),
        _ => Ok(()),
    }
}

/// After a fault, the fault comes out first, and no update from before it comes out at all.
pub proof fn law_fault_discards_stale_loads(
    mailbox: MailboxView,
    fault: DirectKvMetricsFault,
    later: ActiveLoad,
)
    requires
        mailbox.wf(),
    ensures
        ({
            let after = mailbox.faulted(fault).pushed(later).0;
            &&& after.popped().1 == Some(Err::<ActiveLoad, DirectKvMetricsFault>(fault))
            &&& after.popped().0.popped().1 == Some(Ok::<ActiveLoad, DirectKvMetricsFault>(later))
            &&& after.popped().0.popped().0.loads.len() == 0
        }),
{
}

/// Merging keeps the place of a rank in the queue: no other pending update moves or changes.
pub proof fn law_merge_keeps_order(mailbox: MailboxView, load: ActiveLoad, i: int)
    requires
        mailbox.wf(),
        0 <= i < mailbox.loads.len(),
    ensures
        mailbox.pushed(load).0.loads.len() >= mailbox.loads.len(),
        mailbox.pushed(load).0.loads[i].rank() == mailbox.loads[i].rank(),
        mailbox.loads[i].rank() != load.rank() ==> mailbox.pushed(load).0.loads[i]
            == mailbox.loads[i],
        mailbox.loads[i].rank() == load.rank() ==> mailbox.pushed(load).0.loads[i]
            == mailbox.loads[i].merged(load),
{
    lemma_position_of(mailbox.loads, load.rank());
    let at = position_of(mailbox.loads, load.rank());
    if at >= 0 && i != at {
        if i < at {
            assert(mailbox.loads[i].rank() != mailbox.loads[at].rank());
        } else {
            assert(mailbox.loads[at].rank() != mailbox.loads[i].rank());
        }
    }
}

/// The mailbox never holds more ranks than it has room for.
pub proof fn law_mailbox_is_bounded(mailbox: MailboxView, load: ActiveLoad)
    requires
        mailbox.wf(),
    ensures
        mailbox.pushed(load).0.loads.len() <= mailbox.capacity,
        mailbox.pushed(load).1 == PushOutcome::Full ==> mailbox.pushed(load).0 == mailbox,
{
    lemma_position_of(mailbox.loads, load.rank());
}

/// An update that meets a pending one of its rank is laid over it field by field: what it gives
/// counts, what it leaves out stays as it was, and nobody is woken for it.
pub proof fn law_later_update_wins_by_field(mailbox: MailboxView, later: ActiveLoad, i: int)
    requires
        mailbox.wf(),
        0 <= i < mailbox.loads.len(),
        mailbox.loads[i].worker_id == later.worker_id,
        mailbox.loads[i].dp_rank == later.dp_rank,
    ensures
        ({
            let earlier = mailbox.loads[i];
            let (after, outcome) = mailbox.pushed(later);
            let now = after.loads[i];
            &&& outcome == (PushOutcome::Accepted { should_wake: false })
            &&& after.loads.len() == mailbox.loads.len()
            &&& now.worker_id == later.worker_id
            &&& now.dp_rank == later.dp_rank
            &&& later.active_decode_blocks is Some ==> now.active_decode_blocks
                == later.active_decode_blocks
            &&& later.active_decode_blocks is None ==> now.active_decode_blocks
                == earlier.active_decode_blocks
            &&& later.active_prefill_tokens is Some ==> now.active_prefill_tokens
                == later.active_prefill_tokens
            &&& later.active_prefill_tokens is None ==> now.active_prefill_tokens
                == earlier.active_prefill_tokens
            &&& later.kv_used_blocks is Some ==> now.kv_used_blocks == later.kv_used_blocks
            &&& later.kv_used_blocks is None ==> now.kv_used_blocks == earlier.kv_used_blocks
            &&& after.capacity == mailbox.capacity
            &&& after.fault == mailbox.fault
            &&& forall|j: int|
                0 <= j < mailbox.loads.len() && j != i ==> #[trigger] after.loads[j]
                    == mailbox.loads[j]
        }),
{
    lemma_position_of(mailbox.loads, later.rank());
    let at = position_of(mailbox.loads, later.rank());
    assert(mailbox.loads[i].rank() == later.rank());
    if at < i {
        assert(mailbox.loads[at].rank() != mailbox.loads[i].rank());
    }
    if i < at {
        assert(mailbox.loads[i].rank() != mailbox.loads[at].rank());
    }
}

/// An update of a rank that has none pending is queued last, as it came, while there is room; the
/// consumer is woken exactly where it has nothing to fetch yet. Without room it is refused, and
/// nothing changes.
pub proof fn law_new_rank_is_queued_last(mailbox: MailboxView, load: ActiveLoad)
    requires
        mailbox.wf(),
        forall|i: int|
            0 <= i < mailbox.loads.len() ==> (#[trigger] mailbox.loads[i]).worker_id
                != load.worker_id || mailbox.loads[i].dp_rank != load.dp_rank,
    ensures
        mailbox.loads.len() < mailbox.capacity ==> {
            let (after, outcome) = mailbox.pushed(load);
            &&& outcome == (PushOutcome::Accepted {
                should_wake: mailbox.loads.len() == 0 && mailbox.fault is None,
            })
            &&& after.loads == mailbox.loads.push(load)
            &&& after.capacity == mailbox.capacity
            &&& after.fault == mailbox.fault
        },
        mailbox.loads.len() == mailbox.capacity ==> mailbox.pushed(load) == (
            mailbox,
            PushOutcome::Full,
        ),
{
    lemma_position_of(mailbox.loads, load.rank());
}

/// What comes out is the fault, where there is one, and else the oldest pending update; the rest
/// moves up by one and stays as it is. An empty mailbox gives nothing and stays empty.
pub proof fn law_oldest_update_comes_out(mailbox: MailboxView)
    ensures
        mailbox.fault is Some ==> {
            let (after, next) = mailbox.popped();
            &&& next == Some(Err::<ActiveLoad, DirectKvMetricsFault>(mailbox.fault->0))
            &&& after.fault is None
            &&& after.loads == mailbox.loads
            &&& after.capacity == mailbox.capacity
        },
        mailbox.fault is None && mailbox.loads.len() > 0 ==> {
            let (after, next) = mailbox.popped();
            &&& next == Some(Ok::<ActiveLoad, DirectKvMetricsFault>(mailbox.loads[0]))
            &&& after.loads.len() == mailbox.loads.len() - 1
            &&& forall|i: int|
                0 <= i < after.loads.len() ==> #[trigger] after.loads[i] == mailbox.loads[i + 1]
            &&& after.fault is None
            &&& after.capacity == mailbox.capacity
        },
        mailbox.fault is None && mailbox.loads.len() == 0 ==> mailbox.popped() == (
            mailbox,
            None::<Result<ActiveLoad, DirectKvMetricsFault>>,
        ),
{
}

/// A later fault takes the place of an earlier one and of every pending update; the room stays.
pub proof fn law_latest_fault_counts(mailbox: MailboxView, fault: DirectKvMetricsFault)
    ensures
        mailbox.faulted(fault).fault == Some(fault),
        mailbox.faulted(fault).loads.len() == 0,
        mailbox.faulted(fault).capacity == mailbox.capacity,
{
}

/// A mailbox in order has room, no more updates than room, and one update for each rank.
pub proof fn law_one_pending_update_per_rank(mailbox: MailboxView, i: int, j: int)
    requires
        mailbox.wf(),
        0 <= i < j < mailbox.loads.len(),
    ensures
        mailbox.loads[i].worker_id != mailbox.loads[j].worker_id || mailbox.loads[i].dp_rank
            != mailbox.loads[j].dp_rank,
        mailbox.loads.len() <= mailbox.capacity,
        mailbox.capacity > 0,
{
    assert(mailbox.loads[i].rank() != mailbox.loads[j].rank());
}

/// An update that meets a pending one of its rank is laid over it field by field: each of the
/// three values that it gives counts, each that it leaves out stays as it was.
pub proof fn law_pushed_update_is_laid_over_the_pending_one(
    mailbox: &mut PendingActiveLoads,
    later: ActiveLoad,
    outcome: PushOutcome,
    i: int,
)
    requires
        old(mailbox).wf(),
        call_ensures(PendingActiveLoads::push, (mailbox, later), outcome),
        0 <= i < old(mailbox)@.loads.len(),
        old(mailbox)@.loads[i].worker_id == later.worker_id,
        old(mailbox)@.loads[i].dp_rank == later.dp_rank,
    ensures
        outcome == (PushOutcome::Accepted { should_wake: false }),
        final(mailbox)@.loads.len() == old(mailbox)@.loads.len(),
        ({
            let earlier = old(mailbox)@.loads[i];
            let now = final(mailbox)@.loads[i];
            &&& now.worker_id == later.worker_id && now.dp_rank == later.dp_rank
            &&& now.active_decode_blocks == if later.active_decode_blocks is Some {
                later.active_decode_blocks
            } else {
                earlier.active_decode_blocks
            }
            &&& now.active_prefill_tokens == if later.active_prefill_tokens is Some {
                later.active_prefill_tokens
            } else {
                earlier.active_prefill_tokens
            }
            &&& now.kv_used_blocks == if later.kv_used_blocks is Some {
                later.kv_used_blocks
            } else {
                earlier.kv_used_blocks
            }
        }),
        forall|j: int|
            0 <= j < old(mailbox)@.loads.len() && j != i ==> #[trigger] final(mailbox)@.loads[j]
                == old(mailbox)@.loads[j],
        final(mailbox)@.fault == old(mailbox)@.fault,
        final(mailbox)@.capacity == old(mailbox)@.capacity,
{
    law_later_update_wins_by_field(old(mailbox)@, later, i);
}

/// An update of a rank that has none pending is queued last, unchanged, while there is room, and
/// wakes the consumer exactly where it has nothing to fetch; without room it is refused.
pub proof fn law_pushed_update_of_a_new_rank_is_queued(
    mailbox: &mut PendingActiveLoads,
    load: ActiveLoad,
    outcome: PushOutcome,
)
    requires
        old(mailbox).wf(),
        call_ensures(PendingActiveLoads::push, (mailbox, load), outcome),
        forall|i: int|
            0 <= i < old(mailbox)@.loads.len() ==> (
            #[trigger] old(mailbox)@.loads[i]).worker_id != load.worker_id
                || old(mailbox)@.loads[i].dp_rank != load.dp_rank,
    ensures
        old(mailbox)@.loads.len() < old(mailbox)@.capacity ==> {
            &&& outcome == (PushOutcome::Accepted {
                should_wake: old(mailbox)@.loads.len() == 0 && old(mailbox)@.fault is None,
            })
            &&& final(mailbox)@.loads == old(mailbox)@.loads.push(load)
            &&& final(mailbox)@.fault == old(mailbox)@.fault
        },
        old(mailbox)@.loads.len() == old(mailbox)@.capacity ==> outcome is Full
            && final(mailbox)@ == old(mailbox)@,
{
    law_new_rank_is_queued_last(old(mailbox)@, load);
}

/// A mailbox gives its fault first, then its updates, oldest first, and then nothing.
pub proof fn law_mailbox_gives_the_fault_first(
    mailbox: &mut PendingActiveLoads,
    next: Option<Result<ActiveLoad, DirectKvMetricsFault>>,
)
    requires
        old(mailbox).wf(),
        call_ensures(PendingActiveLoads::pop, (mailbox,), next),
    ensures
        old(mailbox)@.fault is Some ==> next == Some(
            Err::<ActiveLoad, DirectKvMetricsFault>(old(mailbox)@.fault->0),
        ) && final(mailbox)@.fault is None && final(mailbox)@.loads == old(mailbox)@.loads,
        old(mailbox)@.fault is None && old(mailbox)@.loads.len() > 0 ==> next == Some(
            Ok::<ActiveLoad, DirectKvMetricsFault>(old(mailbox)@.loads[0]),
        ) && final(mailbox)@.loads == old(mailbox)@.loads.drop_first(),
        old(mailbox)@.fault is None && old(mailbox)@.loads.len() == 0 ==> next is None
            && final(mailbox)@ == old(mailbox)@,
        final(mailbox)@.capacity == old(mailbox)@.capacity,
{
}

/// A fault takes the place of every pending update and of an earlier fault; a closed consumer is
/// told neither faults nor updates.
pub proof fn law_closed_consumer_is_told_nothing(
    faulted: &mut PendingActiveLoads,
    fault: DirectKvMetricsFault,
    told: &mut PendingActiveLoads,
    closed: bool,
    fault_sent: Result<(), ConsumerClosed>,
    offered: &mut PendingActiveLoads,
    load: ActiveLoad,
    sent: Result<bool, ConsumerClosed>,
)
    requires
        old(faulted).wf(),
        call_ensures(PendingActiveLoads::push_fault, (faulted, fault), ()),
        old(told).wf(),
        call_ensures(PendingActiveLoads::send_fault, (told, closed, fault), fault_sent),
        old(offered).wf(),
        call_ensures(PendingActiveLoads::send, (offered, closed, load), sent),
    ensures
        final(faulted)@.fault == Some(fault) && final(faulted)@.loads.len() == 0,
        final(faulted)@.capacity == old(faulted)@.capacity,
        closed <==> fault_sent is Err,
        closed <==> sent is Err,
        closed ==> final(told)@ == old(told)@ && final(offered)@ == old(offered)@,
        !closed ==> final(told)@.fault == Some(fault) && final(told)@.loads.len() == 0,
{
}

/// An update that is sent to an open consumer is pushed, and wakes it exactly where it is the first
/// thing to fetch.
pub proof fn law_sent_update_is_pushed(
    offered: &mut PendingActiveLoads,
    pushed: &mut PendingActiveLoads,
    load: ActiveLoad,
    sent: Result<bool, ConsumerClosed>,
    outcome: PushOutcome,
)
    requires
        old(offered).wf(),
        old(pushed).wf(),
        old(pushed)@ == old(offered)@,
        call_ensures(PendingActiveLoads::send, (offered, false, load), sent),
        call_ensures(PendingActiveLoads::push, (pushed, load), outcome),
    ensures
        final(offered)@ == final(pushed)@,
        sent is Ok,
        sent->Ok_0 <==> outcome == (PushOutcome::Accepted { should_wake: true }),
{
}

/// Each event of the fan-in that breaks the stream of updates means a fault of its own; a source
/// that starts, and anything else, means none.
pub proof fn law_broken_stream_is_a_fault(
    event: FanInEvent,
    fault: Option<DirectKvMetricsFault>,
)
    requires
        call_ensures(fault_for_event, (event,), fault),
    ensures
        event is EnvelopeDecodeError ==> fault == Some(DirectKvMetricsFault::EnvelopeDecode),
        event is IdentityMismatch ==> fault == Some(DirectKvMetricsFault::IdentityMismatch),
        event is Disconnected ==> fault == Some(DirectKvMetricsFault::Disconnected),
        event is DiscoveryReset ==> fault == Some(DirectKvMetricsFault::DiscoveryReset),
        event is SourceStarted || event is Other ==> fault is None,
{
}

/// Waking fails exactly if the consumer is closed. A new mailbox is empty and has the room it was
/// given; the router's holds up to 100000 updates.
pub proof fn law_new_mailbox_is_empty(
    outcome: WakeOutcome,
    result: Result<(), ConsumerClosed>,
    room: usize,
    fresh: PendingActiveLoads,
    mailbox: &PendingActiveLoads,
    capacity: usize,
)
    requires
        call_ensures(wake_result, (outcome,), result),
        room > 0,
        call_ensures(PendingActiveLoads::new, (room,), fresh),
        call_ensures(PendingActiveLoads::capacity, (mailbox,), capacity),
    ensures
        result is Err <==> outcome is Closed,
        fresh@.loads.len() == 0 && fresh@.fault is None && fresh@.capacity == room,
        capacity == mailbox@.capacity,
        MAX_PENDING_ACTIVE_LOADS == 100000,
{
}

/// Each fault is told in its own words.
pub proof fn law_metrics_fault_is_told_in_words(fault: &DirectKvMetricsFault, message: &'static str)
    requires
        call_ensures(DirectKvMetricsFault::message, (fault,), message),
    ensures
        *fault is PayloadDecode ==> message@ == "direct-ZMQ KV metrics payload decode failed"@,
        *fault is EnvelopeDecode ==> message@ == "direct-ZMQ KV metrics envelope decode failed"@,
        *fault is IdentityMismatch ==> message@
            == "direct-ZMQ KV metrics publisher identity mismatch"@,
        *fault is Disconnected ==> message@ == "direct-ZMQ KV metrics transport disconnected"@,
        *fault is DiscoveryReset ==> message@ == "direct-ZMQ KV metrics discovery watch reset"@,
{
}

} // verus!
