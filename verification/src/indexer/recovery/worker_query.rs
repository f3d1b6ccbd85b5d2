//! Coordination of event sources, live batches and recovery over all ranks.
//!
//! The caller serialises the operations of one rank: between a `begin_..` and its `finish_..`
//! no other operation touches that rank. Operations of different ranks may interleave.
use dashmap::DashMap;
use vstd::prelude::*;

use crate::lists::{lemma_prefix_grows, lemma_push_contains, push_unique};
use crate::membership::{KvSourceId, KvSourceStatus};
use crate::adapters::maps::{
    binding_entries, get_binding, insert_binding, insert_slot, new_bindings, new_slots,
    remove_binding_of, remove_slot, slot_entries, slot_keys,
};
use crate::protocols::{ResetScope, RouterEvent, WorkerWithDpRank};
use crate::indexer::recovery::cursor::CursorState;
use crate::indexer::recovery::source_slot::{
    admission_after, events_match_rank, recovery_events_match_source, recovery_planned, LiveStep,
    ReconcileStep, RecoveryAdmission, RecoveryFailure, RecoveryStep, SlotView, SourceBinding,
    SourceSlot, WorkerKvQueryResponse,
};
use crate::table::{lookup, Table};

verus! {

/// Worker id and data-parallel rank.
pub type RecoveryKey = (u64, u32);

/// How a fault of the index on one rank was dealt with.
#[derive(Clone, Copy, Debug, PartialEq, Eq, Structural)]
pub enum TargetFaultDisposition {
    Recovering,
    ResetLiveOnly,
    Fenced,
    Stale,
}

/// What an index fault asks for.
#[derive(Clone, Copy, Debug, PartialEq, Eq, Structural)]
pub enum TargetFaultStep {
    Done(TargetFaultDisposition),
    /// Start a recovery for the binding; the fault counts as recovering.
    Recover(SourceBinding),
    /// Reset the rank for this source and report the outcome.
    Reset(KvSourceId),
}

/// Whether a live batch is let in, and why not.
#[derive(Clone, Copy, Debug, PartialEq, Eq)]
pub enum LiveBatchVerdict {
    UnknownPublisher,
    Suppressed,
    ForeignEvent,
    Empty,
    Fenced,
    Accept { key: RecoveryKey, binding: SourceBinding },
}

pub struct WorkerQueryClient {
    slots: DashMap<(u64, u32), SourceSlot>,
    /// Publisher id to the rank, and the generation of the binding, that it feeds.
    publisher_bindings: DashMap<u64, (u64, u32, u64)>,
    next_generation: u64,
}

/// What a [`WorkerQueryClient`] holds.
pub struct ClientView {
    pub slots: Map<RecoveryKey, SlotView>,
    pub bindings: Map<u64, (u64, u32, u64)>,
    pub next_generation: u64,
}

pub open spec fn slot_views(entries: Map<RecoveryKey, SourceSlot>) -> Map<RecoveryKey, SlotView> {
    Map::new(|key: RecoveryKey| entries.dom().contains(key), |key: RecoveryKey| entries[key]@)
}

impl View for WorkerQueryClient {
    type V = ClientView;

    closed spec fn view(&self) -> ClientView {
        ClientView {
            slots: slot_views(slot_entries(self.slots)),
            bindings: binding_entries(self.publisher_bindings),
            next_generation: self.next_generation,
        }
    }
}

impl ClientView {
    /// Every publisher leads to the live binding that it feeds.
    pub open spec fn wf(self) -> bool {
        forall|publisher_id: u64| #[trigger]
            self.bindings.dom().contains(publisher_id) ==> self.leads_to_live_binding(publisher_id)
    }

    pub open spec fn leads_to_live_binding(self, publisher_id: u64) -> bool {
        let (worker_id, dp_rank, generation) = self.bindings[publisher_id];
        &&& self.slots.dom().contains((worker_id, dp_rank))
        &&& self.slots[(worker_id, dp_rank)].active is Some
        &&& self.slots[(worker_id, dp_rank)].active->0.generation == generation
        &&& self.slots[(worker_id, dp_rank)].active->0.source_id.publisher_id == publisher_id
    }

    pub open spec fn slot_or_empty(self, key: RecoveryKey) -> SlotView {
        if self.slots.dom().contains(key) {
            self.slots[key]
        } else {
            SlotView::empty()
        }
    }

    pub open spec fn with_slot(self, key: RecoveryKey, slot: SlotView) -> ClientView {
        ClientView { slots: self.slots.insert(key, slot), ..self }
    }

    /// Without the publisher entry of a rank's binding that ends.
    pub open spec fn unregistered(self, key: RecoveryKey, ended: Option<SourceBinding>) -> ClientView {
        match ended {
            Some(binding) => if lookup(self.bindings, binding.source_id.publisher_id) == Some(
                (key.0, key.1, binding.generation),
            ) {
                ClientView {
                    bindings: self.bindings.remove(binding.source_id.publisher_id),
                    ..self
                }
            } else {
                self
            },
            None => self,
        }
    }

    pub open spec fn registered(self, key: RecoveryKey, binding: SourceBinding) -> ClientView {
        ClientView {
            bindings: self.bindings.insert(
                binding.source_id.publisher_id,
                (key.0, key.1, binding.generation),
            ),
            ..self
        }
    }

    /// Whether the rank is still bound by the activation `generation`.
    pub open spec fn is_bound(self, key: RecoveryKey, generation: u64) -> bool {
        &&& self.slots.dom().contains(key)
        &&& self.slots[key].active is Some
        &&& self.slots[key].active->0.generation == generation
    }

    /// Whether the rank is bound to a source of this publisher.
    pub open spec fn is_fed_by(self, key: RecoveryKey, publisher_id: u64) -> bool {
        &&& self.slots.dom().contains(key)
        &&& self.slots[key].active is Some
        &&& self.slots[key].active->0.source_id.publisher_id == publisher_id
    }

    pub open spec fn feeds(self, publisher_id: u64) -> RecoveryKey {
        (self.bindings[publisher_id].0, self.bindings[publisher_id].1)
    }

    pub open spec fn batch_verdict(
        self,
        publisher_id: u64,
        events: Seq<RouterEvent>,
        sources: Map<WorkerWithDpRank, KvSourceStatus>,
    ) -> LiveBatchVerdict {
        if !self.bindings.dom().contains(publisher_id) {
            LiveBatchVerdict::UnknownPublisher
        } else {
            let key = self.feeds(publisher_id);
            let binding = self.slots[key].active->0;
            let worker = binding.source.worker;
            if sources.dom().contains(worker) && sources[worker] == KvSourceStatus::Suppressed {
                LiveBatchVerdict::Suppressed
            } else if !events_match_rank(worker, events) {
                LiveBatchVerdict::ForeignEvent
            } else if events.len() == 0 {
                LiveBatchVerdict::Empty
            } else if self.slots[key].pending_reset is Some {
                LiveBatchVerdict::Fenced
            } else {
                LiveBatchVerdict::Accept { key, binding }
            }
        }
    }
}

impl WorkerQueryClient {
    pub fn new() -> (client: Self)
        ensures
            client@.wf(),
            client@.slots.dom().is_empty(),
            client@.bindings.dom().is_empty(),
            client@.next_generation == 0,
    {
        let client = WorkerQueryClient {
            slots: new_slots(),
            publisher_bindings: new_bindings(),
            next_generation: 0,
        };
        proof {
            assert(client@.slots.dom() =~= Set::empty());
            assert(client@.bindings.dom() =~= Set::empty());
        }
        client
    }

    fn take_slot(&mut self, key: RecoveryKey) -> (slot: Option<SourceSlot>)
        ensures
            final(self)@ == (ClientView { slots: old(self)@.slots.remove(key), ..old(self)@ }),
            match slot {
                Some(slot) => old(self)@.slots.dom().contains(key) && old(self)@.slots[key]
                    == slot@,
                None => !old(self)@.slots.dom().contains(key),
            },
    {
        let taken = remove_slot(&mut self.slots, key);
        proof {
            assert(self@.slots =~= old(self)@.slots.remove(key));
        }
        match taken {
            Some((_, slot)) => Some(slot),
            None => None,
        }
    }

    fn put_slot(&mut self, key: RecoveryKey, slot: SourceSlot)
        ensures
            final(self)@ == old(self)@.with_slot(key, slot@),
    {
        let _ = insert_slot(&mut self.slots, key, slot);
        proof {
            assert(self@.slots =~= old(self)@.slots.insert(key, slot@));
        }
    }

    fn unregister(&mut self, key: RecoveryKey, ended: Option<SourceBinding>)
        ensures
            final(self)@ == old(self)@.unregistered(key, ended),
    {
        if let Some(binding) = ended {
            let _ = remove_binding_of(
                &mut self.publisher_bindings,
                binding.source_id.publisher_id,
                (key.0, key.1, binding.generation),
            );
        }
        proof {
            assert(self@.bindings =~= old(self)@.unregistered(key, ended).bindings);
        }
    }

    /// The ranks that have a slot but no place in the membership.
    pub fn unexpected_keys(&self, sources: &Table<WorkerWithDpRank, KvSourceStatus>) -> (keys: Vec<
        RecoveryKey,
    >)
        ensures
            keys@.no_duplicates(),
            forall|key: RecoveryKey| #[trigger]
                keys@.contains(key) <==> self@.slots.dom().contains(key)
                    && !sources@.dom().contains(
                    WorkerWithDpRank { worker_id: key.0, dp_rank: key.1 },
                ),
    {
        let existing = slot_keys(&self.slots);
        let mut keys: Vec<RecoveryKey> = Vec::new();
        let mut i: usize = 0;
        while i < existing.len()
            invariant
                i <= existing.len(),
                existing@.no_duplicates(),
                keys@.no_duplicates(),
                forall|key: RecoveryKey| #[trigger]
                    keys@.contains(key) <==> existing@.subrange(0, i as int).contains(key)
                        && !sources@.dom().contains(
                        WorkerWithDpRank { worker_id: key.0, dp_rank: key.1 },
                    ),
            decreases existing.len() - i,
        {
            let key = existing[i];
            let ghost seen = existing@.subrange(0, i as int);
            let ghost before = keys@;
            proof {
                lemma_prefix_grows(existing@, i as int);
                lemma_push_contains(seen, key);
                lemma_push_contains(before, key);
            }
            if !sources.contains_key(&WorkerWithDpRank { worker_id: key.0, dp_rank: key.1 }) {
                proof {
                    assert(!before.contains(key));
                }
                keys.push(key);
            }
            i = i + 1;
        }
        proof {
            assert(existing@.subrange(0, i as int) =~= existing@);
            assert forall|key: RecoveryKey| existing@.contains(key)
                <==> self@.slots.dom().contains(key) by {
                assert(existing@.to_set().contains(key) <==> existing@.contains(key));
            }
        }
        keys
    }

    /// Compare a rank with its membership status.
    pub fn begin_reconcile(&mut self, key: RecoveryKey, status: &KvSourceStatus) -> (step:
        ReconcileStep)
        requires
            old(self)@.wf(),
        ensures
            final(self)@.wf(),
            ({
                let before = old(self)@.slot_or_empty(key);
                if before.keeps_source(*status) {
                    step == ReconcileStep::Unchanged && final(self)@ == old(self)@.with_slot(
                        key,
                        before,
                    )
                } else {
                    step == (ReconcileStep::Proceed {
                        retired: before.active,
                        reset: before.owed_reset(),
                    }) && final(self)@ == old(self)@.unregistered(key, before.active).with_slot(
                        key,
                        before.unbound(),
                    )
                }
            }),
    {
        let mut slot = match self.take_slot(key) {
            Some(slot) => slot,
            None => SourceSlot::default(),
        };
        let step = slot.begin_reconcile(status);
        if let ReconcileStep::Proceed { retired, .. } = step {
            self.unregister(key, retired);
        }
        self.put_slot(key, slot);
        proof {
            let before = old(self)@.slot_or_empty(key);
            if before.keeps_source(*status) {
                assert(self@.slots =~= old(self)@.with_slot(key, before).slots);
            } else {
                assert(self@.slots =~= old(self)@.slots.insert(key, before.unbound()));
            }
        }
        step
    }

    /// Go on after the reset that [`WorkerQueryClient::begin_reconcile`] asked for; a binding
    /// that comes back with a recovery target starts its initial recovery.
    pub fn finish_reconcile(
        &mut self,
        key: RecoveryKey,
        status: &KvSourceStatus,
        reset: Option<KvSourceId>,
        reset_ok: bool,
    ) -> (bound: Option<SourceBinding>)
        requires
            old(self)@.wf(),
        ensures
            final(self)@.wf(),
            ({
                let before = old(self)@.slot_or_empty(key);
                let generation = old(self)@.next_generation;
                let after = before.settled(*status, reset, reset_ok, generation);
                if before.settles_on_source(*status, reset, reset_ok) {
                    let binding = SourceBinding::of(status.active()->0, generation);
                    bound == Some(binding) && final(self)@ == (ClientView {
                        next_generation: if generation == u64::MAX {
                            0
                        } else {
                            (generation + 1) as u64
                        },
                        ..old(self)@.unregistered(key, before.active).with_slot(key, after).registered(
                            key,
                            binding,
                        )
                    })
                } else {
                    bound is None && final(self)@ == old(self)@.with_slot(key, after)
                }
            }),
    {
        let mut slot = match self.take_slot(key) {
            Some(slot) => slot,
            None => SourceSlot::default(),
        };
        let previous = slot.active;
        let generation: u64 = self.next_generation;
        let bound = slot.finish_reconcile(status, reset, reset_ok, generation);
        let ghost after = slot@;
        if let Some(binding) = bound {
            self.next_generation = generation.wrapping_add(1);
            self.unregister(key, previous);
            let _ = insert_binding(
                &mut self.publisher_bindings,
                binding.source_id.publisher_id,
                (key.0, key.1, binding.generation),
            );
        }
        self.put_slot(key, slot);
        proof {
            assert(self@.slots =~= old(self)@.slots.insert(key, after));
        }
        bound
    }

    /// Give up a rank that membership no longer lists; `None` when it has no slot.
    pub fn begin_removal(&mut self, key: RecoveryKey) -> (taken: Option<
        (Option<SourceBinding>, Option<KvSourceId>),
    >)
        requires
            old(self)@.wf(),
        ensures
            final(self)@.wf(),
            if old(self)@.slots.dom().contains(key) {
                let before = old(self)@.slots[key];
                &&& taken == Some((before.active, before.owed_reset()))
                &&& final(self)@ == old(self)@.unregistered(key, before.active).with_slot(
                    key,
                    before.unbound(),
                )
            } else {
                taken is None && final(self)@ == old(self)@
            },
    {
        match self.take_slot(key) {
            Some(mut slot) => {
                let ghost before = slot@;
                let (retired, reset) = slot.unbind();
                self.unregister(key, retired);
                self.put_slot(key, slot);
                proof {
                    assert(self@.slots =~= old(self)@.slots.insert(key, before.unbound()));
                }
                Some((retired, reset))
            },
            None => {
                proof {
                    assert(self@.slots =~= old(self)@.slots);
                }
                None
            },
        }
    }

    /// The outcome of the reset before a removal: the slot goes unless its reset is still owed.
    pub fn finish_removal(
        &mut self,
        key: RecoveryKey,
        reset: Option<KvSourceId>,
        reset_ok: bool,
    ) -> (removed: bool)
        requires
            old(self)@.wf(),
        ensures
            final(self)@.wf(),
            removed == (old(self)@.slots.dom().contains(key) && !(reset is Some && !reset_ok)),
            removed ==> final(self)@ == (ClientView {
                slots: old(self)@.slots.remove(key),
                ..old(self)@.unregistered(key, old(self)@.slots[key].active)
            }),
            !removed ==> final(self)@ == if old(self)@.slots.dom().contains(key) {
                old(self)@.with_slot(key, old(self)@.slots[key].fenced(reset->0))
            } else {
                old(self)@
            },
    {
        match self.take_slot(key) {
            Some(mut slot) => {
                if let Some(source_id) = reset {
                    if !reset_ok {
                        slot.fence_for_reset(source_id);
                        let ghost fenced = slot@;
                        self.put_slot(key, slot);
                        proof {
                            assert(self@.slots =~= old(self)@.slots.insert(key, fenced));
                        }
                        return false;
                    }
                }
                self.unregister(key, slot.active);
                true
            },
            None => {
                proof {
                    assert(self@.slots =~= old(self)@.slots);
                }
                false
            },
        }
    }

    /// A fault that the index reported for a rank.
    pub fn begin_target_fault(
        &mut self,
        key: RecoveryKey,
        publisher_id: u64,
        barrier_failed: bool,
    ) -> (step: TargetFaultStep)
        requires
            old(self)@.wf(),
        ensures
            final(self)@.wf(),
            if !old(self)@.is_fed_by(key, publisher_id) {
                step == TargetFaultStep::Done(TargetFaultDisposition::Stale) && final(self)@
                    == old(self)@
            } else {
                let before = old(self)@.slots[key];
                let binding = before.active->0;
                if barrier_failed || before.pending_reset is Some {
                    step == TargetFaultStep::Done(TargetFaultDisposition::Fenced) && final(self)@
                        == old(self)@
                } else if binding.source.recovery_target is Some {
                    &&& step == TargetFaultStep::Recover(binding)
                    &&& final(self)@ == old(self)@.with_slot(
                        key,
                        SlotView { rank: before.rank.recovering(), ..before },
                    )
                } else {
                    step == TargetFaultStep::Reset(binding.source_id) && final(self)@ == old(self)@
                }
            },
    {
        match self.take_slot(key) {
            Some(mut slot) => {
                let ghost before = slot@;
                let step = match slot.active {
                    Some(binding) => if binding.source_id.publisher_id != publisher_id {
                        TargetFaultStep::Done(TargetFaultDisposition::Stale)
                    } else if barrier_failed || slot.pending_reset.is_some() {
                        TargetFaultStep::Done(TargetFaultDisposition::Fenced)
                    } else if binding.is_recoverable() {
                        slot.rank.recovery_inflight = true;
                        TargetFaultStep::Recover(binding)
                    } else {
                        TargetFaultStep::Reset(binding.source_id)
                    },
                    None => TargetFaultStep::Done(TargetFaultDisposition::Stale),
                };
                let ghost after = slot@;
                self.put_slot(key, slot);
                proof {
                    assert(self@.slots =~= old(self)@.slots.insert(key, after));
                    if after == before {
                        assert(self@.slots =~= old(self)@.slots);
                    }
                }
                step
            },
            None => {
                proof {
                    assert(self@.slots =~= old(self)@.slots);
                }
                TargetFaultStep::Done(TargetFaultDisposition::Stale)
            },
        }
    }

    /// The outcome of the reset of a live-only rank after an index fault.
    pub fn finish_target_fault(&mut self, key: RecoveryKey, source_id: KvSourceId, reset_ok: bool)
        -> (disposition: TargetFaultDisposition)
        requires
            old(self)@.wf(),
        ensures
            final(self)@.wf(),
            if !old(self)@.slots.dom().contains(key) {
                disposition == TargetFaultDisposition::Stale && final(self)@ == old(self)@
            } else if reset_ok {
                &&& disposition == TargetFaultDisposition::ResetLiveOnly
                &&& final(self)@ == old(self)@.with_slot(key, old(self)@.slots[key].rank_cleared())
            } else {
                &&& disposition == TargetFaultDisposition::Fenced
                &&& final(self)@ == old(self)@.with_slot(
                    key,
                    old(self)@.slots[key].fenced(source_id),
                )
            },
    {
        match self.take_slot(key) {
            Some(mut slot) => {
                let disposition = if reset_ok {
                    slot.rank.activate(false);
                    TargetFaultDisposition::ResetLiveOnly
                } else {
                    slot.fence_for_reset(source_id);
                    TargetFaultDisposition::Fenced
                };
                let ghost after = slot@;
                self.put_slot(key, slot);
                proof {
                    assert(self@.slots =~= old(self)@.slots.insert(key, after));
                }
                disposition
            },
            None => {
                proof {
                    assert(self@.slots =~= old(self)@.slots);
                }
                TargetFaultDisposition::Stale
            },
        }
    }

    /// Turn away a source that broke the protocol; `None` when the rank is not fed by it.
    pub fn begin_reject(&mut self, key: RecoveryKey, publisher_id: u64) -> (retired: Option<
        SourceBinding,
    >)
        requires
            old(self)@.wf(),
        ensures
            final(self)@.wf(),
            if old(self)@.is_fed_by(key, publisher_id) {
                let before = old(self)@.slots[key];
                retired == before.active && final(self)@ == old(self)@.unregistered(
                    key,
                    before.active,
                ).with_slot(key, before.deactivated())
            } else {
                retired is None && final(self)@ == old(self)@
            },
    {
        match self.take_slot(key) {
            Some(mut slot) => {
                let ghost before = slot@;
                let fed: bool = match slot.active {
                    Some(binding) => binding.source_id.publisher_id == publisher_id,
                    None => false,
                };
                let mut retired: Option<SourceBinding> = None;
                if fed {
                    retired = slot.deactivate();
                    self.unregister(key, retired);
                }
                let ghost after = slot@;
                self.put_slot(key, slot);
                proof {
                    assert(self@.slots =~= old(self)@.slots.insert(key, after));
                    if !fed {
                        assert(self@.slots =~= old(self)@.slots);
                    }
                }
                retired
            },
            None => {
                proof {
                    assert(self@.slots =~= old(self)@.slots);
                }
                None
            },
        }
    }

    /// The outcome of the reset after a rejection: the source stays out either way.
    pub fn finish_reject(&mut self, key: RecoveryKey, source_id: KvSourceId, reset_ok: bool)
        requires
            old(self)@.wf(),
        ensures
            final(self)@.wf(),
            final(self)@ == if old(self)@.slots.dom().contains(key) {
                let before = old(self)@.slots[key];
                old(self)@.with_slot(
                    key,
                    SlotView {
                        rejected_source: Some(source_id),
                        ..(if reset_ok {
                            before
                        } else {
                            before.fenced(source_id)
                        }).rank_cleared()
                    },
                )
            } else {
                old(self)@
            },
    {
        if let Some(mut slot) = self.take_slot(key) {
            slot.finish_reject(source_id, reset_ok);
            let ghost after = slot@;
            self.put_slot(key, slot);
            proof {
                assert(self@.slots =~= old(self)@.slots.insert(key, after));
            }
        } else {
            proof {
                assert(self@.slots =~= old(self)@.slots);
            }
        }
    }

    /// Give up the binding of a publisher whose transport broke. The same source may come back
    /// once its transport is connected again.
    pub fn begin_transport_fence(&mut self, publisher_id: u64) -> (ended: Option<
        (RecoveryKey, SourceBinding),
    >)
        requires
            old(self)@.wf(),
        ensures
            final(self)@.wf(),
            if old(self)@.bindings.dom().contains(publisher_id) {
                let key = old(self)@.feeds(publisher_id);
                let before = old(self)@.slots[key];
                ended == Some((key, before.active->0)) && final(self)@ == old(self)@.unregistered(
                    key,
                    before.active,
                ).with_slot(key, before.deactivated())
            } else {
                ended is None && final(self)@ == old(self)@
            },
    {
        match get_binding(&self.publisher_bindings, publisher_id) {
            Some((worker_id, dp_rank, _)) => {
                let key = (worker_id, dp_rank);
                proof {
                    assert(self@.bindings.dom().contains(publisher_id));
                    assert(self@.leads_to_live_binding(publisher_id));
                }
                match self.begin_reject(key, publisher_id) {
                    Some(binding) => Some((key, binding)),
                    None => None,
                }
            },
            None => None,
        }
    }

    /// The outcome of the reset after a transport broke.
    pub fn finish_transport_fence(
        &mut self,
        key: RecoveryKey,
        source_id: KvSourceId,
        reset_ok: bool,
    )
        requires
            old(self)@.wf(),
        ensures
            final(self)@.wf(),
            final(self)@ == if old(self)@.slots.dom().contains(key) {
                let before = old(self)@.slots[key];
                old(self)@.with_slot(
                    key,
                    (if reset_ok {
                        before
                    } else {
                        before.fenced(source_id)
                    }).rank_cleared(),
                )
            } else {
                old(self)@
            },
    {
        if let Some(mut slot) = self.take_slot(key) {
            slot.finish_unbound_reset(source_id, reset_ok);
            let ghost after = slot@;
            self.put_slot(key, slot);
            proof {
                assert(self@.slots =~= old(self)@.slots.insert(key, after));
            }
        } else {
            proof {
                assert(self@.slots =~= old(self)@.slots);
            }
        }
    }

    /// Decide on a batch before any of its events is looked at: one foreign event turns the
    /// whole batch away.
    pub fn open_live_batch(
        &mut self,
        publisher_id: u64,
        events: &Vec<RouterEvent>,
        sources: &Table<WorkerWithDpRank, KvSourceStatus>,
    ) -> (verdict: LiveBatchVerdict)
        requires
            old(self)@.wf(),
        ensures
            final(self)@ == old(self)@,
            verdict == old(self)@.batch_verdict(publisher_id, events@, sources@),
    {
        match get_binding(&self.publisher_bindings, publisher_id) {
            Some((worker_id, dp_rank, _)) => {
                let key = (worker_id, dp_rank);
                proof {
                    assert(self@.bindings.dom().contains(publisher_id));
                    assert(self@.leads_to_live_binding(publisher_id));
                }
                let mut active: Option<SourceBinding> = None;
                let mut fenced: bool = false;
                if let Some(slot) = self.take_slot(key) {
                    active = slot.active;
                    fenced = slot.pending_reset.is_some();
                    self.put_slot(key, slot);
                    proof {
                        assert(self@.slots =~= old(self)@.slots);
                    }
                }
                match active {
                    Some(binding) => {
                        let worker = binding.source.worker;
                        if let Some(status) = sources.get(&worker) {
                            if *status == KvSourceStatus::Suppressed {
                                return LiveBatchVerdict::Suppressed;
                            }
                        }
                        if !recovery_events_match_source(worker, events) {
                            return LiveBatchVerdict::ForeignEvent;
                        }
                        if events.len() == 0 {
                            return LiveBatchVerdict::Empty;
                        }
                        if fenced {
                            return LiveBatchVerdict::Fenced;
                        }
                        LiveBatchVerdict::Accept { key, binding }
                    },
                    None => LiveBatchVerdict::UnknownPublisher,
                }
            },
            None => LiveBatchVerdict::UnknownPublisher,
        }
    }

    /// The next event of an accepted batch; nothing when the binding has ended.
    pub fn begin_live_event(&mut self, key: RecoveryKey, generation: u64, event: RouterEvent) -> (step:
        LiveStep)
        requires
            old(self)@.wf(),
        ensures
            final(self)@.wf(),
            if old(self)@.is_bound(key, generation) {
                let before = old(self)@.slots[key];
                let (after, expected) = before.on_live_event(
                    event,
                    before.active->0.source.recovery_target is Some,
                );
                step == expected && final(self)@ == old(self)@.with_slot(key, after)
            } else {
                step == LiveStep::Ignore && final(self)@ == old(self)@
            },
    {
        if let Some(mut slot) = self.take_slot(key) {
            let ghost before = slot@;
            if let Some(binding) = slot.active {
                if binding.generation == generation {
                    let step = slot.begin_live_event(event, binding.is_recoverable());
                    let ghost after = slot@;
                    self.put_slot(key, slot);
                    proof {
                        assert(self@.slots =~= old(self)@.slots.insert(key, after));
                    }
                    return step;
                }
            }
            self.put_slot(key, slot);
        }
        proof {
            assert(self@.slots =~= old(self)@.slots);
        }
        LiveStep::Ignore
    }

    /// The outcome of an admission, or of the reset before it. `false` ends the batch.
    pub fn finish_live_event(
        &mut self,
        key: RecoveryKey,
        generation: u64,
        event_id: u64,
        accepted: bool,
    ) -> (go_on: bool)
        requires
            old(self)@.wf(),
        ensures
            final(self)@.wf(),
            go_on == (accepted && old(self)@.is_bound(key, generation)),
            final(self)@ == if old(self)@.is_bound(key, generation) {
                let before = old(self)@.slots[key];
                old(self)@.with_slot(
                    key,
                    if accepted {
                        SlotView { rank: before.rank.committed(event_id), ..before }
                    } else {
                        before.fenced(before.active->0.source_id)
                    },
                )
            } else {
                old(self)@
            },
    {
        if let Some(mut slot) = self.take_slot(key) {
            if let Some(binding) = slot.active {
                if binding.generation == generation {
                    slot.finish_live_event(binding.source_id, event_id, accepted);
                    let ghost after = slot@;
                    self.put_slot(key, slot);
                    proof {
                        assert(self@.slots =~= old(self)@.slots.insert(key, after));
                    }
                    return accepted;
                }
            }
            self.put_slot(key, slot);
        }
        proof {
            assert(self@.slots =~= old(self)@.slots);
        }
        false
    }

    /// The answer to a recovery query; `None` when the recovery was cancelled or its binding
    /// has ended.
    pub fn plan_recovery(
        &mut self,
        key: RecoveryKey,
        generation: u64,
        cancelled: bool,
        result: Result<WorkerKvQueryResponse, RecoveryFailure>,
    ) -> (step: Option<RecoveryStep>)
        requires
            old(self)@.wf(),
        ensures
            final(self)@.wf(),
            step is None <==> cancelled || !old(self)@.is_bound(key, generation),
            match step {
                Some(step) => final(self)@.slots.dom().contains(key) && recovery_planned(
                    old(self)@.slots[key],
                    WorkerWithDpRank { worker_id: key.0, dp_rank: key.1 },
                    result,
                    step,
                    final(self)@.slots[key],
                ) && final(self)@ == old(self)@.with_slot(key, final(self)@.slots[key]),
                None => final(self)@ == old(self)@,
            },
    {
        if cancelled {
            return None;
        }
        if let Some(mut slot) = self.take_slot(key) {
            if let Some(binding) = slot.active {
                if binding.generation == generation {
                    let worker = WorkerWithDpRank { worker_id: key.0, dp_rank: key.1 };
                    let step = slot.plan_recovery(worker, result);
                    let ghost after = slot@;
                    self.put_slot(key, slot);
                    proof {
                        assert(self@.slots =~= old(self)@.slots.insert(key, after));
                    }
                    return Some(step);
                }
            }
            self.put_slot(key, slot);
        }
        proof {
            assert(self@.slots =~= old(self)@.slots);
        }
        None
    }

    /// After a foreign recovery answer: the rank stays fenced, whatever its reset came to.
    pub fn finish_corrupt_recovery(&mut self, key: RecoveryKey, generation: u64)
        requires
            old(self)@.wf(),
        ensures
            final(self)@.wf(),
            final(self)@ == if old(self)@.is_bound(key, generation) {
                let before = old(self)@.slots[key];
                old(self)@.with_slot(key, before.fenced(before.active->0.source_id))
            } else {
                old(self)@
            },
    {
        if let Some(mut slot) = self.take_slot(key) {
            if let Some(binding) = slot.active {
                if binding.generation == generation {
                    slot.fence_for_reset(binding.source_id);
                    let ghost after = slot@;
                    self.put_slot(key, slot);
                    proof {
                        assert(self@.slots =~= old(self)@.slots.insert(key, after));
                    }
                    return;
                }
            }
            self.put_slot(key, slot);
        }
        proof {
            assert(self@.slots =~= old(self)@.slots);
        }
    }

    /// The outcome of replacing a rank by a snapshot; `Some` is what to admit on top of it.
    pub fn finish_replace(
        &mut self,
        key: RecoveryKey,
        generation: u64,
        last_event_id: u64,
        replaced: bool,
    ) -> (admission: Option<RecoveryAdmission>)
        requires
            old(self)@.wf(),
        ensures
            final(self)@.wf(),
            admission is Some <==> replaced && old(self)@.is_bound(key, generation),
            admission is Some ==> admission_after(
                admission->0,
                Seq::<RouterEvent>::empty(),
                old(self)@.slots[key].rank,
                last_event_id,
            ),
            final(self)@ == if old(self)@.is_bound(key, generation) {
                let before = old(self)@.slots[key];
                old(self)@.with_slot(
                    key,
                    if replaced {
                        before.buffer_taken()
                    } else {
                        before.fenced(before.active->0.source_id)
                    },
                )
            } else {
                old(self)@
            },
    {
        if let Some(mut slot) = self.take_slot(key) {
            if let Some(binding) = slot.active {
                if binding.generation == generation {
                    let admission = slot.finish_replace(
                        binding.source_id,
                        last_event_id,
                        replaced,
                    );
                    let ghost after = slot@;
                    self.put_slot(key, slot);
                    proof {
                        assert(self@.slots =~= old(self)@.slots.insert(key, after));
                    }
                    return admission;
                }
            }
            self.put_slot(key, slot);
        }
        proof {
            assert(self@.slots =~= old(self)@.slots);
        }
        None
    }

    /// The outcome of admitting a recovery group.
    pub fn finish_recovery_admission(
        &mut self,
        key: RecoveryKey,
        generation: u64,
        cursor: Option<u64>,
        accepted: bool,
    )
        requires
            old(self)@.wf(),
        ensures
            final(self)@.wf(),
            final(self)@ == if old(self)@.is_bound(key, generation) {
                let before = old(self)@.slots[key];
                old(self)@.with_slot(
                    key,
                    if accepted {
                        SlotView { rank: before.rank.tail_committed(cursor), ..before }
                    } else {
                        before.fenced(before.active->0.source_id)
                    },
                )
            } else {
                old(self)@
            },
    {
        if let Some(mut slot) = self.take_slot(key) {
            if let Some(binding) = slot.active {
                if binding.generation == generation {
                    slot.finish_recovery_admission(binding.source_id, cursor, accepted);
                    let ghost after = slot@;
                    self.put_slot(key, slot);
                    proof {
                        assert(self@.slots =~= old(self)@.slots.insert(key, after));
                    }
                    return;
                }
            }
            self.put_slot(key, slot);
        }
        proof {
            assert(self@.slots =~= old(self)@.slots);
        }
    }

    /// The cursor of a rank.
    pub fn last_admitted_id(&mut self, key: RecoveryKey) -> (last: Option<u64>)
        requires
            old(self)@.wf(),
        ensures
            final(self)@ == old(self)@,
            last == old(self)@.slot_or_empty(key).rank.cursor.last(),
    {
        let mut last: Option<u64> = None;
        if let Some(slot) = self.take_slot(key) {
            last = slot.rank.last_admitted_id();
            self.put_slot(key, slot);
        }
        proof {
            assert(self@.slots =~= old(self)@.slots);
        }
        last
    }

    /// The binding of a rank.
    pub fn active_binding(&mut self, key: RecoveryKey) -> (binding: Option<SourceBinding>)
        requires
            old(self)@.wf(),
        ensures
            final(self)@ == old(self)@,
            binding == old(self)@.slot_or_empty(key).active,
    {
        let mut binding: Option<SourceBinding> = None;
        if let Some(slot) = self.take_slot(key) {
            binding = slot.active;
            self.put_slot(key, slot);
        }
        proof {
            assert(self@.slots =~= old(self)@.slots);
        }
        binding
    }

    /// The rank that a publisher feeds.
    pub fn fed_rank(&self, publisher_id: u64) -> (key: Option<RecoveryKey>)
        ensures
            key == if self@.bindings.dom().contains(publisher_id) {
                Some(self@.feeds(publisher_id))
            } else {
                None
            },
    {
        match get_binding(&self.publisher_bindings, publisher_id) {
            Some((worker_id, dp_rank, _)) => Some((worker_id, dp_rank)),
            None => None,
        }
    }

    /// Whether a publisher feeds a rank.
    pub fn is_publisher_bound(&self, publisher_id: u64) -> (bound: bool)
        ensures
            bound == self@.bindings.dom().contains(publisher_id),
    {
        get_binding(&self.publisher_bindings, publisher_id).is_some()
    }
}

/// A count of what the client is busy with.
#[derive(Clone, Copy, Debug, PartialEq, Eq, Structural)]
pub struct WorkerQueryHealthSnapshot {
    pub worker_count: usize,
    pub rank_count: usize,
    pub recovering_rank_count: usize,
    pub pending_live_event_count: u128,
    pub discovered_endpoint_count: usize,
}

/// Every key of the slots, once.
pub open spec fn lists_keys(keys: Seq<RecoveryKey>, slots: Map<RecoveryKey, SlotView>) -> bool {
    keys.no_duplicates() && keys.to_set() == slots.dom()
}

/// The events that the slots of these keys hold back.
pub open spec fn pending_total(slots: Map<RecoveryKey, SlotView>, keys: Seq<RecoveryKey>) -> nat
    decreases keys.len(),
{
    if keys.len() == 0 {
        0
    } else {
        pending_total(slots, keys.drop_last()) + slots[keys.last()].rank.pending.len()
    }
}

/// The slots of these keys that are being recovered.
pub open spec fn recovering_total(slots: Map<RecoveryKey, SlotView>, keys: Seq<RecoveryKey>) -> nat
    decreases keys.len(),
{
    if keys.len() == 0 {
        0
    } else {
        recovering_total(slots, keys.drop_last()) + if slots[keys.last()].rank.recovery_inflight {
            1nat
        } else {
            0nat
        }
    }
}

/// The workers, or endpoints, of the sources that are bound.
pub open spec fn is_bound_worker(slots: Map<RecoveryKey, SlotView>, worker_id: u64) -> bool {
    exists|key: RecoveryKey|
        #[trigger] slots.dom().contains(key) && slots[key].active is Some
            && slots[key].active->0.source.worker.worker_id == worker_id
}

pub open spec fn is_bound_endpoint(slots: Map<RecoveryKey, SlotView>, endpoint: u64) -> bool {
    exists|key: RecoveryKey|
        #[trigger] slots.dom().contains(key) && slots[key].active is Some
            && slots[key].active->0.source.kv_state_endpoint == endpoint
}

/// A list of distinct numbers with a property is as long as the set of all of them.
proof fn lemma_distinct_count(list: Seq<u64>, all: Set<u64>)
    requires
        list.no_duplicates(),
        forall|item: u64| #[trigger] list.contains(item) <==> all.contains(item),
    ensures
        all.finite(),
        list.len() == all.len(),
{
    list.unique_seq_to_set();
    assert(list.to_set() =~= all);
}

impl WorkerQueryClient {
    /// Count ranks, workers, endpoints and held-back events.
    pub fn health_snapshot(&mut self) -> (snapshot: WorkerQueryHealthSnapshot)
        requires
            old(self)@.wf(),
        ensures
            final(self)@ == old(self)@,
            snapshot.worker_count == Set::new(
                |worker_id: u64| is_bound_worker(old(self)@.slots, worker_id),
            ).len(),
            snapshot.discovered_endpoint_count == Set::new(
                |endpoint: u64| is_bound_endpoint(old(self)@.slots, endpoint),
            ).len(),
            exists|keys: Seq<RecoveryKey>| #[trigger]
                lists_keys(keys, old(self)@.slots) && snapshot.rank_count == keys.len()
                    && snapshot.recovering_rank_count == recovering_total(
                    old(self)@.slots,
                    keys,
                ) && snapshot.pending_live_event_count == pending_total(old(self)@.slots, keys),
    {
        let keys = slot_keys(&self.slots);
        let ghost slots = self@.slots;
        proof {
            assert(keys@.to_set() =~= slots.dom());
        }
        let mut workers: Vec<u64> = Vec::new();
        let mut endpoints: Vec<u64> = Vec::new();
        let mut recovering: usize = 0;
        let mut pending: u128 = 0;
        let mut i: usize = 0;
        while i < keys.len()
            invariant
                i <= keys.len(),
                self@ == old(self)@,
                slots == self@.slots,
                keys@.to_set() == slots.dom(),
                recovering <= i,
                recovering == recovering_total(slots, keys@.subrange(0, i as int)),
                pending <= i * usize::MAX,
                pending == pending_total(slots, keys@.subrange(0, i as int)),
                workers@.no_duplicates(),
                endpoints@.no_duplicates(),
                forall|worker_id: u64| #[trigger]
                    workers@.contains(worker_id) ==> is_bound_worker(slots, worker_id),
                forall|endpoint: u64| #[trigger]
                    endpoints@.contains(endpoint) ==> is_bound_endpoint(slots, endpoint),
                forall|j: int|
                    0 <= j < i && slots[#[trigger] keys@[j]].active is Some ==> workers@.contains(
                        slots[keys@[j]].active->0.source.worker.worker_id,
                    ) && endpoints@.contains(slots[keys@[j]].active->0.source.kv_state_endpoint),
            decreases keys.len() - i,
        {
            let key = keys[i];
            proof {
                let next = keys@.subrange(0, i + 1);
                assert(next.drop_last() =~= keys@.subrange(0, i as int));
                assert(next.last() == key);
                assert(keys@.to_set().contains(keys@[i as int]));
                assert(i * usize::MAX + usize::MAX == (i + 1) * usize::MAX) by (nonlinear_arith);
                assert(i * usize::MAX <= usize::MAX * usize::MAX) by (nonlinear_arith)
                    requires
                        i <= usize::MAX,
                ;
                assert(usize::MAX * usize::MAX + usize::MAX <= u128::MAX) by (nonlinear_arith)
                    requires
                        usize::MAX <= 0xffff_ffff_ffff_ffff,
                ;
            }
            if let Some(slot) = self.take_slot(key) {
                if slot.rank.recovery_inflight {
                    recovering = recovering + 1;
                }
                let held: usize = slot.rank.pending_live_event_count();
                pending = pending + held as u128;
                if let Some(active) = slot.active {
                    push_unique(&mut workers, active.source.worker.worker_id);
                    push_unique(&mut endpoints, active.source.kv_state_endpoint);
                }
                self.put_slot(key, slot);
                proof {
                    assert(self@.slots =~= slots);
                }
            }
            i = i + 1;
        }
        proof {
            assert(keys@.subrange(0, i as int) =~= keys@);
            assert(lists_keys(keys@, slots));
            assert forall|worker_id: u64| is_bound_worker(slots, worker_id) implies #[trigger]
                workers@.contains(worker_id) by {
                let key = choose|key: RecoveryKey|
                    #[trigger] slots.dom().contains(key) && slots[key].active is Some
                        && slots[key].active->0.source.worker.worker_id == worker_id;
                assert(keys@.contains(key));
                let j = choose|j: int| 0 <= j < keys@.len() && keys@[j] == key;
                assert(slots[keys@[j]].active is Some);
            }
            assert forall|endpoint: u64| is_bound_endpoint(slots, endpoint) implies #[trigger]
                endpoints@.contains(endpoint) by {
                let key = choose|key: RecoveryKey|
                    #[trigger] slots.dom().contains(key) && slots[key].active is Some
                        && slots[key].active->0.source.kv_state_endpoint == endpoint;
                assert(keys@.contains(key));
                let j = choose|j: int| 0 <= j < keys@.len() && keys@[j] == key;
                assert(slots[keys@[j]].active is Some);
            }
            lemma_distinct_count(
                workers@,
                Set::new(|worker_id: u64| is_bound_worker(slots, worker_id)),
            );
            lemma_distinct_count(
                endpoints@,
                Set::new(|endpoint: u64| is_bound_endpoint(slots, endpoint)),
            );
        }
        WorkerQueryHealthSnapshot {
            worker_count: workers.len(),
            rank_count: keys.len(),
            recovering_rank_count: recovering,
            pending_live_event_count: pending,
            discovered_endpoint_count: endpoints.len(),
        }
    }
}

/// Whether a finished recovery counts as the completion of a rank's initial recovery.
pub fn completes_initial_recovery(start_event_id: Option<u64>, step: &Option<RecoveryStep>) -> (done:
    bool)
    ensures
        done == (start_event_id is None && *step is Some && (*step)->0 != RecoveryStep::Retry),
{
    start_event_id.is_none() && (match step {
        Some(RecoveryStep::Retry) => false,
        Some(_) => true,
        None => false,
    })
}

/// Nothing that happens on one rank touches another, whether a binding of the one ends or
/// begins: the other's slot stays, the publisher that feeds it still feeds it, and its batches
/// meet the same verdict.
pub proof fn law_ranks_are_isolated(
    client: ClientView,
    key: RecoveryKey,
    slot: SlotView,
    bound: SourceBinding,
    other: RecoveryKey,
    publisher_id: u64,
    events: Seq<RouterEvent>,
    sources: Map<WorkerWithDpRank, KvSourceStatus>,
)
    requires
        client.wf(),
        other != key,
        client.bindings.dom().contains(publisher_id),
        client.feeds(publisher_id) == other,
        bound.source_id.publisher_id != publisher_id,
    ensures
        ({
            let ended = client.slot_or_empty(key).active;
            let unbound = client.unregistered(key, ended).with_slot(key, slot);
            let rebound = unbound.registered(key, bound);
            forall|after: ClientView|
                after == unbound || after == rebound ==> {
                    &&& #[trigger] after.slot_or_empty(other) == client.slot_or_empty(other)
                    &&& after.bindings.dom().contains(publisher_id)
                    &&& after.feeds(publisher_id) == other
                    &&& after.batch_verdict(publisher_id, events, sources)
                        == client.batch_verdict(publisher_id, events, sources)
                }
        }),
{
}

/// A batch with one event of another rank is never accepted, whatever else it holds.
pub proof fn law_foreign_event_rejects_batch(
    client: ClientView,
    publisher_id: u64,
    events: Seq<RouterEvent>,
    sources: Map<WorkerWithDpRank, KvSourceStatus>,
    i: int,
)
    requires
        client.wf(),
        client.bindings.dom().contains(publisher_id),
        0 <= i < events.len(),
        events[i].rank() != client.slots[client.feeds(publisher_id)].active->0.source.worker,
    ensures
        !(client.batch_verdict(publisher_id, events, sources) is Accept),
{
}

/// While a reset is owed, no batch gets in.
pub proof fn law_fenced_rank_accepts_no_batch(
    client: ClientView,
    publisher_id: u64,
    events: Seq<RouterEvent>,
    sources: Map<WorkerWithDpRank, KvSourceStatus>,
)
    requires
        client.wf(),
        client.bindings.dom().contains(publisher_id),
        client.slots[client.feeds(publisher_id)].pending_reset is Some,
    ensures
        !(client.batch_verdict(publisher_id, events, sources) is Accept),
{
}

/// An accepted batch comes from the publisher of the binding that takes it.
pub proof fn law_accepted_batch_matches_binding(
    client: ClientView,
    publisher_id: u64,
    events: Seq<RouterEvent>,
    sources: Map<WorkerWithDpRank, KvSourceStatus>,
)
    requires
        client.wf(),
        client.batch_verdict(publisher_id, events, sources) is Accept,
    ensures
        ({
            let verdict = client.batch_verdict(publisher_id, events, sources);
            let binding = verdict->Accept_binding;
            &&& client.is_bound(verdict->Accept_key, binding.generation)
            &&& binding.source_id.publisher_id == publisher_id
            &&& events_match_rank(binding.source.worker, events)
        }),
{
    assert(client.leads_to_live_binding(publisher_id));
}

/// An ended binding takes nothing: its batches find no publisher, and a recovery answer for it
/// is stale.
pub proof fn law_ended_binding_is_inert(
    client: ClientView,
    key: RecoveryKey,
    events: Seq<RouterEvent>,
    sources: Map<WorkerWithDpRank, KvSourceStatus>,
)
    requires
        client.wf(),
        client.slots.dom().contains(key),
        client.slots[key].active is Some,
        client.bindings.dom().contains(client.slots[key].active->0.source_id.publisher_id),
        client.feeds(client.slots[key].active->0.source_id.publisher_id) == key,
    ensures
        ({
            let binding = client.slots[key].active->0;
            let after = client.unregistered(key, Some(binding)).with_slot(
                key,
                client.slots[key].unbound(),
            );
            &&& after.batch_verdict(binding.source_id.publisher_id, events, sources)
                == LiveBatchVerdict::UnknownPublisher
            &&& !after.is_bound(key, binding.generation)
        }),
{
    assert(client.leads_to_live_binding(client.slots[key].active->0.source_id.publisher_id));
}

/// Putting a slot in place, and entering or striking out a publisher, touch that one entry alone;
/// an entry is struck out only for the very binding that it leads to.
pub proof fn law_bookkeeping_touches_one_entry(
    client: ClientView,
    key: RecoveryKey,
    slot: SlotView,
    binding: SourceBinding,
    other: RecoveryKey,
    publisher_id: u64,
)
    requires
        other != key,
        publisher_id != binding.source_id.publisher_id,
    ensures
        client.with_slot(key, slot).slots.dom().contains(key),
        client.with_slot(key, slot).slots[key] == slot,
        client.with_slot(key, slot).slots.dom().contains(other) == client.slots.dom().contains(
            other,
        ),
        client.with_slot(key, slot).slots[other] == client.slots[other],
        client.with_slot(key, slot).bindings == client.bindings,
        client.with_slot(key, slot).next_generation == client.next_generation,
        client.registered(key, binding).bindings.dom().contains(binding.source_id.publisher_id),
        client.registered(key, binding).bindings[binding.source_id.publisher_id] == (
            key.0,
            key.1,
            binding.generation,
        ),
        client.registered(key, binding).bindings.dom().contains(publisher_id)
            == client.bindings.dom().contains(publisher_id),
        client.registered(key, binding).bindings[publisher_id] == client.bindings[publisher_id],
        client.registered(key, binding).slots == client.slots,
        client.registered(key, binding).next_generation == client.next_generation,
        client.unregistered(key, Some(binding)).bindings.dom().contains(
            binding.source_id.publisher_id,
        ) <==> client.bindings.dom().contains(binding.source_id.publisher_id)
            && client.bindings[binding.source_id.publisher_id] != (
            key.0,
            key.1,
            binding.generation,
        ),
        client.unregistered(key, Some(binding)).bindings.dom().contains(publisher_id)
            == client.bindings.dom().contains(publisher_id),
        client.unregistered(key, Some(binding)).bindings[publisher_id]
            == client.bindings[publisher_id],
        client.unregistered(key, Some(binding)).slots == client.slots,
        client.unregistered(key, Some(binding)).next_generation == client.next_generation,
        client.unregistered(key, None) == client,
{
}

/// What the questions about a rank mean: who is bound to it, under which activation, and what a
/// rank without a slot is taken for.
pub proof fn law_bound_and_fed(
    client: ClientView,
    key: RecoveryKey,
    generation: u64,
    publisher_id: u64,
)
    ensures
        client.is_bound(key, generation) <==> client.slots.dom().contains(key)
            && client.slots[key].active is Some && client.slots[key].active->0.generation
            == generation,
        client.is_fed_by(key, publisher_id) <==> client.slots.dom().contains(key)
            && client.slots[key].active is Some
            && client.slots[key].active->0.source_id.publisher_id == publisher_id,
        client.feeds(publisher_id).0 == client.bindings[publisher_id].0,
        client.feeds(publisher_id).1 == client.bindings[publisher_id].1,
        client.slots.dom().contains(key) ==> client.slot_or_empty(key) == client.slots[key],
        !client.slots.dom().contains(key) ==> client.slot_or_empty(key).active is None,
        !client.slots.dom().contains(key) ==> client.slot_or_empty(key).pending_reset is None,
        !client.slots.dom().contains(key) ==> client.slot_or_empty(key).rejected_source is None,
        client.wf() && client.bindings.dom().contains(publisher_id) ==> {
            let fed = (client.bindings[publisher_id].0, client.bindings[publisher_id].1);
            &&& client.slots.dom().contains(fed)
            &&& client.slots[fed].active is Some
            &&& client.slots[fed].active->0.generation == client.bindings[publisher_id].2
            &&& client.slots[fed].active->0.source_id.publisher_id == publisher_id
        },
{
    if client.wf() && client.bindings.dom().contains(publisher_id) {
        assert(client.leads_to_live_binding(publisher_id));
    }
}

/// A batch is let in exactly where its publisher feeds a rank that is neither suppressed nor owes
/// a reset, and the batch holds events of that rank and of no other. It comes with the binding
/// that takes it, and looking at it changes nothing.
pub proof fn law_batch_is_let_in_for_its_own_rank(
    client: &mut WorkerQueryClient,
    publisher_id: u64,
    events: &Vec<RouterEvent>,
    sources: &Table<WorkerWithDpRank, KvSourceStatus>,
    verdict: LiveBatchVerdict,
)
    requires
        old(client)@.wf(),
        call_ensures(
            WorkerQueryClient::open_live_batch,
            (client, publisher_id, events, sources),
            verdict,
        ),
    ensures
        final(client)@ == old(client)@,
        !old(client)@.bindings.dom().contains(publisher_id) <==> verdict is UnknownPublisher,
        old(client)@.bindings.dom().contains(publisher_id) ==> {
            let entry = old(client)@.bindings[publisher_id];
            let slot = old(client)@.slots[(entry.0, entry.1)];
            let worker = slot.active->0.source.worker;
            let suppressed = sources@.dom().contains(worker) && sources@[worker] is Suppressed;
            let own = forall|i: int|
                0 <= i < events@.len() ==> (#[trigger] events@[i]).worker_id == worker.worker_id
                    && events@[i].dp_rank == worker.dp_rank;
            &&& verdict is Suppressed <==> suppressed
            &&& verdict is ForeignEvent <==> !suppressed && !own
            &&& verdict is Empty <==> !suppressed && events@.len() == 0
            &&& verdict is Fenced <==> !suppressed && own && events@.len() > 0
                && slot.pending_reset is Some
            &&& verdict is Accept <==> !suppressed && own && events@.len() > 0
                && slot.pending_reset is None
            &&& verdict is Accept ==> verdict->Accept_key == (entry.0, entry.1)
                && verdict->Accept_binding == slot.active->0
        },
{
    if old(client)@.bindings.dom().contains(publisher_id) {
        let entry = old(client)@.bindings[publisher_id];
        let worker = old(client)@.slots[(entry.0, entry.1)].active->0.source.worker;
        let own = forall|i: int|
            0 <= i < events@.len() ==> (#[trigger] events@[i]).worker_id == worker.worker_id
                && events@[i].dp_rank == worker.dp_rank;
        if own {
            assert(events_match_rank(worker, events@));
        }
        if events_match_rank(worker, events@) {
            assert forall|i: int| 0 <= i < events@.len() implies (#[trigger] events@[i]).worker_id
                == worker.worker_id && events@[i].dp_rank == worker.dp_rank by {
                assert(events@[i].rank() == worker);
            }
        }
    }
}

/// A fault of the index counts for the source that feeds the rank now. A rank that owes a reset,
/// or whose barrier failed, stays fenced; else a source that can recover does so, and one that
/// cannot has its rank reset.
pub proof fn law_target_fault_recovers_or_resets(
    client: &mut WorkerQueryClient,
    key: RecoveryKey,
    publisher_id: u64,
    barrier_failed: bool,
    step: TargetFaultStep,
)
    requires
        old(client)@.wf(),
        call_ensures(
            WorkerQueryClient::begin_target_fault,
            (client, key, publisher_id, barrier_failed),
            step,
        ),
    ensures
        ({
            let before = old(client)@;
            let after = final(client)@;
            let slot = before.slots[key];
            let fed = before.slots.dom().contains(key) && slot.active is Some
                && slot.active->0.source_id.publisher_id == publisher_id;
            let fenced = barrier_failed || slot.pending_reset is Some;
            let recoverable = slot.active->0.source.recovery_target is Some;
            &&& !fed ==> step == TargetFaultStep::Done(TargetFaultDisposition::Stale) && after
                == before
            &&& fed && fenced ==> step == TargetFaultStep::Done(TargetFaultDisposition::Fenced)
                && after == before
            &&& fed && !fenced && recoverable ==> {
                &&& step == TargetFaultStep::Recover(slot.active->0)
                &&& after.slots[key].rank.recovery_inflight
                &&& after.slots[key].rank.cursor == slot.rank.cursor
                &&& after.slots[key].rank.pending == slot.rank.pending
                &&& after.slots[key].active == slot.active
                &&& after.slots[key].pending_reset is None
                &&& after.bindings == before.bindings
            }
            &&& fed && !fenced && !recoverable ==> step == TargetFaultStep::Reset(
                slot.active->0.source_id,
            ) && after == before
        }),
{
}

/// A live-only rank that was reset after a fault starts anew under the same binding; one whose
/// reset failed is fenced for that source.
pub proof fn law_target_fault_reset_outcome(
    client: &mut WorkerQueryClient,
    key: RecoveryKey,
    source_id: KvSourceId,
    reset_ok: bool,
    disposition: TargetFaultDisposition,
)
    requires
        old(client)@.wf(),
        call_ensures(
            WorkerQueryClient::finish_target_fault,
            (client, key, source_id, reset_ok),
            disposition,
        ),
    ensures
        ({
            let before = old(client)@;
            let after = final(client)@;
            let known = before.slots.dom().contains(key);
            &&& !known ==> disposition is Stale && after == before
            &&& known && reset_ok ==> disposition is ResetLiveOnly
                && after.slots[key].rank.cursor is Initial
                && !after.slots[key].rank.recovery_inflight
                && after.slots[key].rank.pending.len() == 0 && after.slots[key].active
                == before.slots[key].active && after.slots[key].pending_reset
                == before.slots[key].pending_reset
            &&& known && !reset_ok ==> disposition is Fenced && after.slots[key].pending_reset
                == Some(source_id) && after.slots[key].active == before.slots[key].active
            &&& after.bindings == before.bindings
        }),
{
}

/// Reconciling a rank with the source that it has changes nothing. With any other status its
/// binding ends, its publisher feeds it no more, and the reset that is owed comes first.
pub proof fn law_reconciliation_ends_a_changed_binding(
    client: &mut WorkerQueryClient,
    key: RecoveryKey,
    status: &KvSourceStatus,
    step: ReconcileStep,
)
    requires
        old(client)@.wf(),
        call_ensures(WorkerQueryClient::begin_reconcile, (client, key, status), step),
    ensures
        ({
            let before = old(client)@;
            let after = final(client)@;
            let slot = before.slot_or_empty(key);
            let selected = match *status {
                KvSourceStatus::ActiveRecoverable(source) => Some(source),
                KvSourceStatus::ActiveLiveOnly(source) => Some(source),
                _ => None,
            };
            let same = slot.active is Some && selected is Some && slot.pending_reset is None
                && slot.active->0.source_id.kv_state_endpoint == selected->0.kv_state_endpoint
                && slot.active->0.source_id.worker == selected->0.worker
                && slot.active->0.source_id.publisher_id == selected->0.publisher_id;
            &&& step is Unchanged <==> same
            &&& same ==> after.slots[key] == slot && after.bindings == before.bindings
            &&& !same ==> {
                &&& step->retired == slot.active
                &&& slot.pending_reset is Some ==> step->reset == slot.pending_reset
                &&& slot.pending_reset is None && slot.active is Some ==> step->reset == Some(
                    slot.active->0.source_id,
                )
                &&& slot.pending_reset is None && slot.active is None ==> step->reset is None
                &&& after.slots[key].active is None
                &&& after.slots[key].pending_reset is None
                &&& after.slots[key].rank == slot.rank
                &&& after.slots[key].rejected_source == slot.rejected_source
                &&& slot.active is Some && before.bindings.dom().contains(
                    slot.active->0.source_id.publisher_id,
                ) && before.bindings[slot.active->0.source_id.publisher_id] == (
                    key.0,
                    key.1,
                    slot.active->0.generation,
                ) ==> !after.bindings.dom().contains(slot.active->0.source_id.publisher_id)
            }
            &&& forall|other: RecoveryKey|
                other != key ==> #[trigger] after.slots[other] == before.slots[other]
                    && after.slots.dom().contains(other) == before.slots.dom().contains(other)
        }),
{
}

/// A binding that comes out of a reconciliation is the selected source under a generation of its
/// own, its publisher now feeds the rank, and the next one gets another generation. Without one
/// no publisher gains or loses a rank.
pub proof fn law_reconciliation_binds_under_a_new_generation(
    client: &mut WorkerQueryClient,
    key: RecoveryKey,
    status: &KvSourceStatus,
    reset: Option<KvSourceId>,
    reset_ok: bool,
    bound: Option<SourceBinding>,
)
    requires
        old(client)@.wf(),
        call_ensures(
            WorkerQueryClient::finish_reconcile,
            (client, key, status, reset, reset_ok),
            bound,
        ),
    ensures
        ({
            let before = old(client)@;
            let after = final(client)@;
            let slot = before.slot_or_empty(key);
            let selected = match *status {
                KvSourceStatus::ActiveRecoverable(source) => Some(source),
                KvSourceStatus::ActiveLiveOnly(source) => Some(source),
                _ => None,
            };
            let rejected = selected is Some && slot.rejected_source is Some
                && slot.rejected_source->0.kv_state_endpoint == selected->0.kv_state_endpoint
                && slot.rejected_source->0.worker == selected->0.worker
                && slot.rejected_source->0.publisher_id == selected->0.publisher_id;
            let failed = reset is Some && !reset_ok;
            &&& bound is Some <==> !failed && selected is Some && !rejected
            &&& bound is Some ==> {
                let binding = bound->0;
                &&& binding.source == selected->0
                &&& binding.generation == before.next_generation
                &&& binding.source_id.publisher_id == selected->0.publisher_id
                &&& after.slots[key].active == bound
                &&& after.slots[key].rank.cursor is Initial
                &&& after.slots[key].rank.recovery_inflight == (selected->0.recovery_target is Some)
                &&& after.bindings.dom().contains(selected->0.publisher_id)
                &&& after.bindings[selected->0.publisher_id] == (
                    key.0,
                    key.1,
                    before.next_generation,
                )
                &&& after.next_generation != before.next_generation
            }
            &&& bound is None ==> after.bindings == before.bindings && after.next_generation
                == before.next_generation && after.slots[key].active == slot.active
            &&& failed ==> after.slots[key].pending_reset == reset
            &&& !failed ==> after.slots[key].pending_reset == slot.pending_reset
        }),
{
}

/// Giving up a rank ends its binding and hands out the reset that is owed. It is gone once that
/// reset is done, and stays, fenced, where it failed.
pub proof fn law_removal_waits_for_its_reset(
    client: &mut WorkerQueryClient,
    key: RecoveryKey,
    reset: Option<KvSourceId>,
    reset_ok: bool,
    removed: bool,
)
    requires
        old(client)@.wf(),
        call_ensures(
            WorkerQueryClient::finish_removal,
            (client, key, reset, reset_ok),
            removed,
        ),
    ensures
        ({
            let before = old(client)@;
            let after = final(client)@;
            let known = before.slots.dom().contains(key);
            &&& removed <==> known && (reset is None || reset_ok)
            &&& removed ==> !after.slots.dom().contains(key)
            &&& known && !removed ==> after.slots.dom().contains(key)
                && after.slots[key].pending_reset == reset
            &&& !known ==> after == before
            &&& forall|other: RecoveryKey|
                other != key ==> #[trigger] after.slots[other] == before.slots[other]
                    && after.slots.dom().contains(other) == before.slots.dom().contains(other)
        }),
{
}

/// The start of a removal: the binding, the owed reset, and a slot that holds neither.
pub proof fn law_removal_unbinds_first(
    client: &mut WorkerQueryClient,
    key: RecoveryKey,
    taken: Option<(Option<SourceBinding>, Option<KvSourceId>)>,
)
    requires
        old(client)@.wf(),
        call_ensures(WorkerQueryClient::begin_removal, (client, key), taken),
    ensures
        ({
            let before = old(client)@;
            let after = final(client)@;
            let slot = before.slots[key];
            &&& taken is Some <==> before.slots.dom().contains(key)
            &&& taken is None ==> after == before
            &&& taken is Some ==> {
                &&& (taken->0).0 == slot.active
                &&& slot.pending_reset is Some ==> (taken->0).1 == slot.pending_reset
                &&& slot.pending_reset is None && slot.active is Some ==> (taken->0).1 == Some(
                    slot.active->0.source_id,
                )
                &&& slot.pending_reset is None && slot.active is None ==> (taken->0).1 is None
                &&& after.slots[key].active is None
                &&& after.slots[key].pending_reset is None
                &&& after.slots[key].rank == slot.rank
            }
        }),
{
}

/// Only the publisher that feeds a rank can be turned away from it, and what it owed stays owed.
pub proof fn law_rejection_hits_the_feeding_publisher(
    client: &mut WorkerQueryClient,
    key: RecoveryKey,
    publisher_id: u64,
    retired: Option<SourceBinding>,
)
    requires
        old(client)@.wf(),
        call_ensures(WorkerQueryClient::begin_reject, (client, key, publisher_id), retired),
    ensures
        ({
            let before = old(client)@;
            let after = final(client)@;
            let slot = before.slots[key];
            let fed = before.slots.dom().contains(key) && slot.active is Some
                && slot.active->0.source_id.publisher_id == publisher_id;
            &&& retired is Some <==> fed
            &&& !fed ==> after == before
            &&& fed ==> retired == slot.active && after.slots[key].active is None
                && after.slots[key].pending_reset == slot.pending_reset && after.slots[key].rank
                == slot.rank
        }),
{
}

/// A rejected source stays out under its identity whatever its reset came to, and the rank starts
/// anew; a failed reset is owed for it.
pub proof fn law_rejection_is_remembered(
    client: &mut WorkerQueryClient,
    key: RecoveryKey,
    source_id: KvSourceId,
    reset_ok: bool,
)
    requires
        old(client)@.wf(),
        call_ensures(WorkerQueryClient::finish_reject, (client, key, source_id, reset_ok), ()),
    ensures
        ({
            let before = old(client)@;
            let after = final(client)@;
            let known = before.slots.dom().contains(key);
            &&& !known ==> after == before
            &&& known ==> {
                &&& after.slots[key].rejected_source == Some(source_id)
                &&& after.slots[key].rank.cursor is Initial
                &&& !after.slots[key].rank.recovery_inflight
                &&& after.slots[key].active == before.slots[key].active
                &&& reset_ok ==> after.slots[key].pending_reset == before.slots[key].pending_reset
                &&& !reset_ok ==> after.slots[key].pending_reset == Some(source_id)
            }
        }),
{
}

/// A broken transport ends the binding that its publisher feeds, and no rejection comes of it: the
/// same source may return.
pub proof fn law_broken_transport_ends_its_binding(
    client: &mut WorkerQueryClient,
    publisher_id: u64,
    ended: Option<(RecoveryKey, SourceBinding)>,
)
    requires
        old(client)@.wf(),
        call_ensures(WorkerQueryClient::begin_transport_fence, (client, publisher_id), ended),
    ensures
        ({
            let before = old(client)@;
            let after = final(client)@;
            let entry = before.bindings[publisher_id];
            let key = (entry.0, entry.1);
            &&& ended is Some <==> before.bindings.dom().contains(publisher_id)
            &&& ended is None ==> after == before
            &&& ended is Some ==> {
                &&& (ended->0).0 == key
                &&& Some((ended->0).1) == before.slots[key].active
                &&& after.slots[key].active is None
                &&& after.slots[key].rank == before.slots[key].rank
                &&& after.slots[key].rejected_source == before.slots[key].rejected_source
                &&& after.slots[key].pending_reset == before.slots[key].pending_reset
                &&& !after.bindings.dom().contains(publisher_id)
            }
        }),
{
    if old(client)@.bindings.dom().contains(publisher_id) {
        assert(old(client)@.leads_to_live_binding(publisher_id));
    }
}

/// The reset after a broken transport clears the rank, is owed again where it failed, and rejects
/// nobody.
pub proof fn law_broken_transport_reset_outcome(
    client: &mut WorkerQueryClient,
    key: RecoveryKey,
    source_id: KvSourceId,
    reset_ok: bool,
)
    requires
        old(client)@.wf(),
        call_ensures(
            WorkerQueryClient::finish_transport_fence,
            (client, key, source_id, reset_ok),
            (),
        ),
    ensures
        ({
            let before = old(client)@;
            let after = final(client)@;
            let known = before.slots.dom().contains(key);
            &&& !known ==> after == before
            &&& known ==> {
                &&& after.slots[key].rejected_source == before.slots[key].rejected_source
                &&& after.slots[key].rank.cursor is Initial
                &&& !after.slots[key].rank.recovery_inflight
                &&& after.slots[key].active == before.slots[key].active
                &&& reset_ok ==> after.slots[key].pending_reset == before.slots[key].pending_reset
                &&& !reset_ok ==> after.slots[key].pending_reset == Some(source_id)
            }
        }),
{
}

/// On the activation that accepted it, a contiguous event of a rank without a recovery is to be
/// admitted as it came; on any other activation nothing is done.
pub proof fn law_live_event_counts_for_its_activation(
    client: &mut WorkerQueryClient,
    key: RecoveryKey,
    generation: u64,
    event: RouterEvent,
    step: LiveStep,
)
    requires
        old(client)@.wf(),
        call_ensures(
            WorkerQueryClient::begin_live_event,
            (client, key, generation, event),
            step,
        ),
    ensures
        ({
            let before = old(client)@;
            let after = final(client)@;
            let slot = before.slots[key];
            let bound = before.slots.dom().contains(key) && slot.active is Some
                && slot.active->0.generation == generation;
            &&& !bound ==> step == LiveStep::Ignore && after == before
            &&& bound ==> after.slots[key].active == slot.active && after.slots[key].rank.cursor
                == slot.rank.cursor && after.bindings == before.bindings
            &&& bound && !slot.rank.recovery_inflight && event.residency.reset_scope != Some(
                ResetScope::All,
            ) && (slot.rank.cursor matches CursorState::Live(last) && event.event_id == last + 1)
                ==> step == (LiveStep::Admit { event, cancel_recovery: false, reset_first: false })
            &&& bound && step is Recover ==> slot.active->0.source.recovery_target is Some
            &&& bound && step is Admit && step->reset_first
                ==> slot.active->0.source.recovery_target is None
        }),
{
}

/// An accepted admission moves the cursor of its rank to the event and lets the batch go on; a
/// refused one fences the rank and ends the batch, and so does the end of the activation.
pub proof fn law_admission_outcome(
    client: &mut WorkerQueryClient,
    key: RecoveryKey,
    generation: u64,
    event_id: u64,
    accepted: bool,
    go_on: bool,
)
    requires
        old(client)@.wf(),
        call_ensures(
            WorkerQueryClient::finish_live_event,
            (client, key, generation, event_id, accepted),
            go_on,
        ),
    ensures
        ({
            let before = old(client)@;
            let after = final(client)@;
            let slot = before.slots[key];
            let bound = before.slots.dom().contains(key) && slot.active is Some
                && slot.active->0.generation == generation;
            &&& go_on <==> bound && accepted
            &&& !bound ==> after == before
            &&& bound && accepted ==> after.slots[key].rank.cursor == CursorState::Live(event_id)
                && after.slots[key].pending_reset == slot.pending_reset && after.slots[key].active
                == slot.active
            &&& bound && !accepted ==> after.slots[key].rank.cursor == slot.rank.cursor
                && after.slots[key].pending_reset == Some(slot.active->0.source_id)
                && !after.slots[key].rank.recovery_inflight && after.slots[key].active
                == slot.active
        }),
{
}

/// A recovery answer counts for its own activation and for nobody else; a cancelled one counts for
/// nobody.
pub proof fn law_recovery_answer_counts_for_its_activation(
    client: &mut WorkerQueryClient,
    key: RecoveryKey,
    generation: u64,
    cancelled: bool,
    result: Result<WorkerKvQueryResponse, RecoveryFailure>,
    step: Option<RecoveryStep>,
)
    requires
        old(client)@.wf(),
        call_ensures(
            WorkerQueryClient::plan_recovery,
            (client, key, generation, cancelled, result),
            step,
        ),
    ensures
        ({
            let before = old(client)@;
            let after = final(client)@;
            let slot = before.slots[key];
            let bound = before.slots.dom().contains(key) && slot.active is Some
                && slot.active->0.generation == generation;
            &&& step is Some <==> bound && !cancelled
            &&& step is None ==> after == before
            &&& step is Some ==> after.bindings == before.bindings && after.slots[key].active
                == slot.active && after.slots[key].rank.cursor == slot.rank.cursor
                && after.slots[key].pending_reset == slot.pending_reset
        }),
{
}

/// The outcomes of a recovery: a foreign answer fences the rank, a failed replacement or a refused
/// group too, and a group that went in whole moves the cursor where the group ends.
pub proof fn law_recovery_group_outcome(
    client: &mut WorkerQueryClient,
    key: RecoveryKey,
    generation: u64,
    cursor: Option<u64>,
    accepted: bool,
)
    requires
        old(client)@.wf(),
        call_ensures(
            WorkerQueryClient::finish_recovery_admission,
            (client, key, generation, cursor, accepted),
            (),
        ),
    ensures
        ({
            let before = old(client)@;
            let after = final(client)@;
            let slot = before.slots[key];
            let bound = before.slots.dom().contains(key) && slot.active is Some
                && slot.active->0.generation == generation;
            &&& !bound ==> after == before
            &&& bound && accepted ==> {
                &&& cursor is Some ==> after.slots[key].rank.cursor == CursorState::Live(cursor->0)
                &&& cursor is None ==> after.slots[key].rank.cursor == slot.rank.cursor
                &&& !after.slots[key].rank.recovery_inflight
                &&& after.slots[key].pending_reset == slot.pending_reset
            }
            &&& bound && !accepted ==> after.slots[key].rank.cursor == slot.rank.cursor
                && after.slots[key].pending_reset == Some(slot.active->0.source_id)
            &&& bound ==> after.slots[key].active == slot.active
        }),
{
}

/// After a foreign answer the rank that asked is fenced for the source that it is bound to.
pub proof fn law_foreign_answer_fences_the_rank(
    client: &mut WorkerQueryClient,
    key: RecoveryKey,
    generation: u64,
)
    requires
        old(client)@.wf(),
        call_ensures(WorkerQueryClient::finish_corrupt_recovery, (client, key, generation), ()),
    ensures
        ({
            let before = old(client)@;
            let after = final(client)@;
            let slot = before.slots[key];
            let bound = before.slots.dom().contains(key) && slot.active is Some
                && slot.active->0.generation == generation;
            &&& !bound ==> after == before
            &&& bound ==> after.slots[key].pending_reset == Some(slot.active->0.source_id)
                && after.slots[key].rank.cursor == slot.rank.cursor
                && !after.slots[key].rank.recovery_inflight
        }),
{
}

/// A replaced rank goes on with what was held back above the snapshot; a failed replacement fences
/// it and leaves nothing to go on with.
pub proof fn law_replacement_outcome(
    client: &mut WorkerQueryClient,
    key: RecoveryKey,
    generation: u64,
    last_event_id: u64,
    replaced: bool,
    admission: Option<RecoveryAdmission>,
)
    requires
        old(client)@.wf(),
        call_ensures(
            WorkerQueryClient::finish_replace,
            (client, key, generation, last_event_id, replaced),
            admission,
        ),
    ensures
        ({
            let before = old(client)@;
            let after = final(client)@;
            let slot = before.slots[key];
            let bound = before.slots.dom().contains(key) && slot.active is Some
                && slot.active->0.generation == generation;
            &&& admission is Some <==> bound && replaced
            &&& !bound ==> after == before
            &&& bound && replaced ==> {
                &&& admission->0.recovered@.len() == 0
                &&& admission->0.cursor is Some
                &&& admission->0.cursor->0 >= last_event_id
                &&& admission->0.tail@.len() == 0 ==> admission->0.cursor->0 == last_event_id
                &&& forall|i: int|
                    0 <= i < admission->0.tail@.len() ==> (
                    #[trigger] admission->0.tail@[i]).event_id > last_event_id
                &&& after.slots[key].rank.cursor == slot.rank.cursor
                &&& after.slots[key].rank.pending.len() == 0
                &&& after.slots[key].pending_reset == slot.pending_reset
            }
            &&& bound && !replaced ==> after.slots[key].pending_reset == Some(
                slot.active->0.source_id,
            ) && after.slots[key].rank.cursor == slot.rank.cursor
        }),
{
    if admission is Some {
        let tail = admission->0.tail@;
        if tail.len() > 0 {
            assert(tail[tail.len() - 1].event_id > last_event_id);
        }
    }
}

/// What is asked of a rank is what its slot holds, and a rank without a slot has no cursor and no
/// binding.
pub proof fn law_rank_answers_for_itself(
    client: &mut WorkerQueryClient,
    key: RecoveryKey,
    last: Option<u64>,
)
    requires
        old(client)@.wf(),
        call_ensures(WorkerQueryClient::last_admitted_id, (client, key), last),
    ensures
        final(client)@ == old(client)@,
        !old(client)@.slots.dom().contains(key) ==> last is None,
        old(client)@.slots.dom().contains(key) ==> match old(client)@.slots[key].rank.cursor {
            CursorState::Live(admitted) => last == Some(admitted),
            CursorState::Initial => last is None,
        },
{
}

/// The ranks to be given up are those that have a slot and no place in the membership.
pub proof fn law_unlisted_ranks_are_given_up(
    client: &WorkerQueryClient,
    sources: &Table<WorkerWithDpRank, KvSourceStatus>,
    keys: Vec<RecoveryKey>,
    worker: WorkerWithDpRank,
)
    requires
        call_ensures(WorkerQueryClient::unexpected_keys, (client, sources), keys),
    ensures
        keys@.contains((worker.worker_id, worker.dp_rank)) <==> client@.slots.dom().contains(
            (worker.worker_id, worker.dp_rank),
        ) && !sources@.dom().contains(worker),
        keys@.no_duplicates(),
{
}

/// A publisher is known exactly where it feeds a rank, and it is that rank which is told.
pub proof fn law_publisher_leads_to_its_rank(
    client: &WorkerQueryClient,
    publisher_id: u64,
    key: Option<RecoveryKey>,
    bound: bool,
)
    requires
        call_ensures(WorkerQueryClient::fed_rank, (client, publisher_id), key),
        call_ensures(WorkerQueryClient::is_publisher_bound, (client, publisher_id), bound),
    ensures
        bound == client@.bindings.dom().contains(publisher_id),
        key is Some == bound,
        bound ==> (key->0).0 == client@.bindings[publisher_id].0 && (key->0).1
            == client@.bindings[publisher_id].1,
{
}

/// The counts of a health snapshot: ranks with a slot, those in recovery, and what is held back.
pub proof fn law_totals_count_every_rank_once(
    slots: Map<RecoveryKey, SlotView>,
    keys: Seq<RecoveryKey>,
    key: RecoveryKey,
)
    ensures
        pending_total(slots, keys.push(key)) == pending_total(slots, keys)
            + slots[key].rank.pending.len(),
        pending_total(slots, Seq::empty()) == 0,
        recovering_total(slots, keys.push(key)) == recovering_total(slots, keys)
            + if slots[key].rank.recovery_inflight {
            1int
        } else {
            0int
        },
        recovering_total(slots, Seq::empty()) == 0,
        lists_keys(keys, slots) ==> (keys.contains(key) <==> slots.dom().contains(key))
            && keys.no_duplicates(),
{
    assert(keys.push(key).drop_last() =~= keys);
    assert(keys.push(key).last() == key);
    if lists_keys(keys, slots) {
        assert(keys.to_set().contains(key) <==> keys.contains(key));
    }
}

/// A worker or an endpoint counts once a source of it is bound to some rank.
pub proof fn law_bound_sources_are_counted(
    slots: Map<RecoveryKey, SlotView>,
    key: RecoveryKey,
    worker_id: u64,
    endpoint: u64,
)
    ensures
        slots.dom().contains(key) && slots[key].active is Some ==> is_bound_worker(
            slots,
            slots[key].active->0.source.worker.worker_id,
        ) && is_bound_endpoint(slots, slots[key].active->0.source.kv_state_endpoint),
        (forall|k: RecoveryKey| #[trigger]
            slots.dom().contains(k) ==> slots[k].active is None
                || slots[k].active->0.source.worker.worker_id != worker_id) ==> !is_bound_worker(
            slots,
            worker_id,
        ),
        (forall|k: RecoveryKey| #[trigger]
            slots.dom().contains(k) ==> slots[k].active is None
                || slots[k].active->0.source.kv_state_endpoint != endpoint) ==> !is_bound_endpoint(
            slots,
            endpoint,
        ),
{
}

/// Only a recovery from the start can end the initial recovery of a rank, and it does so by any
/// answer but one that is to be asked for again.
pub proof fn law_initial_recovery_ends_with_an_answer(
    start_event_id: Option<u64>,
    step: &Option<RecoveryStep>,
    done: bool,
)
    requires
        call_ensures(completes_initial_recovery, (start_event_id, step), done),
    ensures
        start_event_id is Some ==> !done,
        *step is None ==> !done,
        *step is Some && step->0 is Retry ==> !done,
        start_event_id is None && *step is Some && !(step->0 is Retry) ==> done,
{
}

proof fn lemma_recovering_total(
    slots: Map<RecoveryKey, SlotView>,
    keys: Seq<RecoveryKey>,
    recovering: Set<RecoveryKey>,
)
    requires
        keys.no_duplicates(),
        forall|key: RecoveryKey| #[trigger]
            recovering.contains(key) <==> keys.contains(key) && slots[key].rank.recovery_inflight,
    ensures
        recovering.finite(),
        recovering_total(slots, keys) == recovering.len(),
    decreases keys.len(),
{
    if keys.len() == 0 {
        assert(recovering =~= Set::empty());
    } else {
        let last = keys.last();
        let front = keys.drop_last();
        let fewer = recovering.remove(last);
        assert(keys =~= front.push(last));
        lemma_push_contains(front, last);
        assert(!front.contains(last)) by {
            if front.contains(last) {
                let i = choose|i: int| 0 <= i < front.len() && front[i] == last;
                assert(keys[i] == keys[keys.len() - 1]);
            }
        }
        assert forall|key: RecoveryKey| #[trigger] fewer.contains(key) <==> front.contains(key)
            && slots[key].rank.recovery_inflight by {}
        assert(front.no_duplicates()) by {
            assert forall|i: int, j: int| 0 <= i < j < front.len() implies front[i] != front[j] by {
                assert(keys[i] != keys[j]);
            }
        }
        lemma_recovering_total(slots, front, fewer);
        if recovering.contains(last) {
            assert(recovering =~= fewer.insert(last));
        } else {
            assert(recovering =~= fewer);
        }
    }
}

/// The snapshot counts every rank that has a slot, every one of them that is being recovered, and
/// the workers and endpoints of the sources that are bound, each once.
pub proof fn law_health_counts_each_once(
    client: &mut WorkerQueryClient,
    snapshot: WorkerQueryHealthSnapshot,
    recovering: Set<RecoveryKey>,
    workers: Set<u64>,
    endpoints: Set<u64>,
)
    requires
        old(client)@.wf(),
        call_ensures(WorkerQueryClient::health_snapshot, (client,), snapshot),
        forall|key: RecoveryKey| #[trigger]
            recovering.contains(key) <==> old(client)@.slots.dom().contains(key)
                && old(client)@.slots[key].rank.recovery_inflight,
        forall|worker_id: u64| #[trigger]
            workers.contains(worker_id) <==> exists|key: RecoveryKey|
                #[trigger] old(client)@.slots.dom().contains(key) && old(client)@.slots[key].active
                    is Some && old(client)@.slots[key].active->0.source.worker.worker_id
                    == worker_id,
        forall|endpoint: u64| #[trigger]
            endpoints.contains(endpoint) <==> exists|key: RecoveryKey|
                #[trigger] old(client)@.slots.dom().contains(key) && old(client)@.slots[key].active
                    is Some && old(client)@.slots[key].active->0.source.kv_state_endpoint
                    == endpoint,
    ensures
        final(client)@ == old(client)@,
        snapshot.rank_count == old(client)@.slots.dom().len(),
        snapshot.recovering_rank_count == recovering.len(),
        snapshot.worker_count == workers.len(),
        snapshot.discovered_endpoint_count == endpoints.len(),
{
    let slots = old(client)@.slots;
    assert(Set::new(|worker_id: u64| is_bound_worker(slots, worker_id)) =~= workers);
    assert(Set::new(|endpoint: u64| is_bound_endpoint(slots, endpoint)) =~= endpoints);
    let keys = choose|keys: Seq<RecoveryKey>| #[trigger]
        lists_keys(keys, slots) && snapshot.rank_count == keys.len()
            && snapshot.recovering_rank_count == recovering_total(slots, keys)
            && snapshot.pending_live_event_count == pending_total(slots, keys);
    keys.unique_seq_to_set();
    assert forall|key: RecoveryKey| #[trigger] recovering.contains(key) <==> keys.contains(key)
        && slots[key].rank.recovery_inflight by {
        assert(keys.to_set().contains(key) <==> keys.contains(key));
    }
    lemma_recovering_total(slots, keys, recovering);
}

/// The snapshot counts all that is held back: nothing where nothing is, and all of one rank's
/// events where only that rank holds any back.
pub proof fn law_health_counts_what_is_held_back(
    client: &mut WorkerQueryClient,
    snapshot: WorkerQueryHealthSnapshot,
    key: RecoveryKey,
)
    requires
        old(client)@.wf(),
        call_ensures(WorkerQueryClient::health_snapshot, (client,), snapshot),
        old(client)@.slots.dom().contains(key),
        forall|other: RecoveryKey| #[trigger]
            old(client)@.slots.dom().contains(other) && other != key
                ==> old(client)@.slots[other].rank.pending.len() == 0,
    ensures
        snapshot.pending_live_event_count == old(client)@.slots[key].rank.pending.len(),
{
    let slots = old(client)@.slots;
    let keys = choose|keys: Seq<RecoveryKey>| #[trigger]
        lists_keys(keys, slots) && snapshot.rank_count == keys.len()
            && snapshot.recovering_rank_count == recovering_total(slots, keys)
            && snapshot.pending_live_event_count == pending_total(slots, keys);
    assert(keys.to_set().contains(key));
    assert forall|i: int| 0 <= i < keys.len() && keys[i] != key implies slots[
        #[trigger] keys[i]].rank.pending.len() == 0 by {
        assert(keys.to_set().contains(keys[i]));
    }
    lemma_pending_of_one(slots, keys, key);
}

proof fn lemma_pending_of_one(
    slots: Map<RecoveryKey, SlotView>,
    keys: Seq<RecoveryKey>,
    key: RecoveryKey,
)
    requires
        keys.no_duplicates(),
        forall|i: int|
            0 <= i < keys.len() && keys[i] != key ==> slots[
                #[trigger] keys[i]].rank.pending.len() == 0,
    ensures
        keys.contains(key) ==> pending_total(slots, keys) == slots[key].rank.pending.len(),
        !keys.contains(key) ==> pending_total(slots, keys) == 0,
    decreases keys.len(),
{
    if keys.len() > 0 {
        let front = keys.drop_last();
        assert forall|i: int| 0 <= i < front.len() && front[i] != key implies slots[
            #[trigger] front[i]].rank.pending.len() == 0 by {
            assert(keys[i] == front[i]);
        }
        assert(front.no_duplicates()) by {
            assert forall|i: int, j: int| 0 <= i < j < front.len() implies front[i] != front[j] by {
                assert(keys[i] != keys[j]);
            }
        }
        lemma_pending_of_one(slots, front, key);
        lemma_push_contains(front, keys.last());
        assert(keys =~= front.push(keys.last()));
        assert(keys[keys.len() - 1] == keys.last());
        if keys.last() == key && front.contains(key) {
            let i = choose|i: int| 0 <= i < front.len() && front[i] == key;
            assert(keys[i] == keys[keys.len() - 1]);
        }
    }
}

/// A new client has no ranks and no publishers; the binding of a rank is that of its slot, and a
/// rank without a slot has none.
pub proof fn law_new_client_is_empty(
    fresh: WorkerQueryClient,
    client: &mut WorkerQueryClient,
    key: RecoveryKey,
    binding: Option<SourceBinding>,
    publisher_id: u64,
)
    requires
        call_ensures(WorkerQueryClient::new, (), fresh),
        old(client)@.wf(),
        call_ensures(WorkerQueryClient::active_binding, (client, key), binding),
    ensures
        !fresh@.slots.dom().contains(key),
        !fresh@.bindings.dom().contains(publisher_id),
        final(client)@ == old(client)@,
        old(client)@.slots.dom().contains(key) ==> binding == old(client)@.slots[key].active,
        !old(client)@.slots.dom().contains(key) ==> binding is None,
{
}

} // verus!
