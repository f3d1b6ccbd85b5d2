//! One lane per event publisher, so that a slow one holds up no other.
use vstd::prelude::*;

use crate::lists::{contains_item, lemma_prefix_grows, lemma_push_contains, push_unique};
use crate::membership::{KvEventSource, KvSourceStatus};
use crate::protocols::WorkerWithDpRank;
use crate::table::{has_entry, Table};

verus! {

/// Batches that a lane holds before it drops the newest.
pub const PUBLISHER_LANE_CAPACITY: usize = 64;

/// How handing a batch to a lane ended.
#[derive(Clone, Copy, Debug, PartialEq, Eq, Structural)]
pub enum LaneSend {
    Sent,
    /// The lane is full; the batch is dropped.
    Full,
    /// The lane has ended.
    Closed,
}

#[derive(Clone, Copy, Debug, PartialEq, Eq, Structural)]
pub enum DispatchStep {
    /// The publisher is not active: drop the batch.
    Inactive,
    /// Hand the batch to the publisher's lane, after starting one where so marked.
    Send { start_lane: bool },
}

#[derive(Clone, Copy, Debug, PartialEq, Eq, Structural)]
pub enum DispatchOutcome {
    Accepted,
    /// Dropped; `warn` on the first drop of a lane.
    Dropped { warn: bool },
    /// The lane was retired; the next batch starts a new one.
    Retired,
}

/// The lanes that run, and whether each has warned of being full.
#[derive(Debug)]
pub struct PublisherLanes {
    lanes: Table<u64, bool>,
}

impl View for PublisherLanes {
    type V = Map<u64, bool>;

    closed spec fn view(&self) -> Map<u64, bool> {
        self.lanes@
    }
}

impl PublisherLanes {
    pub fn new() -> (lanes: Self)
        ensures
            lanes@ == Map::<u64, bool>::empty(),
    {
        PublisherLanes { lanes: Table::new() }
    }

    /// Decide on a batch of a publisher.
    pub fn begin_dispatch(&mut self, publisher_id: u64, active_publishers: &Vec<u64>) -> (step:
        DispatchStep)
        ensures
            if !active_publishers@.contains(publisher_id) {
                step == DispatchStep::Inactive && final(self)@ == old(self)@
            } else if old(self)@.dom().contains(publisher_id) {
                step == (DispatchStep::Send { start_lane: false }) && final(self)@ == old(self)@
            } else {
                &&& step == (DispatchStep::Send { start_lane: true })
                &&& final(self)@ == old(self)@.insert(publisher_id, false)
            },
    {
        if !contains_item(active_publishers, &publisher_id) {
            return DispatchStep::Inactive;
        }
        if self.lanes.contains_key(&publisher_id) {
            return DispatchStep::Send { start_lane: false };
        }
        self.lanes.insert(publisher_id, false);
        DispatchStep::Send { start_lane: true }
    }

    /// Take the outcome of handing a batch over.
    pub fn finish_dispatch(&mut self, publisher_id: u64, sent: LaneSend) -> (outcome:
        DispatchOutcome)
        ensures
            match sent {
                LaneSend::Sent => outcome == DispatchOutcome::Accepted && final(self)@ == old(self)@,
                LaneSend::Full => if old(self)@.dom().contains(publisher_id) {
                    outcome == (DispatchOutcome::Dropped { warn: !old(self)@[publisher_id] })
                        && final(self)@ == old(self)@.insert(publisher_id, true)
                } else {
                    outcome == (DispatchOutcome::Dropped { warn: false }) && final(self)@ == old(self)@
                },
                LaneSend::Closed => {
                    &&& outcome == DispatchOutcome::Retired
                    &&& final(self)@ == old(self)@.remove(publisher_id)
                },
            },
    {
        match sent {
            LaneSend::Sent => DispatchOutcome::Accepted,
            LaneSend::Full => {
                let warned: bool = match self.lanes.get(&publisher_id) {
                    Some(warned) => *warned,
                    None => return DispatchOutcome::Dropped { warn: false },
                };
                self.lanes.insert(publisher_id, true);
                DispatchOutcome::Dropped { warn: !warned }
            },
            LaneSend::Closed => {
                let _ = self.lanes.remove(&publisher_id);
                DispatchOutcome::Retired
            },
        }
    }

    /// Retire the lanes of publishers that are no longer active.
    pub fn reconcile(&mut self, active_publishers: &Vec<u64>) -> (retired: Vec<u64>)
        ensures
            retired@.no_duplicates(),
            forall|publisher_id: u64| #[trigger]
                retired@.contains(publisher_id) <==> old(self)@.dom().contains(publisher_id)
                    && !active_publishers@.contains(publisher_id),
            final(self)@ == old(self)@.remove_keys(retired@.to_set()),
    {
        let keys = self.lanes.keys();
        let ghost before = self@;
        let mut retired: Vec<u64> = Vec::new();
        let mut i: usize = 0;
        proof {
            assert(self@ =~= before.remove_keys(retired@.to_set()));
        }
        while i < keys.len()
            invariant
                i <= keys.len(),
                keys@.no_duplicates(),
                forall|key: u64| #[trigger] keys@.contains(key) <==> before.dom().contains(key),
                retired@.no_duplicates(),
                forall|key: u64| #[trigger]
                    retired@.contains(key) <==> keys@.subrange(0, i as int).contains(key)
                        && !active_publishers@.contains(key),
                self@ == before.remove_keys(retired@.to_set()),
            decreases keys.len() - i,
        {
            let key: u64 = keys[i];
            proof {
                lemma_prefix_grows(keys@, i as int);
                lemma_push_contains(keys@.subrange(0, i as int), key);
                lemma_push_contains(retired@, key);
                assert(!retired@.contains(key));
            }
            if !contains_item(active_publishers, &key) {
                let ghost gone = retired@;
                let _ = self.lanes.remove(&key);
                retired.push(key);
                proof {
                    assert(self@ =~= before.remove_keys(retired@.to_set())) by {
                        assert forall|k: u64| #[trigger]
                            before.remove_keys(retired@.to_set()).dom().contains(k)
                                <==> self@.dom().contains(k) by {
                            assert(retired@.to_set().contains(k) <==> retired@.contains(k));
                            assert(gone.to_set().contains(k) <==> gone.contains(k));
                            assert(retired@ == gone.push(key));
                        }
                    }
                }
            }
            i = i + 1;
        }
        proof {
            assert(keys@.subrange(0, i as int) =~= keys@);
        }
        retired
    }
}

/// What an envelope's sequence number tells: how many are missing before it, and whether it came
/// out of order. The first number only seeds the watermark.
pub open spec fn sequence_observation(sequence: u64, high_watermark: Option<u64>) -> (u64, bool) {
    match high_watermark {
        None => (0, false),
        Some(previous) => if sequence <= previous {
            (0, true)
        } else {
            ((sequence - previous - 1) as u64, false)
        },
    }
}

/// A fault of a publisher's sequence that is counted.
#[derive(Clone, Copy, Debug, PartialEq, Eq, Structural)]
pub enum SequenceFault {
    Gap,
    OutOfOrder,
}

impl SequenceFault {
    /// The action under which the fault is counted.
    pub fn action(&self) -> (action: &'static str)
        ensures
            action@ == match self {
                SequenceFault::Gap => "sequence_gap"@,
                SequenceFault::OutOfOrder => "out_of_order"@,
            },
    {
        match self {
            SequenceFault::Gap => "sequence_gap",
            SequenceFault::OutOfOrder => "out_of_order",
        }
    }
}

/// What is counted of an observation: a gap as often as envelopes are missing.
pub open spec fn counted_faults(observation: (u64, bool)) -> Seq<(SequenceFault, u64)> {
    let gaps = if observation.0 > 0 {
        seq![(SequenceFault::Gap, observation.0)]
    } else {
        Seq::empty()
    };
    if observation.1 {
        gaps.push((SequenceFault::OutOfOrder, 1))
    } else {
        gaps
    }
}

/// Observe a sequence number, and put down what is to be counted of it behind `counts`.
pub fn observe_sequence(
    sequence: u64,
    high_watermark: &mut Option<u64>,
    counts: &mut Vec<(SequenceFault, u64)>,
) -> (observation: (u64, bool))
    ensures
        observation == sequence_observation(sequence, *old(high_watermark)),
        *final(high_watermark) == if observation.1 {
            *old(high_watermark)
        } else {
            Some(sequence)
        },
        final(counts)@ == old(counts)@ + counted_faults(observation),
{
    let observation: (u64, bool) = match *high_watermark {
        None => {
            *high_watermark = Some(sequence);
            (0, false)
        },
        Some(previous) => {
            if sequence <= previous {
                (0, true)
            } else {
                *high_watermark = Some(sequence);
                (sequence - previous - 1, false)
            }
        },
    };
    if observation.0 > 0 {
        counts.push((SequenceFault::Gap, observation.0));
    }
    if observation.1 {
        counts.push((SequenceFault::OutOfOrder, 1));
    }
    proof {
        assert(counts@ =~= old(counts)@ + counted_faults(observation));
    }
    observation
}

/// The publishers of the active sources.
pub fn active_publishers(sources: &Table<WorkerWithDpRank, KvSourceStatus>) -> (publishers: Vec<
    u64,
>)
    ensures
        publishers@.no_duplicates(),
        forall|publisher_id: u64| #[trigger]
            publishers@.contains(publisher_id) <==> exists|worker: WorkerWithDpRank|
                #[trigger] sources@.dom().contains(worker) && sources@[worker].active() is Some
                    && sources@[worker].active()->0.publisher_id == publisher_id,
{
    let mut publishers: Vec<u64> = Vec::new();
    let len: usize = sources.len();
    let ghost listing = sources.listing();
    let mut i: usize = 0;
    while i < len
        invariant
            i <= len,
            len == listing.len(),
            listing == sources.listing(),
            forall|j: int|
                0 <= j < len ==> sources@.dom().contains((#[trigger] listing[j]).0)
                    && sources@[listing[j].0] == listing[j].1,
            publishers@.no_duplicates(),
            forall|publisher_id: u64| #[trigger]
                publishers@.contains(publisher_id) ==> exists|worker: WorkerWithDpRank|
                    #[trigger] sources@.dom().contains(worker) && sources@[worker].active() is Some
                        && sources@[worker].active()->0.publisher_id == publisher_id,
            forall|j: int|
                0 <= j < i && (#[trigger] listing[j]).1.active() is Some ==> publishers@.contains(
                    listing[j].1.active()->0.publisher_id,
                ),
        decreases len - i,
    {
        if let Some(source) = sources.value_at(i).active_source() {
            proof {
                assert(sources@.dom().contains(listing[i as int].0));
            }
            push_unique(&mut publishers, source.publisher_id);
        }
        i = i + 1;
    }
    proof {
        assert forall|publisher_id: u64|
            (exists|worker: WorkerWithDpRank|
                #[trigger] sources@.dom().contains(worker) && sources@[worker].active() is Some
                    && sources@[worker].active()->0.publisher_id
                    == publisher_id) implies #[trigger] publishers@.contains(publisher_id) by {
            let worker = choose|worker: WorkerWithDpRank|
                #[trigger] sources@.dom().contains(worker) && sources@[worker].active() is Some
                    && sources@[worker].active()->0.publisher_id == publisher_id;
            assert(has_entry(listing, worker));
            let j = choose|j: int| 0 <= j < listing.len() && (#[trigger] listing[j]).0 == worker;
            assert(listing[j].1.active() is Some);
        }
    }
    publishers
}

/// The watermark never falls, and missing envelopes are counted exactly once: what was missing
/// plus what came adds up to the distance it moved.
pub proof fn law_sequence_watermark_accounts_for_gaps(previous: u64, sequence: u64)
    ensures
        ({
            let (missing, out_of_order) = sequence_observation(sequence, Some(previous));
            &&& out_of_order <==> sequence <= previous
            &&& out_of_order ==> missing == 0
            &&& !out_of_order ==> previous + missing + 1 == sequence
        }),
{
}

/// A lane holds up to 64 batches.
pub proof fn law_lane_capacity()
    ensures
        PUBLISHER_LANE_CAPACITY == 64,
{
}

/// A batch goes to a lane exactly if its publisher is active, and a lane is started exactly if the
/// publisher has none; the lanes of other publishers are not touched.
pub proof fn law_batch_goes_to_its_lane(
    lanes: &mut PublisherLanes,
    publisher_id: u64,
    active: &Vec<u64>,
    step: DispatchStep,
    other: u64,
)
    requires
        call_ensures(PublisherLanes::begin_dispatch, (lanes, publisher_id, active), step),
    ensures
        step is Inactive <==> !active@.contains(publisher_id),
        step is Send ==> (step->start_lane <==> !old(lanes)@.dom().contains(publisher_id)),
        step is Send ==> final(lanes)@.dom().contains(publisher_id),
        step is Send && step->start_lane ==> !final(lanes)@[publisher_id],
        step is Inactive ==> final(lanes)@ == old(lanes)@,
        other != publisher_id || old(lanes)@.dom().contains(publisher_id) ==> {
            &&& final(lanes)@.dom().contains(other) <==> old(lanes)@.dom().contains(other)
            &&& final(lanes)@[other] == old(lanes)@[other]
        },
{
}

/// A batch that a full lane cannot take is dropped, with a warning the first time only; a lane
/// that has ended is retired, so that the next batch starts a new one.
pub proof fn law_full_lane_drops_the_batch(
    lanes: &mut PublisherLanes,
    publisher_id: u64,
    sent: LaneSend,
    outcome: DispatchOutcome,
    other: u64,
)
    requires
        call_ensures(PublisherLanes::finish_dispatch, (lanes, publisher_id, sent), outcome),
        old(lanes)@.dom().contains(publisher_id),
    ensures
        sent is Sent ==> outcome is Accepted && final(lanes)@ == old(lanes)@,
        sent is Full ==> outcome is Dropped && outcome->warn == !old(lanes)@[publisher_id]
            && final(lanes)@.dom().contains(publisher_id) && final(lanes)@[publisher_id],
        sent is Closed ==> outcome is Retired && !final(lanes)@.dom().contains(publisher_id),
        other != publisher_id ==> {
            &&& final(lanes)@.dom().contains(other) <==> old(lanes)@.dom().contains(other)
            &&& old(lanes)@.dom().contains(other) ==> final(lanes)@[other] == old(lanes)@[other]
        },
{
}

/// The lanes of publishers that are not active any more are retired, and the others stay as they
/// are.
pub proof fn law_inactive_lanes_are_retired(
    lanes: &mut PublisherLanes,
    active: &Vec<u64>,
    retired: Vec<u64>,
    publisher_id: u64,
)
    requires
        call_ensures(PublisherLanes::reconcile, (lanes, active), retired),
    ensures
        retired@.contains(publisher_id) <==> old(lanes)@.dom().contains(publisher_id)
            && !active@.contains(publisher_id),
        final(lanes)@.dom().contains(publisher_id) <==> old(lanes)@.dom().contains(publisher_id)
            && active@.contains(publisher_id),
        final(lanes)@.dom().contains(publisher_id) ==> final(lanes)@[publisher_id]
            == old(lanes)@[publisher_id],
        retired@.no_duplicates(),
{
    assert(retired@.to_set().contains(publisher_id) <==> retired@.contains(publisher_id));
}

/// The next number in sequence counts nothing; a higher one counts each number that is missing,
/// once, as a gap; one that is not higher counts as out of order and leaves the watermark. The
/// first number seeds the watermark and counts nothing.
pub proof fn law_missing_envelopes_are_counted(
    sequence: u64,
    high_watermark: &mut Option<u64>,
    counts: &mut Vec<(SequenceFault, u64)>,
    observation: (u64, bool),
    previous: u64,
)
    requires
        call_ensures(observe_sequence, (sequence, high_watermark, counts), observation),
    ensures
        *old(high_watermark) is None ==> observation == (0u64, false) && *final(high_watermark)
            == Some(sequence) && final(counts)@ == old(counts)@,
        *old(high_watermark) == Some(previous) && sequence == previous + 1 ==> observation == (
            0u64,
            false,
        ) && *final(high_watermark) == Some(sequence) && final(counts)@ == old(counts)@,
        *old(high_watermark) == Some(previous) && sequence > previous + 1 ==> {
            &&& observation.0 == sequence - previous - 1 && !observation.1
            &&& *final(high_watermark) == Some(sequence)
            &&& final(counts)@ == old(counts)@.push((SequenceFault::Gap, observation.0))
        },
        *old(high_watermark) == Some(previous) && sequence <= previous ==> {
            &&& observation.0 == 0 && observation.1
            &&& *final(high_watermark) == Some(previous)
            &&& final(counts)@ == old(counts)@.push((SequenceFault::OutOfOrder, 1u64))
        },
{
    assert(old(counts)@ + Seq::<(SequenceFault, u64)>::empty() =~= old(counts)@);
    assert(final(counts)@ =~= old(counts)@ + counted_faults(observation));
}

/// A gap and a disorder are counted under their own names.
pub proof fn law_sequence_faults_are_named(fault: &SequenceFault, action: &'static str)
    requires
        call_ensures(SequenceFault::action, (fault,), action),
    ensures
        *fault is Gap ==> action@ == "sequence_gap"@,
        *fault is OutOfOrder ==> action@ == "out_of_order"@,
{
}

/// A publisher is active exactly if some rank has an active source of it, recoverable or live-only.
pub proof fn law_active_publishers_feed_a_rank(
    sources: &Table<WorkerWithDpRank, KvSourceStatus>,
    publishers: Vec<u64>,
    worker: WorkerWithDpRank,
    source: KvEventSource,
    publisher_id: u64,
)
    requires
        call_ensures(active_publishers, (sources,), publishers),
    ensures
        sources@.dom().contains(worker) && (sources@[worker] == KvSourceStatus::ActiveRecoverable(
            source,
        ) || sources@[worker] == KvSourceStatus::ActiveLiveOnly(source)) ==> publishers@.contains(
            source.publisher_id,
        ),
        (forall|rank: WorkerWithDpRank| #[trigger]
            sources@.dom().contains(rank) ==> match sources@[rank] {
                KvSourceStatus::ActiveRecoverable(named) => named.publisher_id != publisher_id,
                KvSourceStatus::ActiveLiveOnly(named) => named.publisher_id != publisher_id,
                _ => true,
            }) ==> !publishers@.contains(publisher_id),
        publishers@.no_duplicates(),
{
}

} // verus!
