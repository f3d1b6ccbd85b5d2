//! Advertised state sources, the attachments of workers to them, and whom they concern.
use vstd::prelude::*;

use crate::lists::{lemma_prefix_grows, lemma_push_contains, push_unique};
use crate::membership::{
    declares_other_mode, source_mode_suppressed_workers, KvSourceMembershipView, KvSourceStatus,
};
use crate::indexer::recovery::owner_runtime::OwnerRuntime;
use crate::protocols::{CacheOwnerId, WorkerWithDpRank};
use crate::table::{has_entry, lemma_listed_pairs, SameAs, Table};

verus! {

#[derive(Clone, Copy, Debug, PartialEq, Eq, Structural)]
pub enum KvStateProtocolVersion {
    V2,
    Other(u32),
}

#[derive(Clone, Copy, Debug, PartialEq, Eq, Structural)]
pub enum KvStateIngressProtocol {
    VllmResidencyV1,
    Other(u32),
}

/// The discovery and event topics of the state protocol.
#[derive(Clone, Copy, Debug, PartialEq, Eq, Structural)]
pub enum KvStateTopic {
    SourceV2,
    AttachmentV2,
    EventV2,
    /// Interned id of another topic.
    Other(u64),
}

/// A state agent that publishes the cache state of one owner.
#[derive(Clone, Copy, Debug, PartialEq, Eq, Structural)]
pub struct KvStateSourceAdvertisement {
    pub cache_owner_id: CacheOwnerId,
    pub publisher_id: u64,
    pub protocol_version: KvStateProtocolVersion,
    pub event_topic: KvStateTopic,
    /// Interned id of the KV-state endpoint.
    pub kv_state_endpoint: u64,
    pub kv_block_size: u32,
    pub ingress_protocol: KvStateIngressProtocol,
    pub indexer_domain_id: u64,
    pub global_dp_rank: u32,
    /// Interned id of the whole instance that answers status and recovery queries.
    pub recovery_control_target: u64,
    /// Interned metadata under which routers may hint at the owner's blocks.
    pub router_hint_source: Option<u64>,
}

/// A worker that is attached to a state source.
#[derive(Clone, Copy, Debug, PartialEq, Eq, Structural)]
pub struct KvStateAttachmentAdvertisement {
    /// The discovery id that belongs to this publisher and generation.
    pub record_id: u64,
    pub cache_owner_id: CacheOwnerId,
    pub publisher_id: u64,
    pub attachment_generation: u64,
    pub protocol_version: KvStateProtocolVersion,
    /// Interned id of the whole instance that produces the events.
    pub producer_instance: u64,
    pub intent_incarnation: u64,
    pub worker: WorkerWithDpRank,
    /// Interned id of the whole instance that answers status and recovery queries.
    pub recovery_control_target: u64,
    pub ingress_protocol: KvStateIngressProtocol,
    /// Interned ids of the endpoint and the topic of the raw events.
    pub raw_zmq_endpoint: u64,
    pub raw_topic: u64,
    /// The publisher's cursor from which on the attachment is complete.
    pub ready_at_outbound_cursor: u64,
}

impl SameAs for KvStateSourceAdvertisement {
    fn same(&self, other: &Self) -> (same: bool) {
        *self == *other
    }
}

impl SameAs for KvStateAttachmentAdvertisement {
    fn same(&self, other: &Self) -> (same: bool) {
        *self == *other
    }
}

/// A change that discovery reports. `scope` is the endpoint of an endpoint scope.
#[derive(Debug, PartialEq, Eq)]
pub enum DiscoveryChange<T> {
    /// `value` is `None` when the advertisement could not be decoded.
    Added { scope: Option<u64>, topic: KvStateTopic, publisher_id: u64, value: Option<T> },
    Removed { scope: Option<u64>, topic: KvStateTopic, publisher_id: u64 },
    Unrelated,
}

#[derive(Clone, Copy, Debug, PartialEq, Eq, Structural)]
pub enum AdvertisementError {
    Undecodable,
    /// A discovery identity changed what it advertises.
    IdentityChanged,
}

/// What a change comes to: the values after it, and whether anything was taken in.
pub open spec fn advertisement_update<T>(
    values: Map<u64, T>,
    change: DiscoveryChange<T>,
    endpoint: u64,
    expected_topic: KvStateTopic,
) -> (Map<u64, T>, Result<bool, AdvertisementError>) {
    match change {
        DiscoveryChange::Added { scope, topic, publisher_id, value } => if scope != Some(endpoint)
            || topic != expected_topic {
            (values, Ok(false))
        } else {
            match value {
                None => (values, Err(AdvertisementError::Undecodable)),
                Some(value) => if values.dom().contains(publisher_id) && values[publisher_id]
                    != value {
                    (values, Err(AdvertisementError::IdentityChanged))
                } else {
                    (values.insert(publisher_id, value), Ok(true))
                },
            }
        },
        DiscoveryChange::Removed { scope, topic, publisher_id } => if scope == Some(endpoint)
            && topic == expected_topic {
            (values.remove(publisher_id), Ok(values.dom().contains(publisher_id)))
        } else {
            (values, Ok(false))
        },
        DiscoveryChange::Unrelated => (values, Ok(false)),
    }
}

/// Take in a discovery change for one endpoint and topic.
pub fn update_advertisements<T: SameAs>(
    values: &mut Table<u64, T>,
    change: DiscoveryChange<T>,
    endpoint: u64,
    expected_topic: KvStateTopic,
) -> (changed: Result<bool, AdvertisementError>)
    ensures
        (final(values)@, changed) == advertisement_update(
            old(values)@,
            change,
            endpoint,
            expected_topic,
        ),
{
    match change {
        DiscoveryChange::Added { scope, topic, publisher_id, value } => {
            if !is_endpoint_scope(scope, endpoint) || topic != expected_topic {
                return Ok(false);
            }
            match value {
                None => Err(AdvertisementError::Undecodable),
                Some(value) => {
                    if let Some(previous) = values.get(&publisher_id) {
                        if !previous.same(&value) {
                            return Err(AdvertisementError::IdentityChanged);
                        }
                    }
                    values.insert(publisher_id, value);
                    Ok(true)
                },
            }
        },
        DiscoveryChange::Removed { scope, topic, publisher_id } => {
            if is_endpoint_scope(scope, endpoint) && topic == expected_topic {
                Ok(values.remove(&publisher_id).is_some())
            } else {
                Ok(false)
            }
        },
        DiscoveryChange::Unrelated => Ok(false),
    }
}

fn is_endpoint_scope(scope: Option<u64>, endpoint: u64) -> (same: bool)
    ensures
        same == (scope == Some(endpoint)),
{
    match scope {
        Some(scope) => scope == endpoint,
        None => false,
    }
}

/// What a router expects of the sources that it takes state from.
#[derive(Clone, Copy, Debug, PartialEq, Eq, Structural)]
pub struct SourceExpectation {
    pub kv_state_endpoint: u64,
    pub kv_block_size: u32,
}

/// Whether a source advertised under `discovery_id` can feed this router.
pub open spec fn is_compatible(
    source: KvStateSourceAdvertisement,
    discovery_id: u64,
    expected: SourceExpectation,
) -> bool {
    &&& source.publisher_id == discovery_id
    &&& source.protocol_version == KvStateProtocolVersion::V2
    &&& source.event_topic == KvStateTopic::EventV2
    &&& source.kv_state_endpoint == expected.kv_state_endpoint
    &&& source.kv_block_size == expected.kv_block_size
    &&& source.ingress_protocol == KvStateIngressProtocol::VllmResidencyV1
    &&& source.cache_owner_id.indexer_domain == source.indexer_domain_id
}

pub fn source_is_compatible(
    source: &KvStateSourceAdvertisement,
    discovery_id: u64,
    expected: &SourceExpectation,
) -> (ok: bool)
    ensures
        ok == is_compatible(*source, discovery_id, *expected),
{
    source.publisher_id == discovery_id && source.protocol_version == KvStateProtocolVersion::V2
        && source.event_topic == KvStateTopic::EventV2 && source.kv_state_endpoint
        == expected.kv_state_endpoint && source.kv_block_size == expected.kv_block_size
        && source.ingress_protocol == KvStateIngressProtocol::VllmResidencyV1
        && source.cache_owner_id.indexer_domain == source.indexer_domain_id
}

pub type SourceMap = Map<u64, KvStateSourceAdvertisement>;

pub type AttachmentMap = Map<u64, KvStateAttachmentAdvertisement>;

/// One of the compatible sources of an owner.
pub open spec fn is_owner_source(
    sources: SourceMap,
    expected: SourceExpectation,
    owner: CacheOwnerId,
    source: KvStateSourceAdvertisement,
) -> bool {
    &&& sources.dom().contains(source.publisher_id)
    &&& sources[source.publisher_id] == source
    &&& is_compatible(source, source.publisher_id, expected)
    &&& source.cache_owner_id == owner
}

/// An attachment that stands under its own discovery id and speaks the protocol.
pub open spec fn is_valid_attachment(
    attachments: AttachmentMap,
    attachment: KvStateAttachmentAdvertisement,
) -> bool {
    &&& attachments.dom().contains(attachment.record_id)
    &&& attachments[attachment.record_id] == attachment
    &&& attachment.protocol_version == KvStateProtocolVersion::V2
}

pub open spec fn is_owner_attachment(
    attachments: AttachmentMap,
    owner: CacheOwnerId,
    attachment: KvStateAttachmentAdvertisement,
) -> bool {
    is_valid_attachment(attachments, attachment) && attachment.cache_owner_id == owner
}

/// Every compatible source of an owner, once.
pub fn list_owner_sources(
    sources: &Table<u64, KvStateSourceAdvertisement>,
    expected: &SourceExpectation,
    owner: CacheOwnerId,
) -> (found: Vec<KvStateSourceAdvertisement>)
    ensures
        found@.no_duplicates(),
        forall|source: KvStateSourceAdvertisement| #[trigger]
            found@.contains(source) <==> is_owner_source(sources@, *expected, owner, source),
{
    let mut found: Vec<KvStateSourceAdvertisement> = Vec::new();
    let len: usize = sources.len();
    let ghost listing = sources.listing();
    let mut i: usize = 0;
    while i < len
        invariant
            i <= len,
            len == listing.len(),
            listing == sources.listing(),
            found@.no_duplicates(),
            forall|source: KvStateSourceAdvertisement| #[trigger]
                found@.contains(source) <==> listing.subrange(0, i as int).contains(
                    (source.publisher_id, source),
                ) && is_compatible(source, source.publisher_id, *expected) && source.cache_owner_id
                    == owner,
        decreases len - i,
    {
        let source = *sources.value_at(i);
        let key: u64 = sources.key_at(i);
        proof {
            lemma_prefix_grows(listing, i as int);
            lemma_push_contains(listing.subrange(0, i as int), listing[i as int]);
        }
        if source_is_compatible(&source, key, expected) && source.cache_owner_id == owner {
            push_unique(&mut found, source);
        }
        i = i + 1;
    }
    proof {
        assert(listing.subrange(0, i as int) =~= listing);
        lemma_listed_pairs(listing);
    }
    found
}

/// Every valid attachment of an owner, once.
pub fn list_owner_attachments(
    attachments: &Table<u64, KvStateAttachmentAdvertisement>,
    owner: CacheOwnerId,
) -> (found: Vec<KvStateAttachmentAdvertisement>)
    ensures
        found@.no_duplicates(),
        forall|attachment: KvStateAttachmentAdvertisement| #[trigger]
            found@.contains(attachment) <==> is_owner_attachment(attachments@, owner, attachment),
{
    let mut found: Vec<KvStateAttachmentAdvertisement> = Vec::new();
    let len: usize = attachments.len();
    let ghost listing = attachments.listing();
    let mut i: usize = 0;
    while i < len
        invariant
            i <= len,
            len == listing.len(),
            listing == attachments.listing(),
            found@.no_duplicates(),
            forall|attachment: KvStateAttachmentAdvertisement| #[trigger]
                found@.contains(attachment) <==> listing.subrange(0, i as int).contains(
                    (attachment.record_id, attachment),
                ) && attachment.protocol_version == KvStateProtocolVersion::V2
                    && attachment.cache_owner_id == owner,
        decreases len - i,
    {
        let attachment = *attachments.value_at(i);
        let key: u64 = attachments.key_at(i);
        proof {
            lemma_prefix_grows(listing, i as int);
            lemma_push_contains(listing.subrange(0, i as int), listing[i as int]);
        }
        if attachment.record_id == key && attachment.protocol_version == KvStateProtocolVersion::V2
            && attachment.cache_owner_id == owner {
            push_unique(&mut found, attachment);
        }
        i = i + 1;
    }
    proof {
        assert(listing.subrange(0, i as int) =~= listing);
        lemma_listed_pairs(listing);
    }
    found
}

/// The ranks of valid attachments, of any owner, that membership lists.
pub open spec fn is_attached_live_rank(
    attachments: AttachmentMap,
    live: Map<WorkerWithDpRank, KvSourceStatus>,
    worker: WorkerWithDpRank,
) -> bool {
    live.dom().contains(worker) && exists|attachment: KvStateAttachmentAdvertisement|
        #[trigger] is_valid_attachment(attachments, attachment) && attachment.worker == worker
}

/// The part of an attachment that must agree with its source before its rank counts as claimed.
pub open spec fn claims_rank_of(
    attachment: KvStateAttachmentAdvertisement,
    source: KvStateSourceAdvertisement,
) -> bool {
    &&& attachment.publisher_id == source.publisher_id
    &&& attachment.protocol_version == source.protocol_version
    &&& attachment.worker.dp_rank == source.global_dp_rank
}

/// An attachment that may be activated on its source.
pub open spec fn fits_source(
    attachment: KvStateAttachmentAdvertisement,
    source: KvStateSourceAdvertisement,
) -> bool {
    &&& claims_rank_of(attachment, source)
    &&& attachment.recovery_control_target == source.recovery_control_target
    &&& attachment.ingress_protocol == source.ingress_protocol
}

pub fn attachment_claims_rank_of(
    attachment: &KvStateAttachmentAdvertisement,
    source: &KvStateSourceAdvertisement,
) -> (claims: bool)
    ensures
        claims == claims_rank_of(*attachment, *source),
{
    attachment.publisher_id == source.publisher_id && attachment.protocol_version
        == source.protocol_version && attachment.worker.dp_rank == source.global_dp_rank
}

pub fn attachment_fits_source(
    attachment: &KvStateAttachmentAdvertisement,
    source: &KvStateSourceAdvertisement,
) -> (fits: bool)
    ensures
        fits == fits_source(*attachment, *source),
{
    attachment_claims_rank_of(attachment, source) && attachment.recovery_control_target
        == source.recovery_control_target && attachment.ingress_protocol
        == source.ingress_protocol
}

/// One source, one attachment, and they agree on a live rank.
pub open spec fn is_claimed_by_attachment(
    sources: Seq<KvStateSourceAdvertisement>,
    attachments: Seq<KvStateAttachmentAdvertisement>,
    live: Map<WorkerWithDpRank, KvSourceStatus>,
) -> bool {
    &&& sources.len() == 1
    &&& attachments.len() == 1
    &&& claims_rank_of(attachments[0], sources[0])
    &&& live.dom().contains(attachments[0].worker)
}

/// The same, over the advertised maps.
pub open spec fn owner_is_claimed(
    sources: SourceMap,
    attachments: AttachmentMap,
    expected: SourceExpectation,
    live: Map<WorkerWithDpRank, KvSourceStatus>,
    owner: CacheOwnerId,
) -> bool {
    exists|source: KvStateSourceAdvertisement, attachment: KvStateAttachmentAdvertisement|
        {
            &&& #[trigger] only_source(sources, expected, owner, source)
            &&& #[trigger] only_attachment(attachments, owner, attachment)
            &&& claims_rank_of(attachment, source)
            &&& live.dom().contains(attachment.worker)
        }
}

pub open spec fn only_source(
    sources: SourceMap,
    expected: SourceExpectation,
    owner: CacheOwnerId,
    source: KvStateSourceAdvertisement,
) -> bool {
    is_owner_source(sources, expected, owner, source) && forall|other: KvStateSourceAdvertisement|
        #[trigger] is_owner_source(sources, expected, owner, other) ==> other == source
}

pub open spec fn only_attachment(
    attachments: AttachmentMap,
    owner: CacheOwnerId,
    attachment: KvStateAttachmentAdvertisement,
) -> bool {
    is_owner_attachment(attachments, owner, attachment) && forall|
        other: KvStateAttachmentAdvertisement,
    | #[trigger]
        is_owner_attachment(attachments, owner, other) ==> other == attachment
}

pub open spec fn owner_has_source(
    sources: SourceMap,
    expected: SourceExpectation,
    owner: CacheOwnerId,
) -> bool {
    exists|source: KvStateSourceAdvertisement| #[trigger]
        is_owner_source(sources, expected, owner, source)
}

/// Lists of an owner's sources and attachments tell whether the owner is claimed.
proof fn lemma_claimed(
    sources: SourceMap,
    attachments: AttachmentMap,
    expected: SourceExpectation,
    live: Map<WorkerWithDpRank, KvSourceStatus>,
    owner: CacheOwnerId,
    source_list: Seq<KvStateSourceAdvertisement>,
    attachment_list: Seq<KvStateAttachmentAdvertisement>,
)
    requires
        source_list.no_duplicates(),
        attachment_list.no_duplicates(),
        forall|source: KvStateSourceAdvertisement| #[trigger]
            source_list.contains(source) <==> is_owner_source(sources, expected, owner, source),
        forall|attachment: KvStateAttachmentAdvertisement| #[trigger]
            attachment_list.contains(attachment) <==> is_owner_attachment(
                attachments,
                owner,
                attachment,
            ),
    ensures
        owner_is_claimed(sources, attachments, expected, live, owner) == is_claimed_by_attachment(
            source_list,
            attachment_list,
            live,
        ),
        owner_has_source(sources, expected, owner) == (source_list.len() > 0),
{
    if source_list.len() > 0 {
        assert(source_list.contains(source_list[0]));
    }
    if attachment_list.len() > 0 {
        assert(attachment_list.contains(attachment_list[0]));
    }
    if owner_is_claimed(sources, attachments, expected, live, owner) {
        let (source, attachment) = choose|
            source: KvStateSourceAdvertisement,
            attachment: KvStateAttachmentAdvertisement,
        |
            {
                &&& #[trigger] only_source(sources, expected, owner, source)
                &&& #[trigger] only_attachment(attachments, owner, attachment)
                &&& claims_rank_of(attachment, source)
                &&& live.dom().contains(attachment.worker)
            };
        assert(source_list.contains(source));
        assert(attachment_list.contains(attachment));
        if source_list.len() > 1 {
            assert(source_list.contains(source_list[1]));
            assert(source_list[0] != source_list[1]);
        }
        if attachment_list.len() > 1 {
            assert(attachment_list.contains(attachment_list[1]));
            assert(attachment_list[0] != attachment_list[1]);
        }
    }
    if is_claimed_by_attachment(source_list, attachment_list, live) {
        assert forall|other: KvStateSourceAdvertisement| #[trigger]
            is_owner_source(sources, expected, owner, other) implies other == source_list[0] by {
            assert(source_list.contains(other));
        }
        assert forall|other: KvStateAttachmentAdvertisement| #[trigger]
            is_owner_attachment(attachments, owner, other) implies other == attachment_list[0] by {
            assert(attachment_list.contains(other));
        }
        assert(only_source(sources, expected, owner, source_list[0]));
        assert(only_attachment(attachments, owner, attachment_list[0]));
    }
    if owner_has_source(sources, expected, owner) {
        let source = choose|source: KvStateSourceAdvertisement| #[trigger]
            is_owner_source(sources, expected, owner, source);
        assert(source_list.contains(source));
    }
}

/// The ranks that the state agents lay claim to before anything is recovered: legacy events
/// for them must not get in any more.
///
/// An attachment alone is a claim. So is the last worker of an owner whose source is there but
/// has no agreeing attachment on a live rank.
pub open spec fn is_recognized_rank(
    sources: SourceMap,
    attachments: AttachmentMap,
    expected: SourceExpectation,
    live: Map<WorkerWithDpRank, KvSourceStatus>,
    modes: Map<u64, String>,
    runtime: Map<CacheOwnerId, OwnerRuntime>,
    worker: WorkerWithDpRank,
) -> bool {
    live.dom().contains(worker) && {
        ||| declares_other_mode(modes, worker.worker_id)
        ||| is_attached_live_rank(attachments, live, worker)
        ||| exists|owner: CacheOwnerId|
            {
                &&& #[trigger] runtime.dom().contains(owner)
                &&& runtime[owner].last_worker == Some(worker)
                &&& owner_has_source(sources, expected, owner)
                &&& !owner_is_claimed(sources, attachments, expected, live, owner)
            }
    }
}

fn add_attached_ranks(
    workers: &mut Vec<WorkerWithDpRank>,
    attachments: &Table<u64, KvStateAttachmentAdvertisement>,
    live: &Table<WorkerWithDpRank, KvSourceStatus>,
)
    ensures
        old(workers)@.no_duplicates() ==> final(workers)@.no_duplicates(),
        forall|worker: WorkerWithDpRank| #[trigger]
            final(workers)@.contains(worker) <==> old(workers)@.contains(worker)
                || is_attached_live_rank(attachments@, live@, worker),
{
    let len: usize = attachments.len();
    let ghost listing = attachments.listing();
    let mut i: usize = 0;
    while i < len
        invariant
            i <= len,
            len == listing.len(),
            listing == attachments.listing(),
            attachments@ == crate::table::map_of(listing),
            crate::table::distinct_keys(listing),
            old(workers)@.no_duplicates() ==> workers@.no_duplicates(),
            forall|worker: WorkerWithDpRank| #[trigger]
                workers@.contains(worker) ==> old(workers)@.contains(worker)
                    || is_attached_live_rank(attachments@, live@, worker),
            forall|worker: WorkerWithDpRank|
                old(workers)@.contains(worker) ==> #[trigger] workers@.contains(worker),
            forall|j: int|
                0 <= j < i && is_valid_attachment(attachments@, (#[trigger] listing[j]).1)
                    && listing[j].0 == listing[j].1.record_id && live@.dom().contains(
                    listing[j].1.worker,
                ) ==> workers@.contains(listing[j].1.worker),
        decreases len - i,
    {
        let attachment = *attachments.value_at(i);
        let key: u64 = attachments.key_at(i);
        proof {
            lemma_listed_pairs(listing);
            assert(listing.contains(listing[i as int]));
        }
        if attachment.record_id == key && attachment.protocol_version == KvStateProtocolVersion::V2
            && live.contains_key(&attachment.worker) {
            proof {
                assert(is_valid_attachment(attachments@, attachment));
            }
            push_unique(workers, attachment.worker);
        }
        i = i + 1;
    }
    proof {
        lemma_listed_pairs(listing);
        assert forall|worker: WorkerWithDpRank| is_attached_live_rank(
            attachments@,
            live@,
            worker,
        ) implies #[trigger] workers@.contains(worker) by {
            let attachment = choose|attachment: KvStateAttachmentAdvertisement|
                #[trigger] is_valid_attachment(attachments@, attachment) && attachment.worker
                    == worker;
            let pair = (attachment.record_id, attachment);
            assert(listing.contains(pair));
            let j = choose|j: int| 0 <= j < listing.len() && listing[j] == pair;
            assert(listing[j].1 == attachment);
        }
    }
}

/// The ranks to suppress while state sources are being scheduled.
pub fn recognized_ranks(
    view: &KvSourceMembershipView,
    sources: &Table<u64, KvStateSourceAdvertisement>,
    attachments: &Table<u64, KvStateAttachmentAdvertisement>,
    expected: &SourceExpectation,
    runtime: &Table<CacheOwnerId, OwnerRuntime>,
) -> (workers: Vec<WorkerWithDpRank>)
    ensures
        workers@.no_duplicates(),
        forall|worker: WorkerWithDpRank| #[trigger]
            workers@.contains(worker) <==> is_recognized_rank(
                sources@,
                attachments@,
                *expected,
                view.sources@,
                view.kv_event_source_mode@,
                runtime@,
                worker,
            ),
{
    let mut workers = source_mode_suppressed_workers(view);
    add_attached_ranks(&mut workers, attachments, &view.sources);
    let ghost base = workers@;
    let len: usize = runtime.len();
    let ghost listing = runtime.listing();
    let ghost live = view.sources@;
    let mut i: usize = 0;
    while i < len
        invariant
            i <= len,
            len == listing.len(),
            listing == runtime.listing(),
            live == view.sources@,
            forall|j: int|
                0 <= j < len ==> runtime@.dom().contains((#[trigger] listing[j]).0)
                    && runtime@[listing[j].0] == listing[j].1,
            workers@.no_duplicates(),
            forall|worker: WorkerWithDpRank|
                base.contains(worker) ==> #[trigger] workers@.contains(worker),
            forall|worker: WorkerWithDpRank| #[trigger]
                workers@.contains(worker) ==> base.contains(worker) || (live.dom().contains(worker)
                    && exists|owner: CacheOwnerId|
                    {
                        &&& #[trigger] runtime@.dom().contains(owner)
                        &&& runtime@[owner].last_worker == Some(worker)
                        &&& owner_has_source(sources@, *expected, owner)
                        &&& !owner_is_claimed(sources@, attachments@, *expected, live, owner)
                    }),
            forall|j: int|
                0 <= j < i && (#[trigger] listing[j]).1.last_worker is Some && live.dom().contains(
                    listing[j].1.last_worker->0,
                ) && owner_has_source(sources@, *expected, listing[j].0) && !owner_is_claimed(
                    sources@,
                    attachments@,
                    *expected,
                    live,
                    listing[j].0,
                ) ==> workers@.contains(listing[j].1.last_worker->0),
        decreases len - i,
    {
        let owner = runtime.key_at(i);
        if let Some(worker) = runtime.value_at(i).last_worker {
            if view.sources.contains_key(&worker) {
                let source_list = list_owner_sources(sources, expected, owner);
                let attachment_list = list_owner_attachments(attachments, owner);
                proof {
                    lemma_claimed(
                        sources@,
                        attachments@,
                        *expected,
                        live,
                        owner,
                        source_list@,
                        attachment_list@,
                    );
                }
                let claimed: bool = source_list.len() == 1 && attachment_list.len() == 1
                    && attachment_claims_rank_of(&attachment_list[0], &source_list[0])
                    && view.sources.contains_key(&attachment_list[0].worker);
                if source_list.len() > 0 && !claimed {
                    proof {
                        assert(runtime@.dom().contains(listing[i as int].0));
                    }
                    push_unique(&mut workers, worker);
                }
            }
        }
        i = i + 1;
    }
    proof {
        assert forall|worker: WorkerWithDpRank| is_recognized_rank(
            sources@,
            attachments@,
            *expected,
            view.sources@,
            view.kv_event_source_mode@,
            runtime@,
            worker,
        ) implies #[trigger] workers@.contains(worker) by {
            if !base.contains(worker) {
                let owner = choose|owner: CacheOwnerId|
                    {
                        &&& #[trigger] runtime@.dom().contains(owner)
                        &&& runtime@[owner].last_worker == Some(worker)
                        &&& owner_has_source(sources@, *expected, owner)
                        &&& !owner_is_claimed(sources@, attachments@, *expected, live, owner)
                    };
                assert(has_entry(listing, owner));
                let j = choose|j: int| 0 <= j < listing.len() && (#[trigger] listing[j]).0 == owner;
                assert(listing[j].1.last_worker == Some(worker));
            }
        }
    }
    workers
}

/// An advertisement on the right endpoint and topic is taken in under its discovery id, unless it
/// cannot be decoded or another one stands there; a repeated one changes nothing.
pub proof fn law_advertisement_is_kept_until_withdrawn(
    values: &mut Table<u64, KvStateSourceAdvertisement>,
    publisher_id: u64,
    value: Option<KvStateSourceAdvertisement>,
    endpoint: u64,
    topic: KvStateTopic,
    changed: Result<bool, AdvertisementError>,
    other: u64,
)
    requires
        call_ensures(
            update_advertisements::<KvStateSourceAdvertisement>,
            (
                values,
                DiscoveryChange::Added { scope: Some(endpoint), topic, publisher_id, value },
                endpoint,
                topic,
            ),
            changed,
        ),
    ensures
        ({
            let stood = old(values)@.dom().contains(publisher_id);
            let fits = value is Some && (!stood || old(values)@[publisher_id] == value->0);
            &&& fits ==> changed == Ok::<bool, AdvertisementError>(true)
                && final(values)@.dom().contains(publisher_id) && final(values)@[publisher_id]
                == value->0
            &&& !fits ==> changed is Err && final(values)@ == old(values)@
            &&& value is None ==> changed->Err_0 == AdvertisementError::Undecodable
            &&& value is Some && !fits ==> changed->Err_0 == AdvertisementError::IdentityChanged
            &&& stood && fits ==> final(values)@ == old(values)@
        }),
        other != publisher_id ==> {
            &&& final(values)@.dom().contains(other) == old(values)@.dom().contains(other)
            &&& final(values)@[other] == old(values)@[other]
        },
{
    if old(values)@.dom().contains(publisher_id) && value is Some && old(values)@[publisher_id]
        == value->0 {
        assert(final(values)@ =~= old(values)@);
    }
}

/// A withdrawal on the right endpoint and topic takes its advertisement away, and no other, and
/// tells whether there was one.
pub proof fn law_withdrawal_takes_one_away(
    values: &mut Table<u64, KvStateSourceAdvertisement>,
    publisher_id: u64,
    endpoint: u64,
    topic: KvStateTopic,
    changed: Result<bool, AdvertisementError>,
    other: u64,
)
    requires
        call_ensures(
            update_advertisements::<KvStateSourceAdvertisement>,
            (
                values,
                DiscoveryChange::Removed { scope: Some(endpoint), topic, publisher_id },
                endpoint,
                topic,
            ),
            changed,
        ),
    ensures
        !final(values)@.dom().contains(publisher_id),
        changed == Ok::<bool, AdvertisementError>(old(values)@.dom().contains(publisher_id)),
        other != publisher_id ==> {
            &&& final(values)@.dom().contains(other) == old(values)@.dom().contains(other)
            &&& old(values)@.dom().contains(other) ==> final(values)@[other]
                == old(values)@[other]
        },
{
}

/// A change for another endpoint or topic, or for no endpoint, changes nothing and is no error.
pub proof fn law_change_of_another_endpoint_is_ignored(
    values: &mut Table<u64, KvStateSourceAdvertisement>,
    change: DiscoveryChange<KvStateSourceAdvertisement>,
    endpoint: u64,
    expected_topic: KvStateTopic,
    changed: Result<bool, AdvertisementError>,
)
    requires
        call_ensures(
            update_advertisements::<KvStateSourceAdvertisement>,
            (values, change, endpoint, expected_topic),
            changed,
        ),
        match change {
            DiscoveryChange::Added { scope, topic, .. } => scope != Some(endpoint) || topic
                != expected_topic,
            DiscoveryChange::Removed { scope, topic, .. } => scope != Some(endpoint) || topic
                != expected_topic,
            DiscoveryChange::Unrelated => true,
        },
    ensures
        final(values)@ == old(values)@,
        changed == Ok::<bool, AdvertisementError>(false),
{
}

/// A source feeds this router only where everything agrees; one field that differs rules it out.
pub proof fn law_source_must_agree_in_everything(
    source: &KvStateSourceAdvertisement,
    discovery_id: u64,
    expected: &SourceExpectation,
    ok: bool,
)
    requires
        call_ensures(source_is_compatible, (source, discovery_id, expected), ok),
    ensures
        source.publisher_id != discovery_id ==> !ok,
        source.protocol_version != KvStateProtocolVersion::V2 ==> !ok,
        source.event_topic != KvStateTopic::EventV2 ==> !ok,
        source.kv_state_endpoint != expected.kv_state_endpoint ==> !ok,
        source.kv_block_size != expected.kv_block_size ==> !ok,
        source.ingress_protocol != KvStateIngressProtocol::VllmResidencyV1 ==> !ok,
        source.cache_owner_id.indexer_domain != source.indexer_domain_id ==> !ok,
        source.publisher_id == discovery_id && source.protocol_version
            == KvStateProtocolVersion::V2 && source.event_topic == KvStateTopic::EventV2
            && source.kv_state_endpoint == expected.kv_state_endpoint && source.kv_block_size
            == expected.kv_block_size && source.ingress_protocol
            == KvStateIngressProtocol::VllmResidencyV1 && source.cache_owner_id.indexer_domain
            == source.indexer_domain_id ==> ok,
{
}

/// The listed sources of an owner are its advertised ones that stand under their own id and agree
/// with this router in everything, and all of them are listed.
pub proof fn law_owner_sources_are_listed(
    sources: &Table<u64, KvStateSourceAdvertisement>,
    expected: &SourceExpectation,
    owner: CacheOwnerId,
    found: Vec<KvStateSourceAdvertisement>,
    id: u64,
)
    requires
        call_ensures(list_owner_sources, (sources, expected, owner), found),
        sources@.dom().contains(id),
    ensures
        ({
            let source = sources@[id];
            found@.contains(source) && source.publisher_id == id <==> {
                &&& source.cache_owner_id == owner
                &&& source.publisher_id == id
                &&& source.protocol_version == KvStateProtocolVersion::V2
                &&& source.event_topic == KvStateTopic::EventV2
                &&& source.kv_state_endpoint == expected.kv_state_endpoint
                &&& source.kv_block_size == expected.kv_block_size
                &&& source.ingress_protocol == KvStateIngressProtocol::VllmResidencyV1
                &&& source.cache_owner_id.indexer_domain == source.indexer_domain_id
            }
        }),
        found@.no_duplicates(),
{
}

/// The listed attachments of an owner are its advertised ones that stand under their own record
/// id and speak the protocol, and all of them are listed.
pub proof fn law_owner_attachments_are_listed(
    attachments: &Table<u64, KvStateAttachmentAdvertisement>,
    owner: CacheOwnerId,
    found: Vec<KvStateAttachmentAdvertisement>,
    id: u64,
)
    requires
        call_ensures(list_owner_attachments, (attachments, owner), found),
        attachments@.dom().contains(id),
    ensures
        ({
            let attachment = attachments@[id];
            found@.contains(attachment) && attachment.record_id == id <==> {
                &&& attachment.cache_owner_id == owner
                &&& attachment.record_id == id
                &&& attachment.protocol_version == KvStateProtocolVersion::V2
            }
        }),
        found@.no_duplicates(),
{
}

/// An attachment claims a rank of a source of the same publisher, protocol and data-parallel
/// rank, and may be activated where the recovery target and the ingress protocol agree as well.
pub proof fn law_attachment_fits_the_source_it_names(
    attachment: &KvStateAttachmentAdvertisement,
    source: &KvStateSourceAdvertisement,
    claims: bool,
    fits: bool,
)
    requires
        call_ensures(attachment_claims_rank_of, (attachment, source), claims),
        call_ensures(attachment_fits_source, (attachment, source), fits),
    ensures
        claims <==> attachment.publisher_id == source.publisher_id && attachment.protocol_version
            == source.protocol_version && attachment.worker.dp_rank == source.global_dp_rank,
        fits ==> claims,
        fits ==> attachment.recovery_control_target == source.recovery_control_target,
        fits ==> attachment.ingress_protocol == source.ingress_protocol,
        claims && attachment.recovery_control_target == source.recovery_control_target
            && attachment.ingress_protocol == source.ingress_protocol ==> fits,
{
}

/// Every live rank with a valid attachment is suppressed before anything is recovered, and so is
/// every live rank whose worker declares another mode; a rank that is not live never is.
pub proof fn law_attached_live_rank_is_recognized(
    view: &KvSourceMembershipView,
    sources: &Table<u64, KvStateSourceAdvertisement>,
    attachments: &Table<u64, KvStateAttachmentAdvertisement>,
    expected: &SourceExpectation,
    runtime: &Table<CacheOwnerId, OwnerRuntime>,
    workers: Vec<WorkerWithDpRank>,
    record_id: u64,
    worker: WorkerWithDpRank,
)
    requires
        call_ensures(recognized_ranks, (view, sources, attachments, expected, runtime), workers),
    ensures
        attachments@.dom().contains(record_id) && attachments@[record_id].record_id == record_id
            && attachments@[record_id].protocol_version == KvStateProtocolVersion::V2
            && view.sources@.dom().contains(attachments@[record_id].worker)
            ==> workers@.contains(attachments@[record_id].worker),
        workers@.contains(worker) ==> view.sources@.dom().contains(worker),
        workers@.no_duplicates(),
{
    let attachment = attachments@[record_id];
    if attachments@.dom().contains(record_id) && attachment.record_id == record_id
        && attachment.protocol_version == KvStateProtocolVersion::V2 {
        assert(is_valid_attachment(attachments@, attachment));
        if view.sources@.dom().contains(attachment.worker) {
            assert(is_attached_live_rank(attachments@, view.sources@, attachment.worker));
        }
    }
}

/// The last worker of an owner is suppressed while the owner's source is there without any
/// attachment, as long as that worker is live.
pub proof fn law_detached_owner_keeps_its_rank_suppressed(
    view: &KvSourceMembershipView,
    sources: &Table<u64, KvStateSourceAdvertisement>,
    attachments: &Table<u64, KvStateAttachmentAdvertisement>,
    expected: &SourceExpectation,
    runtime: &Table<CacheOwnerId, OwnerRuntime>,
    workers: Vec<WorkerWithDpRank>,
    source: KvStateSourceAdvertisement,
    worker: WorkerWithDpRank,
)
    requires
        call_ensures(recognized_ranks, (view, sources, attachments, expected, runtime), workers),
        is_owner_source(sources@, *expected, source.cache_owner_id, source),
        runtime@.dom().contains(source.cache_owner_id),
        runtime@[source.cache_owner_id].last_worker == Some(worker),
        view.sources@.dom().contains(worker),
        forall|id: u64| #[trigger]
            attachments@.dom().contains(id) ==> attachments@[id].cache_owner_id
                != source.cache_owner_id,
    ensures
        workers@.contains(worker),
{
    let owner = source.cache_owner_id;
    assert(owner_has_source(sources@, *expected, owner));
    if owner_is_claimed(sources@, attachments@, *expected, view.sources@, owner) {
        let (claiming, attachment) = choose|
            claiming: KvStateSourceAdvertisement,
            attachment: KvStateAttachmentAdvertisement,
        |
            {
                &&& #[trigger] only_source(sources@, *expected, owner, claiming)
                &&& #[trigger] only_attachment(attachments@, owner, attachment)
                &&& claims_rank_of(attachment, claiming)
                &&& view.sources@.dom().contains(attachment.worker)
            };
        assert(attachments@.dom().contains(attachment.record_id));
    }
    assert(is_recognized_rank(
        sources@,
        attachments@,
        *expected,
        view.sources@,
        view.kv_event_source_mode@,
        runtime@,
        worker,
    ));
}

/// A rank is suppressed for no other reason than these: its worker declares another mode, a valid
/// attachment names it, or an owner with an advertised source had it last.
pub proof fn law_rank_without_a_claim_is_not_recognized(
    view: &KvSourceMembershipView,
    sources: &Table<u64, KvStateSourceAdvertisement>,
    attachments: &Table<u64, KvStateAttachmentAdvertisement>,
    expected: &SourceExpectation,
    runtime: &Table<CacheOwnerId, OwnerRuntime>,
    workers: Vec<WorkerWithDpRank>,
    worker: WorkerWithDpRank,
)
    requires
        call_ensures(recognized_ranks, (view, sources, attachments, expected, runtime), workers),
        view.sources@.dom().contains(worker),
    ensures
        view.kv_event_source_mode@.dom().contains(worker.worker_id)
            && view.kv_event_source_mode@[worker.worker_id]@ != "framework_v1"@
            ==> workers@.contains(worker),
        (!view.kv_event_source_mode@.dom().contains(worker.worker_id)
            || view.kv_event_source_mode@[worker.worker_id]@ == "framework_v1"@) && (forall|id: u64|
            #[trigger]
            attachments@.dom().contains(id) ==> attachments@[id].worker != worker) && (forall|
            owner: CacheOwnerId,
        | #[trigger]
            runtime@.dom().contains(owner) ==> runtime@[owner].last_worker != Some(worker))
            ==> !workers@.contains(worker),
{
    if is_attached_live_rank(attachments@, view.sources@, worker) {
        let attachment = choose|attachment: KvStateAttachmentAdvertisement|
            #[trigger] is_valid_attachment(attachments@, attachment) && attachment.worker
                == worker;
        assert(attachments@.dom().contains(attachment.record_id));
    }
}

/// An owner whose one source and one valid attachment agree on a live rank does not hold its last
/// worker's rank back, where that rank has no attachment and no other owner had it.
pub proof fn law_claimed_owner_lets_its_old_rank_go(
    view: &KvSourceMembershipView,
    sources: &Table<u64, KvStateSourceAdvertisement>,
    attachments: &Table<u64, KvStateAttachmentAdvertisement>,
    expected: &SourceExpectation,
    runtime: &Table<CacheOwnerId, OwnerRuntime>,
    workers: Vec<WorkerWithDpRank>,
    source: KvStateSourceAdvertisement,
    attachment: KvStateAttachmentAdvertisement,
    worker: WorkerWithDpRank,
)
    requires
        call_ensures(recognized_ranks, (view, sources, attachments, expected, runtime), workers),
        only_source(sources@, *expected, source.cache_owner_id, source),
        only_attachment(attachments@, source.cache_owner_id, attachment),
        attachment.publisher_id == source.publisher_id,
        attachment.protocol_version == source.protocol_version,
        attachment.worker.dp_rank == source.global_dp_rank,
        view.sources@.dom().contains(attachment.worker),
        !view.kv_event_source_mode@.dom().contains(worker.worker_id),
        forall|id: u64| #[trigger]
            attachments@.dom().contains(id) ==> attachments@[id].worker != worker,
        forall|owner: CacheOwnerId| #[trigger]
            runtime@.dom().contains(owner) && owner != source.cache_owner_id
                ==> runtime@[owner].last_worker != Some(worker),
    ensures
        !workers@.contains(worker),
{
    let owner = source.cache_owner_id;
    assert(owner_is_claimed(sources@, attachments@, *expected, view.sources@, owner));
    if is_attached_live_rank(attachments@, view.sources@, worker) {
        let named = choose|named: KvStateAttachmentAdvertisement|
            #[trigger] is_valid_attachment(attachments@, named) && named.worker == worker;
        assert(attachments@.dom().contains(named.record_id));
    }
}

/// An attachment that does not agree with the owner's source, or whose rank is not live, does not
/// free the rank of the owner's last worker: it stays suppressed while it is live.
pub proof fn law_disagreeing_attachment_frees_no_rank(
    view: &KvSourceMembershipView,
    sources: &Table<u64, KvStateSourceAdvertisement>,
    attachments: &Table<u64, KvStateAttachmentAdvertisement>,
    expected: &SourceExpectation,
    runtime: &Table<CacheOwnerId, OwnerRuntime>,
    workers: Vec<WorkerWithDpRank>,
    source: KvStateSourceAdvertisement,
    attachment: KvStateAttachmentAdvertisement,
    worker: WorkerWithDpRank,
)
    requires
        call_ensures(recognized_ranks, (view, sources, attachments, expected, runtime), workers),
        is_owner_source(sources@, *expected, source.cache_owner_id, source),
        is_owner_attachment(attachments@, source.cache_owner_id, attachment),
        attachment.publisher_id != source.publisher_id || attachment.protocol_version
            != source.protocol_version || attachment.worker.dp_rank != source.global_dp_rank
            || !view.sources@.dom().contains(attachment.worker),
        runtime@.dom().contains(source.cache_owner_id),
        runtime@[source.cache_owner_id].last_worker == Some(worker),
        view.sources@.dom().contains(worker),
    ensures
        workers@.contains(worker),
{
    let owner = source.cache_owner_id;
    assert(owner_has_source(sources@, *expected, owner));
    if owner_is_claimed(sources@, attachments@, *expected, view.sources@, owner) {
        let (claiming, claim) = choose|
            claiming: KvStateSourceAdvertisement,
            claim: KvStateAttachmentAdvertisement,
        |
            {
                &&& #[trigger] only_source(sources@, *expected, owner, claiming)
                &&& #[trigger] only_attachment(attachments@, owner, claim)
                &&& claims_rank_of(claim, claiming)
                &&& view.sources@.dom().contains(claim.worker)
            };
        assert(claiming == source && claim == attachment);
    }
}

/// Several sources, or several attachments, free no rank either: the owner's last worker stays
/// suppressed while it is live.
pub proof fn law_rival_claims_free_no_rank(
    view: &KvSourceMembershipView,
    sources: &Table<u64, KvStateSourceAdvertisement>,
    attachments: &Table<u64, KvStateAttachmentAdvertisement>,
    expected: &SourceExpectation,
    runtime: &Table<CacheOwnerId, OwnerRuntime>,
    workers: Vec<WorkerWithDpRank>,
    source: KvStateSourceAdvertisement,
    rival: KvStateSourceAdvertisement,
    attachment: KvStateAttachmentAdvertisement,
    other: KvStateAttachmentAdvertisement,
    worker: WorkerWithDpRank,
)
    requires
        call_ensures(recognized_ranks, (view, sources, attachments, expected, runtime), workers),
        is_owner_source(sources@, *expected, source.cache_owner_id, source),
        (source != rival && is_owner_source(sources@, *expected, source.cache_owner_id, rival)) || (
        attachment != other && is_owner_attachment(
            attachments@,
            source.cache_owner_id,
            attachment,
        ) && is_owner_attachment(attachments@, source.cache_owner_id, other)),
        runtime@.dom().contains(source.cache_owner_id),
        runtime@[source.cache_owner_id].last_worker == Some(worker),
        view.sources@.dom().contains(worker),
    ensures
        workers@.contains(worker),
{
    let owner = source.cache_owner_id;
    assert(owner_has_source(sources@, *expected, owner));
    if owner_is_claimed(sources@, attachments@, *expected, view.sources@, owner) {
        let (claiming, claim) = choose|
            claiming: KvStateSourceAdvertisement,
            claim: KvStateAttachmentAdvertisement,
        |
            {
                &&& #[trigger] only_source(sources@, *expected, owner, claiming)
                &&& #[trigger] only_attachment(attachments@, owner, claim)
                &&& claims_rank_of(claim, claiming)
                &&& view.sources@.dom().contains(claim.worker)
            };
        assert(claiming == source);
    }
}

} // verus!
