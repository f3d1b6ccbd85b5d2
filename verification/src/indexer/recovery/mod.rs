//! How cache events get into the index, and how they are recovered when some are missing.
pub mod cursor;
pub mod direct_ingress;
pub mod live_batch;
pub mod owner_events;
pub mod owner_recovery;
pub mod owner_runtime;
pub mod publisher_lanes;
pub mod rank_recovery;
pub mod rank_state;
pub mod recovery_fetch;
pub mod schedule_run;
pub mod source_slot;
pub mod state_agent;
pub mod state_recovery;
pub mod state_router;
pub mod state_sources;
pub mod subscription;
pub mod worker_query;
