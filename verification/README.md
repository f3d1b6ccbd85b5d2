# kv_router

The decisions of a router that sends requests to the workers whose KV cache already holds most of
their prefix: which event source each rank has, what a live event does to the index, how missing
events are recovered, how the state of shared caches is taken over, and when the optional encoder
and prefill hops are used.

The library is verified with Verus. What waits, connects or exports is in `app/`, which performs
the steps that the library hands out and reports their outcomes.

| module | what it decides |
| --- | --- |
| `membership`, `protocols`, `table` | sources of ranks, plain data, association tables |
| `indexer` | which index is built, where events and resets go, how lookups are joined |
| `indexer::recovery::rank_state`, `source_slot`, `worker_query` | cursor, binding and fence of each rank |
| `indexer::recovery::live_batch`, `rank_recovery`, `recovery_fetch` | live batches and recovery answers, step by step |
| `indexer::recovery::state_sources`, `state_agent`, `state_recovery`, `state_router` | cache owners, their sources and attachments |
| `indexer::recovery::schedule_run`, `owner_recovery`, `owner_events` | reconciliation and recovery of owners, step by step |
| `indexer::recovery::subscription`, `publisher_lanes`, `direct_ingress` | how events reach the router |
| `hop`, `encoder_router`, `prefill_router` | optional hops, their configuration and their answers |
| `load_mailbox`, `metrics` | load updates and what is observed |
| `adapters` | the calls into outside crates, with the contracts that are taken on trust |

An operation that waits on something outside comes as a `begin_..` or `plan_..` and a `finish_..`,
or as a run with `next` and `outcome`. Functions named `law_..` state what holds across operations.
