//! Consensus integration layer of a replicated metadata service: the error
//! taxonomy, the leader-forwarding retry rules, the deterministic state
//! machine, store identity, durable records and the storage circuit-breaker,
//! together with the less-than operator on binary values and boolean columns.

pub mod text;
pub mod errors;
pub mod retry;
pub mod state_machine;
pub mod storage;
pub mod record;
pub mod shutdown;
pub mod comparison;
