//! Ingestion core of a multi-tenant vector-store proxy: JSON batches are
//! normalized into canonical records, scoped to a tenant, embedded and
//! upserted under a coordinator, and scheduled through a task queue.


pub mod json;
pub mod record;
pub mod normalize;
pub mod pipeline;
pub mod coordinator;
pub mod queue;
pub mod models;
