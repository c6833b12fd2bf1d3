//! Ingestion and relay core of a soil-moisture edge gateway: the anomaly
//! rule, the ingestion decision for one call, the relay message format,
//! the bounded queue of publish jobs, and the subscription step that turns
//! broker deliveries back into records.

pub mod anomaly;
pub mod decimal;
pub mod ingest;
pub mod outbox;
pub mod payload;
pub mod reading;
pub mod record;
pub mod relay;
pub mod text;
