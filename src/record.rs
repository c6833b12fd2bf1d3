use vstd::prelude::*;
use crate::reading::Reading;

verus! {

/// One telemetry record as a field device sends it.
#[derive(Debug, Clone)]
pub struct SoilMoistureData {
    pub device_id: String,
    pub moisture_level: Reading,
    pub temperature: Reading,
    pub ph_level: Reading,
    pub timestamp: i64,
}

/// The acknowledgment returned to the caller of the ingestion endpoint.
#[derive(Debug, Clone)]
pub struct StreamResponse {
    pub status: String,
}

/// A record is accepted when it names its device.
pub open spec fn is_valid_record(d: &SoilMoistureData) -> bool {
    d.device_id@.len() > 0
}

} // verus!
