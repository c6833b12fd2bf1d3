use vstd::prelude::*;
use crate::reading::{binary64_lt, is_nan, less_than, order_key};
use crate::record::SoilMoistureData;

verus! {

/// The bit pattern of the binary64 value ten: moisture below it is low.
pub const LOW_MOISTURE_THRESHOLD: u64 = 0x4024_0000_0000_0000;

/// The outcome of the anomaly rule on one record.
#[derive(Debug, Clone, PartialEq, Eq)]
pub enum Classification {
    Normal,
    Warning(String),
}

impl View for Classification {
    /// `None` for a normal record, the reason of the warning otherwise.
    type V = Option<Seq<char>>;

    open spec fn view(&self) -> Option<Seq<char>> {
        match self {
            Classification::Normal => None,
            Classification::Warning(reason) => Some(reason@),
        }
    }
}

pub open spec fn low_moisture_reason() -> Seq<char> {
    "low soil moisture"@
}

pub open spec fn is_low_moisture(moisture_bits: u64) -> bool {
    binary64_lt(moisture_bits, LOW_MOISTURE_THRESHOLD)
}

/// What the anomaly rule makes of a record: it reads the moisture alone.
pub open spec fn classify_spec(d: &SoilMoistureData) -> Option<Seq<char>> {
    if is_low_moisture(d.moisture_level.bits) {
        Some(low_moisture_reason())
    } else {
        None
    }
}

/// The anomaly rule: a warning for moisture below ten, normal otherwise.
pub fn classify(d: &SoilMoistureData) -> (r: Classification)
    ensures
        r@ == classify_spec(d),
{
    if less_than(d.moisture_level.bits, LOW_MOISTURE_THRESHOLD) {
        Classification::Warning(String::from_str("low soil moisture"))
    } else {
        Classification::Normal
    }
}

/// A record whose moisture is at least ten is normal.
pub proof fn lemma_normal_at_or_above_threshold(d: &SoilMoistureData)
    requires
        !is_nan(d.moisture_level.bits),
        order_key(d.moisture_level.bits) >= order_key(LOW_MOISTURE_THRESHOLD),
    ensures
        classify_spec(d) == None::<Seq<char>>,
{
}

/// A record whose moisture is below ten gets a warning with a non-empty reason.
pub proof fn lemma_warning_below_threshold(d: &SoilMoistureData)
    requires
        binary64_lt(d.moisture_level.bits, LOW_MOISTURE_THRESHOLD),
    ensures
        classify_spec(d) matches Some(reason) && reason.len() > 0,
{
    reveal_strlit("low soil moisture");
}

/// The rule is a function of the record: two records with the same
/// moisture, and in particular the same record classified twice, get the
/// same classification.
pub proof fn lemma_classify_deterministic(a: &SoilMoistureData, b: &SoilMoistureData)
    requires
        a.moisture_level.bits == b.moisture_level.bits,
    ensures
        classify_spec(a) == classify_spec(b),
{
}

} // verus!
