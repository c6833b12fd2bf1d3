use vstd::prelude::*;
use crate::anomaly::{classify, classify_spec, Classification};
use crate::decimal::in_i64_range;
use crate::payload::{decomposes, encode_payload, fields_well_formed, lemma_decomposition_unique, record_payload};
use crate::record::{is_valid_record, SoilMoistureData, StreamResponse};

verus! {

/// A message to hand to the broker, detached from the call that made it.
#[derive(Debug, Clone)]
pub struct PublishJob {
    pub topic: String,
    pub payload: String,
}

/// What one accepted call decides: the acknowledgment for the caller, a
/// warning line for the log when the anomaly rule flags the record, and
/// the one message to relay.
#[derive(Debug, Clone)]
pub struct Dispatch {
    pub ack: StreamResponse,
    pub warning: Option<String>,
    pub publish: PublishJob,
}

pub struct DispatchView {
    pub status: Seq<char>,
    pub warning: Option<Seq<char>>,
    pub topic: Seq<char>,
    pub payload: Seq<char>,
}

impl View for Dispatch {
    type V = DispatchView;

    open spec fn view(&self) -> DispatchView {
        DispatchView {
            status: self.ack.status@,
            warning: match self.warning {
                Some(w) => Some(w@),
                None => None,
            },
            topic: self.publish.topic@,
            payload: self.publish.payload@,
        }
    }
}

/// Why a call is rejected before any work is done.
#[derive(Debug, Clone, PartialEq, Eq)]
pub enum RequestError {
    /// The request lacks a device identifier.
    InvalidArgument,
}

pub open spec fn ack_status() -> Seq<char> {
    "Data received and forwarded"@
}

pub open spec fn relay_topic() -> Seq<char> {
    "soil_moisture"@
}

pub open spec fn warning_prefix() -> Seq<char> {
    "Warning: Low soil moisture detected for device "@
}

/// What an accepted call decides for a record.
pub open spec fn dispatch_spec(d: &SoilMoistureData) -> DispatchView {
    DispatchView {
        status: ack_status(),
        warning: if classify_spec(d) is Some {
            Some(warning_prefix() + d.device_id@)
        } else {
            None
        },
        topic: relay_topic(),
        payload: record_payload(d),
    }
}

/// The ingestion endpoint. It holds no state: the broker connection that
/// carries out the publish is owned by whoever runs the returned job.
#[derive(Debug, Default)]
pub struct SoilMoistureServiceImpl {}

impl SoilMoistureServiceImpl {
    pub fn new() -> SoilMoistureServiceImpl {
        SoilMoistureServiceImpl {}
    }

    /// Decides one call: rejects a record without a device identifier;
    /// otherwise runs the anomaly rule and returns the acknowledgment with
    /// the publish job, which the caller starts without awaiting it.
    pub fn stream_soil_moisture_data(&self, data: &SoilMoistureData) -> (r: Result<Dispatch, RequestError>)
        ensures
            r is Err <==> !is_valid_record(data),
            r matches Ok(dispatch) ==> dispatch@ == dispatch_spec(data),
    {
        if data.device_id.unicode_len() == 0 {
            return Err(RequestError::InvalidArgument);
        }
        let warning = match classify(data) {
            Classification::Warning(_) => {
                let mut line = String::from_str("Warning: Low soil moisture detected for device ");
                line.append(data.device_id.as_str());
                Some(line)
            },
            Classification::Normal => None,
        };
        let dispatch = Dispatch {
            ack: StreamResponse { status: String::from_str("Data received and forwarded") },
            warning,
            publish: PublishJob {
                topic: String::from_str("soil_moisture"),
                payload: encode_payload(data),
            },
        };
        Ok(dispatch)
    }
}

/// The acknowledgment carries nothing of the publish: every accepted
/// record gets the same status, whatever becomes of its message.
pub proof fn lemma_ack_uniform(a: &SoilMoistureData, b: &SoilMoistureData)
    requires
        is_valid_record(a),
        is_valid_record(b),
    ensures
        dispatch_spec(a).status == dispatch_spec(b).status,
        dispatch_spec(a).status == ack_status(),
{
}

/// The fields of a record in the order the relay message lists them.
pub open spec fn record_fields(d: &SoilMoistureData) -> (Seq<char>, Seq<char>, Seq<char>, Seq<char>, int) {
    (d.device_id@, d.moisture_level.text@, d.temperature.text@, d.ph_level.text@, d.timestamp as int)
}

/// An accepted call relays one message, and that message reads back as
/// the record's own fields and no others.
pub proof fn lemma_publish_carries_record(d: &SoilMoistureData)
    requires
        is_valid_record(d),
        fields_well_formed(d.device_id@, d.moisture_level.text@, d.temperature.text@, d.ph_level.text@),
    ensures
        decomposes(dispatch_spec(d).payload, record_fields(d)),
        forall|x: (Seq<char>, Seq<char>, Seq<char>, Seq<char>, int)|
            decomposes(dispatch_spec(d).payload, x) ==> x == record_fields(d),
{
    assert(in_i64_range(d.timestamp as int));
    assert forall|x: (Seq<char>, Seq<char>, Seq<char>, Seq<char>, int)|
        decomposes(dispatch_spec(d).payload, x) implies x == record_fields(d) by {
        lemma_decomposition_unique(dispatch_spec(d).payload, x, record_fields(d));
    }
}

} // verus!
