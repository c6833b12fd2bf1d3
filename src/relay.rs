use vstd::prelude::*;
use crate::payload::{decode_payload, decomposes, fields_text, fields_valid, is_payload, PayloadFields};

verus! {

/// One item of a subscription as the broker client hands it over.
#[derive(Debug, Clone)]
pub enum Delivery {
    /// A message, with its payload as text.
    Message(String),
    /// A message whose payload is absent or not text.
    Unreadable,
    /// A transport-level failure, with the client's description.
    TransportError(String),
}

/// Why a delivery yields no record.
#[derive(Debug, Clone, PartialEq, Eq)]
pub enum BrokerError {
    Transport(String),
    MalformedPayload,
}

/// Whether a delivery carries a well-formed relay message.
pub open spec fn is_record_delivery(d: Delivery) -> bool {
    d matches Delivery::Message(p) && is_payload(p@)
}

/// Decodes one delivery. An error here is reported to the caller, who logs
/// it and goes on to the next delivery.
pub fn on_delivery(d: &Delivery) -> (r: Result<PayloadFields, BrokerError>)
    ensures
        r is Ok <==> is_record_delivery(*d),
        r matches Ok(f) ==> fields_valid(&f) && (d matches Delivery::Message(p) && p@ == fields_text(&f)),
        d matches Delivery::TransportError(m) ==> (r matches Err(BrokerError::Transport(m2)) && m2@ == m@),
        !(d is TransportError) ==> (r is Ok || r matches Err(BrokerError::MalformedPayload)),
{
    match d {
        Delivery::Message(p) => match decode_payload(p.as_str()) {
            Some(f) => {
                assert(decomposes(
                    p@,
                    (f.device_id@, f.moisture_level@, f.temperature@, f.ph_level@, f.timestamp as int),
                ));
                Ok(f)
            },
            None => Err(BrokerError::MalformedPayload),
        },
        Delivery::Unreadable => Err(BrokerError::MalformedPayload),
        Delivery::TransportError(m) => Err(BrokerError::Transport(m.clone())),
    }
}

/// The payload texts of the deliveries that carry records, in order.
pub open spec fn record_payloads(ds: Seq<Delivery>) -> Seq<Seq<char>>
    decreases ds.len(),
{
    if ds.len() == 0 {
        Seq::empty()
    } else {
        let rest = record_payloads(ds.drop_last());
        match ds.last() {
            Delivery::Message(p) => if is_payload(p@) {
                rest.push(p@)
            } else {
                rest
            },
            _ => rest,
        }
    }
}

/// What a run over a batch of deliveries gave.
pub struct ConsumeReport {
    pub records: Vec<PayloadFields>,
    pub errors: Vec<BrokerError>,
}

/// Runs the subscription step over every delivery in order. No error ends
/// the run: each delivery yields either a record or an error.
pub fn consume_all(ds: &Vec<Delivery>) -> (r: ConsumeReport)
    ensures
        r.records@.len() + r.errors@.len() == ds@.len(),
        r.records@.len() == record_payloads(ds@).len(),
        forall|j: int| 0 <= j < r.records@.len() ==>
            fields_text(&#[trigger] r.records@[j]) == record_payloads(ds@)[j],
{
    let mut records: Vec<PayloadFields> = Vec::new();
    let mut errors: Vec<BrokerError> = Vec::new();
    let mut i: usize = 0;
    while i < ds.len()
        invariant
            i <= ds@.len(),
            records@.len() + errors@.len() == i,
            records@.len() == record_payloads(ds@.subrange(0, i as int)).len(),
            forall|j: int| 0 <= j < records@.len() ==>
                fields_text(&#[trigger] records@[j]) == record_payloads(ds@.subrange(0, i as int))[j],
        decreases ds@.len() - i,
    {
        let ghost before = ds@.subrange(0, i as int);
        let ghost after = ds@.subrange(0, i + 1);
        assert(after.drop_last() =~= before);
        assert(after.last() == ds@[i as int]);
        match on_delivery(&ds[i]) {
            Ok(f) => {
                assert(record_payloads(after) == record_payloads(before).push(fields_text(&f)));
                records.push(f);
            },
            Err(e) => {
                assert(record_payloads(after) == record_payloads(before));
                errors.push(e);
            },
        }
        i = i + 1;
        assert(ds@.subrange(0, i as int) == after);
    }
    assert(ds@.subrange(0, ds@.len() as int) =~= ds@);
    ConsumeReport { records, errors }
}

} // verus!
