use rust_edge::anomaly::{classify, Classification};
use rust_edge::decimal::{append_decimal, parse_decimal_at};
use rust_edge::ingest::{PublishJob, RequestError, SoilMoistureServiceImpl};
use rust_edge::outbox::Outbox;
use rust_edge::payload::{decode_payload, encode_payload, PayloadFields};
use rust_edge::reading::{less_than, Reading};
use rust_edge::record::SoilMoistureData;
use rust_edge::relay::{consume_all, on_delivery, BrokerError, Delivery};

fn reading(x: f64) -> Reading {
    Reading { bits: x.to_bits(), text: x.to_string() }
}

fn record(id: &str, moisture: f64, temperature: f64, ph: f64, timestamp: i64) -> SoilMoistureData {
    SoilMoistureData {
        device_id: id.to_string(),
        moisture_level: reading(moisture),
        temperature: reading(temperature),
        ph_level: reading(ph),
        timestamp,
    }
}

const DEVICE123_PAYLOAD: &str = "{\"device_id\":\"device123\",\"moisture_level\":42.5,\"temperature\":21,\"ph_level\":6.8,\"timestamp\":1625247600}";

#[test]
fn less_than_agrees_with_f64_comparison() {
    let values = [
        0.0, -0.0, 1.0, -1.0, 9.99, 10.0, 10.000001, -10.0, 1e300, -1e300, f64::MIN_POSITIVE,
        f64::INFINITY, f64::NEG_INFINITY, f64::NAN, -f64::NAN, f64::MAX, f64::MIN, 5e-324,
    ];
    for a in values.iter() {
        for b in values.iter() {
            assert_eq!(less_than(a.to_bits(), b.to_bits()), a < b, "{} < {}", a, b);
        }
    }
}

#[test]
fn classify_normal_at_and_above_threshold() {
    for m in [10.0, 10.5, 42.5, 100.0, 1e9, f64::INFINITY] {
        assert_eq!(classify(&record("d", m, 20.0, 7.0, 0)), Classification::Normal);
    }
}

#[test]
fn classify_warns_below_threshold() {
    for m in [9.999, 5.0, 0.0, -0.0, -3.0, f64::NEG_INFINITY] {
        match classify(&record("d", m, 20.0, 7.0, 0)) {
            Classification::Warning(reason) => {
                assert_eq!(reason, "low soil moisture");
                assert!(!reason.is_empty());
            }
            Classification::Normal => panic!("expected a warning for {}", m),
        }
    }
}

#[test]
fn classify_nan_moisture_is_normal() {
    assert_eq!(classify(&record("d", f64::NAN, 20.0, 7.0, 0)), Classification::Normal);
}

#[test]
fn classify_twice_gives_same_result() {
    let r = record("d", 7.5, 20.0, 7.0, 0);
    assert_eq!(classify(&r), classify(&r));
    let s = record("d", 70.5, 20.0, 7.0, 0);
    assert_eq!(classify(&s), classify(&s));
}

#[test]
fn handler_forwards_normal_record() {
    let service = SoilMoistureServiceImpl::new();
    let data = record("device123", 42.5, 21.0, 6.8, 1625247600);
    let dispatch = match service.stream_soil_moisture_data(&data) {
        Ok(d) => d,
        Err(e) => panic!("rejected: {:?}", e),
    };
    assert_eq!(dispatch.ack.status, "Data received and forwarded");
    assert!(dispatch.warning.is_none());
    assert_eq!(dispatch.publish.topic, "soil_moisture");
    assert_eq!(dispatch.publish.payload, DEVICE123_PAYLOAD);
}

#[test]
fn handler_warns_on_low_moisture_and_still_forwards() {
    let service = SoilMoistureServiceImpl::default();
    let data = record("d1", 5.0, 18.0, 6.5, 1625247601);
    let dispatch = match service.stream_soil_moisture_data(&data) {
        Ok(d) => d,
        Err(e) => panic!("rejected: {:?}", e),
    };
    assert_eq!(dispatch.warning.as_deref(), Some("Warning: Low soil moisture detected for device d1"));
    assert_eq!(dispatch.ack.status, "Data received and forwarded");
    assert_eq!(dispatch.publish.topic, "soil_moisture");
    assert_eq!(
        dispatch.publish.payload,
        "{\"device_id\":\"d1\",\"moisture_level\":5,\"temperature\":18,\"ph_level\":6.5,\"timestamp\":1625247601}"
    );
}

#[test]
fn handler_rejects_missing_device_id() {
    let service = SoilMoistureServiceImpl::new();
    let data = record("", 42.5, 21.0, 6.8, 1);
    assert_eq!(service.stream_soil_moisture_data(&data).err(), Some(RequestError::InvalidArgument));
}

#[test]
fn ack_does_not_depend_on_publish() {
    // The publish job is never run here, as with a broker that never
    // completes: the acknowledgment is already in hand.
    let service = SoilMoistureServiceImpl::new();
    let a = service.stream_soil_moisture_data(&record("a", 1.0, 2.0, 3.0, 4)).ok().unwrap();
    let b = service.stream_soil_moisture_data(&record("b", 50.0, 2.0, 3.0, -4)).ok().unwrap();
    assert_eq!(a.ack.status, b.ack.status);
    assert_eq!(a.ack.status, "Data received and forwarded");
}

#[test]
fn publish_carries_record_fields_exactly() {
    let service = SoilMoistureServiceImpl::new();
    let data = record("sensor-7", 33.25, -4.5, 7.125, -1625247600);
    let dispatch = service.stream_soil_moisture_data(&data).ok().unwrap();
    let fields = decode_payload(&dispatch.publish.payload).unwrap();
    assert_eq!(
        fields,
        PayloadFields {
            device_id: "sensor-7".to_string(),
            moisture_level: "33.25".to_string(),
            temperature: "-4.5".to_string(),
            ph_level: "7.125".to_string(),
            timestamp: -1625247600,
        }
    );
    assert_eq!(fields.moisture_level.parse::<f64>().unwrap(), 33.25);
}

#[test]
fn encode_writes_flat_object() {
    let data = record("device123", 42.5, 21.0, 6.8, 1625247600);
    assert_eq!(encode_payload(&data), DEVICE123_PAYLOAD);
}

#[test]
fn decode_reads_flat_object() {
    let f = decode_payload(DEVICE123_PAYLOAD).unwrap();
    assert_eq!(f.device_id, "device123");
    assert_eq!(f.moisture_level, "42.5");
    assert_eq!(f.temperature, "21");
    assert_eq!(f.ph_level, "6.8");
    assert_eq!(f.timestamp, 1625247600);
}

#[test]
fn decode_keeps_unicode_device_id() {
    let data = record("capteur-é-ü", 12.0, 1.0, 2.0, 0);
    let f = decode_payload(&encode_payload(&data)).unwrap();
    assert_eq!(f.device_id, "capteur-é-ü");
    assert_eq!(f.timestamp, 0);
}

#[test]
fn decode_rejects_malformed_text() {
    for bad in [
        "",
        "not json",
        "{\"device_id\":\"d\",\"moisture_level\":1,\"temperature\":2,\"ph_level\":3}",
        "{\"device_id\":\"d\",\"moisture_level\":,\"temperature\":2,\"ph_level\":3,\"timestamp\":4}",
        "{\"device_id\":\"d\",\"moisture_level\":1,\"temperature\":2,\"ph_level\":3,\"timestamp\":4",
        "{\"device_id\":\"d\",\"moisture_level\":1,\"temperature\":2,\"ph_level\":3,\"timestamp\":x}",
        "{\"device_id\":\"d\",\"moisture_level\":1,\"temperature\":2,\"ph_level\":3,\"timestamp\":007}",
        "{\"device_id\":\"d\",\"moisture_level\":1,\"temperature\":2,\"ph_level\":3,\"timestamp\":9223372036854775808}",
        "{\"device_id\":\"d\",\"moisture_level\":1,\"temperature\":2,\"ph_level\":3,\"timestamp\":4}x",
    ] {
        assert!(decode_payload(bad).is_none(), "{}", bad);
    }
}

#[test]
fn decode_extreme_timestamps() {
    for t in [i64::MIN, i64::MAX, -1, 0] {
        let data = record("d", 12.0, 1.0, 2.0, t);
        assert_eq!(decode_payload(&encode_payload(&data)).unwrap().timestamp, t);
    }
}

#[test]
fn decimal_text_of_integers() {
    for (t, text) in [(0i64, "0"), (7, "7"), (1625247600, "1625247600"), (-42, "-42"), (i64::MIN, "-9223372036854775808"), (i64::MAX, "9223372036854775807")] {
        let mut out = String::from("ts=");
        append_decimal(&mut out, t);
        assert_eq!(out, format!("ts={}", text));
    }
}

#[test]
fn parse_decimal_values() {
    let s = "x-9223372036854775808y";
    assert_eq!(parse_decimal_at(s, 1, 21), Some(i64::MIN));
    assert_eq!(parse_decimal_at("9223372036854775807", 0, 19), Some(i64::MAX));
    assert_eq!(parse_decimal_at("9223372036854775808", 0, 19), None);
    assert_eq!(parse_decimal_at("-", 0, 1), None);
    assert_eq!(parse_decimal_at("", 0, 0), None);
    assert_eq!(parse_decimal_at("12a", 0, 3), None);
    assert_eq!(parse_decimal_at("12a", 0, 2), Some(12));
}

#[test]
fn malformed_then_valid_yields_one_error_and_one_record() {
    let deliveries = vec![
        Delivery::Message("{garbage".to_string()),
        Delivery::Message(DEVICE123_PAYLOAD.to_string()),
    ];
    let report = consume_all(&deliveries);
    assert_eq!(report.errors, vec![BrokerError::MalformedPayload]);
    assert_eq!(report.records.len(), 1);
    assert_eq!(report.records[0].device_id, "device123");
}

#[test]
fn transport_errors_do_not_end_the_run() {
    let deliveries = vec![
        Delivery::TransportError("broker down".to_string()),
        Delivery::Unreadable,
        Delivery::Message(DEVICE123_PAYLOAD.to_string()),
        Delivery::Message(DEVICE123_PAYLOAD.to_string()),
    ];
    let report = consume_all(&deliveries);
    assert_eq!(
        report.errors,
        vec![BrokerError::Transport("broker down".to_string()), BrokerError::MalformedPayload]
    );
    assert_eq!(report.records.len(), 2);
    assert_eq!(on_delivery(&Delivery::Unreadable), Err(BrokerError::MalformedPayload));
}

fn job(n: i64) -> PublishJob {
    PublishJob { topic: "soil_moisture".to_string(), payload: format!("job {}", n) }
}

#[test]
fn outbox_drops_new_jobs_when_full() {
    let mut outbox = Outbox::new(2);
    assert!(outbox.offer(job(1)));
    assert!(outbox.offer(job(2)));
    assert!(!outbox.offer(job(3)));
    assert_eq!(outbox.len(), 2);
    assert_eq!(outbox.take().unwrap().payload, "job 1");
    assert!(outbox.offer(job(4)));
    assert_eq!(outbox.take().unwrap().payload, "job 2");
    assert_eq!(outbox.take().unwrap().payload, "job 4");
    assert!(outbox.take().is_none());
    assert_eq!(outbox.len(), 0);
}

#[test]
fn outbox_of_bound_zero_accepts_nothing() {
    let mut outbox = Outbox::new(0);
    assert!(!outbox.offer(job(1)));
    assert!(outbox.take().is_none());
}
