use dht_logger::{DecodeError, DhtDataRaw, DhtSensors, DhtSensorsSerde, Measurement, SensorData, Timestamp};

fn bits(v: f32) -> u32 {
    v.to_bits()
}

fn data(t: f32, h: f32, hi: f32) -> SensorData {
    SensorData { temperature: bits(t), humidity: bits(h), heat_index: bits(hi) }
}

fn snapshot(entries: &[(&str, SensorData)]) -> DhtSensors {
    DhtSensors {
        timestamp: Timestamp { secs: 1_700_000_000, nanos: 250 },
        data: entries.iter().map(|(l, d)| (l.to_string(), *d)).collect(),
    }
}

#[test]
fn test_convert_from_raw() {
    let raw = DhtDataRaw { t: bits(21.3), h: bits(52.7), hi: bits(22.8) };

    let data = SensorData::from(raw.clone());
    assert_eq!(raw.t, data.temperature);
    assert_eq!(raw.h, data.humidity);
    assert_eq!(raw.hi, data.heat_index);
    assert_eq!(f32::from_bits(data.temperature), 21.3);
}

#[test]
fn measurement_holds_error() {
    let error = "test";
    let measurement = Measurement::new(None, Some(error));
    assert!(measurement.get_data().is_none());
    assert!(measurement.get_error().is_some());
    assert_eq!(measurement.get_error().unwrap(), error);
    assert!(measurement.has_error());
    assert!(!measurement.has_data());
}

#[test]
fn measurement_holds_data() {
    let d = data(0.0, 0.0, 0.0);
    let measurement = Measurement::new(Some(d), None);
    assert!(measurement.get_data().is_some());
    assert!(measurement.get_error().is_none());
    assert_eq!(measurement.get_data().unwrap(), d);
    assert!(measurement.has_data());
    assert!(!measurement.has_error());
}

#[test]
fn round_trip_keeps_pairs_and_timestamp() {
    let s = snapshot(&[("kitchen", data(20.5, 40.0, 20.1)), ("attic", data(-3.25, 81.5, -4.0)), ("x", data(0.0, 0.0, 0.0))]);
    let wire = s.to_serde();
    assert_eq!(wire.labels.len(), 3);
    assert_eq!(wire.temperature.len(), 3);
    let back = DhtSensors::from_serde(wire).unwrap();
    assert_eq!(back.timestamp, s.timestamp);
    assert_eq!(back.len(), 3);
    for (label, d) in s.data.iter() {
        assert_eq!(back.get(label), Some(*d));
    }
}

#[test]
fn wire_form_is_index_aligned() {
    let s = snapshot(&[("a", data(1.0, 2.0, 3.0)), ("b", data(4.0, 5.0, 6.0))]);
    let wire = s.to_serde();
    for i in 0..2 {
        let d = s.get(&wire.labels[i]).unwrap();
        assert_eq!(wire.temperature[i], d.temperature);
        assert_eq!(wire.humidity[i], d.humidity);
        assert_eq!(wire.heat_index[i], d.heat_index);
    }
    assert_eq!(wire.temperature[0], bits(1.0));
    assert_eq!(wire.heat_index[1], bits(6.0));
}

#[test]
fn round_trip_of_empty_snapshot() {
    let s = snapshot(&[]);
    let back = DhtSensors::from_serde(s.to_serde()).unwrap();
    assert_eq!(back.len(), 0);
    assert_eq!(back.timestamp, s.timestamp);
}

#[test]
fn decode_rejects_temperature_humidity_length_mismatch() {
    let wire = DhtSensorsSerde {
        timestamp: Timestamp { secs: 5, nanos: 0 },
        labels: vec!["a".to_string(), "b".to_string()],
        temperature: vec![bits(1.0), bits(2.0)],
        humidity: vec![bits(1.0)],
        heat_index: vec![bits(1.0), bits(2.0)],
    };
    assert!(matches!(DhtSensors::from_serde(wire), Err(DecodeError::LengthMismatch)));
}

#[test]
fn decode_rejects_missing_heat_index() {
    let wire = DhtSensorsSerde {
        timestamp: Timestamp { secs: 5, nanos: 0 },
        labels: vec!["a".to_string()],
        temperature: vec![bits(1.0)],
        humidity: vec![bits(1.0)],
        heat_index: vec![],
    };
    assert!(matches!(DhtSensors::from_serde(wire), Err(DecodeError::LengthMismatch)));
}

#[test]
fn decode_rejects_repeated_label() {
    let wire = DhtSensorsSerde {
        timestamp: Timestamp { secs: 5, nanos: 0 },
        labels: vec!["a".to_string(), "a".to_string()],
        temperature: vec![bits(1.0), bits(2.0)],
        humidity: vec![bits(1.0), bits(2.0)],
        heat_index: vec![bits(1.0), bits(2.0)],
    };
    assert!(matches!(DhtSensors::from_serde(wire), Err(DecodeError::DuplicateLabel)));
}

#[test]
fn get_missing_label() {
    let s = snapshot(&[("a", data(1.0, 2.0, 3.0))]);
    assert_eq!(s.get("b"), None);
    assert_eq!(s.get("a"), Some(data(1.0, 2.0, 3.0)));
}

#[test]
fn new_snapshot_is_empty() {
    let t = Timestamp { secs: 9, nanos: 1 };
    let s = DhtSensors::new(t);
    assert_eq!(s.len(), 0);
    assert_eq!(s.timestamp, t);
}

#[test]
fn now_is_after_2020() {
    let t = Timestamp::now();
    assert!(t.secs > 1_577_836_800);
    assert!(t.nanos < 1_000_000_000);
}
