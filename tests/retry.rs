use dht_logger::dispatch::plan_dispatch;
use dht_logger::retry::BACKOFF_MILLIS;
use dht_logger::{DhtSensors, ReadError, RetryDriver, RetryStep, SensorData, Severity, Timestamp};

fn failed(i: u32) -> Result<DhtSensors, ReadError> {
    Err(ReadError::Transport(format!("attempt {}", i)))
}

fn sample() -> DhtSensors {
    let mut s = DhtSensors::new(Timestamp { secs: 100, nanos: 5 });
    for i in 0..10u32 {
        let v = (i as f32).to_bits();
        s.data.push((format!("{}", i), SensorData { temperature: v, humidity: v, heat_index: v }));
    }
    s
}

#[test]
fn always_failing_source_exhausts_budget() {
    let mut d = RetryDriver::new(4);
    let mut sleeps = 0;
    let mut attempts = 0;
    loop {
        attempts += 1;
        match d.record(failed(attempts)) {
            RetryStep::Retry(ms) => {
                assert_eq!(ms, BACKOFF_MILLIS);
                sleeps += 1;
            }
            RetryStep::GiveUp(ReadError::Transport(m)) => {
                assert_eq!(m, "attempt 4");
                break;
            }
            other => panic!("unexpected step {:?}", other),
        }
    }
    assert_eq!(attempts, 4);
    assert_eq!(sleeps, 3);
    assert_eq!(BACKOFF_MILLIS, 100);
}

#[test]
fn zero_budget_still_tries_once() {
    let mut d = RetryDriver::new(0);
    assert!(matches!(d.record(failed(1)), RetryStep::GiveUp(ReadError::Transport(_))));
    let mut d = RetryDriver::new(1);
    assert!(matches!(d.record(failed(1)), RetryStep::GiveUp(_)));
}

#[test]
fn success_after_failures_is_returned() {
    let mut d = RetryDriver::new(10);
    assert!(matches!(d.record(failed(1)), RetryStep::Retry(100)));
    assert!(matches!(d.record(failed(2)), RetryStep::Retry(100)));
    match d.record(Ok(sample())) {
        RetryStep::Success(s) => assert_eq!(s.len(), 10),
        other => panic!("unexpected step {:?}", other),
    }
    assert_eq!(d.attempts, 2);
}

#[test]
fn test_udp_logger() {
    let data_size = 10;
    let plan = plan_dispatch(&sample(), false, 1);
    assert_eq!(plan.severity, Severity::Debug);
    let data = DhtSensors::from_serde(plan.wire.unwrap());
    assert!(data.is_ok());
    let data = data.unwrap();
    assert_eq!(data.len(), data_size);
    for i in 0..data_size {
        let value = 1.0 * (i as f32);
        let data = data.get(&format!("{}", i)).unwrap();
        assert_eq!(f32::from_bits(data.temperature), value);
        assert_eq!(f32::from_bits(data.humidity), value);
        assert_eq!(f32::from_bits(data.heat_index), value);
    }
}

#[test]
fn verbose_dispatch_logs_at_info_without_remote() {
    let plan = plan_dispatch(&sample(), true, 0);
    assert_eq!(plan.severity, Severity::Info);
    assert!(plan.wire.is_none());
}
