//! DHT sensor logging.
//!
//! A device reads DHT sensors and writes one JSON mapping per poll over a byte
//! stream. This library classifies such a payload into per-sensor readings and
//! failures, assembles a snapshot from the readings, converts snapshots to and
//! from a compact parallel-array wire form, decides when a failed read is
//! retried, and plans how a snapshot is handed to its sinks.
//!
//! Measurement values are carried as IEEE-754 single-precision bit patterns
//! (`u32`): the library moves them around but never does arithmetic on them.

pub mod messages;
pub mod ingest;
pub mod retry;
pub mod dispatch;

pub use ingest::{RawPayload, RawSensor, RawValue, ReadError, Reading, SensorFailure};
pub use retry::{RetryDriver, RetryStep};
pub use dispatch::{DispatchPlan, Severity};
pub use messages::{DhtDataRaw, DhtSensors, DhtSensorsSerde, DecodeError, Measurement, SensorData, Timestamp};

