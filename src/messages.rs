//! Sensor data, measurements, snapshots and the compact wire form.
use vstd::prelude::*;

verus! {

/// Seconds and nanoseconds since the Unix epoch, in UTC.
#[derive(Clone, Copy, Debug, PartialEq, Eq, Structural)]
pub struct Timestamp {
    pub secs: i64,
    pub nanos: u32,
}

/// Relies on chrono::Utc::now: the current instant, split by
/// `DateTime::timestamp` and `DateTime::timestamp_subsec_nanos`. It is built
/// from a `Duration` since the epoch, whose sub-second part is under one second.
#[verifier::external_body]
fn utc_now() -> (r: (i64, u32))
    ensures
        r.0 >= 0,
        r.1 < 1_000_000_000,
{
    let now = chrono::Utc::now();
    (now.timestamp(), now.timestamp_subsec_nanos())
}

impl Timestamp {
    /// A timestamp is well formed when its sub-second part is below one second.
    pub open spec fn wf(&self) -> bool {
        self.nanos < 1_000_000_000
    }

    /// The current instant.
    pub fn now() -> (r: Timestamp)
        ensures
            r.wf(),
            r.secs >= 0,
    {
        let (secs, nanos) = utc_now();
        Timestamp { secs, nanos }
    }
}

/// A reading as the sensor writes it, with its short field names.
#[derive(Clone, Copy, Debug, PartialEq, Eq, Structural)]
pub struct DhtDataRaw {
    pub t: u32,
    pub h: u32,
    pub hi: u32,
}

/// One reading of a DHT sensor: temperature, humidity and heat index, each the
/// bit pattern of an `f32` in the sensor's own units.
#[derive(Clone, Copy, Debug, PartialEq, Eq, Structural)]
pub struct SensorData {
    pub temperature: u32,
    pub humidity: u32,
    pub heat_index: u32,
}

impl From<DhtDataRaw> for SensorData {
    fn from(data: DhtDataRaw) -> (r: SensorData)
        ensures
            r == SensorData::from_raw_spec(data),
    {
        SensorData { temperature: data.t, humidity: data.h, heat_index: data.hi }
    }
}

impl vstd::std_specs::convert::FromSpecImpl<DhtDataRaw> for SensorData {
    open spec fn obeys_from_spec() -> bool {
        true
    }

    open spec fn from_spec(v: DhtDataRaw) -> SensorData {
        SensorData::from_raw_spec(v)
    }
}

impl SensorData {
    /// The reading with its fields renamed: `t`, `h`, `hi` become temperature,
    /// humidity and heat index.
    pub open spec fn from_raw_spec(v: DhtDataRaw) -> SensorData {
        SensorData { temperature: v.t, humidity: v.h, heat_index: v.hi }
    }
}

/// The outcome of reading one sensor: either its data or the error it reported.
#[derive(Debug)]
pub enum Measurement {
    Data(SensorData),
    Error(String),
}

impl Measurement {
    /// The data held, if any.
    pub open spec fn data_spec(&self) -> Option<SensorData> {
        match self {
            Measurement::Data(d) => Some(*d),
            Measurement::Error(_) => None,
        }
    }

    /// The error message held, if any.
    pub open spec fn error_spec(&self) -> Option<Seq<char>> {
        match self {
            Measurement::Data(_) => None,
            Measurement::Error(e) => Some(e@),
        }
    }

    /// Builds a measurement from exactly one of data and an error message.
    /// Passing both or neither is not a measurement at all and is refused.
    pub fn new(data: Option<SensorData>, error: Option<&str>) -> (r: Measurement)
        requires
            data is Some != error is Some,
        ensures
            r.data_spec() == data,
            r.error_spec() == (match error {
                Some(e) => Some(e@),
                None => None::<Seq<char>>,
            }),
    {
        match data {
            Some(d) => Measurement::Data(d),
            None => {
                let e = error.unwrap();
                Measurement::Error(e.to_owned())
            },
        }
    }

    /// The data held, if the measurement holds data.
    pub fn get_data(&self) -> (r: Option<SensorData>)
        ensures
            r == self.data_spec(),
    {
        match self {
            Measurement::Data(d) => Some(*d),
            Measurement::Error(_) => None,
        }
    }

    /// The error message held, if the measurement holds an error.
    pub fn get_error(&self) -> (r: Option<&str>)
        ensures
            r is Some == self.error_spec() is Some,
            r is Some ==> r.unwrap()@ == self.error_spec().unwrap(),
    {
        match self {
            Measurement::Data(_) => None,
            Measurement::Error(e) => Some(e.as_str()),
        }
    }

    /// Whether the measurement holds data.
    pub fn has_data(&self) -> (r: bool)
        ensures
            r == self.data_spec() is Some,
    {
        match self {
            Measurement::Data(_) => true,
            Measurement::Error(_) => false,
        }
    }

    /// Whether the measurement holds an error; always the opposite of
    /// `has_data`.
    pub fn has_error(&self) -> (r: bool)
        ensures
            r == self.error_spec() is Some,
            r == !(self.data_spec() is Some),
    {
        match self {
            Measurement::Data(_) => false,
            Measurement::Error(_) => true,
        }
    }
}

/// No label occurs twice.
pub open spec fn labels_unique(es: Seq<(Seq<char>, SensorData)>) -> bool {
    forall|i: int, j: int|
        0 <= i < j < es.len() ==> #[trigger] es[i].0 != #[trigger] es[j].0
}

/// The mapping from label to data that a sequence of entries stands for.
pub open spec fn entries_map(es: Seq<(Seq<char>, SensorData)>) -> Map<Seq<char>, SensorData> {
    Map::new(
        |k: Seq<char>| exists|i: int| 0 <= i < es.len() && (#[trigger] es[i]).0 == k,
        |k: Seq<char>| es[choose|i: int| 0 <= i < es.len() && (#[trigger] es[i]).0 == k].1,
    )
}

/// All sensor readings of one poll: when the payload was read, and the data of
/// each sensor that answered, by label.
#[derive(Debug)]
pub struct DhtSensors {
    pub timestamp: Timestamp,
    pub data: Vec<(String, SensorData)>,
}

impl DhtSensors {
    /// The entries as (label, data) pairs, in storage order.
    pub open spec fn entries(&self) -> Seq<(Seq<char>, SensorData)> {
        self.data@.map_values(|p: (String, SensorData)| (p.0@, p.1))
    }

    /// The snapshot's mapping from label to data.
    pub open spec fn data_map(&self) -> Map<Seq<char>, SensorData> {
        entries_map(self.entries())
    }

    /// Labels are unique.
    pub open spec fn wf(&self) -> bool {
        labels_unique(self.entries())
    }

    /// A snapshot with no sensors.
    pub fn new(timestamp: Timestamp) -> (r: DhtSensors)
        ensures
            r.wf(),
            r.timestamp == timestamp,
            r.entries().len() == 0,
    {
        DhtSensors { timestamp, data: Vec::new() }
    }

    /// The number of sensors in the snapshot.
    pub fn len(&self) -> (r: usize)
        ensures
            r == self.entries().len(),
    {
        self.data.len()
    }

    /// The data recorded for `label`, if the snapshot has that label.
    pub fn get(&self, label: &str) -> (r: Option<SensorData>)
        requires
            self.wf(),
        ensures
            r is Some == self.data_map().contains_key(label@),
            r is Some ==> r.unwrap() == self.data_map()[label@],
    {
        let ghost es = self.entries();
        let n = self.data.len();
        let mut i: usize = 0;
        while i < n
            invariant
                n == self.data@.len(),
                es == self.entries(),
                labels_unique(es),
                i <= n,
                forall|j: int| 0 <= j < i ==> (#[trigger] es[j]).0 != label@,
            decreases n - i,
        {
            let key = label.to_owned();
            if self.data[i].0 == key {
                proof {
                    assert(es[i as int].0 == label@);
                    assert(exists|k: int| 0 <= k < es.len() && (#[trigger] es[k]).0 == label@);
                    let k = choose|k: int| 0 <= k < es.len() && (#[trigger] es[k]).0 == label@;
                    if k != i {
                        if k < i {
                            assert(es[k].0 != es[i as int].0);
                        } else {
                            assert(es[i as int].0 != es[k].0);
                        }
                    }
                }
                return Some(self.data[i].1);
            }
            i = i + 1;
        }
        proof {
            assert(!(exists|k: int| 0 <= k < es.len() && (#[trigger] es[k]).0 == label@));
        }
        None
    }
}

/// Why a wire form could not be turned back into a snapshot.
#[derive(Clone, Copy, Debug, PartialEq, Eq, Structural)]
pub enum DecodeError {
    /// The four sequences do not all have the same length.
    LengthMismatch,
    /// A label occurs more than once.
    DuplicateLabel,
}

/// The compact wire form of a snapshot: four index-aligned sequences, so that
/// position `i` of each describes the same sensor.
#[derive(Debug)]
pub struct DhtSensorsSerde {
    pub timestamp: Timestamp,
    pub labels: Vec<String>,
    pub temperature: Vec<u32>,
    pub humidity: Vec<u32>,
    pub heat_index: Vec<u32>,
}

impl DhtSensorsSerde {
    /// All four sequences have the same length.
    pub open spec fn consistent(&self) -> bool {
        &&& self.temperature@.len() == self.labels@.len()
        &&& self.humidity@.len() == self.labels@.len()
        &&& self.heat_index@.len() == self.labels@.len()
    }

    /// The (label, data) pairs read position by position.
    pub open spec fn entries(&self) -> Seq<(Seq<char>, SensorData)> {
        Seq::new(
            self.labels@.len(),
            |i: int|
                (
                    self.labels@[i]@,
                    SensorData {
                        temperature: self.temperature@[i],
                        humidity: self.humidity@[i],
                        heat_index: self.heat_index@[i],
                    },
                ),
        )
    }

    /// The entries the wire form decodes to, or why it does not decode.
    pub open spec fn decoded(&self) -> Result<Seq<(Seq<char>, SensorData)>, DecodeError> {
        if !self.consistent() {
            Err(DecodeError::LengthMismatch)
        } else if !labels_unique(self.entries()) {
            Err(DecodeError::DuplicateLabel)
        } else {
            Ok(self.entries())
        }
    }

    /// `self` is the wire form of `s`.
    pub open spec fn encodes(&self, s: DhtSensors) -> bool {
        &&& self.consistent()
        &&& self.timestamp == s.timestamp
        &&& self.entries() == s.entries()
    }

    /// The wire form of a snapshot.
    pub fn from_sensors(s: &DhtSensors) -> (r: DhtSensorsSerde)
        ensures
            r.encodes(*s),
    {
        let n = s.data.len();
        let mut labels: Vec<String> = Vec::new();
        let mut temperature: Vec<u32> = Vec::new();
        let mut humidity: Vec<u32> = Vec::new();
        let mut heat_index: Vec<u32> = Vec::new();
        let mut i: usize = 0;
        while i < n
            invariant
                n == s.data@.len(),
                i <= n,
                labels@.len() == i,
                temperature@.len() == i,
                humidity@.len() == i,
                heat_index@.len() == i,
                forall|j: int|
                    0 <= j < i ==> {
                        &&& (#[trigger] labels@[j])@ == s.data@[j].0@
                        &&& temperature@[j] == s.data@[j].1.temperature
                        &&& humidity@[j] == s.data@[j].1.humidity
                        &&& heat_index@[j] == s.data@[j].1.heat_index
                    },
            decreases n - i,
        {
            let entry = &s.data[i];
            labels.push(entry.0.clone());
            temperature.push(entry.1.temperature);
            humidity.push(entry.1.humidity);
            heat_index.push(entry.1.heat_index);
            assert(labels@[i as int]@ == s.data@[i as int].0@);
            i = i + 1;
        }
        let r = DhtSensorsSerde { timestamp: s.timestamp, labels, temperature, humidity, heat_index };
        assert(r.entries() =~= s.entries());
        r
    }
}

impl DhtSensors {
    /// The snapshot a wire form stands for. Fails with `LengthMismatch` when the
    /// four sequences differ in length and with `DuplicateLabel` when a label
    /// repeats; no snapshot is built in either case.
    pub fn from_serde(data: DhtSensorsSerde) -> (r: Result<DhtSensors, DecodeError>)
        ensures
            match (r, data.decoded()) {
                (Ok(s), Ok(es)) => s.wf() && s.timestamp == data.timestamp && s.entries() == es,
                (Err(e), Err(f)) => e == f,
                _ => false,
            },
    {
        let n = data.labels.len();
        if data.temperature.len() != n || data.humidity.len() != n || data.heat_index.len() != n {
            return Err(DecodeError::LengthMismatch);
        }
        let ghost es = data.entries();
        let mut i: usize = 0;
        while i < n
            invariant
                n == data.labels@.len(),
                data.consistent(),
                es == data.entries(),
                i <= n,
                forall|a: int, b: int| 0 <= a < b < i ==> #[trigger] es[a].0 != #[trigger] es[b].0,
            decreases n - i,
        {
            let mut j: usize = 0;
            while j < i
                invariant
                    n == data.labels@.len(),
                    data.consistent(),
                    es == data.entries(),
                    j <= i < n,
                    forall|a: int| 0 <= a < j ==> #[trigger] es[a].0 != es[i as int].0,
                decreases i - j,
            {
                if data.labels[j] == data.labels[i] {
                    assert(es[j as int].0 == es[i as int].0);
                    assert(!labels_unique(data.entries()));
                    return Err(DecodeError::DuplicateLabel);
                }
                j = j + 1;
            }
            i = i + 1;
        }
        let mut out: Vec<(String, SensorData)> = Vec::new();
        let mut k: usize = 0;
        while k < n
            invariant
                n == data.labels@.len(),
                data.consistent(),
                es == data.entries(),
                k <= n,
                out@.len() == k,
                forall|j: int| 0 <= j < k ==> (#[trigger] out@[j]).0@ == es[j].0 && out@[j].1 == es[j].1,
            decreases n - k,
        {
            let d = SensorData {
                temperature: data.temperature[k],
                humidity: data.humidity[k],
                heat_index: data.heat_index[k],
            };
            out.push((data.labels[k].clone(), d));
            k = k + 1;
        }
        let s = DhtSensors { timestamp: data.timestamp, data: out };
        assert(s.entries() =~= es);
        Ok(s)
    }

    /// The wire form of this snapshot.
    pub fn to_serde(&self) -> (r: DhtSensorsSerde)
        ensures
            r.encodes(*self),
    {
        DhtSensorsSerde::from_sensors(self)
    }
}

/// Encoding a snapshot with unique labels and decoding the result gives back
/// the same (label, data) pairs and the same timestamp.
pub proof fn lemma_round_trip(s: DhtSensors, w: DhtSensorsSerde)
    requires
        s.wf(),
        w.encodes(s),
    ensures
        w.decoded() == Ok::<Seq<(Seq<char>, SensorData)>, DecodeError>(s.entries()),
        w.timestamp == s.timestamp,
        entries_map(w.decoded()->Ok_0) == s.data_map(),
{
}

} // verus!
