//! Turning one raw sensor payload into a snapshot and a list of sensor failures.
//!
//! The payload is a mapping from sensor label to either
//! `{"t": .., "h": .., "hi": ..}` or `{"error": "message"}`. It arrives here
//! already split into its keys and values; numbers are `f32` bit patterns.
use vstd::prelude::*;

use crate::messages::{labels_unique, DhtSensors, Measurement, SensorData, Timestamp};

verus! {

/// One value of a sensor's mapping.
#[derive(Debug)]
pub enum RawValue {
    Number(u32),
    Text(String),
    Other,
}

/// What a sensor's label maps to: a mapping of fields, or anything else.
#[derive(Debug)]
pub enum RawSensor {
    Object(Vec<(String, RawValue)>),
    Other,
}

/// A whole payload: a mapping from label to sensor entry, or anything else.
#[derive(Debug)]
pub enum RawPayload {
    Object(Vec<(String, RawSensor)>),
    Other,
}

/// Why a poll cycle produced no snapshot.
#[derive(Debug)]
pub enum ReadError {
    /// The byte stream failed, timed out or gave nothing.
    Transport(String),
    /// The bytes were not a well-formed document.
    Syntax(String),
    /// The payload is not a mapping.
    NotAMapping,
    /// The payload is a mapping without any sensor.
    NoSensors,
    /// A label occurs twice.
    DuplicateLabel,
    /// A sensor entry is neither an error mapping nor a full reading.
    MalformedEntry,
}

/// A sensor that reported an error in this cycle.
#[derive(Debug)]
pub struct SensorFailure {
    pub label: String,
    pub message: String,
}

/// The result of one successful cycle: the snapshot of the sensors that
/// answered, and the failures of those that did not.
#[derive(Debug)]
pub struct Reading {
    pub sensors: DhtSensors,
    pub failures: Vec<SensorFailure>,
}

impl Reading {
    /// The failures as (label, message) pairs.
    pub open spec fn failure_entries(&self) -> Seq<(Seq<char>, Seq<char>)> {
        self.failures@.map_values(|f: SensorFailure| (f.label@, f.message@))
    }
}

/// The value stored under the first field named `key`.
pub open spec fn lookup(fields: Seq<(String, RawValue)>, key: Seq<char>) -> Option<RawValue>
    decreases fields.len(),
{
    if fields.len() == 0 {
        None
    } else if fields[0].0@ == key {
        Some(fields[0].1)
    } else {
        lookup(fields.drop_first(), key)
    }
}

/// The number stored under `key`, if that field holds a number.
pub open spec fn number_field(fields: Seq<(String, RawValue)>, key: Seq<char>) -> Option<u32> {
    match lookup(fields, key) {
        Some(RawValue::Number(n)) => Some(n),
        _ => None,
    }
}

/// The message of an error entry: its `error` field, when that holds text.
pub open spec fn error_message(fields: Seq<(String, RawValue)>) -> Option<Seq<char>> {
    match lookup(fields, "error"@) {
        Some(RawValue::Text(s)) => Some(s@),
        _ => None,
    }
}

/// The data of a reading entry: an entry without an `error` field whose
/// `t`, `h` and `hi` fields all hold numbers.
pub open spec fn sensor_data_of(fields: Seq<(String, RawValue)>) -> Option<SensorData> {
    if lookup(fields, "error"@) is Some {
        None
    } else {
        match (number_field(fields, "t"@), number_field(fields, "h"@), number_field(fields, "hi"@)) {
            (Some(t), Some(h), Some(hi)) => Some(SensorData { temperature: t, humidity: h, heat_index: hi }),
            _ => None,
        }
    }
}

/// The fields of an entry, when the entry is a mapping.
pub open spec fn fields_of(e: RawSensor) -> Option<Seq<(String, RawValue)>> {
    match e {
        RawSensor::Object(f) => Some(f@),
        RawSensor::Other => None,
    }
}

/// An entry that reports data.
pub open spec fn entry_data(e: RawSensor) -> Option<SensorData> {
    match fields_of(e) {
        Some(f) => sensor_data_of(f),
        None => None,
    }
}

/// An entry that reports an error.
pub open spec fn entry_error(e: RawSensor) -> Option<Seq<char>> {
    match fields_of(e) {
        Some(f) => error_message(f),
        None => None,
    }
}

/// An entry reports either data or an error.
pub open spec fn entry_well_formed(e: RawSensor) -> bool {
    entry_data(e) is Some || entry_error(e) is Some
}

/// No label of a payload occurs twice.
pub open spec fn raw_labels_unique(es: Seq<(String, RawSensor)>) -> bool {
    forall|i: int, j: int| 0 <= i < j < es.len() ==> #[trigger] es[i].0@ != #[trigger] es[j].0@
}

/// The (label, data) pairs of the entries that report data, in order.
pub open spec fn readings_of(es: Seq<(String, RawSensor)>) -> Seq<(Seq<char>, SensorData)>
    decreases es.len(),
{
    if es.len() == 0 {
        Seq::empty()
    } else {
        let prev = readings_of(es.drop_last());
        match entry_data(es.last().1) {
            Some(d) => prev.push((es.last().0@, d)),
            None => prev,
        }
    }
}

/// The (label, message) pairs of the entries that report an error, in order.
pub open spec fn failures_of(es: Seq<(String, RawSensor)>) -> Seq<(Seq<char>, Seq<char>)>
    decreases es.len(),
{
    if es.len() == 0 {
        Seq::empty()
    } else {
        let prev = failures_of(es.drop_last());
        match entry_error(es.last().1) {
            Some(m) => prev.push((es.last().0@, m)),
            None => prev,
        }
    }
}

/// What a payload decodes to: the error, or success.
pub open spec fn payload_outcome(p: RawPayload) -> Result<Seq<(String, RawSensor)>, ReadError> {
    match p {
        RawPayload::Other => Err(ReadError::NotAMapping),
        RawPayload::Object(v) => {
            let es = v@;
            if es.len() == 0 {
                Err(ReadError::NoSensors)
            } else if !raw_labels_unique(es) {
                Err(ReadError::DuplicateLabel)
            } else if !(forall|i: int| 0 <= i < es.len() ==> entry_well_formed(#[trigger] es[i].1)) {
                Err(ReadError::MalformedEntry)
            } else {
                Ok(es)
            }
        },
    }
}

/// Whether two errors are the same kind; messages of transport and syntax
/// errors are not compared.
pub open spec fn same_error(a: ReadError, b: ReadError) -> bool {
    match (a, b) {
        (ReadError::Transport(_), ReadError::Transport(_)) => true,
        (ReadError::Syntax(_), ReadError::Syntax(_)) => true,
        (ReadError::NotAMapping, ReadError::NotAMapping) => true,
        (ReadError::NoSensors, ReadError::NoSensors) => true,
        (ReadError::DuplicateLabel, ReadError::DuplicateLabel) => true,
        (ReadError::MalformedEntry, ReadError::MalformedEntry) => true,
        _ => false,
    }
}

/// Whether `k` names the field `name`.
fn key_is(k: &String, name: &str) -> (r: bool)
    ensures
        r == (k@ == name@),
{
    let owned = name.to_owned();
    *k == owned
}

/// The value stored under the first field named `key`.
fn find_field<'a>(fields: &'a Vec<(String, RawValue)>, key: &str) -> (r: Option<&'a RawValue>)
    ensures
        match (r, lookup(fields@, key@)) {
            (Some(v), Some(w)) => *v == w,
            (None, None) => true,
            _ => false,
        },
{
    let n = fields.len();
    let mut i: usize = 0;
    assert(fields@.subrange(0, n as int) =~= fields@);
    while i < n
        invariant
            n == fields@.len(),
            i <= n,
            lookup(fields@, key@) == lookup(fields@.subrange(i as int, n as int), key@),
        decreases n - i,
    {
        let ghost rest = fields@.subrange(i as int, n as int);
        assert(rest.drop_first() =~= fields@.subrange(i + 1, n as int));
        if key_is(&fields[i].0, key) {
            return Some(&fields[i].1);
        }
        i = i + 1;
    }
    None
}

/// The number stored under `key`, if that field holds a number.
fn find_number(fields: &Vec<(String, RawValue)>, key: &str) -> (r: Option<u32>)
    ensures
        r == number_field(fields@, key@),
{
    match find_field(fields, key) {
        Some(RawValue::Number(n)) => Some(*n),
        _ => None,
    }
}

/// Classifies one sensor entry. An entry with an `error` field holding text is
/// an error; one without an `error` field but with numbers under `t`, `h` and
/// `hi` is data; anything else is malformed and gives `None`.
pub fn classify_entry(entry: &RawSensor) -> (r: Option<Measurement>)
    ensures
        r is Some == entry_well_formed(*entry),
        r is Some ==> r.unwrap().data_spec() == entry_data(*entry),
        r is Some ==> r.unwrap().error_spec() == entry_error(*entry),
{
    let fields = match entry {
        RawSensor::Object(f) => f,
        RawSensor::Other => {
            return None;
        },
    };
    match find_field(fields, "error") {
        Some(RawValue::Text(message)) => {
            Some(Measurement::new(None, Some(message.as_str())))
        },
        Some(_) => None,
        None => {
            let t = find_number(fields, "t");
            let h = find_number(fields, "h");
            let hi = find_number(fields, "hi");
            match (t, h, hi) {
                (Some(t), Some(h), Some(hi)) => {
                    let d = SensorData { temperature: t, humidity: h, heat_index: hi };
                    Some(Measurement::new(Some(d), None))
                },
                _ => None,
            }
        },
    }
}

/// Decodes one payload read at `timestamp`. Sensors that report data form the
/// snapshot, in payload order; sensors that report an error are listed as
/// failures and left out of the snapshot. A payload that is not a mapping, has
/// no sensor, repeats a label or holds a malformed entry fails as a whole.
/// A payload whose every sensor reports an error still succeeds, with an empty
/// snapshot.
pub fn read_sensor(payload: &RawPayload, timestamp: Timestamp) -> (r: Result<Reading, ReadError>)
    ensures
        match (r, payload_outcome(*payload)) {
            (Ok(rd), Ok(es)) => {
                &&& rd.sensors.wf()
                &&& rd.sensors.timestamp == timestamp
                &&& rd.sensors.entries() == readings_of(es)
                &&& rd.failure_entries() == failures_of(es)
            },
            (Err(e), Err(f)) => same_error(e, f),
            _ => false,
        },
{
    let entries = match payload {
        RawPayload::Object(v) => v,
        RawPayload::Other => {
            return Err(ReadError::NotAMapping);
        },
    };
    let ghost es = entries@;
    let n = entries.len();
    if n == 0 {
        return Err(ReadError::NoSensors);
    }
    let mut i: usize = 0;
    while i < n
        invariant
            n == es.len(),
            es == entries@,
            *payload is Object && payload->Object_0@ == es && n > 0,
            i <= n,
            forall|a: int, b: int| 0 <= a < b < i ==> #[trigger] es[a].0@ != #[trigger] es[b].0@,
        decreases n - i,
    {
        let mut j: usize = 0;
        while j < i
            invariant
                n == es.len(),
                es == entries@,
                *payload is Object && payload->Object_0@ == es && n > 0,
                j <= i < n,
                forall|a: int| 0 <= a < j ==> #[trigger] es[a].0@ != es[i as int].0@,
            decreases i - j,
        {
            if entries[j].0 == entries[i].0 {
                assert(es[j as int].0@ == es[i as int].0@);
                assert(!raw_labels_unique(es));
                return Err(ReadError::DuplicateLabel);
            }
            j = j + 1;
        }
        i = i + 1;
    }
    let mut sensors: Vec<(String, SensorData)> = Vec::new();
    let mut failures: Vec<SensorFailure> = Vec::new();
    let ghost mut origin: Seq<int> = Seq::empty();
    let mut k: usize = 0;
    while k < n
        invariant
            n == es.len(),
            es == entries@,
            *payload is Object && payload->Object_0@ == es && n > 0,
            k <= n,
            raw_labels_unique(es),
            forall|a: int| 0 <= a < k ==> entry_well_formed(#[trigger] es[a].1),
            sensors@.map_values(|p: (String, SensorData)| (p.0@, p.1)) == readings_of(es.subrange(0, k as int)),
            failures@.map_values(|f: SensorFailure| (f.label@, f.message@)) == failures_of(es.subrange(0, k as int)),
            origin.len() == sensors@.len(),
            forall|a: int| 0 <= a < origin.len() ==> 0 <= #[trigger] origin[a] < k && sensors@[a].0@ == es[origin[a]].0@,
            labels_unique(sensors@.map_values(|p: (String, SensorData)| (p.0@, p.1))),
        decreases n - k,
    {
        let ghost prefix = es.subrange(0, k as int + 1);
        assert(prefix.drop_last() =~= es.subrange(0, k as int));
        assert(prefix.last() == es[k as int]);
        let m = match classify_entry(&entries[k].1) {
            Some(m) => m,
            None => {
                assert(!entry_well_formed(es[k as int].1));
                return Err(ReadError::MalformedEntry);
            },
        };
        match m.get_error() {
            Some(message) => {
                failures.push(SensorFailure { label: entries[k].0.clone(), message: message.to_owned() });
                assert(failures@.map_values(|f: SensorFailure| (f.label@, f.message@)) =~= failures_of(prefix));
                assert(entry_data(es[k as int].1) is None);
                assert(readings_of(prefix) == readings_of(es.subrange(0, k as int)));
            },
            None => {
                let d = m.get_data().unwrap();
                let ghost before = sensors@.map_values(|p: (String, SensorData)| (p.0@, p.1));
                sensors.push((entries[k].0.clone(), d));
                proof {
                    origin = origin.push(k as int);
                    let after = sensors@.map_values(|p: (String, SensorData)| (p.0@, p.1));
                    assert(after =~= before.push((es[k as int].0@, d)));
                    assert(after =~= readings_of(prefix));
                    assert forall|a: int, b: int| 0 <= a < b < after.len() implies #[trigger] after[a].0 != #[trigger] after[b].0 by {
                        if b == after.len() - 1 {
                            assert(after[a].0 == es[origin[a]].0@);
                            assert(origin[a] < k);
                        } else {
                            assert(after[a] == before[a]);
                            assert(after[b] == before[b]);
                        }
                    }
                }
                assert(failures_of(prefix) == failures_of(es.subrange(0, k as int)));
            },
        }
        k = k + 1;
    }
    assert(es.subrange(0, n as int) =~= es);
    let rd = Reading { sensors: DhtSensors { timestamp, data: sensors }, failures };
    Ok(rd)
}

proof fn lemma_readings_of_all_data(es: Seq<(String, RawSensor)>)
    requires
        forall|i: int| 0 <= i < es.len() ==> (#[trigger] entry_data(es[i].1)) is Some,
    ensures
        readings_of(es).len() == es.len(),
        forall|i: int| 0 <= i < es.len() ==> #[trigger] readings_of(es)[i] == (es[i].0@, entry_data(es[i].1).unwrap()),
        failures_of(es).len() == 0,
    decreases es.len(),
{
    if es.len() > 0 {
        let prev = es.drop_last();
        assert forall|i: int| 0 <= i < prev.len() implies (#[trigger] entry_data(prev[i].1)) is Some by {
            assert(prev[i] == es[i]);
        }
        lemma_readings_of_all_data(prev);
        assert(entry_data(es.last().1) is Some);
        assert forall|i: int| 0 <= i < es.len() implies #[trigger] readings_of(es)[i] == (es[i].0@, entry_data(es[i].1).unwrap()) by {
            if i < es.len() - 1 {
                assert(prev[i] == es[i]);
                assert(readings_of(prev)[i] == (prev[i].0@, entry_data(prev[i].1).unwrap()));
            }
        }
    }
}

proof fn lemma_failures_of_all_errors(es: Seq<(String, RawSensor)>)
    requires
        forall|i: int| 0 <= i < es.len() ==> (#[trigger] entry_error(es[i].1)) is Some,
    ensures
        failures_of(es).len() == es.len(),
        forall|i: int| 0 <= i < es.len() ==> #[trigger] failures_of(es)[i] == (es[i].0@, entry_error(es[i].1).unwrap()),
        readings_of(es).len() == 0,
    decreases es.len(),
{
    if es.len() > 0 {
        let prev = es.drop_last();
        assert forall|i: int| 0 <= i < prev.len() implies (#[trigger] entry_error(prev[i].1)) is Some by {
            assert(prev[i] == es[i]);
        }
        lemma_failures_of_all_errors(prev);
        assert(entry_error(es.last().1) is Some);
        assert(entry_data(es.last().1) is None);
        assert forall|i: int| 0 <= i < es.len() implies #[trigger] failures_of(es)[i] == (es[i].0@, entry_error(es[i].1).unwrap()) by {
            if i < es.len() - 1 {
                assert(prev[i] == es[i]);
                assert(failures_of(prev)[i] == (prev[i].0@, entry_error(prev[i].1).unwrap()));
            }
        }
    }
}

/// A payload of sensors that all report data decodes successfully, and its
/// snapshot holds one entry per sensor, in order, with that sensor's data;
/// no sensor is dropped and none is listed as a failure.
pub proof fn lemma_all_readings_kept(p: RawPayload)
    requires
        p is Object,
        p->Object_0@.len() > 0,
        raw_labels_unique(p->Object_0@),
        forall|i: int| 0 <= i < p->Object_0@.len() ==> (#[trigger] entry_data(p->Object_0@[i].1)) is Some,
    ensures
        payload_outcome(p) is Ok,
        payload_outcome(p)->Ok_0 == p->Object_0@,
        readings_of(p->Object_0@).len() == p->Object_0@.len(),
        forall|i: int| 0 <= i < p->Object_0@.len() ==> #[trigger] readings_of(p->Object_0@)[i] == (p->Object_0@[i].0@, entry_data(p->Object_0@[i].1).unwrap()),
        failures_of(p->Object_0@).len() == 0,
{
    let es = p->Object_0@;
    lemma_readings_of_all_data(es);
    assert(forall|i: int| 0 <= i < es.len() ==> entry_well_formed(#[trigger] es[i].1) <== entry_data(es[i].1) is Some);
}

/// A payload of sensors that all report an error still decodes successfully:
/// its snapshot is empty and every sensor is listed as a failure with its
/// message.
pub proof fn lemma_all_errors_give_empty_snapshot(p: RawPayload)
    requires
        p is Object,
        p->Object_0@.len() > 0,
        raw_labels_unique(p->Object_0@),
        forall|i: int| 0 <= i < p->Object_0@.len() ==> (#[trigger] entry_error(p->Object_0@[i].1)) is Some,
    ensures
        payload_outcome(p) is Ok,
        payload_outcome(p)->Ok_0 == p->Object_0@,
        readings_of(p->Object_0@).len() == 0,
        failures_of(p->Object_0@).len() == p->Object_0@.len(),
        forall|i: int| 0 <= i < p->Object_0@.len() ==> #[trigger] failures_of(p->Object_0@)[i] == (p->Object_0@[i].0@, entry_error(p->Object_0@[i].1).unwrap()),
{
    let es = p->Object_0@;
    lemma_failures_of_all_errors(es);
    assert(forall|i: int| 0 <= i < es.len() ==> entry_well_formed(#[trigger] es[i].1) <== entry_error(es[i].1) is Some);
}

} // verus!
