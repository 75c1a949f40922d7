//! What a completed snapshot is turned into before it is handed to its sinks.
use vstd::prelude::*;

use crate::messages::{DhtSensors, DhtSensorsSerde};

verus! {

/// The level at which a snapshot is written to the log.
#[derive(Clone, Copy, Debug, PartialEq, Eq, Structural)]
pub enum Severity {
    Info,
    Debug,
}

/// How one snapshot is dispatched: the log level of its readable form, and the
/// wire form to send to each remote destination, if there is any.
#[derive(Debug)]
pub struct DispatchPlan {
    pub severity: Severity,
    pub wire: Option<DhtSensorsSerde>,
}

/// The log level for snapshots: `Info` when logging is verbose, `Debug`
/// otherwise.
pub open spec fn severity_for(verbose: bool) -> Severity {
    if verbose {
        Severity::Info
    } else {
        Severity::Debug
    }
}

/// Plans the dispatch of `measurement`. The wire form is built once, and only
/// when there are remote destinations; each destination is then sent the same
/// bytes, independently of the others.
pub fn plan_dispatch(measurement: &DhtSensors, verbose: bool, remote_destinations: usize) -> (r: DispatchPlan)
    ensures
        r.severity == severity_for(verbose),
        r.wire is Some == (remote_destinations > 0),
        r.wire is Some ==> r.wire.unwrap().encodes(*measurement),
{
    let severity = if verbose {
        Severity::Info
    } else {
        Severity::Debug
    };
    let wire = if remote_destinations > 0 {
        Some(measurement.to_serde())
    } else {
        None
    };
    DispatchPlan { severity, wire }
}

} // verus!
