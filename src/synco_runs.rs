use vstd::prelude::*;

use crate::timestamp::{parse_utc, timestamp_of, utc_instant_of, Timestamp};

verus! {

/// A synchrotron run as the scheduling service lists it.
#[derive(Debug, Clone, Default)]
pub struct SyncotronRun {
    pub runId: i32,
    pub runName: String,
    pub startTime: String,
    pub endTime: String,
    pub version: i32,
}

impl SyncotronRun {
    /// The start and end of the run, or `None` when either does not read as a UTC date
    /// and time.
    pub fn parse_times(&self) -> (r: Option<(Timestamp, Timestamp)>)
        ensures
            match (timestamp_of(utc_instant_of(self.startTime@)), timestamp_of(utc_instant_of(self.endTime@))) {
                (Some(s), Some(e)) => r == Some((s, e)),
                _ => r is None,
            },
    {
        let start = parse_utc(self.startTime.as_str());
        let end = parse_utc(self.endTime.as_str());
        match (start, end) {
            (Some(s), Some(e)) => Some((s, e)),
            _ => None,
        }
    }
}

} // verus!
