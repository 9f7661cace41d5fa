//! The record of a finished run that is handed to the platform for keeping.

use crate::config::RunConfig;
use crate::summary::Summary;
use vstd::prelude::*;

verus! {

/// What is kept of one run: which test it was, what it measured, and when.
#[derive(Debug)]
pub struct RunRecord {
    /// Identifier of the test.
    pub test_id: String,
    /// The summary of the run.
    pub results: Summary,
    /// When the run ended, in seconds since the epoch.
    pub timestamp: u64,
}

impl RunRecord {
    /// The record of the run configured by `config` that has ended at
    /// `timestamp` with `summary`. Keeping the record is attempted once the
    /// run is over; whether that succeeds changes nothing about the run.
    pub fn new(config: &RunConfig, summary: Summary, timestamp: u64) -> (record: RunRecord)
        ensures
            record.test_id@ == config@.test_id,
            record.results == summary,
            record.timestamp == timestamp,
    {
        RunRecord { test_id: config.test_id().to_owned(), results: summary, timestamp }
    }
}

} // verus!
