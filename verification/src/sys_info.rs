//! Memory figures taken from a kernel-style memory report.

use vstd::prelude::*;
use vstd::string::StringSliceAdditionalSpecFns;
use crate::metrics::{names_of, parse, parsed_report, ParseError};

verus! {

/// Memory figures in kilobytes, as last reported.
#[derive(Debug, Clone, Copy, PartialEq, Eq, Structural)]
pub struct MemInfo {
    /// Total usable memory.
    pub mem_total: u64,
    /// Memory that nothing uses.
    pub mem_free: u64,
    /// Memory that a new workload could get without swapping.
    pub mem_available: u64,
}

/// The bytes of the name of the total-memory field.
pub open spec fn total_name() -> Seq<u8> {
    "MemTotal".spec_bytes()
}

/// The bytes of the name of the free-memory field.
pub open spec fn free_name() -> Seq<u8> {
    "MemFree".spec_bytes()
}

/// The bytes of the name of the available-memory field.
pub open spec fn available_name() -> Seq<u8> {
    "MemAvailable".spec_bytes()
}

/// The names of the fields that the memory figures are read from.
pub open spec fn memory_fields() -> Set<Seq<u8>> {
    set![total_name(), free_name(), available_name()]
}

/// The value of `name` in `report`, or `kept` where the report has none.
pub open spec fn reported_or(report: Map<Seq<u8>, u64>, name: Seq<u8>, kept: u64) -> u64 {
    if report.contains_key(name) {
        report[name]
    } else {
        kept
    }
}

/// The figures after a report came in: each one that the report names is
/// taken from it, the others stay as they were.
pub open spec fn refreshed(before: MemInfo, report: Map<Seq<u8>, u64>) -> MemInfo {
    MemInfo {
        mem_total: reported_or(report, total_name(), before.mem_total),
        mem_free: reported_or(report, free_name(), before.mem_free),
        mem_available: reported_or(report, available_name(), before.mem_available),
    }
}

impl MemInfo {
    /// Brings the figures up to date from the text of a memory report.
    ///
    /// Fields other than the three memory figures are ignored, readable or
    /// not. If one of the three has a line without a readable value, the call
    /// fails and the figures stay as they were.
    pub fn update_memory_info(&mut self, contents: &str) -> (outcome: Result<(), ParseError>)
        ensures
            match parsed_report(contents.spec_bytes(), memory_fields()) {
                Ok(report) => outcome is Ok && *final(self) == refreshed(*old(self), report),
                Err(error) => outcome == Err::<(), ParseError>(error) && *final(self) == *old(self),
            },
    {
        let needed: [&str; 3] = ["MemTotal", "MemFree", "MemAvailable"];
        assert(names_of(needed@) =~= memory_fields()) by {
            assert(needed@[0].spec_bytes() == total_name());
            assert(needed@[1].spec_bytes() == free_name());
            assert(needed@[2].spec_bytes() == available_name());
        }
        match parse(contents, needed.as_slice()) {
            Ok(report) => {
                if let Some(value) = report.get("MemTotal") {
                    self.mem_total = value;
                }
                if let Some(value) = report.get("MemFree") {
                    self.mem_free = value;
                }
                if let Some(value) = report.get("MemAvailable") {
                    self.mem_available = value;
                }
                Ok(())
            },
            Err(error) => Err(error),
        }
    }
}

} // verus!
