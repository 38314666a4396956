//! Declarative timetable data model: the schedule entries and variable-type
//! registry a timetable document provides, before compilation.
//!
//! A `ScheduleEntry` carries optional fields; which fields are populated
//! determines its kind (constant, periodic, or default). The entry may also
//! declare its kind explicitly, in which case the declaration must agree with
//! the kind inferred from the fields.

use vstd::prelude::*;

verus! {

/// The measurement kind of a variable type. Informational only: the schedule
/// engine never interprets it.
#[derive(Debug, Clone, Copy, PartialEq, Eq, Structural)]
pub enum VarDataType {
    Interval,
    Ratio,
    Nominal,
    Ordinal,
    Administrative,
}

/// One entry of the variable-type registry: supplies the default value used
/// when no explicit schedule value applies.
#[derive(Debug, Clone)]
pub struct VariableTypeSpec {
    pub var_type: VarDataType,
    pub default: serde_json::Value,
    pub description: String,
    pub categories: Option<Vec<String>>,
}

/// The kind of a schedule entry.
#[derive(Debug, Clone, Copy, PartialEq, Eq, Structural)]
pub enum ScheduleType {
    Constant,
    Periodic,
    Default,
}

/// The fields common to every schedule entry: the variable type it references
/// and an optional explicit kind declaration.
#[derive(Debug, Clone)]
pub struct ScheduleHeader {
    pub variable_type: String,
    pub schedule_type: Option<ScheduleType>,
}

/// A declarative schedule entry. Durations are in milliseconds: `period` is
/// the cycle length, `times` are breakpoint offsets within the cycle, and
/// `offset_time` desynchronizes a non-24-hour cycle from the experiment start.
#[derive(Debug, Clone)]
pub struct ScheduleEntry {
    pub header: ScheduleHeader,
    pub value: Option<serde_json::Value>,
    pub period: Option<i64>,
    pub times: Option<Vec<i64>>,
    pub values: Option<Vec<serde_json::Value>>,
    pub offset_time: Option<i64>,
}

/// A fault found in a single entry, before any compilation.
#[derive(Debug, Clone, Copy, PartialEq, Eq, Structural)]
pub enum EntryFault {
    /// The populated fields match none of the three entry kinds.
    Malformed,
    /// The declared kind disagrees with the kind inferred from the fields.
    KindMismatch(ScheduleType, ScheduleType),
    /// A 24-hour periodic entry declares an offset time.
    OffsetForbiddenForT24,
}

/// Milliseconds in 24 hours: the period of a T24 schedule.
pub const T24_PERIOD_MS: i64 = 86_400_000;

impl ScheduleEntry {
    /// The kind inferred from which fields are populated, or `None` when the
    /// combination matches no kind.
    pub open spec fn spec_schedule_type(&self) -> Option<ScheduleType> {
        if self.value is Some && self.period is None && self.times is None && self.values is None {
            Some(ScheduleType::Constant)
        } else if self.value is None && self.period is Some && self.times is Some
            && self.values is Some {
            Some(ScheduleType::Periodic)
        } else if self.value is None && self.period is None && self.times is None
            && self.values is None {
            Some(ScheduleType::Default)
        } else {
            None
        }
    }

    /// Infer the entry's kind from which fields are populated. Exactly one of
    /// {value}, {period, times, values}, {} must be populated; any other
    /// combination is malformed.
    pub fn schedule_type(&self) -> (r: Option<ScheduleType>)
        ensures
            r == self.spec_schedule_type(),
    {
        if self.value.is_some() && self.period.is_none() && self.times.is_none()
            && self.values.is_none() {
            Some(ScheduleType::Constant)
        } else if self.value.is_none() && self.period.is_some() && self.times.is_some()
            && self.values.is_some() {
            Some(ScheduleType::Periodic)
        } else if self.value.is_none() && self.period.is_none() && self.times.is_none()
            && self.values.is_none() {
            Some(ScheduleType::Default)
        } else {
            None
        }
    }

    /// The name of the variable type this entry references.
    pub fn variable_type(&self) -> (r: &String)
        ensures
            r == &self.header.variable_type,
    {
        &self.header.variable_type
    }

    /// The fault in this entry, if any: malformed field combination, a kind
    /// declaration that disagrees with the inferred kind, or an offset time on
    /// a 24-hour periodic entry.
    pub open spec fn spec_fault(&self) -> Option<EntryFault> {
        match self.spec_schedule_type() {
            None => Some(EntryFault::Malformed),
            Some(inferred) => {
                if self.header.schedule_type is Some
                    && self.header.schedule_type->0 != inferred {
                    Some(EntryFault::KindMismatch(self.header.schedule_type->0, inferred))
                } else if self.period == Some(T24_PERIOD_MS) && self.offset_time is Some {
                    Some(EntryFault::OffsetForbiddenForT24)
                } else {
                    None
                }
            },
        }
    }

    /// Validate the entry: its fields must match one of the three kinds, an
    /// explicit kind declaration must agree with the inferred kind, and a
    /// 24-hour periodic entry must not declare an offset time (offset times
    /// exist to desynchronize non-24-hour cycles; T24 cycles always align to
    /// the shared day boundary).
    pub fn is_valid(&self) -> (r: Result<(), EntryFault>)
        ensures
            r is Ok <==> self.spec_fault() is None,
            r is Err ==> r->Err_0 == self.spec_fault()->0,
    {
        let inferred = match self.schedule_type() {
            Some(t) => t,
            None => {
                return Err(EntryFault::Malformed);
            },
        };
        if let Some(declared) = self.header.schedule_type {
            if declared != inferred {
                return Err(EntryFault::KindMismatch(declared, inferred));
            }
        }
        if let Some(p) = self.period {
            if p == T24_PERIOD_MS && self.offset_time.is_some() {
                return Err(EntryFault::OffsetForbiddenForT24);
            }
        }
        Ok(())
    }
}

/// Experiment-wide metadata of a timetable document. `start_date` and
/// `start_offset` are the textual encodings still to be parsed; `timezone` is
/// a fixed hour offset used only to align T24 schedules to local midnight.
#[derive(Debug, Clone)]
pub struct ScheduleInfo {
    pub version: String,
    pub timezone: i64,
    pub start_date: String,
    pub start_offset: String,
    pub experiment_name: String,
    pub cabinet_id: String,
    pub user: String,
    pub description: String,
    pub parents: ScheduleParents,
}

/// Provenance of a timetable document.
#[derive(Debug, Clone)]
pub struct ScheduleParents {
    pub primary: String,
    pub secondary: Vec<String>,
}

/// A whole timetable document: event schedules (carried through, not
/// interpreted here), the variable-type registry, the variable schedules, and
/// the experiment metadata.
#[derive(Debug, Clone)]
pub struct LunaLuz {
    pub event_schedules: Vec<(String, serde_json::Value)>,
    pub var_type_specs: Vec<(String, VariableTypeSpec)>,
    pub variable_schedules: Vec<(String, ScheduleEntry)>,
    pub info: ScheduleInfo,
}

} // verus!
