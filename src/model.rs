//! The governor's data: one cycle's snapshot, its text form, and errors.
use vstd::prelude::*;
use crate::numeric::{parse_percent, parse_u32, parse_u64, percent_value, unsigned_value, Percent};

verus! {

/// What can go wrong while governing the fleet.
#[derive(Debug, PartialEq, Eq)]
pub enum GovernorError {
    /// The metrics source could not be opened.
    SourceUnavailable,
    /// The metrics source was read but a field is missing or not a number.
    MalformedSnapshot,
    /// The container runtime refused a stop; carries its diagnostic text.
    RuntimeCommandFailed { stderr: String },
    /// The sidecar could not be reached.
    SidecarUnreachable,
    /// The sidecar answered with a status outside 200..=299.
    SidecarRejected { status: u16 },
    /// The sidecar never came up.
    StartupFailed,
}

/// Host memory figures in kilobytes.
#[derive(Clone, Copy, Debug, PartialEq, Eq, Structural)]
pub struct SystemMemory {
    pub total_kb: u64,
    pub free_kb: u64,
    pub used_kb: u64,
}

/// One observed container in one cycle.
#[derive(Debug, PartialEq, Eq)]
pub struct ContainerProcess {
    pub pid: u32,
    pub process_name: String,
    /// The key for every runtime action and every cross-reference.
    pub container_id: String,
    pub vsz_kb: u64,
    pub rss_kb: u64,
    /// Share of system memory in use.
    pub memory_usage: Percent,
    /// CPU usage.
    pub cpu_usage: Percent,
}

impl Clone for ContainerProcess {
    fn clone(&self) -> (r: Self)
        ensures
            r == *self,
    {
        ContainerProcess {
            pid: self.pid,
            process_name: self.process_name.clone(),
            container_id: self.container_id.clone(),
            vsz_kb: self.vsz_kb,
            rss_kb: self.rss_kb,
            memory_usage: self.memory_usage,
            cpu_usage: self.cpu_usage,
        }
    }
}

/// One point in time: host memory and the containers observed.
#[derive(Debug)]
pub struct Snapshot {
    pub memory: SystemMemory,
    pub processes: Vec<ContainerProcess>,
}

/// A container record as the metrics source writes it: numbers as decimal text.
#[derive(Debug)]
pub struct RawProcess {
    pub pid: String,
    pub process_name: String,
    pub container_id: String,
    pub vsz_kb: String,
    pub rss_kb: String,
    pub memory_usage_percent: String,
    pub cpu_usage_percent: String,
}

/// A snapshot as the metrics source writes it: numbers as decimal text.
#[derive(Debug)]
pub struct RawSnapshot {
    pub total_memory_kb: String,
    pub free_memory_kb: String,
    pub used_memory_kb: String,
    pub processes: Vec<RawProcess>,
}

/// The container that `raw` describes, where each of its numbers parses.
pub open spec fn process_from_text(raw: RawProcess) -> Option<ContainerProcess> {
    match (
        unsigned_value(raw.pid@, u32::MAX as int),
        unsigned_value(raw.vsz_kb@, u64::MAX as int),
        unsigned_value(raw.rss_kb@, u64::MAX as int),
        percent_value(raw.memory_usage_percent@),
        percent_value(raw.cpu_usage_percent@),
    ) {
        (Some(pid), Some(vsz), Some(rss), Some(mem), Some(cpu)) => Some(
            ContainerProcess {
                pid: pid as u32,
                process_name: raw.process_name,
                container_id: raw.container_id,
                vsz_kb: vsz as u64,
                rss_kb: rss as u64,
                memory_usage: mem,
                cpu_usage: cpu,
            },
        ),
        _ => None,
    }
}

/// The memory figures of `raw`, where each of them parses.
pub open spec fn memory_from_text(raw: RawSnapshot) -> Option<SystemMemory> {
    match (
        unsigned_value(raw.total_memory_kb@, u64::MAX as int),
        unsigned_value(raw.free_memory_kb@, u64::MAX as int),
        unsigned_value(raw.used_memory_kb@, u64::MAX as int),
    ) {
        (Some(total), Some(free), Some(used)) => Some(
            SystemMemory { total_kb: total as u64, free_kb: free as u64, used_kb: used as u64 },
        ),
        _ => None,
    }
}

/// Every number in `raw` parses.
pub open spec fn snapshot_well_formed(raw: RawSnapshot) -> bool {
    &&& memory_from_text(raw).is_some()
    &&& forall|i: int|
        0 <= i < raw.processes@.len() ==> (#[trigger] process_from_text(
            raw.processes@[i],
        )).is_some()
}

/// Parses one container record.
pub fn parse_process(raw: &RawProcess) -> (r: Option<ContainerProcess>)
    ensures
        r == process_from_text(*raw),
{
    let pid = parse_u32(raw.pid.as_str());
    let vsz = parse_u64(raw.vsz_kb.as_str());
    let rss = parse_u64(raw.rss_kb.as_str());
    let mem = parse_percent(raw.memory_usage_percent.as_str());
    let cpu = parse_percent(raw.cpu_usage_percent.as_str());
    match (pid, vsz, rss, mem, cpu) {
        (Some(pid), Some(vsz_kb), Some(rss_kb), Some(memory_usage), Some(cpu_usage)) => Some(
            ContainerProcess {
                pid,
                process_name: raw.process_name.clone(),
                container_id: raw.container_id.clone(),
                vsz_kb,
                rss_kb,
                memory_usage,
                cpu_usage,
            },
        ),
        _ => None,
    }
}

/// Parses a whole snapshot; a single field that does not parse fails the
/// whole snapshot with `MalformedSnapshot`, and no record is skipped.
pub fn parse_snapshot(raw: &RawSnapshot) -> (r: Result<Snapshot, GovernorError>)
    ensures
        match r {
            Ok(s) => {
                &&& snapshot_well_formed(*raw)
                &&& memory_from_text(*raw) == Some(s.memory)
                &&& s.processes@.len() == raw.processes@.len()
                &&& forall|i: int|
                    0 <= i < s.processes@.len() ==> process_from_text(raw.processes@[i]) == Some(
                        #[trigger] s.processes@[i],
                    )
            },
            Err(e) => !snapshot_well_formed(*raw) && e == GovernorError::MalformedSnapshot,
        },
{
    let total = parse_u64(raw.total_memory_kb.as_str());
    let free = parse_u64(raw.free_memory_kb.as_str());
    let used = parse_u64(raw.used_memory_kb.as_str());
    let memory = match (total, free, used) {
        (Some(total_kb), Some(free_kb), Some(used_kb)) => SystemMemory { total_kb, free_kb, used_kb },
        _ => {
            return Err(GovernorError::MalformedSnapshot);
        },
    };
    let mut processes: Vec<ContainerProcess> = Vec::new();
    let mut i: usize = 0;
    while i < raw.processes.len()
        invariant
            i <= raw.processes@.len(),
            processes@.len() == i,
            forall|j: int|
                0 <= j < i ==> process_from_text(raw.processes@[j]) == Some(
                    #[trigger] processes@[j],
                ),
        decreases raw.processes@.len() - i,
    {
        match parse_process(&raw.processes[i]) {
            Some(p) => {
                processes.push(p);
            },
            None => {
                return Err(GovernorError::MalformedSnapshot);
            },
        }
        i = i + 1;
    }
    assert forall|j: int| 0 <= j < raw.processes@.len() implies (#[trigger] process_from_text(
        raw.processes@[j],
    )).is_some() by {
        assert(process_from_text(raw.processes@[j]) == Some(processes@[j]));
    }
    Ok(Snapshot { memory, processes })
}

} // verus!
