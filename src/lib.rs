//! A single-node container-fleet governor: snapshot parsing, tier
//! classification, capacity enforcement and the control-loop state machine.
pub mod classify;
pub mod cycle;
pub mod enforce;
pub mod lifecycle;
pub mod model;
pub mod numeric;
pub mod outcome;

pub use model::{
    parse_process, parse_snapshot, ContainerProcess, GovernorError, RawProcess, RawSnapshot,
    Snapshot, SystemMemory,
};
pub use numeric::{parse_percent, parse_u32, parse_u64, Percent};
pub use classify::{classify, tier_of, Thresholds, Tier};
pub use enforce::{enforce, sort_by_cpu_desc, Enforcement};
pub use cycle::{plan_cycle, GovernorConfig, MonitoringData};
pub use lifecycle::{start, step, Action, Event, Phase};
pub use outcome::{log_url, report_url, sidecar_result, stop_result};
