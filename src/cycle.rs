//! One governing cycle, from snapshot to the view reported to the sidecar.
use vstd::prelude::*;
use crate::classify::{classify, governed, not_named, lemma_tiers_partition, tier_members, Thresholds, Tier};
use crate::enforce::{enforce, overflow, survivors};
use crate::model::{ContainerProcess, Snapshot};

verus! {

broadcast use vstd::seq_lib::group_to_multiset_ensures;

/// Cap on the high tier unless configured otherwise.
pub const DEFAULT_HIGH_CAP: usize = 2;

/// Cap on the low tier unless configured otherwise.
pub const DEFAULT_LOW_CAP: usize = 3;

/// The governing policy: tier thresholds and the cap on each tier.
#[derive(Clone, Copy, Debug, PartialEq, Eq, Structural)]
pub struct GovernorConfig {
    pub thresholds: Thresholds,
    pub high_cap: usize,
    pub low_cap: usize,
}

impl Default for GovernorConfig {
    fn default() -> (r: Self)
        ensures
            r.thresholds.low_cpu.micros == crate::classify::DEFAULT_LOW_CPU_MICROS,
            r.thresholds.low_mem.micros == crate::classify::DEFAULT_LOW_MEM_MICROS,
            r.high_cap == DEFAULT_HIGH_CAP,
            r.low_cap == DEFAULT_LOW_CAP,
    {
        GovernorConfig {
            thresholds: Thresholds::default(),
            high_cap: DEFAULT_HIGH_CAP,
            low_cap: DEFAULT_LOW_CAP,
        }
    }
}

/// The classified view of one cycle, as handed to the sidecar.
#[derive(Debug)]
pub struct MonitoringData {
    pub total_memory_kb: u64,
    pub free_memory_kb: u64,
    pub used_memory_kb: u64,
    pub high_performance_containers: Vec<ContainerProcess>,
    pub low_performance_containers: Vec<ContainerProcess>,
    pub eliminated_containers: Vec<ContainerProcess>,
    pub sidecar_container_id: String,
}

/// Every container of `part` is governed: none of them is named `exclude`.
proof fn lemma_part_is_governed(s: Seq<ContainerProcess>, exclude: Seq<char>, part: Seq<ContainerProcess>)
    requires
        forall|x: ContainerProcess|
            part.to_multiset().count(x) <= #[trigger] governed(s, exclude).to_multiset().count(x),
    ensures
        forall|i: int| 0 <= i < part.len() ==> (#[trigger] part[i]).container_id@ != exclude,
{
    assert forall|i: int| 0 <= i < part.len() implies (#[trigger] part[i]).container_id@ != exclude by {
        let x = part[i];
        assert(part.contains(x));
        assert(governed(s, exclude).to_multiset().count(x) > 0);
        let g = governed(s, exclude);
        let j = choose|j: int| 0 <= j < g.len() && g[j] == x;
        s.lemma_filter_pred(not_named(exclude), j);
    }
}

/// Runs the decisions of one cycle: classifies every container of the
/// snapshot but the sidecar's own, enforces both caps, and assembles the view
/// that is reported. Stopping the eliminated containers is left to the caller.
pub fn plan_cycle(snapshot: &Snapshot, sidecar_id: &String, config: &GovernorConfig) -> (r: MonitoringData)
    ensures
        ({
            let s = snapshot.processes@;
            let ex = sidecar_id@;
            let high = tier_members(s, ex, config.thresholds, Tier::High);
            let low = tier_members(s, ex, config.thresholds, Tier::Low);
            &&& r.total_memory_kb == snapshot.memory.total_kb
            &&& r.free_memory_kb == snapshot.memory.free_kb
            &&& r.used_memory_kb == snapshot.memory.used_kb
            &&& r.sidecar_container_id@ == ex
            &&& r.high_performance_containers@ == survivors(high, config.high_cap as nat)
            &&& r.low_performance_containers@ == survivors(low, config.low_cap as nat)
            &&& r.eliminated_containers@ == overflow(high, config.high_cap as nat) + overflow(
                low,
                config.low_cap as nat,
            )
        }),
        // each governed container lands in exactly one of the three sets
        r.high_performance_containers@.to_multiset().add(
            r.low_performance_containers@.to_multiset(),
        ).add(r.eliminated_containers@.to_multiset()) == governed(
            snapshot.processes@,
            sidecar_id@,
        ).to_multiset(),
        // the sidecar itself is never among them
        forall|i: int|
            0 <= i < r.high_performance_containers@.len()
                ==> (#[trigger] r.high_performance_containers@[i]).container_id@ != sidecar_id@,
        forall|i: int|
            0 <= i < r.low_performance_containers@.len()
                ==> (#[trigger] r.low_performance_containers@[i]).container_id@ != sidecar_id@,
        forall|i: int|
            0 <= i < r.eliminated_containers@.len()
                ==> (#[trigger] r.eliminated_containers@[i]).container_id@ != sidecar_id@,
        r.high_performance_containers@.len() <= config.high_cap,
        r.low_performance_containers@.len() <= config.low_cap,
{
    let (high, low) = classify(&snapshot.processes, sidecar_id, &config.thresholds);
    let outcome = enforce(high, low, config.high_cap, config.low_cap);
    let r = MonitoringData {
        total_memory_kb: snapshot.memory.total_kb,
        free_memory_kb: snapshot.memory.free_kb,
        used_memory_kb: snapshot.memory.used_kb,
        high_performance_containers: outcome.surviving_high,
        low_performance_containers: outcome.surviving_low,
        eliminated_containers: outcome.eliminated,
        sidecar_container_id: sidecar_id.clone(),
    };
    proof {
        let s = snapshot.processes@;
        let ex = sidecar_id@;
        lemma_tiers_partition(s, ex, config.thresholds);
        let g = governed(s, ex).to_multiset();
        let mh = r.high_performance_containers@.to_multiset();
        let ml = r.low_performance_containers@.to_multiset();
        let me = r.eliminated_containers@.to_multiset();
        assert(mh.add(ml).add(me) =~= g);
        lemma_part_is_governed(s, ex, r.high_performance_containers@);
        lemma_part_is_governed(s, ex, r.low_performance_containers@);
        lemma_part_is_governed(s, ex, r.eliminated_containers@);
    }
    r
}

} // verus!
