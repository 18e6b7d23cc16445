//! Tier classification: which containers count as idle.
use vstd::prelude::*;
use crate::model::ContainerProcess;
use crate::numeric::Percent;

verus! {

broadcast use vstd::seq_lib::group_to_multiset_ensures;

/// The thresholds under which a running container still counts as idle.
#[derive(Clone, Copy, Debug, PartialEq, Eq, Structural)]
pub struct Thresholds {
    /// The largest CPU usage still considered idle.
    pub low_cpu: Percent,
    /// The largest memory usage still considered idle.
    pub low_mem: Percent,
}

/// 0.09 % CPU, in millionths of a percent.
pub const DEFAULT_LOW_CPU_MICROS: u64 = 90_000;

/// 0.15 % memory, in millionths of a percent.
pub const DEFAULT_LOW_MEM_MICROS: u64 = 150_000;

impl Default for Thresholds {
    fn default() -> (r: Self)
        ensures
            r.low_cpu.micros == DEFAULT_LOW_CPU_MICROS,
            r.low_mem.micros == DEFAULT_LOW_MEM_MICROS,
    {
        Thresholds {
            low_cpu: Percent { micros: DEFAULT_LOW_CPU_MICROS },
            low_mem: Percent { micros: DEFAULT_LOW_MEM_MICROS },
        }
    }
}

/// A performance tier.
#[derive(Clone, Copy, Debug, PartialEq, Eq, Structural)]
pub enum Tier {
    High,
    Low,
}

/// The tier of `p`, by these rules in this order: no CPU at all is low; CPU
/// and memory both at or under their thresholds is low; anything else is high.
pub open spec fn tier_spec(p: ContainerProcess, t: Thresholds) -> Tier {
    if p.cpu_usage.micros == 0 {
        Tier::Low
    } else if p.cpu_usage.micros <= t.low_cpu.micros && p.memory_usage.micros <= t.low_mem.micros {
        Tier::Low
    } else {
        Tier::High
    }
}

/// Holds of a container that is not the one named `exclude`.
pub open spec fn not_named(exclude: Seq<char>) -> spec_fn(ContainerProcess) -> bool {
    |p: ContainerProcess| p.container_id@ != exclude
}

/// The containers of `s` that are governed: all but the one named `exclude`.
pub open spec fn governed(s: Seq<ContainerProcess>, exclude: Seq<char>) -> Seq<ContainerProcess> {
    s.filter(not_named(exclude))
}

/// The governed containers of `s` in tier `tier`, in snapshot order.
pub open spec fn tier_members(
    s: Seq<ContainerProcess>,
    exclude: Seq<char>,
    t: Thresholds,
    tier: Tier,
) -> Seq<ContainerProcess> {
    s.filter(|p: ContainerProcess| p.container_id@ != exclude && tier_spec(p, t) == tier)
}

/// The tier of one container.
pub fn tier_of(p: &ContainerProcess, t: &Thresholds) -> (r: Tier)
    ensures
        r == tier_spec(*p, *t),
{
    if p.cpu_usage.micros == 0 {
        Tier::Low
    } else if p.cpu_usage.micros <= t.low_cpu.micros && p.memory_usage.micros <= t.low_mem.micros {
        Tier::Low
    } else {
        Tier::High
    }
}

/// Splits `containers` into the high tier and the low tier, in snapshot
/// order, leaving out the container whose identifier is `exclude_id`.
pub fn classify(containers: &Vec<ContainerProcess>, exclude_id: &String, t: &Thresholds) -> (r: (
    Vec<ContainerProcess>,
    Vec<ContainerProcess>,
))
    ensures
        r.0@ == tier_members(containers@, exclude_id@, *t, Tier::High),
        r.1@ == tier_members(containers@, exclude_id@, *t, Tier::Low),
{
    let mut high: Vec<ContainerProcess> = Vec::new();
    let mut low: Vec<ContainerProcess> = Vec::new();
    let mut i: usize = 0;
    while i < containers.len()
        invariant
            i <= containers@.len(),
            high@ == tier_members(containers@.take(i as int), exclude_id@, *t, Tier::High),
            low@ == tier_members(containers@.take(i as int), exclude_id@, *t, Tier::Low),
        decreases containers@.len() - i,
    {
        let p = &containers[i];
        proof {
            reveal(Seq::filter);
        }
        let ghost next = containers@.take(i + 1);
        assert(next.drop_last() =~= containers@.take(i as int));
        assert(next.last() == *p);
        if p.container_id != *exclude_id {
            match tier_of(p, t) {
                Tier::High => high.push(p.clone()),
                Tier::Low => low.push(p.clone()),
            }
        }
        i = i + 1;
    }
    assert(containers@.take(i as int) =~= containers@);
    (high, low)
}

/// Classification looks at nothing but a container's own CPU and memory
/// usage: two containers that use the same get the same tier.
pub proof fn lemma_tier_depends_on_usage_only(p: ContainerProcess, q: ContainerProcess, t: Thresholds)
    requires
        p.cpu_usage == q.cpu_usage,
        p.memory_usage == q.memory_usage,
    ensures
        tier_spec(p, t) == tier_spec(q, t),
{
}

/// The two tiers together hold each governed container exactly once.
pub proof fn lemma_tiers_partition(s: Seq<ContainerProcess>, exclude: Seq<char>, t: Thresholds)
    ensures
        tier_members(s, exclude, t, Tier::High).to_multiset().add(
            tier_members(s, exclude, t, Tier::Low).to_multiset(),
        ) =~= governed(s, exclude).to_multiset(),
    decreases s.len(),
{
    reveal(Seq::filter);
    if s.len() > 0 {
        let d = s.drop_last();
        let x = s.last();
        lemma_tiers_partition(d, exclude, t);
        let h = tier_members(d, exclude, t, Tier::High);
        let l = tier_members(d, exclude, t, Tier::Low);
        let g = governed(d, exclude);
        if x.container_id@ != exclude {
            assert(governed(s, exclude) == g.push(x));
            if tier_spec(x, t) == Tier::High {
                assert(tier_members(s, exclude, t, Tier::High) == h.push(x));
                assert(tier_members(s, exclude, t, Tier::Low) == l);
            } else {
                assert(tier_members(s, exclude, t, Tier::High) == h);
                assert(tier_members(s, exclude, t, Tier::Low) == l.push(x));
            }
        } else {
            assert(governed(s, exclude) == g);
            assert(tier_members(s, exclude, t, Tier::High) == h);
            assert(tier_members(s, exclude, t, Tier::Low) == l);
        }
    }
}

} // verus!
