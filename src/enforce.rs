//! Capacity enforcement: rank each tier by CPU usage and cut it at its cap.
use vstd::prelude::*;
use crate::model::ContainerProcess;

verus! {

broadcast use vstd::seq_lib::group_to_multiset_ensures;

/// In descending CPU order with ties kept in input order, the container at
/// index `a` of `s` comes before the one at index `b`.
pub open spec fn ranks_before(s: Seq<ContainerProcess>, a: int, b: int) -> bool {
    ||| s[a].cpu_usage.micros > s[b].cpu_usage.micros
    ||| (s[a].cpu_usage.micros == s[b].cpu_usage.micros && a < b)
}

/// `order` lists each index of `s` once, busiest CPU first, and keeps the
/// input order among containers with equal CPU usage.
pub open spec fn is_stable_cpu_order(s: Seq<ContainerProcess>, order: Seq<int>) -> bool {
    &&& order.len() == s.len()
    &&& forall|i: int| 0 <= i < order.len() ==> 0 <= #[trigger] order[i] < s.len()
    &&& forall|k: int| 0 <= k < s.len() ==> #[trigger] order.contains(k)
    &&& forall|i: int, j: int|
        0 <= i < j < order.len() ==> ranks_before(s, #[trigger] order[i], #[trigger] order[j])
}

/// The stable descending CPU order of `s`, as indices into `s`.
pub open spec fn stable_cpu_order(s: Seq<ContainerProcess>) -> Seq<int> {
    choose|order: Seq<int>| is_stable_cpu_order(s, order)
}

/// `s` sorted by descending CPU usage, ties in input order.
pub open spec fn sorted_by_cpu(s: Seq<ContainerProcess>) -> Seq<ContainerProcess> {
    stable_cpu_order(s).map_values(|k: int| s[k])
}

/// The containers of a tier that stay: the `cap` busiest.
pub open spec fn survivors(s: Seq<ContainerProcess>, cap: nat) -> Seq<ContainerProcess> {
    let sorted = sorted_by_cpu(s);
    if cap < sorted.len() {
        sorted.take(cap as int)
    } else {
        sorted
    }
}

/// The containers of a tier beyond its cap, busiest first: those to stop.
pub open spec fn overflow(s: Seq<ContainerProcess>, cap: nat) -> Seq<ContainerProcess> {
    let sorted = sorted_by_cpu(s);
    if cap < sorted.len() {
        sorted.skip(cap as int)
    } else {
        Seq::empty()
    }
}

proof fn lemma_orders_agree_at(s: Seq<ContainerProcess>, o1: Seq<int>, o2: Seq<int>, i: int)
    requires
        is_stable_cpu_order(s, o1),
        is_stable_cpu_order(s, o2),
        0 <= i < o1.len(),
        forall|j: int| 0 <= j < i ==> o1[j] == o2[j],
    ensures
        o1[i] == o2[i],
{
    let a = o1[i];
    let b = o2[i];
    if a != b {
        assert(o2.contains(a));
        let j = choose|j: int| 0 <= j < o2.len() && o2[j] == a;
        assert(o1.contains(b));
        let m = choose|m: int| 0 <= m < o1.len() && o1[m] == b;
        if j < i {
            assert(o1[j] == a);
            assert(ranks_before(s, o1[j], o1[i]));
        } else if m < i {
            assert(o2[m] == b);
            assert(ranks_before(s, o2[m], o2[i]));
        } else {
            assert(ranks_before(s, o2[i], o2[j]));
            assert(ranks_before(s, o1[i], o1[m]));
        }
    }
}

proof fn lemma_orders_agree_below(s: Seq<ContainerProcess>, o1: Seq<int>, o2: Seq<int>, i: int)
    requires
        is_stable_cpu_order(s, o1),
        is_stable_cpu_order(s, o2),
        0 <= i <= o1.len(),
    ensures
        forall|j: int| 0 <= j < i ==> o1[j] == o2[j],
    decreases i,
{
    if i > 0 {
        lemma_orders_agree_below(s, o1, o2, i - 1);
        lemma_orders_agree_at(s, o1, o2, i - 1);
    }
}

/// There is only one stable descending CPU order of a sequence.
pub proof fn lemma_stable_cpu_order_unique(s: Seq<ContainerProcess>, o1: Seq<int>, o2: Seq<int>)
    requires
        is_stable_cpu_order(s, o1),
        is_stable_cpu_order(s, o2),
    ensures
        o1 == o2,
{
    lemma_orders_agree_below(s, o1, o2, o1.len() as int);
    assert(o1 =~= o2);
}

proof fn lemma_insert_multiset<A>(s: Seq<A>, i: int, x: A)
    requires
        0 <= i <= s.len(),
    ensures
        s.insert(i, x).to_multiset() =~= s.to_multiset().insert(x),
{
    let t = s.insert(i, x);
    assert(t.remove(i) =~= s);
    assert(t[i] == x);
    assert(t.to_multiset().count(x) > 0);
}

/// Sorts a tier by descending CPU usage; containers with equal CPU usage keep
/// their input order.
pub fn sort_by_cpu_desc(tier: Vec<ContainerProcess>) -> (r: Vec<ContainerProcess>)
    ensures
        is_stable_cpu_order(tier@, stable_cpu_order(tier@)),
        r@ == sorted_by_cpu(tier@),
        r@.len() == tier@.len(),
        r@.to_multiset() == tier@.to_multiset(),
{
    let ghost s = tier@;
    let mut rest = tier;
    let mut sorted: Vec<ContainerProcess> = Vec::new();
    let ghost mut order: Seq<int> = Seq::empty();
    while rest.len() > 0
        invariant
            rest@.len() <= s.len(),
            rest@ == s.take(rest@.len() as int),
            sorted@.len() == order.len(),
            order.len() == s.len() - rest@.len(),
            forall|i: int| 0 <= i < order.len() ==> rest@.len() <= #[trigger] order[i] < s.len(),
            forall|k: int| rest@.len() <= k < s.len() ==> #[trigger] order.contains(k),
            forall|i: int, j: int|
                0 <= i < j < order.len() ==> ranks_before(s, #[trigger] order[i], #[trigger] order[j]),
            forall|i: int| 0 <= i < order.len() ==> #[trigger] sorted@[i] == s[order[i]],
            rest@.to_multiset().add(sorted@.to_multiset()) == s.to_multiset(),
        decreases rest@.len(),
    {
        let ghost old_rest = rest@;
        let x = rest.pop().unwrap();
        let k: usize = rest.len();
        assert(x == s[k as int]);
        assert(rest@ =~= s.take(k as int));
        let mut pos: usize = 0;
        while pos < sorted.len() && sorted[pos].cpu_usage.micros > x.cpu_usage.micros
            invariant
                pos <= sorted@.len(),
                forall|j: int| 0 <= j < pos ==> (#[trigger] sorted@[j]).cpu_usage.micros > x.cpu_usage.micros,
            decreases sorted@.len() - pos,
        {
            pos = pos + 1;
        }
        proof {
            lemma_insert_multiset(sorted@, pos as int, x);
            assert(old_rest =~= rest@.push(x));
        }
        let ghost old_order = order;
        let ghost old_sorted = sorted@;
        sorted.insert(pos, x);
        proof {
            order = old_order.insert(pos as int, k as int);
            assert forall|i: int| 0 <= i < order.len() implies #[trigger] sorted@[i] == s[order[i]] by {
                if i < pos {
                    assert(sorted@[i] == old_sorted[i]);
                } else if i > pos {
                    assert(sorted@[i] == old_sorted[i - 1]);
                }
            }
            assert forall|kk: int| rest@.len() <= kk < s.len() implies #[trigger] order.contains(kk) by {
                if kk == k {
                    assert(order[pos as int] == kk);
                } else {
                    assert(old_order.contains(kk));
                    let idx = choose|idx: int| 0 <= idx < old_order.len() && old_order[idx] == kk;
                    if idx < pos {
                        assert(order[idx] == kk);
                    } else {
                        assert(order[idx + 1] == kk);
                    }
                }
            }
            assert forall|i: int, j: int| 0 <= i < j < order.len() implies ranks_before(
                s,
                #[trigger] order[i],
                #[trigger] order[j],
            ) by {
                if j < pos {
                    assert(ranks_before(s, old_order[i], old_order[j]));
                } else if i > pos {
                    assert(ranks_before(s, old_order[i - 1], old_order[j - 1]));
                } else if i < pos && j > pos {
                    assert(ranks_before(s, old_order[i], old_order[j - 1]));
                } else if j == pos {
                    assert(old_sorted[i] == s[old_order[i]]);
                } else {
                    assert(i == pos);
                    assert(old_sorted[pos as int] == s[old_order[pos as int]]);
                    if j - 1 > pos {
                        assert(ranks_before(s, old_order[pos as int], old_order[j - 1]));
                    }
                }
            }
        }
    }
    proof {
        assert(is_stable_cpu_order(s, order));
        lemma_stable_cpu_order_unique(s, order, stable_cpu_order(s));
        assert(sorted@ =~= sorted_by_cpu(s));
        assert(rest@ =~= Seq::<ContainerProcess>::empty());
    }
    sorted
}

/// The outcome of enforcing both caps: who stays in each tier, and who is
/// to be stopped.
#[derive(Debug)]
pub struct Enforcement {
    pub surviving_high: Vec<ContainerProcess>,
    pub surviving_low: Vec<ContainerProcess>,
    /// The high tier's overflow, then the low tier's, each busiest first.
    pub eliminated: Vec<ContainerProcess>,
}

/// Ranks a tier and cuts it at `cap`: returns the survivors and the overflow.
fn cut_tier(tier: Vec<ContainerProcess>, cap: usize) -> (r: (Vec<ContainerProcess>, Vec<ContainerProcess>))
    ensures
        r.0@ == survivors(tier@, cap as nat),
        r.1@ == overflow(tier@, cap as nat),
        r.0@.to_multiset().add(r.1@.to_multiset()) == tier@.to_multiset(),
{
    let mut sorted = sort_by_cpu_desc(tier);
    let ghost all = sorted@;
    if cap < sorted.len() {
        let excess = sorted.split_off(cap);
        proof {
            assert(all =~= sorted@ + excess@);
            vstd::seq_lib::lemma_multiset_commutative(sorted@, excess@);
        }
        (sorted, excess)
    } else {
        (sorted, Vec::new())
    }
}

/// Keeps the `high_cap` busiest containers of the high tier and the `low_cap`
/// busiest of the low tier, and selects every other container for stopping.
pub fn enforce(high: Vec<ContainerProcess>, low: Vec<ContainerProcess>, high_cap: usize, low_cap: usize) -> (r: Enforcement)
    ensures
        r.surviving_high@ == survivors(high@, high_cap as nat),
        r.surviving_low@ == survivors(low@, low_cap as nat),
        r.eliminated@ == overflow(high@, high_cap as nat) + overflow(low@, low_cap as nat),
        r.surviving_high@.len() <= high_cap,
        r.surviving_low@.len() <= low_cap,
        r.surviving_high@.to_multiset().add(r.surviving_low@.to_multiset()).add(
            r.eliminated@.to_multiset(),
        ) == high@.to_multiset().add(low@.to_multiset()),
{
    let (surviving_high, mut eliminated) = cut_tier(high, high_cap);
    let (surviving_low, mut low_excess) = cut_tier(low, low_cap);
    let ghost high_excess = eliminated@;
    let ghost le = low_excess@;
    eliminated.append(&mut low_excess);
    proof {
        vstd::seq_lib::lemma_multiset_commutative(high_excess, le);
        assert(surviving_high@.to_multiset().add(surviving_low@.to_multiset()).add(
            eliminated@.to_multiset(),
        ) =~= high@.to_multiset().add(low@.to_multiset()));
    }
    Enforcement { surviving_high, surviving_low, eliminated }
}

} // verus!
