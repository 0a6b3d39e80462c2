//! The integer part of the device's system metrics: the CPU cores, the
//! memory, the disks' total and used space in whole GiB, and how many bytes
//! each network interface received and sent since the previous reading.
use vstd::prelude::*;

use crate::fs::string_views;

verus! {

/// Bytes in a GiB.
pub const GIB: u64 = 1073741824;

/// The ids of the CPU cores as the metrics list them: one per core, in
/// order, numbered from 0 (their count is the core count).
pub fn cpu_core_ids(cores: usize) -> (r: Vec<usize>)
    ensures
        r@.len() == cores,
        forall|i: int| 0 <= i < cores ==> #[trigger] r@[i] == i,
{
    let mut r: Vec<usize> = Vec::new();
    let mut i: usize = 0;
    while i < cores
        invariant
            i <= cores,
            r@.len() == i,
            forall|k: int| 0 <= k < i ==> #[trigger] r@[k] == k,
        decreases cores - i,
    {
        r.push(i);
        i = i + 1;
    }
    r
}

/// The memory figures of the metrics, from the total and used memory as
/// the system reports them: each divided by 1024, rounding down.
pub fn memory_totals(total: u64, used: u64) -> (r: (u64, u64))
    ensures
        r.0 == total / 1024,
        r.1 == used / 1024,
{
    (total / 1024, used / 1024)
}

/// The total space of the disks, summed in whole GiB per disk; each disk is
/// `(total, available)` in bytes.
pub open spec fn disk_total_gb_of(disks: Seq<(u64, u64)>) -> int
    decreases disks.len(),
{
    if disks.len() == 0 {
        0
    } else {
        disk_total_gb_of(disks.drop_last()) + disks.last().0 / GIB
    }
}

/// The used space of the disks (total less available), summed in whole GiB
/// per disk.
pub open spec fn disk_used_gb_of(disks: Seq<(u64, u64)>) -> int
    decreases disks.len(),
{
    if disks.len() == 0 {
        0
    } else {
        disk_used_gb_of(disks.drop_last()) + (disks.last().0 - disks.last().1) / (GIB as int)
    }
}

/// The disks' total and used space in whole GiB. No disk has more space
/// available than in total.
pub fn disk_totals(disks: &Vec<(u64, u64)>) -> (r: (u64, u64))
    requires
        forall|i: int| 0 <= i < disks@.len() ==> (#[trigger] disks@[i]).1 <= disks@[i].0,
        disk_total_gb_of(disks@) <= u64::MAX,
        disk_used_gb_of(disks@) <= u64::MAX,
    ensures
        r.0 == disk_total_gb_of(disks@),
        r.1 == disk_used_gb_of(disks@),
{
    let mut total: u64 = 0;
    let mut used: u64 = 0;
    let mut i: usize = 0;
    while i < disks.len()
        invariant
            i <= disks.len(),
            forall|k: int| 0 <= k < disks@.len() ==> (#[trigger] disks@[k]).1 <= disks@[k].0,
            disk_total_gb_of(disks@) <= u64::MAX,
            disk_used_gb_of(disks@) <= u64::MAX,
            total == disk_total_gb_of(disks@.take(i as int)),
            used == disk_used_gb_of(disks@.take(i as int)),
        decreases disks.len() - i,
    {
        let (t, a) = disks[i];
        assert(disks@.take(i + 1).drop_last() =~= disks@.take(i as int));
        proof {
            lemma_disk_sums_grow(disks@, i + 1);
        }
        total = total + t / GIB;
        used = used + (t - a) / GIB;
        i = i + 1;
    }
    assert(disks@.take(disks.len() as int) =~= disks@);
    (total, used)
}

/// The sums over a prefix are at most those over the whole list.
proof fn lemma_disk_sums_grow(disks: Seq<(u64, u64)>, n: int)
    requires
        0 <= n <= disks.len(),
        forall|i: int| 0 <= i < disks.len() ==> (#[trigger] disks[i]).1 <= disks[i].0,
    ensures
        disk_total_gb_of(disks.take(n)) <= disk_total_gb_of(disks),
        disk_used_gb_of(disks.take(n)) <= disk_used_gb_of(disks),
    decreases disks.len() - n,
{
    if n < disks.len() {
        lemma_disk_sums_grow(disks, n + 1);
        assert(disks.take(n + 1).drop_last() =~= disks.take(n));
        assert(disks[n].1 <= disks[n].0);
    } else {
        assert(disks.take(n) =~= disks);
    }
}

/// The counters of each network interface at the previous reading: total
/// bytes received and sent.
#[derive(Debug, Clone)]
pub struct NetCounters {
    pub names: Vec<String>,
    pub totals: Vec<(u64, u64)>,
}

/// One pair of counters per interface, no interface twice.
pub open spec fn counters_wf(s: NetCounters) -> bool {
    &&& s.names@.len() == s.totals@.len()
    &&& forall|i: int, j: int| 0 <= i < j < s.names@.len() ==> s.names@[i]@ != s.names@[j]@
}

/// The counters of each interface read before.
pub open spec fn counters_map(s: NetCounters) -> Map<Seq<char>, (u64, u64)> {
    Map::new(
        |id: Seq<char>| string_views(s.names@).contains(id),
        |id: Seq<char>| s.totals@[choose|i: int| 0 <= i < s.names@.len() && s.names@[i]@ == id],
    )
}

/// `a - b`, or 0 where `b` is larger (`u64::saturating_sub`).
pub open spec fn saturating_sub_of(a: u64, b: u64) -> u64 {
    if a >= b {
        (a - b) as u64
    } else {
        0
    }
}

/// The bytes an interface received and sent since the previous reading: 0
/// for an interface not read before.
pub open spec fn deltas_of(m: Map<Seq<char>, (u64, u64)>, name: Seq<char>, rx: u64, tx: u64) -> (
    u64,
    u64,
) {
    if m.dom().contains(name) {
        (saturating_sub_of(rx, m[name].0), saturating_sub_of(tx, m[name].1))
    } else {
        (0, 0)
    }
}

proof fn lemma_unique(s: NetCounters, a: int, b: int)
    requires
        counters_wf(s),
        0 <= a < s.names@.len(),
        0 <= b < s.names@.len(),
        s.names@[a]@ == s.names@[b]@,
    ensures
        a == b,
{
    if a < b {
        assert(s.names@[a]@ != s.names@[b]@);
    } else if b < a {
        assert(s.names@[b]@ != s.names@[a]@);
    }
}

proof fn lemma_map_at(s: NetCounters, i: int)
    requires
        counters_wf(s),
        0 <= i < s.names@.len(),
    ensures
        counters_map(s).dom().contains(s.names@[i]@),
        counters_map(s)[s.names@[i]@] == s.totals@[i],
{
    let id = s.names@[i]@;
    assert(string_views(s.names@)[i] == id);
    let m = choose|m: int| 0 <= m < s.names@.len() && s.names@[m]@ == id;
    lemma_unique(s, m, i);
}

proof fn lemma_map_set(before: NetCounters, after: NetCounters, i: int)
    requires
        counters_wf(before),
        0 <= i < before.names@.len(),
        after.names@ == before.names@,
        after.totals@ == before.totals@.update(i, after.totals@[i]),
    ensures
        counters_wf(after),
        counters_map(after) == counters_map(before).insert(before.names@[i]@, after.totals@[i]),
{
    let id = before.names@[i]@;
    assert forall|k: Seq<char>| #[trigger] counters_map(after).dom().contains(k) implies counters_map(
        after,
    )[k] == counters_map(before).insert(id, after.totals@[i])[k] by {
        let m = choose|m: int| 0 <= m < after.names@.len() && after.names@[m]@ == k;
        let m2 = choose|m2: int| 0 <= m2 < before.names@.len() && before.names@[m2]@ == k;
        lemma_unique(before, m, m2);
        if k == id {
            lemma_unique(before, m, i);
        }
    }
    lemma_map_at(before, i);
    assert(counters_map(after) =~= counters_map(before).insert(id, after.totals@[i]));
}

proof fn lemma_map_push(before: NetCounters, after: NetCounters, id: Seq<char>, t: (u64, u64))
    requires
        counters_wf(before),
        !counters_map(before).dom().contains(id),
        string_views(after.names@) == string_views(before.names@).push(id),
        after.totals@ == before.totals@.push(t),
    ensures
        counters_wf(after),
        counters_map(after) == counters_map(before).insert(id, t),
{
    let n = before.names@.len() as int;
    assert(after.names@.len() == n + 1) by {
        assert(string_views(after.names@).len() == after.names@.len());
    }
    assert forall|i: int| 0 <= i < after.names@.len() implies after.names@[i]@ == (if i < n {
        before.names@[i]@
    } else {
        id
    }) by {
        assert(string_views(after.names@)[i] == after.names@[i]@);
        if i < n {
            assert(string_views(before.names@)[i] == before.names@[i]@);
        }
    }
    assert forall|a: int, b: int| 0 <= a < b < after.names@.len() implies after.names@[a]@
        != after.names@[b]@ by {
        if b == n {
            assert(string_views(before.names@)[a] == before.names@[a]@);
        }
    }
    assert forall|k: Seq<char>|
        string_views(after.names@).contains(k) == (string_views(before.names@).contains(k) || k == id) by {
        if string_views(after.names@).contains(k) {
            let m = choose|m: int| 0 <= m < string_views(after.names@).len() && string_views(after.names@)[m] == k;
            if m < n {
                assert(string_views(before.names@)[m] == k);
            }
        }
        if string_views(before.names@).contains(k) {
            let m = choose|m: int| 0 <= m < string_views(before.names@).len() && string_views(before.names@)[m] == k;
            assert(string_views(after.names@)[m] == k);
        }
        if k == id {
            assert(string_views(after.names@)[n] == k);
        }
    }
    assert forall|k: Seq<char>| #[trigger] counters_map(after).dom().contains(k) implies counters_map(
        after,
    )[k] == counters_map(before).insert(id, t)[k] by {
        let m = choose|m: int| 0 <= m < after.names@.len() && after.names@[m]@ == k;
        if k == id {
            lemma_unique(after, m, n);
        } else {
            let m2 = choose|m2: int| 0 <= m2 < before.names@.len() && before.names@[m2]@ == k;
            assert(after.names@[m2]@ == k);
            lemma_unique(after, m, m2);
        }
    }
    assert(counters_map(after) =~= counters_map(before).insert(id, t));
}

impl NetCounters {
    /// No interface read yet.
    pub fn new() -> (s: NetCounters)
        ensures
            counters_wf(s),
            counters_map(s) == Map::<Seq<char>, (u64, u64)>::empty(),
    {
        let s = NetCounters { names: Vec::new(), totals: Vec::new() };
        assert(counters_map(s) =~= Map::<Seq<char>, (u64, u64)>::empty());
        s
    }

    /// Records an interface's counters (`rx`, `tx` bytes in total) and gives
    /// what it received and sent since the previous reading.
    pub fn record(&mut self, name: &String, rx: u64, tx: u64) -> (d: (u64, u64))
        requires
            counters_wf(*old(self)),
        ensures
            counters_wf(*final(self)),
            d == deltas_of(counters_map(*old(self)), name@, rx, tx),
            counters_map(*final(self)) == counters_map(*old(self)).insert(name@, (rx, tx)),
    {
        let mut i: usize = 0;
        while i < self.names.len()
            invariant
                i <= self.names.len(),
                *self == *old(self),
                counters_wf(*self),
                forall|j: int| 0 <= j < i ==> (#[trigger] self.names@[j])@ != name@,
            decreases self.names.len() - i,
        {
            if self.names[i] == *name {
                proof {
                    lemma_map_at(*self, i as int);
                }
                let (rx_prev, tx_prev) = self.totals[i];
                let ghost before = *self;
                self.totals.set(i, (rx, tx));
                proof {
                    lemma_map_set(before, *self, i as int);
                }
                return (rx.saturating_sub(rx_prev), tx.saturating_sub(tx_prev));
            }
            i = i + 1;
        }
        proof {
            if string_views(self.names@).contains(name@) {
                let k = choose|k: int|
                    0 <= k < string_views(self.names@).len() && string_views(self.names@)[k] == name@;
                assert(self.names@[k]@ == name@);
            }
        }
        let ghost before = *self;
        self.names.push(name.clone());
        self.totals.push((rx, tx));
        proof {
            assert(string_views(self.names@) =~= string_views(before.names@).push(name@));
            lemma_map_push(before, *self, name@, (rx, tx));
        }
        (0, 0)
    }
}

/// The bytes received by all interfaces.
pub open spec fn rx_sum_of(d: Seq<(u64, u64)>) -> int
    decreases d.len(),
{
    if d.len() == 0 {
        0
    } else {
        rx_sum_of(d.drop_last()) + d.last().0
    }
}

/// The bytes sent by all interfaces.
pub open spec fn tx_sum_of(d: Seq<(u64, u64)>) -> int
    decreases d.len(),
{
    if d.len() == 0 {
        0
    } else {
        tx_sum_of(d.drop_last()) + d.last().1
    }
}

proof fn lemma_net_sums_grow(d: Seq<(u64, u64)>, n: int)
    requires
        0 <= n <= d.len(),
    ensures
        rx_sum_of(d.take(n)) <= rx_sum_of(d),
        tx_sum_of(d.take(n)) <= tx_sum_of(d),
    decreases d.len() - n,
{
    if n < d.len() {
        lemma_net_sums_grow(d, n + 1);
        assert(d.take(n + 1).drop_last() =~= d.take(n));
    } else {
        assert(d.take(n) =~= d);
    }
}

/// The bytes received and sent by all interfaces since the previous
/// reading (each interface's `(received, sent)`).
pub fn network_totals(deltas: &Vec<(u64, u64)>) -> (r: (u64, u64))
    requires
        rx_sum_of(deltas@) <= u64::MAX,
        tx_sum_of(deltas@) <= u64::MAX,
    ensures
        r.0 == rx_sum_of(deltas@),
        r.1 == tx_sum_of(deltas@),
{
    let mut rx: u64 = 0;
    let mut tx: u64 = 0;
    let mut i: usize = 0;
    while i < deltas.len()
        invariant
            i <= deltas.len(),
            rx_sum_of(deltas@) <= u64::MAX,
            tx_sum_of(deltas@) <= u64::MAX,
            rx == rx_sum_of(deltas@.take(i as int)),
            tx == tx_sum_of(deltas@.take(i as int)),
        decreases deltas.len() - i,
    {
        assert(deltas@.take(i + 1).drop_last() =~= deltas@.take(i as int));
        proof {
            lemma_net_sums_grow(deltas@, i + 1);
        }
        rx = rx + deltas[i].0;
        tx = tx + deltas[i].1;
        i = i + 1;
    }
    assert(deltas@.take(deltas.len() as int) =~= deltas@);
    (rx, tx)
}

} // verus!
