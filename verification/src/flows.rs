//! The UDP flows of a forwarded port: one flow per source address, reused
//! while packets keep arriving and reaped once idle.
use vstd::prelude::*;

verus! {

/// How long a flow may stay without packets before it is reaped.
pub const FLOW_IDLE_TIMEOUT_MS: u64 = 30_000;

/// The source of a flow: its IP address (an IPv4 address as its 32-bit
/// value, an IPv6 one as its 128-bit value) and its port.
#[derive(Debug, Clone, Copy, PartialEq, Eq, Structural)]
pub struct FlowKey {
    pub v6: bool,
    pub ip: u128,
    pub port: u16,
}

/// A flow and when it last saw a packet (milliseconds on a monotonic
/// clock).
#[derive(Debug, Clone, Copy, PartialEq, Eq, Structural)]
pub struct Flow {
    pub key: FlowKey,
    pub last_seen_ms: u64,
}

/// The flows of a forwarded port, at most one per source.
#[derive(Debug, Clone)]
pub struct FlowTable {
    pub flows: Vec<Flow>,
}

/// No two flows share a source.
pub open spec fn unique_keys(flows: Seq<Flow>) -> bool {
    forall|i: int, j: int| 0 <= i < j < flows.len() ==> flows[i].key != flows[j].key
}

/// The flows as a map from source to the time it was last seen.
pub open spec fn flows_map(flows: Seq<Flow>) -> Map<FlowKey, u64>
    decreases flows.len(),
{
    if flows.len() == 0 {
        Map::empty()
    } else {
        flows_map(flows.drop_last()).insert(flows.last().key, flows.last().last_seen_ms)
    }
}

/// A flow is still alive at time `now`: it saw a packet within the idle
/// timeout (a time before the last packet counts as none elapsed).
pub open spec fn alive_at(last_seen_ms: u64, now_ms: u64) -> bool {
    (if now_ms >= last_seen_ms {
        now_ms - last_seen_ms
    } else {
        0
    }) < FLOW_IDLE_TIMEOUT_MS
}

/// Whether a packet reused an existing flow or opened a new one.
#[derive(Debug, Clone, Copy, PartialEq, Eq, Structural)]
pub enum FlowUse {
    Existing,
    Created,
}

proof fn lemma_flows_map_contains(flows: Seq<Flow>, k: FlowKey)
    ensures
        flows_map(flows).dom().contains(k) <==> exists|i: int|
            0 <= i < flows.len() && (#[trigger] flows[i]).key == k,
    decreases flows.len(),
{
    if flows.len() > 0 {
        let pre = flows.drop_last();
        lemma_flows_map_contains(pre, k);
        if flows_map(flows).dom().contains(k) && k != flows.last().key {
            let i = choose|i: int| 0 <= i < pre.len() && (#[trigger] pre[i]).key == k;
            assert(flows[i] == pre[i]);
        }
        if exists|i: int| 0 <= i < flows.len() && (#[trigger] flows[i]).key == k {
            let i = choose|i: int| 0 <= i < flows.len() && (#[trigger] flows[i]).key == k;
            if i < flows.len() - 1 {
                assert(pre[i] == flows[i]);
            }
        }
    }
}

proof fn lemma_flows_map_at(flows: Seq<Flow>, i: int)
    requires
        unique_keys(flows),
        0 <= i < flows.len(),
    ensures
        flows_map(flows).dom().contains(flows[i].key),
        flows_map(flows)[flows[i].key] == flows[i].last_seen_ms,
    decreases flows.len(),
{
    let pre = flows.drop_last();
    if i < flows.len() - 1 {
        assert(pre[i] == flows[i]);
        lemma_flows_map_at(pre, i);
        assert(flows[i].key != flows.last().key);
    }
}

proof fn lemma_flows_map_update(flows: Seq<Flow>, i: int, t: u64)
    requires
        unique_keys(flows),
        0 <= i < flows.len(),
    ensures
        unique_keys(flows.update(i, Flow { key: flows[i].key, last_seen_ms: t })),
        flows_map(flows.update(i, Flow { key: flows[i].key, last_seen_ms: t })) == flows_map(
            flows,
        ).insert(flows[i].key, t),
    decreases flows.len(),
{
    let nf = flows.update(i, Flow { key: flows[i].key, last_seen_ms: t });
    assert forall|a: int, b: int| 0 <= a < b < nf.len() implies nf[a].key != nf[b].key by {
        assert(nf[a].key == flows[a].key);
        assert(nf[b].key == flows[b].key);
    }
    let pre = flows.drop_last();
    if i == flows.len() - 1 {
        assert(nf.drop_last() =~= pre);
        assert(flows_map(nf) =~= flows_map(flows).insert(flows[i].key, t));
    } else {
        assert(nf.drop_last() =~= pre.update(i, Flow { key: flows[i].key, last_seen_ms: t }));
        lemma_flows_map_update(pre, i, t);
        assert(pre[i] == flows[i]);
        assert(flows[i].key != flows.last().key);
        assert(flows_map(nf) =~= flows_map(flows).insert(flows[i].key, t));
    }
}

impl FlowTable {
    /// The table's view: each source and when it last saw a packet.
    pub open spec fn view_map(&self) -> Map<FlowKey, u64> {
        flows_map(self.flows@)
    }

    /// No flows yet.
    pub fn new() -> (t: FlowTable)
        ensures
            t.flows@.len() == 0,
            unique_keys(t.flows@),
            t.view_map() == Map::<FlowKey, u64>::empty(),
    {
        FlowTable { flows: Vec::new() }
    }

    /// A packet from `key` arrives at time `now`: the source's flow is
    /// reused if there is one, else one is opened; either way it was last
    /// seen now, and no other flow changes.
    pub fn get_or_create_flow(&mut self, key: FlowKey, now_ms: u64) -> (u: FlowUse)
        requires
            unique_keys(old(self).flows@),
        ensures
            unique_keys(final(self).flows@),
            final(self).view_map() == old(self).view_map().insert(key, now_ms),
            (u == FlowUse::Existing) == old(self).view_map().dom().contains(key),
    {
        proof {
            lemma_flows_map_contains(self.flows@, key);
        }
        let mut i: usize = 0;
        while i < self.flows.len()
            invariant
                i <= self.flows.len(),
                self.flows@ == old(self).flows@,
                unique_keys(self.flows@),
                forall|j: int| 0 <= j < i ==> (#[trigger] self.flows@[j]).key != key,
            decreases self.flows.len() - i,
        {
            if self.flows[i].key == key {
                proof {
                    lemma_flows_map_update(self.flows@, i as int, now_ms);
                    lemma_flows_map_at(self.flows@, i as int);
                }
                assert(self.flows@[i as int].key == key);
                self.flows.set(i, Flow { key, last_seen_ms: now_ms });
                return FlowUse::Existing;
            }
            i = i + 1;
        }
        let ghost before = self.flows@;
        self.flows.push(Flow { key, last_seen_ms: now_ms });
        assert(self.flows@.drop_last() =~= before);
        assert(flows_map(self.flows@) == flows_map(before).insert(key, now_ms));
        assert forall|a: int, b: int| 0 <= a < b < self.flows@.len() implies self.flows@[a].key
            != self.flows@[b].key by {
            if b == before.len() {
                assert(before[a] == self.flows@[a]);
            } else {
                assert(before[a] == self.flows@[a]);
                assert(before[b] == self.flows@[b]);
            }
        }
        FlowUse::Created
    }

    /// Reaps the flows idle at time `now`: the others stay, in order.
    pub fn cleanup(&mut self, now_ms: u64)
        requires
            unique_keys(old(self).flows@),
        ensures
            unique_keys(final(self).flows@),
            final(self).flows@ == old(self).flows@.filter(|f: Flow| alive_at(f.last_seen_ms, now_ms)),
            forall|k: FlowKey|
                #[trigger] final(self).view_map().dom().contains(k) <==> old(
                    self,
                ).view_map().dom().contains(k) && alive_at(old(self).view_map()[k], now_ms),
    {
        let ghost old_flows = self.flows@;
        let ghost pred = |f: Flow| alive_at(f.last_seen_ms, now_ms);
        let mut kept: Vec<Flow> = Vec::new();
        let mut i: usize = 0;
        while i < self.flows.len()
            invariant
                i <= self.flows.len(),
                self.flows@ == old_flows,
                unique_keys(old_flows),
                pred == (|f: Flow| alive_at(f.last_seen_ms, now_ms)),
                kept@ == old_flows.take(i as int).filter(pred),
            decreases self.flows.len() - i,
        {
            let f = self.flows[i];
            let elapsed: u64 = if now_ms >= f.last_seen_ms {
                now_ms - f.last_seen_ms
            } else {
                0
            };
            assert(old_flows.take(i + 1).drop_last() =~= old_flows.take(i as int));
            assert(old_flows.take(i + 1).last() == f);
            proof {
                reveal(Seq::filter);
            }
            if elapsed < FLOW_IDLE_TIMEOUT_MS {
                kept.push(f);
                assert(pred(f));
            } else {
                assert(!pred(f));
            }
            i = i + 1;
        }
        assert(old_flows.take(old_flows.len() as int) =~= old_flows);
        proof {
            lemma_filter_unique(old_flows, pred);
            assert forall|k: FlowKey| #[trigger]
                flows_map(kept@).dom().contains(k) <==> flows_map(old_flows).dom().contains(k)
                    && alive_at(flows_map(old_flows)[k], now_ms) by {
                lemma_flows_map_contains(kept@, k);
                lemma_flows_map_contains(old_flows, k);
                if flows_map(kept@).dom().contains(k) {
                    let i = choose|i: int| 0 <= i < kept@.len() && (#[trigger] kept@[i]).key == k;
                    lemma_filter_member(old_flows, pred, kept@[i]);
                    let j = choose|j: int| 0 <= j < old_flows.len() && old_flows[j] == kept@[i];
                    assert(old_flows[j].key == k);
                    lemma_flows_map_at(old_flows, j);
                }
                if flows_map(old_flows).dom().contains(k) && alive_at(
                    flows_map(old_flows)[k],
                    now_ms,
                ) {
                    let j = choose|j: int| 0 <= j < old_flows.len() && (#[trigger] old_flows[j]).key == k;
                    lemma_flows_map_at(old_flows, j);
                    lemma_filter_keeps(old_flows, pred, j);
                    let i = choose|i: int| 0 <= i < kept@.len() && kept@[i] == old_flows[j];
                    assert(kept@[i].key == k);
                }
            }
        }
        self.flows = kept;
    }
}

proof fn lemma_filter_member(s: Seq<Flow>, pred: spec_fn(Flow) -> bool, x: Flow)
    requires
        s.filter(pred).contains(x),
    ensures
        exists|j: int| 0 <= j < s.len() && s[j] == x,
        pred(x),
    decreases s.len(),
{
    reveal(Seq::filter);
    if s.len() > 0 {
        let pre = s.drop_last();
        if pre.filter(pred).contains(x) {
            lemma_filter_member(pre, pred, x);
            let j = choose|j: int| 0 <= j < pre.len() && pre[j] == x;
            assert(s[j] == x);
        } else {
            assert(s.filter(pred) =~= pre.filter(pred).push(s.last()) || s.filter(pred) =~= pre.filter(pred));
            if pred(s.last()) {
                assert(s.filter(pred) == pre.filter(pred).push(s.last()));
                let k = choose|k: int| 0 <= k < s.filter(pred).len() && s.filter(pred)[k] == x;
                if k < pre.filter(pred).len() {
                    assert(pre.filter(pred)[k] == x);
                    assert(false);
                }
                assert(s[s.len() - 1] == x);
            } else {
                assert(s.filter(pred) == pre.filter(pred));
            }
        }
    }
}

proof fn lemma_filter_keeps(s: Seq<Flow>, pred: spec_fn(Flow) -> bool, j: int)
    requires
        0 <= j < s.len(),
        pred(s[j]),
    ensures
        s.filter(pred).contains(s[j]),
    decreases s.len(),
{
    reveal(Seq::filter);
    let pre = s.drop_last();
    if j < s.len() - 1 {
        assert(pre[j] == s[j]);
        lemma_filter_keeps(pre, pred, j);
        let k = choose|k: int| 0 <= k < pre.filter(pred).len() && pre.filter(pred)[k] == s[j];
        if pred(s.last()) {
            assert(s.filter(pred) == pre.filter(pred).push(s.last()));
            assert(s.filter(pred)[k] == s[j]);
        } else {
            assert(s.filter(pred) == pre.filter(pred));
        }
    } else {
        assert(s.filter(pred) == pre.filter(pred).push(s.last()));
        assert(s.filter(pred)[pre.filter(pred).len() as int] == s[j]);
    }
}

proof fn lemma_filter_unique(s: Seq<Flow>, pred: spec_fn(Flow) -> bool)
    requires
        unique_keys(s),
    ensures
        unique_keys(s.filter(pred)),
    decreases s.len(),
{
    reveal(Seq::filter);
    if s.len() > 0 {
        let pre = s.drop_last();
        assert(unique_keys(pre));
        lemma_filter_unique(pre, pred);
        if pred(s.last()) {
            let f = s.filter(pred);
            assert(f == pre.filter(pred).push(s.last()));
            assert forall|a: int, b: int| 0 <= a < b < f.len() implies f[a].key != f[b].key by {
                if b == f.len() - 1 {
                    lemma_filter_member(pre, pred, f[a]);
                    let j = choose|j: int| 0 <= j < pre.len() && pre[j] == f[a];
                    assert(s[j] == f[a]);
                }
            }
        }
    }
}

} // verus!
