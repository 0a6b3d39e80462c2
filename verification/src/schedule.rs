//! When the deployment manager observes a unit: each observation of each
//! unit has a due time, and a check runs only once it is due.
use vstd::prelude::*;

use crate::fs::string_views;

verus! {

/// The due time (milliseconds on a monotonic clock) of one kind of
/// observation, per unit.
#[derive(Debug, Clone)]
pub struct ObserveSchedule {
    pub ids: Vec<String>,
    pub due: Vec<u64>,
}

/// One due time per unit, no unit twice.
pub open spec fn schedule_wf(s: ObserveSchedule) -> bool {
    &&& s.ids@.len() == s.due@.len()
    &&& forall|i: int, j: int| 0 <= i < j < s.ids@.len() ==> s.ids@[i]@ != s.ids@[j]@
}

/// The due time of each unit that has one.
pub open spec fn schedule_map(s: ObserveSchedule) -> Map<Seq<char>, u64> {
    Map::new(
        |id: Seq<char>| string_views(s.ids@).contains(id),
        |id: Seq<char>| s.due@[choose|i: int| 0 <= i < s.ids@.len() && s.ids@[i]@ == id],
    )
}

/// A check of the unit is due at `now`: it never ran, or its due time has
/// come.
pub open spec fn is_due(m: Map<Seq<char>, u64>, id: Seq<char>, now: u64) -> bool {
    !m.dom().contains(id) || now >= m[id]
}

proof fn lemma_unique(s: ObserveSchedule, a: int, b: int)
    requires
        schedule_wf(s),
        0 <= a < s.ids@.len(),
        0 <= b < s.ids@.len(),
        s.ids@[a]@ == s.ids@[b]@,
    ensures
        a == b,
{
    if a < b {
        assert(s.ids@[a]@ != s.ids@[b]@);
    } else if b < a {
        assert(s.ids@[b]@ != s.ids@[a]@);
    }
}

proof fn lemma_map_at(s: ObserveSchedule, i: int)
    requires
        schedule_wf(s),
        0 <= i < s.ids@.len(),
    ensures
        schedule_map(s).dom().contains(s.ids@[i]@),
        schedule_map(s)[s.ids@[i]@] == s.due@[i],
{
    let id = s.ids@[i]@;
    assert(string_views(s.ids@)[i] == id);
    let m = choose|m: int| 0 <= m < s.ids@.len() && s.ids@[m]@ == id;
    lemma_unique(s, m, i);
}

proof fn lemma_map_set(before: ObserveSchedule, after: ObserveSchedule, i: int)
    requires
        schedule_wf(before),
        0 <= i < before.ids@.len(),
        after.ids@ == before.ids@,
        after.due@ == before.due@.update(i, after.due@[i]),
    ensures
        schedule_wf(after),
        schedule_map(after) == schedule_map(before).insert(before.ids@[i]@, after.due@[i]),
{
    let id = before.ids@[i]@;
    assert forall|k: Seq<char>| #[trigger] schedule_map(after).dom().contains(k) implies schedule_map(
        after,
    )[k] == schedule_map(before).insert(id, after.due@[i])[k] by {
        let m = choose|m: int| 0 <= m < after.ids@.len() && after.ids@[m]@ == k;
        let m2 = choose|m2: int| 0 <= m2 < before.ids@.len() && before.ids@[m2]@ == k;
        lemma_unique(before, m, m2);
        if k == id {
            lemma_unique(before, m, i);
        }
    }
    lemma_map_at(before, i);
    assert(schedule_map(after) =~= schedule_map(before).insert(id, after.due@[i]));
}

proof fn lemma_map_push(before: ObserveSchedule, after: ObserveSchedule, id: Seq<char>, t: u64)
    requires
        schedule_wf(before),
        !schedule_map(before).dom().contains(id),
        string_views(after.ids@) == string_views(before.ids@).push(id),
        after.due@ == before.due@.push(t),
    ensures
        schedule_wf(after),
        schedule_map(after) == schedule_map(before).insert(id, t),
{
    let n = before.ids@.len() as int;
    assert(after.ids@.len() == n + 1) by {
        assert(string_views(after.ids@).len() == after.ids@.len());
    }
    assert forall|i: int| 0 <= i < after.ids@.len() implies after.ids@[i]@ == (if i < n {
        before.ids@[i]@
    } else {
        id
    }) by {
        assert(string_views(after.ids@)[i] == after.ids@[i]@);
        if i < n {
            assert(string_views(before.ids@)[i] == before.ids@[i]@);
        }
    }
    assert forall|a: int, b: int| 0 <= a < b < after.ids@.len() implies after.ids@[a]@
        != after.ids@[b]@ by {
        if b == n {
            assert(string_views(before.ids@)[a] == before.ids@[a]@);
        }
    }
    assert forall|k: Seq<char>|
        string_views(after.ids@).contains(k) == (string_views(before.ids@).contains(k) || k == id) by {
        if string_views(after.ids@).contains(k) {
            let m = choose|m: int| 0 <= m < string_views(after.ids@).len() && string_views(after.ids@)[m] == k;
            if m < n {
                assert(string_views(before.ids@)[m] == k);
            }
        }
        if string_views(before.ids@).contains(k) {
            let m = choose|m: int| 0 <= m < string_views(before.ids@).len() && string_views(before.ids@)[m] == k;
            assert(string_views(after.ids@)[m] == k);
        }
        if k == id {
            assert(string_views(after.ids@)[n] == k);
        }
    }
    assert forall|k: Seq<char>| #[trigger] schedule_map(after).dom().contains(k) implies schedule_map(
        after,
    )[k] == schedule_map(before).insert(id, t)[k] by {
        let m = choose|m: int| 0 <= m < after.ids@.len() && after.ids@[m]@ == k;
        if k == id {
            lemma_unique(after, m, n);
        } else {
            let m2 = choose|m2: int| 0 <= m2 < before.ids@.len() && before.ids@[m2]@ == k;
            assert(after.ids@[m2]@ == k);
            lemma_unique(after, m, m2);
        }
    }
    assert(schedule_map(after) =~= schedule_map(before).insert(id, t));
}

impl ObserveSchedule {
    /// No check has run.
    pub fn new() -> (s: ObserveSchedule)
        ensures
            schedule_wf(s),
            schedule_map(s) == Map::<Seq<char>, u64>::empty(),
    {
        let s = ObserveSchedule { ids: Vec::new(), due: Vec::new() };
        assert(schedule_map(s) =~= Map::<Seq<char>, u64>::empty());
        s
    }

    /// Whether a check of the unit runs at `now`: it runs when due, and is
    /// then due again `every` milliseconds later.
    pub fn poll(&mut self, id: &String, now: u64, every: u64) -> (run: bool)
        requires
            schedule_wf(*old(self)),
            now + every <= u64::MAX,
        ensures
            schedule_wf(*final(self)),
            run == is_due(schedule_map(*old(self)), id@, now),
            run ==> schedule_map(*final(self)) == schedule_map(*old(self)).insert(
                id@,
                (now + every) as u64,
            ),
            !run ==> schedule_map(*final(self)) == schedule_map(*old(self)),
    {
        let mut i: usize = 0;
        while i < self.ids.len()
            invariant
                i <= self.ids.len(),
                *self == *old(self),
                schedule_wf(*self),
                now + every <= u64::MAX,
                forall|j: int| 0 <= j < i ==> (#[trigger] self.ids@[j])@ != id@,
            decreases self.ids.len() - i,
        {
            if self.ids[i] == *id {
                proof {
                    lemma_map_at(*self, i as int);
                }
                let due = self.due[i];
                if now >= due {
                    let ghost before = *self;
                    self.due.set(i, now + every);
                    proof {
                        lemma_map_set(before, *self, i as int);
                    }
                    return true;
                } else {
                    return false;
                }
            }
            i = i + 1;
        }
        proof {
            if string_views(self.ids@).contains(id@) {
                let k = choose|k: int|
                    0 <= k < string_views(self.ids@).len() && string_views(self.ids@)[k] == id@;
                assert(self.ids@[k]@ == id@);
            }
        }
        let ghost before = *self;
        self.ids.push(id.clone());
        self.due.push(now + every);
        proof {
            assert(string_views(self.ids@) =~= string_views(before.ids@).push(id@));
            lemma_map_push(before, *self, id@, (now + every) as u64);
        }
        true
    }
}

/// After a check runs at `now`, the next one of that unit waits the full
/// interval: polling at any time before `now + every` does not run it.
pub proof fn lemma_no_check_before_interval(
    m: Map<Seq<char>, u64>,
    id: Seq<char>,
    now: u64,
    every: u64,
    later: u64,
)
    requires
        every > 0,
        now + every <= u64::MAX,
        later < now + every,
    ensures
        !is_due(m.insert(id, (now + every) as u64), id, later),
{
}

/// Which units are observed: those that are enabled and have observation
/// hooks.
pub fn is_observed(enabled: bool, has_observe: bool) -> (r: bool)
    ensures
        r == (enabled && has_observe),
{
    enabled && has_observe
}

} // verus!
