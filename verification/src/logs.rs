//! On-demand logs of units: the follow streams shared by their followers,
//! and the bounds of a log snapshot.
use vstd::prelude::*;

use crate::fs::string_views;
use crate::text::string_from_str;

verus! {

// ---------------------------------------------------------------------------
// Follow streams
// ---------------------------------------------------------------------------

/// The follow streams that run, each with its number of followers.
#[derive(Debug, Clone)]
pub struct FollowTable {
    pub run_ids: Vec<String>,
    pub followers: Vec<u64>,
}

/// What a request to follow a unit's logs does.
#[derive(Debug, Clone, Copy, PartialEq, Eq, Structural)]
pub enum FollowStartAction {
    /// The unit's stream runs already: one more follower.
    AddedFollower,
    /// No stream runs: start one (then `follow_started`).
    Spawn,
    /// No stream runs and the unit has no follow command.
    Skip,
}

/// The table is well formed: one count per stream, no unit twice, and every
/// running stream has a follower.
pub open spec fn follow_wf(t: FollowTable) -> bool {
    &&& t.run_ids@.len() == t.followers@.len()
    &&& forall|i: int, j: int|
        0 <= i < j < t.run_ids@.len() ==> t.run_ids@[i]@ != t.run_ids@[j]@
    &&& forall|i: int| 0 <= i < t.followers@.len() ==> #[trigger] t.followers@[i] >= 1
}

/// The followers of each unit whose stream runs.
pub open spec fn follow_map(t: FollowTable) -> Map<Seq<char>, u64> {
    Map::new(
        |id: Seq<char>| string_views(t.run_ids@).contains(id),
        |id: Seq<char>|
            t.followers@[choose|i: int| 0 <= i < t.run_ids@.len() && t.run_ids@[i]@ == id],
    )
}

impl FollowTable {
    /// No stream runs.
    pub fn new() -> (t: FollowTable)
        ensures
            follow_wf(t),
            follow_map(t) == Map::<Seq<char>, u64>::empty(),
    {
        let t = FollowTable { run_ids: Vec::new(), followers: Vec::new() };
        assert(follow_map(t) =~= Map::<Seq<char>, u64>::empty());
        t
    }

    /// The position of a unit's stream.
    fn position(&self, run_id: &String) -> (r: Option<usize>)
        requires
            follow_wf(*self),
        ensures
            match r {
                Some(i) => i < self.run_ids@.len() && self.run_ids@[i as int]@ == run_id@,
                None => !string_views(self.run_ids@).contains(run_id@),
            },
    {
        let mut i: usize = 0;
        while i < self.run_ids.len()
            invariant
                i <= self.run_ids.len(),
                forall|j: int| 0 <= j < i ==> (#[trigger] self.run_ids@[j])@ != run_id@,
            decreases self.run_ids.len() - i,
        {
            if self.run_ids[i] == *run_id {
                return Some(i);
            }
            i = i + 1;
        }
        proof {
            if string_views(self.run_ids@).contains(run_id@) {
                let k = choose|k: int|
                    0 <= k < string_views(self.run_ids@).len() && string_views(self.run_ids@)[k]
                        == run_id@;
                assert(self.run_ids@[k]@ == run_id@);
            }
        }
        None
    }

    /// A client asks to follow a unit's logs: it joins the running stream,
    /// else a stream is started where the unit has a follow command.
    pub fn follow_start(&mut self, run_id: &String, has_follow: bool) -> (a: FollowStartAction)
        requires
            follow_wf(*old(self)),
            follow_map(*old(self)).dom().contains(run_id@) ==> follow_map(*old(self))[run_id@]
                < u64::MAX,
        ensures
            follow_wf(*final(self)),
            follow_map(*old(self)).dom().contains(run_id@) ==> a == FollowStartAction::AddedFollower
                && follow_map(*final(self)) == follow_map(*old(self)).insert(
                run_id@,
                (follow_map(*old(self))[run_id@] + 1) as u64,
            ),
            !follow_map(*old(self)).dom().contains(run_id@) ==> follow_map(*final(self))
                == follow_map(*old(self)) && a == (if has_follow {
                FollowStartAction::Spawn
            } else {
                FollowStartAction::Skip
            }),
    {
        match self.position(run_id) {
            Some(i) => {
                proof {
                    lemma_follow_map_at(*self, i as int);
                }
                let ghost before = *self;
                let n = self.followers[i];
                self.followers.set(i, n + 1);
                proof {
                    lemma_follow_map_set(before, *self, i as int);
                }
                FollowStartAction::AddedFollower
            },
            None => {
                if has_follow {
                    FollowStartAction::Spawn
                } else {
                    FollowStartAction::Skip
                }
            },
        }
    }

    /// The stream of a unit was started: it has its first follower.
    pub fn follow_started(&mut self, run_id: String)
        requires
            follow_wf(*old(self)),
            !follow_map(*old(self)).dom().contains(run_id@),
        ensures
            follow_wf(*final(self)),
            follow_map(*final(self)) == follow_map(*old(self)).insert(run_id@, 1),
    {
        let ghost before = *self;
        let ghost id = run_id@;
        self.run_ids.push(run_id);
        self.followers.push(1);
        proof {
            assert forall|i: int, j: int|
                0 <= i < j < self.run_ids@.len() implies self.run_ids@[i]@ != self.run_ids@[j]@ by {
                if j == before.run_ids@.len() {
                    assert(string_views(before.run_ids@)[i] == before.run_ids@[i]@);
                }
            }
            assert forall|k: Seq<char>|
                string_views(self.run_ids@).contains(k) == (string_views(before.run_ids@).contains(
                    k,
                ) || k == id) by {
                if string_views(self.run_ids@).contains(k) {
                    let m = choose|m: int|
                        0 <= m < string_views(self.run_ids@).len() && string_views(self.run_ids@)[m]
                            == k;
                    if m < before.run_ids@.len() {
                        assert(string_views(before.run_ids@)[m] == k);
                    }
                }
                if string_views(before.run_ids@).contains(k) {
                    let m = choose|m: int|
                        0 <= m < string_views(before.run_ids@).len() && string_views(
                            before.run_ids@,
                        )[m] == k;
                    assert(string_views(self.run_ids@)[m] == k);
                }
                if k == id {
                    assert(string_views(self.run_ids@)[before.run_ids@.len() as int] == k);
                }
            }
            let n = before.run_ids@.len() as int;
            assert forall|k: Seq<char>| #[trigger] follow_map(*self).dom().contains(k) implies follow_map(
                *self,
            )[k] == follow_map(before).insert(id, 1)[k] by {
                let m = choose|m: int| 0 <= m < self.run_ids@.len() && self.run_ids@[m]@ == k;
                if k == id {
                    lemma_unique_index(*self, m, n);
                } else {
                    let m2 = choose|m2: int|
                        0 <= m2 < before.run_ids@.len() && before.run_ids@[m2]@ == k;
                    assert(self.run_ids@[m2]@ == k);
                    lemma_unique_index(*self, m, m2);
                    lemma_unique_index(before, m2, m2);
                }
            }
            assert(follow_map(*self) =~= follow_map(before).insert(id, 1));
        }
    }

    /// A client stops following a unit's logs: one follower less; the stream
    /// is cancelled (`true`) when the last one leaves. A unit without a
    /// stream is left alone.
    pub fn follow_stop(&mut self, run_id: &String) -> (cancel: bool)
        requires
            follow_wf(*old(self)),
        ensures
            follow_wf(*final(self)),
            !follow_map(*old(self)).dom().contains(run_id@) ==> !cancel && follow_map(*final(self))
                == follow_map(*old(self)),
            follow_map(*old(self)).dom().contains(run_id@) ==> cancel == (follow_map(
                *old(self),
            )[run_id@] == 1) && follow_map(*final(self)) == (if cancel {
                follow_map(*old(self)).remove(run_id@)
            } else {
                follow_map(*old(self)).insert(run_id@, (follow_map(*old(self))[run_id@] - 1) as u64)
            }),
    {
        match self.position(run_id) {
            None => false,
            Some(i) => {
                proof {
                    lemma_follow_map_at(*self, i as int);
                }
                let ghost before = *self;
                let n = self.followers[i];
                if n > 1 {
                    self.followers.set(i, n - 1);
                    proof {
                        lemma_follow_map_set(before, *self, i as int);
                    }
                    false
                } else {
                    self.run_ids.remove(i);
                    self.followers.remove(i);
                    proof {
                        lemma_follow_map_remove(before, *self, i as int);
                    }
                    true
                }
            },
        }
    }

    /// Every stream is cancelled: the units whose streams ran.
    pub fn stop_all(&mut self) -> (cancelled: Vec<String>)
        requires
            follow_wf(*old(self)),
        ensures
            follow_wf(*final(self)),
            follow_map(*final(self)) == Map::<Seq<char>, u64>::empty(),
            string_views(cancelled@) == string_views(old(self).run_ids@),
    {
        let mut ids: Vec<String> = Vec::new();
        std::mem::swap(&mut ids, &mut self.run_ids);
        self.followers = Vec::new();
        assert(follow_map(*self) =~= Map::<Seq<char>, u64>::empty());
        ids
    }
}

proof fn lemma_unique_index(t: FollowTable, a: int, b: int)
    requires
        follow_wf(t),
        0 <= a < t.run_ids@.len(),
        0 <= b < t.run_ids@.len(),
        t.run_ids@[a]@ == t.run_ids@[b]@,
    ensures
        a == b,
{
    if a < b {
        assert(t.run_ids@[a]@ != t.run_ids@[b]@);
    } else if b < a {
        assert(t.run_ids@[b]@ != t.run_ids@[a]@);
    }
}

proof fn lemma_follow_map_at(t: FollowTable, i: int)
    requires
        follow_wf(t),
        0 <= i < t.run_ids@.len(),
    ensures
        follow_map(t).dom().contains(t.run_ids@[i]@),
        follow_map(t)[t.run_ids@[i]@] == t.followers@[i],
{
    let id = t.run_ids@[i]@;
    assert(string_views(t.run_ids@)[i] == id);
    let m = choose|m: int| 0 <= m < t.run_ids@.len() && t.run_ids@[m]@ == id;
    lemma_unique_index(t, m, i);
}

proof fn lemma_follow_map_set(before: FollowTable, after: FollowTable, i: int)
    requires
        follow_wf(before),
        0 <= i < before.run_ids@.len(),
        after.run_ids@ == before.run_ids@,
        after.followers@ == before.followers@.update(i, after.followers@[i]),
        after.followers@[i] >= 1,
    ensures
        follow_wf(after),
        follow_map(after) == follow_map(before).insert(before.run_ids@[i]@, after.followers@[i]),
{
    let id = before.run_ids@[i]@;
    assert forall|k: Seq<char>| #[trigger] follow_map(after).dom().contains(k) implies follow_map(
        after,
    )[k] == follow_map(before).insert(id, after.followers@[i])[k] by {
        let m = choose|m: int| 0 <= m < after.run_ids@.len() && after.run_ids@[m]@ == k;
        let m2 = choose|m2: int| 0 <= m2 < before.run_ids@.len() && before.run_ids@[m2]@ == k;
        lemma_unique_index(before, m, m2);
        if k == id {
            lemma_unique_index(before, m, i);
        }
    }
    assert(string_views(after.run_ids@) == string_views(before.run_ids@));
    lemma_follow_map_at(before, i);
    assert(follow_map(after) =~= follow_map(before).insert(id, after.followers@[i]));
}

proof fn lemma_follow_map_remove(before: FollowTable, after: FollowTable, i: int)
    requires
        follow_wf(before),
        0 <= i < before.run_ids@.len(),
        after.run_ids@ == before.run_ids@.remove(i),
        after.followers@ == before.followers@.remove(i),
    ensures
        follow_wf(after),
        follow_map(after) == follow_map(before).remove(before.run_ids@[i]@),
{
    let id = before.run_ids@[i]@;
    let bv = string_views(before.run_ids@);
    let av = string_views(after.run_ids@);
    assert forall|x: int, y: int|
        0 <= x < y < after.run_ids@.len() implies after.run_ids@[x]@ != after.run_ids@[y]@ by {
        let bx = if x < i {
            x
        } else {
            x + 1
        };
        let by_ = if y < i {
            y
        } else {
            y + 1
        };
        assert(after.run_ids@[x] == before.run_ids@[bx]);
        assert(after.run_ids@[y] == before.run_ids@[by_]);
    }
    assert forall|j: int| 0 <= j < after.followers@.len() implies #[trigger] after.followers@[j] >= 1 by {
        if j < i {
            assert(after.followers@[j] == before.followers@[j]);
        } else {
            assert(after.followers@[j] == before.followers@[j + 1]);
        }
    }
    assert forall|k: Seq<char>| av.contains(k) == (bv.contains(k) && k != id) by {
        if av.contains(k) {
            let m = choose|m: int| 0 <= m < av.len() && av[m] == k;
            let bm = if m < i {
                m
            } else {
                m + 1
            };
            assert(after.run_ids@[m] == before.run_ids@[bm]);
            assert(bv[bm] == k);
            if k == id {
                lemma_unique_index(before, bm, i);
            }
        }
        if bv.contains(k) && k != id {
            let m = choose|m: int| 0 <= m < bv.len() && bv[m] == k;
            if m < i {
                assert(after.run_ids@[m] == before.run_ids@[m]);
                assert(av[m] == k);
            } else {
                assert(m != i);
                assert(after.run_ids@[m - 1] == before.run_ids@[m]);
                assert(av[m - 1] == k);
            }
        }
    }
    assert forall|k: Seq<char>| #[trigger] follow_map(after).dom().contains(k) implies follow_map(
        after,
    )[k] == follow_map(before).remove(id)[k] by {
        let m = choose|m: int| 0 <= m < after.run_ids@.len() && after.run_ids@[m]@ == k;
        let bm = if m < i {
            m
        } else {
            m + 1
        };
        assert(after.run_ids@[m] == before.run_ids@[bm]);
        assert(after.followers@[m] == before.followers@[bm]);
        let m2 = choose|m2: int| 0 <= m2 < before.run_ids@.len() && before.run_ids@[m2]@ == k;
        lemma_unique_index(before, bm, m2);
    }
    assert(follow_map(after) =~= follow_map(before).remove(id));
}

/// A follower that comes and goes leaves the streams as they were: stopping
/// after starting to follow a unit whose stream runs undoes the start.
pub proof fn lemma_follow_start_stop(before: Map<Seq<char>, u64>, id: Seq<char>)
    requires
        before.dom().contains(id),
        1 <= before[id] < u64::MAX,
    ensures
        ({
            let started = before.insert(id, (before[id] + 1) as u64);
            &&& started[id] != 1
            &&& started.insert(id, (started[id] - 1) as u64) == before
        }),
{
    let started = before.insert(id, (before[id] + 1) as u64);
    assert(started.insert(id, (started[id] - 1) as u64) =~= before);
}

// ---------------------------------------------------------------------------
// Snapshots
// ---------------------------------------------------------------------------

/// The lines a log snapshot keeps: lines are taken until `max_lines` are
/// kept or `max_bytes` bytes (each line counted with its newline) are
/// reached; the line that reaches a bound is kept.
#[derive(Debug, Clone)]
pub struct SnapshotLines {
    pub lines: Vec<String>,
    pub bytes: usize,
}

/// The byte count of lines, each with its newline.
pub open spec fn snapshot_bytes(lines: Seq<String>) -> int
    decreases lines.len(),
{
    if lines.len() == 0 {
        0
    } else {
        snapshot_bytes(lines.drop_last()) + vstd::utf8::encode_utf8(lines.last()@).len() + 1
    }
}

impl SnapshotLines {
    /// Nothing read yet.
    pub fn new() -> (s: SnapshotLines)
        ensures
            s.lines@.len() == 0,
            s.bytes == 0,
    {
        SnapshotLines { lines: Vec::new(), bytes: 0 }
    }

    /// Takes the next line; returns whether to read on.
    pub fn push_line(&mut self, line: String, max_lines: usize, max_bytes: usize) -> (more: bool)
        requires
            old(self).bytes == snapshot_bytes(old(self).lines@),
            old(self).bytes + vstd::utf8::encode_utf8(line@).len() + 1 <= usize::MAX,
        ensures
            final(self).lines@ == old(self).lines@.push(line),
            final(self).bytes == snapshot_bytes(final(self).lines@),
            more == (final(self).lines@.len() < max_lines && final(self).bytes < max_bytes),
    {
        let n = line.as_str().as_bytes().len();
        self.bytes = self.bytes + n + 1;
        let ghost before = self.lines@;
        self.lines.push(line);
        assert(self.lines@.drop_last() =~= before);
        self.lines.len() < max_lines && self.bytes < max_bytes
    }
}

/// A snapshot stops after line `k` (counting from 1): once it holds
/// `max_lines` lines or `max_bytes` bytes.
pub open spec fn snapshot_stops_at(lines: Seq<String>, k: int, max_lines: usize, max_bytes: usize) -> bool {
    k >= max_lines || snapshot_bytes(lines.take(k)) >= max_bytes
}

/// How many of the lines after the first `k` a snapshot keeps in all:
/// up to the first line at which it stops, else all.
pub open spec fn snapshot_len_from(lines: Seq<String>, k: int, max_lines: usize, max_bytes: usize) -> int
    decreases lines.len() - k,
{
    if k >= lines.len() {
        lines.len() as int
    } else if snapshot_stops_at(lines, k + 1, max_lines, max_bytes) {
        k + 1
    } else {
        snapshot_len_from(lines, k + 1, max_lines, max_bytes)
    }
}

/// How many lines of a command's output a snapshot keeps.
pub open spec fn snapshot_len(lines: Seq<String>, max_lines: usize, max_bytes: usize) -> int {
    snapshot_len_from(lines, 0, max_lines, max_bytes)
}

proof fn lemma_snapshot_len_from(lines: Seq<String>, k: int, max_lines: usize, max_bytes: usize)
    requires
        0 <= k <= lines.len(),
    ensures
        k <= snapshot_len_from(lines, k, max_lines, max_bytes) <= lines.len(),
        k < lines.len() ==> k < snapshot_len_from(lines, k, max_lines, max_bytes),
        forall|j: int|
            k < j < snapshot_len_from(lines, k, max_lines, max_bytes) ==> !snapshot_stops_at(
                lines,
                j,
                max_lines,
                max_bytes,
            ),
        snapshot_len_from(lines, k, max_lines, max_bytes) < lines.len() ==> snapshot_stops_at(
            lines,
            snapshot_len_from(lines, k, max_lines, max_bytes),
            max_lines,
            max_bytes,
        ),
    decreases lines.len() - k,
{
    if k < lines.len() && !snapshot_stops_at(lines, k + 1, max_lines, max_bytes) {
        lemma_snapshot_len_from(lines, k + 1, max_lines, max_bytes);
    }
}

/// The byte count of a prefix grows with the prefix.
proof fn lemma_snapshot_bytes_grow(lines: Seq<String>, a: int, b: int)
    requires
        0 <= a <= b <= lines.len(),
    ensures
        snapshot_bytes(lines.take(a)) <= snapshot_bytes(lines.take(b)),
    decreases b - a,
{
    if a < b {
        lemma_snapshot_bytes_grow(lines, a, b - 1);
        assert(lines.take(b).drop_last() =~= lines.take(b - 1));
    }
}

/// The lines a snapshot keeps of a command's output: lines are taken in
/// order until `max_lines` are kept or `max_bytes` bytes are reached (the
/// line that reaches a bound is kept), else all of them.
pub fn snapshot_of(output: &Vec<String>, max_lines: usize, max_bytes: usize) -> (r: Vec<String>)
    requires
        snapshot_bytes(output@.take(snapshot_len(output@, max_lines, max_bytes))) <= usize::MAX,
    ensures
        r@ == output@.take(snapshot_len(output@, max_lines, max_bytes)),
{
    let ghost total = snapshot_len(output@, max_lines, max_bytes);
    proof {
        lemma_snapshot_len_from(output@, 0, max_lines, max_bytes);
    }
    let mut snap = SnapshotLines::new();
    let mut i: usize = 0;
    assert(output@.take(0) =~= Seq::<String>::empty());
    while i < output.len()
        invariant_except_break
            i <= output.len(),
            total == snapshot_len(output@, max_lines, max_bytes),
            snapshot_len_from(output@, i as int, max_lines, max_bytes) == total,
            snapshot_bytes(output@.take(total)) <= usize::MAX,
            total <= output@.len(),
            snap.lines@ == output@.take(i as int),
            snap.bytes == snapshot_bytes(snap.lines@),
        ensures
            snap.lines@ == output@.take(total),
        decreases output.len() - i,
    {
        proof {
            lemma_snapshot_len_from(output@, i as int, max_lines, max_bytes);
            lemma_snapshot_bytes_grow(output@, i + 1, total);
            assert(output@.take(i + 1).drop_last() =~= output@.take(i as int));
        }
        let more = snap.push_line(output[i].clone(), max_lines, max_bytes);
        assert(snap.lines@ =~= output@.take(i + 1));
        i = i + 1;
        if !more {
            assert(snapshot_stops_at(output@, i as int, max_lines, max_bytes));
            break;
        }
    }
    proof {
        if i == output.len() {
            assert(output@.take(i as int) =~= output@);
        }
    }
    snap.lines
}

/// A snapshot keeps a prefix of the output, never more lines than the line
/// bound allows (at least one is read), and every kept line but the last
/// was read while the byte bound was not reached.
pub proof fn lemma_snapshot_bounds(lines: Seq<String>, max_lines: usize, max_bytes: usize)
    ensures
        0 <= snapshot_len(lines, max_lines, max_bytes) <= lines.len(),
        max_lines >= 1 ==> snapshot_len(lines, max_lines, max_bytes) <= max_lines,
        snapshot_len(lines, max_lines, max_bytes) >= 1 ==> snapshot_bytes(
            lines.take(snapshot_len(lines, max_lines, max_bytes) - 1),
        ) < max_bytes || snapshot_len(lines, max_lines, max_bytes) == 1,
{
    lemma_snapshot_len_from(lines, 0, max_lines, max_bytes);
    let n = snapshot_len(lines, max_lines, max_bytes);
    if max_lines >= 1 && n > max_lines {
        assert(snapshot_stops_at(lines, max_lines as int, max_lines, max_bytes));
    }
    if n > 1 {
        assert(!snapshot_stops_at(lines, n - 1, max_lines, max_bytes));
    }
}

/// The command that records a unit's logs for a snapshot, or the error of a
/// unit that has none; and the time it may take (five seconds unless set).
pub fn snapshot_request(record: &Option<String>, record_timeout_ms: Option<u64>) -> (r: Result<
    (String, u64),
    String,
>)
    ensures
        match *record {
            Some(c) => r matches Ok((cmd, t)) && cmd == c && t == (match record_timeout_ms {
                Some(t) => t,
                None => 5000,
            }),
            None => r is Err && r->Err_0@ == "no record provided"@,
        },
{
    match record {
        Some(c) => {
            let t: u64 = match record_timeout_ms {
                Some(t) => t,
                None => 5000,
            };
            Ok((c.clone(), t))
        },
        None => Err(string_from_str("no record provided")),
    }
}

} // verus!
