//! The units of a deployment revision: which of them must be reconciled after
//! the desired revision changes, what reconciling one does, where its work
//! directory lies, and the reports of its runs and steps.
use vstd::prelude::*;

use crate::fs::string_views;
use crate::text::{join_path, path_join, string_from_str};

verus! {

/// How a unit runs.
#[derive(Debug, Clone, Copy, PartialEq, Eq, Structural)]
pub enum RunType {
    Service,
    Job,
    Observe,
}

/// Whether a unit's work directory survives the unit.
#[derive(Debug, Clone, Copy, PartialEq, Eq, Structural)]
pub enum WorkdirMode {
    Persistent,
    Ephemeral,
}

/// The work directory settings of a unit.
#[derive(Debug, Clone)]
pub struct WorkdirSpec {
    pub mode: WorkdirMode,
    pub path: Option<String>,
}

/// A unit of a revision: its id and the hash of its whole specification.
#[derive(Debug, Clone)]
pub struct UnitRef {
    pub id: String,
    pub hash: String,
}

/// A unit as a pair of plain values: (id, hash).
pub open spec fn unit_view(u: UnitRef) -> (Seq<char>, Seq<char>) {
    (u.id@, u.hash@)
}

/// The units of a revision as pairs (id, hash).
pub open spec fn unit_views(v: Seq<UnitRef>) -> Seq<(Seq<char>, Seq<char>)> {
    v.map_values(|u: UnitRef| unit_view(u))
}

/// Some unit of `units` has this id.
pub open spec fn has_id(units: Seq<(Seq<char>, Seq<char>)>, id: Seq<char>) -> bool {
    exists|j: int| 0 <= j < units.len() && (#[trigger] units[j]).0 == id
}

/// The hashes that become dirty when the desired units change from `old` to
/// `new`: a unit of `new` that `old` lacks, or that `old` has but that never
/// ran to completion (`ran_ok` is false for it), and a unit of `old` that
/// `new` lacks (so that it is stopped).
pub open spec fn dirty_additions(
    new: Seq<(Seq<char>, Seq<char>)>,
    ran_ok: Seq<bool>,
    old: Seq<(Seq<char>, Seq<char>)>,
) -> Set<Seq<char>> {
    Set::new(
        |h: Seq<char>|
            (exists|i: int|
                0 <= i < new.len() && (#[trigger] new[i]).1 == h && (!has_id(old, new[i].0)
                    || !ran_ok[i])) || (exists|j: int|
                0 <= j < old.len() && (#[trigger] old[j]).1 == h && !has_id(new, old[j].0)),
    )
}

/// No two entries are equal.
pub open spec fn no_duplicates(s: Seq<Seq<char>>) -> bool {
    forall|i: int, j: int| 0 <= i < j < s.len() ==> s[i] != s[j]
}

/// Re-applying the same units leaves nothing to do for the units that ran
/// to completion: only those that did not become dirty again.
pub proof fn lemma_same_units_dirty(units: Seq<(Seq<char>, Seq<char>)>, ran_ok: Seq<bool>)
    requires
        ran_ok.len() == units.len(),
    ensures
        dirty_additions(units, ran_ok, units) == Set::new(
            |h: Seq<char>| exists|i: int| 0 <= i < units.len() && (#[trigger] units[i]).1 == h && !ran_ok[i],
        ),
{
    let a = dirty_additions(units, ran_ok, units);
    let b = Set::new(
        |h: Seq<char>| exists|i: int| 0 <= i < units.len() && (#[trigger] units[i]).1 == h && !ran_ok[i],
    );
    assert forall|h: Seq<char>| a.contains(h) implies b.contains(h) by {
        if exists|i: int|
            0 <= i < units.len() && (#[trigger] units[i]).1 == h && (!has_id(units, units[i].0)
                || !ran_ok[i]) {
            let i = choose|i: int|
                0 <= i < units.len() && (#[trigger] units[i]).1 == h && (!has_id(units, units[i].0)
                    || !ran_ok[i]);
            assert(units[i].0 == units[i].0);
            assert(has_id(units, units[i].0));
        } else {
            let j = choose|j: int|
                0 <= j < units.len() && (#[trigger] units[j]).1 == h && !has_id(units, units[j].0);
            assert(has_id(units, units[j].0));
        }
    }
    assert forall|h: Seq<char>| b.contains(h) implies a.contains(h) by {
        let i = choose|i: int| 0 <= i < units.len() && (#[trigger] units[i]).1 == h && !ran_ok[i];
        assert(units[i].1 == h);
    }
    assert(a =~= b);
}

/// Whether a unit with this id is among `units`.
fn find_id(units: &Vec<UnitRef>, id: &String) -> (r: bool)
    ensures
        r == has_id(unit_views(units@), id@),
{
    let mut i: usize = 0;
    while i < units.len()
        invariant
            i <= units.len(),
            forall|j: int| 0 <= j < i ==> (#[trigger] unit_views(units@)[j]).0 != id@,
        decreases units.len() - i,
    {
        if units[i].id == *id {
            assert(unit_views(units@)[i as int].0 == id@);
            return true;
        }
        i = i + 1;
    }
    false
}

/// Adds a hash to the dirty set unless it is already there.
fn insert_dirty(dirty: &mut Vec<String>, h: &String)
    requires
        no_duplicates(string_views(old(dirty)@)),
    ensures
        no_duplicates(string_views(final(dirty)@)),
        string_views(final(dirty)@).to_set() == string_views(old(dirty)@).to_set().insert(h@),
{
    let mut i: usize = 0;
    while i < dirty.len()
        invariant
            i <= dirty.len(),
            dirty@ == old(dirty)@,
            no_duplicates(string_views(dirty@)),
            forall|j: int| 0 <= j < i ==> (#[trigger] string_views(dirty@)[j]) != h@,
        decreases dirty.len() - i,
    {
        if dirty[i] == *h {
            assert(string_views(dirty@)[i as int] == h@);
            assert(string_views(dirty@).to_set().insert(h@) =~= string_views(dirty@).to_set());
            return;
        }
        i = i + 1;
    }
    let ghost before = string_views(dirty@);
    dirty.push(h.clone());
    let ghost after = string_views(dirty@);
    assert(after =~= before.push(h@));
    assert forall|y: Seq<char>| #[trigger] after.contains(y) == (before.contains(y) || y == h@) by {
        if after.contains(y) {
            let k = choose|k: int| 0 <= k < after.len() && after[k] == y;
            if k < before.len() {
                assert(before[k] == y);
            }
        }
        if before.contains(y) {
            let k = choose|k: int| 0 <= k < before.len() && before[k] == y;
            assert(after[k] == y);
        }
        if y == h@ {
            assert(after[before.len() as int] == y);
        }
    }
    assert(after.to_set() =~= before.to_set().insert(h@));
}

/// Whether a new desired revision changes nothing: it has the hash of the
/// one stored before.
pub fn revision_unchanged(old_hash: &Option<String>, new_hash: &String) -> (r: bool)
    ensures
        r == (old_hash.is_some() && old_hash.unwrap()@ == new_hash@),
{
    match old_hash {
        Some(h) => *h == *new_hash,
        None => false,
    }
}

/// The hashes of the first `n` units of `new` that become dirty.
pub open spec fn dirty_new_prefix(
    new: Seq<(Seq<char>, Seq<char>)>,
    ran_ok: Seq<bool>,
    old: Seq<(Seq<char>, Seq<char>)>,
    n: int,
) -> Set<Seq<char>> {
    Set::new(
        |h: Seq<char>|
            exists|i: int|
                0 <= i < n && (#[trigger] new[i]).1 == h && (!has_id(old, new[i].0) || !ran_ok[i]),
    )
}

/// The hashes of the first `n` units of `old` that `new` lacks.
pub open spec fn dirty_old_prefix(
    new: Seq<(Seq<char>, Seq<char>)>,
    old: Seq<(Seq<char>, Seq<char>)>,
    n: int,
) -> Set<Seq<char>> {
    Set::new(
        |h: Seq<char>| exists|j: int| 0 <= j < n && (#[trigger] old[j]).1 == h && !has_id(new, old[j].0),
    )
}

proof fn lemma_dirty_new_step(
    new: Seq<(Seq<char>, Seq<char>)>,
    ran_ok: Seq<bool>,
    old: Seq<(Seq<char>, Seq<char>)>,
    n: int,
)
    requires
        0 <= n < new.len(),
    ensures
        dirty_new_prefix(new, ran_ok, old, n + 1) == (if !has_id(old, new[n].0) || !ran_ok[n] {
            dirty_new_prefix(new, ran_ok, old, n).insert(new[n].1)
        } else {
            dirty_new_prefix(new, ran_ok, old, n)
        }),
{
    let a = dirty_new_prefix(new, ran_ok, old, n + 1);
    let b = if !has_id(old, new[n].0) || !ran_ok[n] {
        dirty_new_prefix(new, ran_ok, old, n).insert(new[n].1)
    } else {
        dirty_new_prefix(new, ran_ok, old, n)
    };
    assert forall|h: Seq<char>| a.contains(h) implies b.contains(h) by {
        let i = choose|i: int|
            0 <= i < n + 1 && (#[trigger] new[i]).1 == h && (!has_id(old, new[i].0) || !ran_ok[i]);
        if i < n {
            assert(dirty_new_prefix(new, ran_ok, old, n).contains(h));
        }
    }
    assert forall|h: Seq<char>| b.contains(h) implies a.contains(h) by {
        if dirty_new_prefix(new, ran_ok, old, n).contains(h) {
            let i = choose|i: int|
                0 <= i < n && (#[trigger] new[i]).1 == h && (!has_id(old, new[i].0) || !ran_ok[i]);
            assert(new[i].1 == h);
        } else {
            assert(new[n].1 == h);
        }
    }
    assert(a =~= b);
}

proof fn lemma_dirty_old_step(new: Seq<(Seq<char>, Seq<char>)>, old: Seq<(Seq<char>, Seq<char>)>, n: int)
    requires
        0 <= n < old.len(),
    ensures
        dirty_old_prefix(new, old, n + 1) == (if !has_id(new, old[n].0) {
            dirty_old_prefix(new, old, n).insert(old[n].1)
        } else {
            dirty_old_prefix(new, old, n)
        }),
{
    let a = dirty_old_prefix(new, old, n + 1);
    let b = if !has_id(new, old[n].0) {
        dirty_old_prefix(new, old, n).insert(old[n].1)
    } else {
        dirty_old_prefix(new, old, n)
    };
    assert forall|h: Seq<char>| a.contains(h) implies b.contains(h) by {
        let j = choose|j: int| 0 <= j < n + 1 && (#[trigger] old[j]).1 == h && !has_id(new, old[j].0);
        if j < n {
            assert(dirty_old_prefix(new, old, n).contains(h));
        }
    }
    assert forall|h: Seq<char>| b.contains(h) implies a.contains(h) by {
        if dirty_old_prefix(new, old, n).contains(h) {
            let j = choose|j: int| 0 <= j < n && (#[trigger] old[j]).1 == h && !has_id(new, old[j].0);
            assert(old[j].1 == h);
        } else {
            assert(old[n].1 == h);
        }
    }
    assert(a =~= b);
}

/// Marks the units that a change of the desired units from `old_units` to
/// `new_units` makes dirty. `ran_ok[i]` tells whether unit `i` of
/// `new_units` ran to completion under the old revision.
pub fn mark_dirty(
    dirty: &mut Vec<String>,
    new_units: &Vec<UnitRef>,
    ran_ok: &Vec<bool>,
    old_units: &Vec<UnitRef>,
)
    requires
        ran_ok.len() == new_units.len(),
        no_duplicates(string_views(old(dirty)@)),
    ensures
        no_duplicates(string_views(final(dirty)@)),
        string_views(final(dirty)@).to_set() == string_views(old(dirty)@).to_set().union(
            dirty_additions(unit_views(new_units@), ran_ok@, unit_views(old_units@)),
        ),
{
    let ghost start = string_views(dirty@).to_set();
    let ghost nv = unit_views(new_units@);
    let ghost ov = unit_views(old_units@);
    assert(dirty_new_prefix(nv, ran_ok@, ov, 0) =~= Set::empty());
    assert(start.union(Set::empty()) =~= start);
    let mut i: usize = 0;
    while i < new_units.len()
        invariant
            i <= new_units.len(),
            ran_ok.len() == new_units.len(),
            nv == unit_views(new_units@),
            ov == unit_views(old_units@),
            no_duplicates(string_views(dirty@)),
            string_views(dirty@).to_set() == start.union(dirty_new_prefix(nv, ran_ok@, ov, i as int)),
        decreases new_units.len() - i,
    {
        let known = find_id(old_units, &new_units[i].id);
        assert(nv[i as int] == unit_view(new_units@[i as int]));
        proof {
            lemma_dirty_new_step(nv, ran_ok@, ov, i as int);
        }
        let ghost prev = string_views(dirty@).to_set();
        if !known || !ran_ok[i] {
            insert_dirty(dirty, &new_units[i].hash);
            assert(string_views(dirty@).to_set() =~= start.union(
                dirty_new_prefix(nv, ran_ok@, ov, i + 1),
            ));
        }
        i = i + 1;
    }
    let ghost mid = string_views(dirty@).to_set();
    assert(dirty_old_prefix(nv, ov, 0) =~= Set::empty());
    assert(mid.union(Set::empty()) =~= mid);
    let mut j: usize = 0;
    while j < old_units.len()
        invariant
            j <= old_units.len(),
            nv == unit_views(new_units@),
            ov == unit_views(old_units@),
            no_duplicates(string_views(dirty@)),
            string_views(dirty@).to_set() == mid.union(dirty_old_prefix(nv, ov, j as int)),
        decreases old_units.len() - j,
    {
        let kept = find_id(new_units, &old_units[j].id);
        assert(ov[j as int] == unit_view(old_units@[j as int]));
        proof {
            lemma_dirty_old_step(nv, ov, j as int);
        }
        if !kept {
            insert_dirty(dirty, &old_units[j].hash);
            assert(string_views(dirty@).to_set() =~= mid.union(dirty_old_prefix(nv, ov, j + 1)));
        }
        j = j + 1;
    }
    assert(dirty_additions(nv, ran_ok@, ov) =~= dirty_new_prefix(
        nv,
        ran_ok@,
        ov,
        nv.len() as int,
    ).union(dirty_old_prefix(nv, ov, ov.len() as int)));
    assert(string_views(dirty@).to_set() =~= start.union(dirty_additions(nv, ran_ok@, ov)));
}

// ---------------------------------------------------------------------------
// Reconciling one dirty unit
// ---------------------------------------------------------------------------

/// What reconciling a dirty unit does.
#[derive(Debug, Clone, Copy, PartialEq, Eq, Structural)]
pub enum ReconcileAction {
    /// The unit left the desired revision and was a service of the previous
    /// one: run its stop steps, then it is clean.
    StopRemoved,
    /// The unit left the desired revision and nothing is known to stop: it
    /// stays dirty.
    KeepDirty,
    /// Nothing to run (an observed unit, or a disabled job): it is clean.
    Settle,
    /// Run the unit's steps (an enabled job or service), then it is clean.
    RunSteps,
    /// Stop a disabled service, then it is clean.
    StopService,
}

/// What reconciling a dirty unit does, given its run type and whether it is
/// enabled in the desired revision (none if it left it) and its run type in
/// the previous revision (none if it had none).
pub open spec fn reconcile_spec(
    desired: Option<(RunType, bool)>,
    previous: Option<RunType>,
) -> ReconcileAction {
    match desired {
        None => if previous == Some(RunType::Service) {
            ReconcileAction::StopRemoved
        } else {
            ReconcileAction::KeepDirty
        },
        Some((run_type, enabled)) => match run_type {
            RunType::Observe => ReconcileAction::Settle,
            RunType::Job => if enabled {
                ReconcileAction::RunSteps
            } else {
                ReconcileAction::Settle
            },
            RunType::Service => if enabled {
                ReconcileAction::RunSteps
            } else {
                ReconcileAction::StopService
            },
        },
    }
}

/// Chooses what reconciling a dirty unit does.
pub fn reconcile_action(desired: Option<(RunType, bool)>, previous: Option<RunType>) -> (a:
    ReconcileAction)
    ensures
        a == reconcile_spec(desired, previous),
{
    match desired {
        None => match previous {
            Some(RunType::Service) => ReconcileAction::StopRemoved,
            _ => ReconcileAction::KeepDirty,
        },
        Some((run_type, enabled)) => match run_type {
            RunType::Observe => ReconcileAction::Settle,
            RunType::Job => if enabled {
                ReconcileAction::RunSteps
            } else {
                ReconcileAction::Settle
            },
            RunType::Service => if enabled {
                ReconcileAction::RunSteps
            } else {
                ReconcileAction::StopService
            },
        },
    }
}

/// Whether the unit leaves the dirty set once its action has succeeded.
pub open spec fn clears_dirty(a: ReconcileAction) -> bool {
    a != ReconcileAction::KeepDirty
}

/// A unit of the desired revision is always cleaned by a successful
/// reconcile; one that left it stays dirty exactly when it was no service of
/// the previous revision.
pub proof fn lemma_reconcile_clears(desired: Option<(RunType, bool)>, previous: Option<RunType>)
    ensures
        desired.is_some() ==> clears_dirty(reconcile_spec(desired, previous)),
        desired.is_none() ==> (clears_dirty(reconcile_spec(desired, previous)) <==> previous
            == Some(RunType::Service)),
        reconcile_spec(desired, previous) == ReconcileAction::RunSteps ==> desired.is_some()
            && desired.unwrap().1 && desired.unwrap().0 != RunType::Observe,
{
}

/// Whether stopping a unit also deletes its work directory: it is ephemeral.
pub fn removes_workspace(workdir: &Option<WorkdirSpec>) -> (r: bool)
    ensures
        r == (workdir.is_some() && workdir.unwrap().mode == WorkdirMode::Ephemeral),
{
    match workdir {
        Some(w) => w.mode == WorkdirMode::Ephemeral,
        None => false,
    }
}

// ---------------------------------------------------------------------------
// Work directories
// ---------------------------------------------------------------------------

/// The work directory of a unit under the manager's root: the configured
/// path, else `<root>/jobs/<id>`; an ephemeral one lives under
/// `<root>/tmp/jobs/<hash>` instead.
pub open spec fn workspace_path_of(
    root: Seq<char>,
    id: Seq<char>,
    hash: Seq<char>,
    workdir: Option<(WorkdirMode, Option<Seq<char>>)>,
) -> Seq<char> {
    let base = match workdir {
        Some((_, Some(p))) => p,
        _ => join_path(join_path(root, "jobs"@), id),
    };
    match workdir {
        Some((WorkdirMode::Ephemeral, _)) => join_path(
            join_path(join_path(root, "tmp"@), "jobs"@),
            hash,
        ),
        _ => base,
    }
}

/// The work directory settings as plain values.
pub open spec fn workdir_view(w: Option<WorkdirSpec>) -> Option<(WorkdirMode, Option<Seq<char>>)> {
    match w {
        Some(w) => Some(
            (
                w.mode,
                match w.path {
                    Some(p) => Some(p@),
                    None => None,
                },
            ),
        ),
        None => None,
    }
}

/// The work directory of a unit.
pub fn get_workspace_path(root: &str, id: &str, hash: &str, workdir: &Option<WorkdirSpec>) -> (r:
    String)
    ensures
        r@ == workspace_path_of(root@, id@, hash@, workdir_view(*workdir)),
{
    let ephemeral = match workdir {
        Some(w) => w.mode == WorkdirMode::Ephemeral,
        None => false,
    };
    if ephemeral {
        let tmp = path_join(root, "tmp");
        let jobs = path_join(tmp.as_str(), "jobs");
        return path_join(jobs.as_str(), hash);
    }
    match workdir {
        Some(w) => match &w.path {
            Some(p) => {
                return p.clone();
            },
            None => {},
        },
        None => {},
    }
    let jobs = path_join(root, "jobs");
    path_join(jobs.as_str(), id)
}

// ---------------------------------------------------------------------------
// Run and step reports
// ---------------------------------------------------------------------------

/// How a run or a step ended.
#[derive(Debug, Clone, Copy, PartialEq, Eq, Structural)]
pub enum Outcome {
    Success,
    Failed,
}

/// The report of a unit's run.
#[derive(Debug, Clone)]
pub struct RunReport {
    pub run_id: String,
    pub revision_id: String,
    pub outcome: Outcome,
    pub error: Option<String>,
}

/// Records that a unit's steps ran, whatever their outcome (a unit runs once
/// per revision), and reports the outcome: success without error, or the
/// failure with its message.
pub fn finish_unit_run(
    st: &mut crate::deploy::LocalRunState,
    run_id: &str,
    revision_id: &str,
    error: Option<String>,
) -> (r: RunReport)
    ensures
        *final(st) == (crate::deploy::LocalRunState { ran_successful: true, ..*old(st) }),
        r.run_id@ == run_id@,
        r.revision_id@ == revision_id@,
        r.outcome == (if error.is_none() {
            Outcome::Success
        } else {
            Outcome::Failed
        }),
        r.error == error,
{
    st.ran_successful = true;
    let outcome = match &error {
        Some(_) => Outcome::Failed,
        None => Outcome::Success,
    };
    RunReport {
        run_id: string_from_str(run_id),
        revision_id: string_from_str(revision_id),
        outcome,
        error,
    }
}

/// A command that ran and failed: its output tail, exit code and error.
#[derive(Debug, Clone)]
pub struct CommandFailure {
    pub combined_tail: String,
    pub exit_code: Option<i32>,
    pub error: Option<String>,
}

/// The report of one step (or of its undo).
#[derive(Debug, Clone)]
pub struct StepReport {
    pub revision_id: String,
    pub run_id: String,
    pub name: Option<String>,
    pub attempts: u32,
    pub log_tail: String,
    pub exit_code: Option<i32>,
    pub success: bool,
    pub is_undo: bool,
    pub error: Option<String>,
    pub report_time: u64,
}

/// The report of attempt `attempt` (counting from 0) of a step, or of its
/// undo, from the command's result: its output tail on success, or the
/// failure.
pub fn step_report(
    run_id: &str,
    revision_id: &str,
    name: &Option<String>,
    attempt: u32,
    is_undo: bool,
    result: &Result<String, CommandFailure>,
    report_time: u64,
) -> (r: StepReport)
    requires
        attempt < u32::MAX,
    ensures
        r.run_id@ == run_id@,
        r.revision_id@ == revision_id@,
        r.name == *name,
        r.attempts == (if is_undo {
            0
        } else {
            attempt + 1
        }),
        r.is_undo == is_undo,
        r.report_time == report_time,
        r.success == result.is_ok(),
        match result {
            Ok(tail) => r.log_tail == tail && r.exit_code.is_none() && r.error.is_none(),
            Err(f) => r.log_tail == f.combined_tail && r.exit_code == f.exit_code && r.error
                == f.error,
        },
{
    let attempts: u32 = if is_undo {
        0
    } else {
        attempt + 1
    };
    let (log_tail, exit_code, error, success) = match result {
        Ok(tail) => (tail.clone(), None, None, true),
        Err(f) => (f.combined_tail.clone(), f.exit_code, f.error.clone(), false),
    };
    StepReport {
        revision_id: string_from_str(revision_id),
        run_id: string_from_str(run_id),
        name: name.clone(),
        attempts,
        log_tail,
        exit_code,
        success,
        is_undo,
        error,
        report_time,
    }
}

/// The text of a failed step: `Step <name> failed: <error>`, with
/// `unknown step` and `unknown error` where they are missing.
pub open spec fn step_failure_text(name: Option<Seq<char>>, error: Option<Seq<char>>) -> Seq<char> {
    "Step "@ + (match name {
        Some(n) => n,
        None => "unknown step"@,
    }) + " failed: "@ + (match error {
        Some(e) => e,
        None => "unknown error"@,
    })
}

/// An optional string by its view.
pub open spec fn opt_chars(v: Option<String>) -> Option<Seq<char>> {
    match v {
        Some(s) => Some(s@),
        None => None,
    }
}

/// The result of a step from its report: success, or the failure text.
pub fn step_result(report: &StepReport) -> (r: Result<(), String>)
    ensures
        report.success ==> r.is_ok(),
        !report.success ==> r.is_err() && r->Err_0@ == step_failure_text(
            opt_chars(report.name),
            opt_chars(report.error),
        ),
{
    if report.success {
        return Ok(());
    }
    let mut msg = string_from_str("Step ");
    match &report.name {
        Some(n) => msg.append(n.as_str()),
        None => msg.append("unknown step"),
    }
    msg.append(" failed: ");
    match &report.error {
        Some(e) => msg.append(e.as_str()),
        None => msg.append("unknown error"),
    }
    Err(msg)
}

// ---------------------------------------------------------------------------
// Rollback and revision reports
// ---------------------------------------------------------------------------

/// The report of a rollback.
#[derive(Debug, Clone)]
pub struct RollbackReport {
    pub revision_id: String,
    pub success: bool,
    pub undone_steps: Vec<String>,
    pub error: Option<String>,
    pub log_tail: String,
}

/// The report of a rollback away from `revision_id`, and its result: it
/// succeeds exactly when a previous revision is stored (the manager then
/// makes it the desired one).
pub fn rollback_outcome(revision_id: &str, has_previous: bool) -> (r: (RollbackReport, Result<
    (),
    String,
>))
    ensures
        r.0.revision_id@ == revision_id@,
        r.0.success == has_previous,
        r.0.undone_steps@.len() == 0,
        r.0.log_tail@ == Seq::<char>::empty(),
        has_previous ==> r.0.error.is_none() && r.1 is Ok,
        !has_previous ==> (r.0.error matches Some(e) && e@ == "No previous configuration available"@),
        !has_previous ==> (r.1 matches Err(m) && m@ == "No previous configuration available"@),
{
    let error = if has_previous {
        None
    } else {
        Some(string_from_str("No previous configuration available"))
    };
    let report = RollbackReport {
        revision_id: string_from_str(revision_id),
        success: has_previous,
        undone_steps: Vec::new(),
        error,
        log_tail: String::new(),
    };
    let result = if has_previous {
        Ok(())
    } else {
        Err(string_from_str("No previous configuration available"))
    };
    (report, result)
}

/// The report of a revision.
#[derive(Debug, Clone)]
pub struct DeploymentRevisionReport {
    pub revision_id: String,
    pub outcome: Outcome,
    pub dirty: bool,
    pub error: Option<String>,
}

/// The report of a reconcile pass that failed: the revision failed and is
/// still dirty, with the error as `reconcile error: <error>`.
pub fn reconcile_failure_report(revision_id: &str, error: &str) -> (r: DeploymentRevisionReport)
    ensures
        r.revision_id@ == revision_id@,
        r.outcome == Outcome::Failed,
        r.dirty,
        r.error matches Some(e) && e@ == "reconcile error: "@ + error@,
{
    let mut e = string_from_str("reconcile error: ");
    e.append(error);
    DeploymentRevisionReport {
        revision_id: string_from_str(revision_id),
        outcome: Outcome::Failed,
        dirty: true,
        error: Some(e),
    }
}


/// What the deployment manager keeps of the desired revision: its hash,
/// the hashes of the units to reconcile, the rollback policy in force and
/// when the revision became desired (milliseconds on a monotonic clock).
#[derive(Debug, Clone)]
pub struct DesiredUnits {
    pub hash: Option<String>,
    pub dirty: Vec<String>,
    pub rollback: Option<crate::deploy::RollbackPolicy>,
    pub started_at: Option<u64>,
}

impl DesiredUnits {
    /// A new desired revision of hash `new_hash`, with `new_units`, replaces
    /// the one stored before, whose units are `old_units` (none without
    /// one); `ran_ok[i]` tells whether unit `i` of `new_units` ran to
    /// completion before. A revision with the stored hash changes nothing.
    /// Else it is stored, the units it adds, changes or drops become dirty
    /// (`mark_dirty`), its rollback policy applies, and its stabilization
    /// period starts at `now`. Returns whether anything changed.
    pub fn set_desired_units(
        &mut self,
        new_hash: &String,
        new_units: &Vec<UnitRef>,
        ran_ok: &Vec<bool>,
        old_units: &Vec<UnitRef>,
        rollback: Option<crate::deploy::RollbackPolicy>,
        now: u64,
    ) -> (changed: bool)
        requires
            ran_ok.len() == new_units.len(),
            no_duplicates(string_views(old(self).dirty@)),
        ensures
            changed == !(old(self).hash.is_some() && old(self).hash.unwrap()@ == new_hash@),
            !changed ==> *final(self) == *old(self),
            changed ==> final(self).hash == Some(*new_hash),
            changed ==> string_views(final(self).dirty@).to_set() == string_views(
                old(self).dirty@,
            ).to_set().union(
                dirty_additions(unit_views(new_units@), ran_ok@, unit_views(old_units@)),
            ),
            changed ==> final(self).rollback == rollback,
            changed ==> final(self).started_at == Some(now),
            no_duplicates(string_views(final(self).dirty@)),
    {
        if revision_unchanged(&self.hash, new_hash) {
            return false;
        }
        self.hash = Some(new_hash.clone());
        mark_dirty(&mut self.dirty, new_units, ran_ok, old_units);
        self.rollback = rollback;
        self.started_at = Some(now);
        true
    }
}

} // verus!
