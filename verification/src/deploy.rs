//! The decisions of the deployment manager: observation bookkeeping, reports,
//! rollback, step execution with undo and retry, work directories and the set
//! of units to reconcile.
use vstd::prelude::*;

use crate::text::{push_chars, chars_of, string_from_str};

verus! {

// ---------------------------------------------------------------------------
// Local run state of a unit and its observations
// ---------------------------------------------------------------------------

/// What the manager remembers about a unit between checks (`run_state.json`
/// in the unit's work directory).
#[derive(Debug, Clone, Copy, PartialEq, Eq, Structural)]
pub struct LocalRunState {
    pub consecutive_health_failures: u32,
    pub consecutive_alive_failures: u32,
    pub ran_successful: bool,
    pub reported_once: bool,
    pub last_health: bool,
    pub last_alive: bool,
}

impl LocalRunState {
    /// The state of a unit that has never run nor been observed.
    pub fn new() -> (st: LocalRunState)
        ensures
            st == (LocalRunState {
                consecutive_health_failures: 0,
                consecutive_alive_failures: 0,
                ran_successful: false,
                reported_once: false,
                last_health: false,
                last_alive: false,
            }),
    {
        LocalRunState {
            consecutive_health_failures: 0,
            consecutive_alive_failures: 0,
            ran_successful: false,
            reported_once: false,
            last_health: false,
            last_alive: false,
        }
    }
}

/// The two observations of a unit.
#[derive(Debug, Clone, Copy, PartialEq, Eq, Structural)]
pub enum ObserveKind {
    Liveness,
    Health,
}

/// The outcome of one failed or successful observation.
#[derive(Debug, Clone, Copy, PartialEq, Eq, Structural)]
pub struct ObserveDecision {
    /// The failure count reached a multiple of `fails_after`.
    pub is_failure: bool,
    /// A run-state event is due.
    pub needs_send: bool,
    /// How many times `fails_after` consecutive failures have happened.
    pub consecutive: u32,
}

/// The consecutive failure count that an observation kind tracks.
pub open spec fn failures_of(st: LocalRunState, kind: ObserveKind) -> u32 {
    match kind {
        ObserveKind::Liveness => st.consecutive_alive_failures,
        ObserveKind::Health => st.consecutive_health_failures,
    }
}

/// The last result that an observation kind tracks.
pub open spec fn last_of(st: LocalRunState, kind: ObserveKind) -> bool {
    match kind {
        ObserveKind::Liveness => st.last_alive,
        ObserveKind::Health => st.last_health,
    }
}

/// Whether a successful observation must be reported: when it changes what
/// was last reported, or nothing was reported yet.
pub open spec fn success_needs_send(kind: ObserveKind, st: LocalRunState) -> bool {
    match kind {
        ObserveKind::Liveness => !st.last_alive || !st.reported_once,
        ObserveKind::Health => !st.last_health || !st.last_alive || !st.reported_once,
    }
}

/// The number of failed observations after which a failure counts.
pub open spec fn fails_after_of(fails_after: Option<u32>) -> u32 {
    match fails_after {
        Some(n) => n,
        None => 1,
    }
}

/// The decision after `consecutive` failed observations in a row.
pub open spec fn error_decision(
    kind: ObserveKind,
    st: LocalRunState,
    fails_after: Option<u32>,
    consecutive: u32,
) -> ObserveDecision {
    let n = fails_after_of(fails_after);
    let is_failure = consecutive > 0 && consecutive % n == 0;
    ObserveDecision {
        is_failure,
        needs_send: match kind {
            ObserveKind::Liveness => (!st.last_alive || !st.reported_once) && is_failure,
            ObserveKind::Health => (st.last_health || !st.reported_once) && is_failure,
        },
        consecutive: if n == 0 {
            0
        } else {
            (consecutive / n) as u32
        },
    }
}

impl ObserveKind {
    /// The time an observation or report command may run when its hook sets
    /// none, in seconds.
    pub fn default_timeout(self) -> (secs: u64)
        ensures
            secs == 5,
    {
        5
    }

    /// The kind's name in messages: `liveness` or `health`.
    pub fn name(&self) -> (r: String)
        ensures
            r@ == (match *self {
                ObserveKind::Liveness => "liveness"@,
                ObserveKind::Health => "health"@,
            }),
    {
        match self {
            ObserveKind::Liveness => string_from_str("liveness"),
            ObserveKind::Health => string_from_str("health"),
        }
    }

    /// Whether a successful observation must be reported.
    pub fn decide_on_success(&self, st: &LocalRunState) -> (r: bool)
        ensures
            r == success_needs_send(*self, *st),
    {
        match self {
            ObserveKind::Liveness => st.last_alive == false || !st.reported_once,
            ObserveKind::Health => st.last_health != true || st.last_alive != true
                || !st.reported_once,
        }
    }

    /// The decision after `consecutive` failed observations in a row: a
    /// failure counts at every multiple of `fails_after` (default 1), and is
    /// reported when it changes what was last reported.
    pub fn decide_on_error(&self, st: &LocalRunState, fails_after: Option<u32>, consecutive: u32) -> (d:
        ObserveDecision)
        requires
            fails_after_of(fails_after) != 0 || consecutive == 0,
        ensures
            d == error_decision(*self, *st, fails_after, consecutive),
    {
        let n: u32 = match fails_after {
            Some(n) => n,
            None => 1,
        };
        let is_failure = consecutive > 0 && (consecutive % n == 0);
        let needs_send = match self {
            ObserveKind::Liveness => (st.last_alive == false || !st.reported_once) && is_failure,
            ObserveKind::Health => (st.last_health == true || !st.reported_once) && is_failure,
        };
        let consecutive = if n == 0 {
            0
        } else {
            consecutive / n
        };
        ObserveDecision { is_failure, needs_send, consecutive }
    }
}

impl LocalRunState {
    /// The consecutive failure counter of an observation kind.
    pub fn failures_mut(&mut self, kind: ObserveKind) -> (r: &mut u32)
        ensures
            *r == failures_of(*old(self), kind),
            *final(self) == (match kind {
                ObserveKind::Liveness => LocalRunState {
                    consecutive_alive_failures: *final(r),
                    ..*old(self)
                },
                ObserveKind::Health => LocalRunState {
                    consecutive_health_failures: *final(r),
                    ..*old(self)
                },
            }),
    {
        match kind {
            ObserveKind::Liveness => &mut self.consecutive_alive_failures,
            ObserveKind::Health => &mut self.consecutive_health_failures,
        }
    }

    /// The last observed result of an observation kind.
    pub fn last_mut(&mut self, kind: ObserveKind) -> (r: &mut bool)
        ensures
            *r == last_of(*old(self), kind),
            *final(self) == (match kind {
                ObserveKind::Liveness => LocalRunState { last_alive: *final(r), ..*old(self) },
                ObserveKind::Health => LocalRunState { last_health: *final(r), ..*old(self) },
            }),
    {
        match kind {
            ObserveKind::Liveness => &mut self.last_alive,
            ObserveKind::Health => &mut self.last_health,
        }
    }
}

/// The state after a successful observation: its failure count is reset and
/// the unit is alive (and, for a health check, healthy).
pub open spec fn after_success(st: LocalRunState, kind: ObserveKind) -> LocalRunState {
    match kind {
        ObserveKind::Liveness => LocalRunState {
            consecutive_alive_failures: 0,
            last_alive: true,
            ..st
        },
        ObserveKind::Health => LocalRunState {
            consecutive_health_failures: 0,
            last_health: true,
            last_alive: true,
            ..st
        },
    }
}

/// The failure count after one more failure (saturating).
pub open spec fn bumped(n: u32) -> u32 {
    if n == u32::MAX {
        n
    } else {
        (n + 1) as u32
    }
}

/// The state after a failed observation: its failure count grows by one and
/// its last result is false.
pub open spec fn after_failure(st: LocalRunState, kind: ObserveKind) -> LocalRunState {
    match kind {
        ObserveKind::Liveness => LocalRunState {
            consecutive_alive_failures: bumped(st.consecutive_alive_failures),
            last_alive: false,
            ..st
        },
        ObserveKind::Health => LocalRunState {
            consecutive_health_failures: bumped(st.consecutive_health_failures),
            last_health: false,
            ..st
        },
    }
}

/// Records a successful observation; the decision says whether to report it.
pub fn record_observe_success(st: &mut LocalRunState, kind: ObserveKind) -> (d: ObserveDecision)
    ensures
        *final(st) == after_success(*old(st), kind),
        d == (ObserveDecision {
            is_failure: false,
            needs_send: success_needs_send(kind, *old(st)),
            consecutive: 0,
        }),
{
    *st.failures_mut(kind) = 0;
    let needs_send = kind.decide_on_success(st);
    match kind {
        ObserveKind::Liveness => {
            st.last_alive = true;
        },
        ObserveKind::Health => {
            st.last_health = true;
            st.last_alive = true;
        },
    }
    ObserveDecision { is_failure: false, needs_send, consecutive: 0 }
}

/// Records a failed observation; the decision says whether it counts as a
/// failure and whether to report it.
pub fn record_observe_failure(st: &mut LocalRunState, kind: ObserveKind, fails_after: Option<u32>) -> (d:
    ObserveDecision)
    requires
        fails_after_of(fails_after) != 0,
    ensures
        *final(st) == after_failure(*old(st), kind),
        d == error_decision(
            kind,
            *old(st),
            fails_after,
            failures_of(after_failure(*old(st), kind), kind),
        ),
{
    let failures = st.failures_mut(kind);
    *failures = failures.saturating_add(1);
    let consecutive = *failures;
    let decision = kind.decide_on_error(st, fails_after, consecutive);
    *st.last_mut(kind) = false;
    if let ObserveKind::Liveness = kind {
        st.last_alive = false;
    }
    decision
}

/// Notes that a run-state event was sent for the unit.
pub fn mark_reported(st: &mut LocalRunState)
    ensures
        *final(st) == (LocalRunState { reported_once: true, ..*old(st) }),
{
    st.reported_once = true;
}

/// A success clears the failure count and sets the last result; a second
/// success changes nothing more, and once it has been reported a further
/// success needs no report.
pub proof fn lemma_success_resets(st: LocalRunState, kind: ObserveKind)
    ensures
        failures_of(after_success(st, kind), kind) == 0,
        last_of(after_success(st, kind), kind),
        after_success(after_success(st, kind), kind) == after_success(st, kind),
        success_needs_send(kind, after_success(LocalRunState { reported_once: true, ..st }, kind))
            == false,
{
}

/// Failures in a row are counted one by one, and the count starts over after
/// a success.
pub proof fn lemma_failures_count(st: LocalRunState, kind: ObserveKind)
    requires
        failures_of(st, kind) < u32::MAX,
    ensures
        failures_of(after_failure(st, kind), kind) == failures_of(st, kind) + 1,
        !last_of(after_failure(st, kind), kind),
        failures_of(after_failure(after_success(st, kind), kind), kind) == 1,
{
}

/// With `fails_after = n`, the n-th, 2n-th, … failure in a row counts as a
/// failure and no other does.
pub proof fn lemma_failure_every_n(
    kind: ObserveKind,
    st: LocalRunState,
    n: u32,
    consecutive: u32,
)
    requires
        n > 0,
    ensures
        error_decision(kind, st, Some(n), consecutive).is_failure == (consecutive > 0
            && consecutive % n == 0),
        error_decision(kind, st, Some(n), consecutive).consecutive == consecutive / n,
        error_decision(kind, st, Some(n), consecutive).needs_send ==> error_decision(
            kind,
            st,
            Some(n),
            consecutive,
        ).is_failure,
{
}

/// When a failed observation is reported: only a failure that counts is;
/// a unit never reported yet reports every failure that counts; a health
/// failure that counts is reported when the last health was good, and not
/// again while it stays bad; a liveness failure that counts is reported
/// when the unit was last seen not alive, and not while it was last seen
/// alive once something was reported.
pub proof fn lemma_failure_report(
    kind: ObserveKind,
    st: LocalRunState,
    fails_after: Option<u32>,
    consecutive: u32,
)
    requires
        fails_after_of(fails_after) != 0,
    ensures
        ({
            let d = error_decision(kind, st, fails_after, consecutive);
            &&& d.is_failure == (consecutive > 0 && consecutive % fails_after_of(fails_after) == 0)
            &&& d.needs_send ==> d.is_failure
            &&& d.is_failure && !st.reported_once ==> d.needs_send
            &&& kind is Health && d.is_failure && st.last_health ==> d.needs_send
            &&& kind is Health && st.reported_once && !st.last_health ==> !d.needs_send
            &&& kind is Liveness && d.is_failure && !st.last_alive ==> d.needs_send
            &&& kind is Liveness && st.reported_once && st.last_alive ==> !d.needs_send
        }),
{
}

/// A healthy unit that fails its health check, with the default of one
/// failure, reports the change: the failure counts and is sent.
pub proof fn lemma_health_drop_reported(st: LocalRunState)
    requires
        st.last_health,
    ensures
        ({
            let d = error_decision(
                ObserveKind::Health,
                st,
                None,
                failures_of(after_failure(st, ObserveKind::Health), ObserveKind::Health),
            );
            d.is_failure && d.needs_send
        }),
{
    let c = failures_of(after_failure(st, ObserveKind::Health), ObserveKind::Health);
    assert(c > 0);
    assert(c % 1 == 0);
}

// ---------------------------------------------------------------------------
// Run-state events and log tails
// ---------------------------------------------------------------------------

/// A report of a unit's liveness or health.
#[derive(Debug, Clone)]
pub struct RunState {
    pub run_id: String,
    pub revision_id: String,
    pub healthy: Option<bool>,
    pub alive: Option<bool>,
    pub report_time: u32,
    pub log_tail: Option<String>,
}

/// What an observation reports: a passed liveness check says the unit is
/// alive; a failed one says it is neither alive nor healthy; a passed health
/// check says both; a failed one says it is not healthy.
pub open spec fn runstate_flags(kind: ObserveKind, ok: bool) -> (Option<bool>, Option<bool>) {
    match kind {
        ObserveKind::Liveness => if ok {
            (None, Some(true))
        } else {
            (Some(false), Some(false))
        },
        ObserveKind::Health => if ok {
            (Some(true), Some(true))
        } else {
            (Some(false), None)
        },
    }
}

/// The view of an optional string.
pub open spec fn opt_str(v: Option<String>) -> Option<Seq<char>> {
    match v {
        Some(s) => Some(s@),
        None => None,
    }
}

impl ObserveKind {
    /// The run-state event for one observation, stamped with `report_time`
    /// (milliseconds, as the caller's clock gives them); a passed check
    /// carries no log tail.
    pub fn build_runstate_event(
        &self,
        run_id: &str,
        revision_id: &str,
        ok: bool,
        log_tail: Option<String>,
        report_time: u32,
    ) -> (r: RunState)
        ensures
            r.run_id@ == run_id@,
            r.revision_id@ == revision_id@,
            (r.healthy, r.alive) == runstate_flags(*self, ok),
            r.report_time == report_time,
            opt_str(r.log_tail) == (if ok {
                None
            } else {
                opt_str(log_tail)
            }),
    {
        let (healthy, alive) = match self {
            ObserveKind::Liveness => if ok {
                (None, Some(true))
            } else {
                (Some(false), Some(false))
            },
            ObserveKind::Health => if ok {
                (Some(true), Some(true))
            } else {
                (Some(false), None)
            },
        };
        RunState {
            run_id: string_from_str(run_id),
            revision_id: string_from_str(revision_id),
            healthy,
            alive,
            report_time,
            log_tail: if ok {
                None
            } else {
                log_tail
            },
        }
    }
}

/// Two log tails joined by a line break; either alone when the other is missing.
pub open spec fn merged_tail(primary: Option<Seq<char>>, secondary: Option<Seq<char>>) -> Option<
    Seq<char>,
> {
    match (primary, secondary) {
        (Some(a), Some(b)) => Some(a + seq!['\n'] + b),
        (Some(a), None) => Some(a),
        (None, Some(b)) => Some(b),
        (None, None) => None,
    }
}

/// Joins the observe command's log tail and the report command's log tail.
pub fn merge_log_tails(primary: Option<String>, secondary: Option<String>) -> (r: Option<String>)
    ensures
        opt_str(r) == merged_tail(opt_str(primary), opt_str(secondary)),
{
    match (primary, secondary) {
        (Some(a), Some(b)) => {
            let mut s = a;
            crate::text::push_char(&mut s, '\n');
            let bc = chars_of(b.as_str());
            push_chars(&mut s, bc.as_slice());
            Some(s)
        },
        (Some(a), None) => Some(a),
        (None, Some(b)) => Some(b),
        (None, None) => None,
    }
}

// ---------------------------------------------------------------------------
// Rollback
// ---------------------------------------------------------------------------

/// When a failed observation rolls a deployment back.
#[derive(Debug, Clone, Copy, PartialEq, Eq, Structural)]
pub enum RollbackTrigger {
    Never,
    Any,
    All,
    Consecutive(u32),
}

/// The rollback policy of a deployment revision.
#[derive(Debug, Clone, Copy, PartialEq, Eq, Structural)]
pub struct RollbackPolicy {
    pub on_health_failure: RollbackTrigger,
    pub on_liveness_failure: RollbackTrigger,
    pub stabilization_period_secs: u64,
}

/// What the manager does after an observation that failed.
#[derive(Debug, Clone, Copy, PartialEq, Eq, Structural)]
pub enum RollbackCheck {
    /// Keep the current revision.
    Keep,
    /// Roll back to the previous revision.
    Rollback,
    /// Roll back if every desired unit is failing its health checks.
    CheckAllUnits,
}

/// The stabilization period is over: no deployment start is tracked, or at
/// least the policy's period has elapsed since it.
pub open spec fn stabilized(policy: RollbackPolicy, elapsed_secs: Option<u64>) -> bool {
    match elapsed_secs {
        None => true,
        Some(e) => e >= policy.stabilization_period_secs,
    }
}

/// The trigger that applies to an observation kind.
pub open spec fn trigger_for(policy: RollbackPolicy, kind: ObserveKind) -> RollbackTrigger {
    match kind {
        ObserveKind::Health => policy.on_health_failure,
        ObserveKind::Liveness => policy.on_liveness_failure,
    }
}

/// The rollback decision after a failed observation.
pub open spec fn rollback_check(
    policy: Option<RollbackPolicy>,
    kind: ObserveKind,
    elapsed_secs: Option<u64>,
    consecutive: Option<u32>,
) -> RollbackCheck {
    let c: u32 = match consecutive {
        Some(c) => c,
        None => 0,
    };
    match policy {
        None => RollbackCheck::Keep,
        Some(p) => if !stabilized(p, elapsed_secs) {
            RollbackCheck::Keep
        } else {
            match trigger_for(p, kind) {
                RollbackTrigger::Never => RollbackCheck::Keep,
                RollbackTrigger::Any => if c > 0 {
                    RollbackCheck::Rollback
                } else {
                    RollbackCheck::Keep
                },
                RollbackTrigger::All => RollbackCheck::CheckAllUnits,
                RollbackTrigger::Consecutive(n) => if c >= n {
                    RollbackCheck::Rollback
                } else {
                    RollbackCheck::Keep
                },
            }
        },
    }
}

/// Whether the stabilization period after the last deployment is over;
/// `elapsed_secs` is the time since the deployment started, if tracked.
pub fn is_past_stabilization_period(policy: &RollbackPolicy, elapsed_secs: Option<u64>) -> (r: bool)
    ensures
        r == stabilized(*policy, elapsed_secs),
{
    match elapsed_secs {
        None => true,
        Some(e) => e >= policy.stabilization_period_secs,
    }
}

/// The rollback decision after a failed observation with `consecutive`
/// counted failures.
pub fn check_rollback_on_observe_failure(
    policy: &Option<RollbackPolicy>,
    kind: ObserveKind,
    elapsed_secs: Option<u64>,
    consecutive: Option<u32>,
) -> (r: RollbackCheck)
    ensures
        r == rollback_check(*policy, kind, elapsed_secs, consecutive),
{
    let p = match policy {
        Some(p) => p,
        None => return RollbackCheck::Keep,
    };
    if !is_past_stabilization_period(p, elapsed_secs) {
        return RollbackCheck::Keep;
    }
    let trigger = match kind {
        ObserveKind::Health => p.on_health_failure,
        ObserveKind::Liveness => p.on_liveness_failure,
    };
    let c: u32 = match consecutive {
        Some(c) => c,
        None => 0,
    };
    match trigger {
        RollbackTrigger::Never => RollbackCheck::Keep,
        RollbackTrigger::Any => if c > 0 {
            RollbackCheck::Rollback
        } else {
            RollbackCheck::Keep
        },
        RollbackTrigger::All => RollbackCheck::CheckAllUnits,
        RollbackTrigger::Consecutive(n) => if c >= n {
            RollbackCheck::Rollback
        } else {
            RollbackCheck::Keep
        },
    }
}

/// Every desired unit is failing its health checks: there is at least one,
/// and each whose state could be read has a non-zero health failure count.
pub open spec fn all_failing(states: Seq<Option<LocalRunState>>) -> bool {
    states.len() > 0 && forall|i: int|
        0 <= i < states.len() && (#[trigger] states[i]) is Some ==> states[i]->0.consecutive_health_failures
            != 0
}

/// Whether every desired unit is failing; `states` holds the state of each
/// desired unit, `None` where it could not be read.
pub fn check_all_units_failing(states: &Vec<Option<LocalRunState>>) -> (r: bool)
    ensures
        r == all_failing(states@),
{
    if states.len() == 0 {
        return false;
    }
    let mut i: usize = 0;
    while i < states.len()
        invariant
            i <= states.len(),
            forall|k: int|
                0 <= k < i && (#[trigger] states@[k]) is Some ==> states@[k]->0.consecutive_health_failures
                    != 0,
        decreases states.len() - i,
    {
        match &states[i] {
            Some(st) => {
                if st.consecutive_health_failures == 0 {
                    assert(states@[i as int] is Some);
                    return false;
                }
            },
            None => {},
        }
        i = i + 1;
    }
    true
}

/// No rollback happens before the stabilization period is over, nor under
/// the trigger `Never`; under `Consecutive(n)` a rollback at some count
/// happens at every higher count too.
pub proof fn lemma_rollback_policy(
    policy: RollbackPolicy,
    kind: ObserveKind,
    elapsed_secs: Option<u64>,
    c1: u32,
    c2: u32,
)
    ensures
        !stabilized(policy, elapsed_secs) ==> rollback_check(
            Some(policy),
            kind,
            elapsed_secs,
            Some(c1),
        ) == RollbackCheck::Keep,
        trigger_for(policy, kind) == RollbackTrigger::Never ==> rollback_check(
            Some(policy),
            kind,
            elapsed_secs,
            Some(c1),
        ) == RollbackCheck::Keep,
        (trigger_for(policy, kind) matches RollbackTrigger::Consecutive(_)) && c1 <= c2
            && rollback_check(Some(policy), kind, elapsed_secs, Some(c1)) == RollbackCheck::Rollback
            ==> rollback_check(Some(policy), kind, elapsed_secs, Some(c2))
            == RollbackCheck::Rollback,
        rollback_check(None, kind, elapsed_secs, Some(c1)) == RollbackCheck::Keep,
{
}

// ---------------------------------------------------------------------------
// Steps, undo and retry
// ---------------------------------------------------------------------------

/// Which steps are undone when a step fails.
#[derive(Debug, Clone, Copy, PartialEq, Eq, Structural)]
pub enum UndoMode {
    Nothing,
    ExecutedSteps,
}

/// What happens when a step fails.
#[derive(Debug, Clone, Copy, PartialEq, Eq, Structural)]
pub struct OnFailure {
    pub undo: UndoMode,
    pub continue_on_failure: bool,
}

impl OnFailure {
    /// The policy of a unit that sets none: undo nothing and stop.
    pub fn default_policy() -> (p: OnFailure)
        ensures
            p == (OnFailure { undo: UndoMode::Nothing, continue_on_failure: false }),
    {
        OnFailure { undo: UndoMode::Nothing, continue_on_failure: false }
    }
}

/// The progress through a unit's steps: the next step to run and the steps
/// that succeeded so far, in the order they ran.
#[derive(Debug, Clone)]
pub struct StepsRun {
    pub next: usize,
    pub executed: Vec<usize>,
}

/// What to do after a step's result: undo these steps (in this order), then
/// stop with the step's error if `stop` is set.
#[derive(Debug, Clone)]
pub struct StepsAction {
    pub undo: Vec<usize>,
    pub stop: bool,
}

/// The executed steps that have an undo command, latest first.
pub open spec fn undo_order(executed: Seq<usize>, has_undo: Seq<bool>) -> Seq<usize>
    decreases executed.len(),
{
    if executed.len() == 0 {
        seq![]
    } else {
        let i = executed.last();
        let rest = undo_order(executed.drop_last(), has_undo);
        if has_undo[i as int] {
            seq![i] + rest
        } else {
            rest
        }
    }
}

/// The indices are strictly increasing.
pub open spec fn increasing(s: Seq<usize>) -> bool {
    forall|i: int, j: int| 0 <= i < j < s.len() ==> s[i] < s[j]
}

/// The indices are strictly decreasing.
pub open spec fn decreasing(s: Seq<usize>) -> bool {
    forall|i: int, j: int| 0 <= i < j < s.len() ==> s[i] > s[j]
}

/// Well-formed progress: every executed step came before `next`, in order.
pub open spec fn steps_run_wf(r: StepsRun) -> bool {
    increasing(r.executed@) && forall|i: int| 0 <= i < r.executed@.len() ==> r.executed@[i] < r.next
}

/// Undo runs latest step first: the undo order of steps executed in
/// increasing order is decreasing, and every step in it was executed.
pub proof fn lemma_undo_reverse(executed: Seq<usize>, has_undo: Seq<bool>)
    requires
        increasing(executed),
    ensures
        decreasing(undo_order(executed, has_undo)),
        forall|k: int|
            0 <= k < undo_order(executed, has_undo).len() ==> executed.contains(
                #[trigger] undo_order(executed, has_undo)[k],
            ) && has_undo[undo_order(executed, has_undo)[k] as int],
    decreases executed.len(),
{
    if executed.len() > 0 {
        let pre = executed.drop_last();
        assert(increasing(pre));
        lemma_undo_reverse(pre, has_undo);
        let rest = undo_order(pre, has_undo);
        let i = executed.last();
        assert forall|k: int| 0 <= k < rest.len() implies executed.contains(#[trigger] rest[k])
            && rest[k] < i by {
            assert(pre.contains(rest[k]));
            let j = choose|j: int| 0 <= j < pre.len() && pre[j] == rest[k];
            assert(executed[j] == rest[k]);
            assert(executed[executed.len() - 1] == i);
        }
        assert(executed[executed.len() - 1] == i);
    }
}

/// The undo order as a vector.
fn undo_list(executed: &Vec<usize>, has_undo: &Vec<bool>) -> (r: Vec<usize>)
    requires
        forall|k: int| 0 <= k < executed@.len() ==> executed@[k] < has_undo@.len(),
    ensures
        r@ == undo_order(executed@, has_undo@),
{
    let mut out: Vec<usize> = Vec::new();
    let mut i = executed.len();
    assert(executed@.take(executed.len() as int) =~= executed@);
    while i > 0
        invariant
            i <= executed.len(),
            forall|k: int| 0 <= k < executed@.len() ==> executed@[k] < has_undo@.len(),
            out@ + undo_order(executed@.take(i as int), has_undo@) == undo_order(
                executed@,
                has_undo@,
            ),
        decreases i,
    {
        let ghost pre = executed@.take(i as int);
        assert(pre.drop_last() =~= executed@.take(i - 1));
        assert(pre.last() == executed@[i - 1]);
        let s = executed[i - 1];
        if has_undo[s] {
            let ghost before = out@;
            out.push(s);
            assert(out@ + undo_order(executed@.take(i - 1), has_undo@) =~= before + undo_order(
                pre,
                has_undo@,
            ));
        }
        i = i - 1;
    }
    assert(executed@.take(0) =~= Seq::<usize>::empty());
    assert(out@ + undo_order(executed@.take(0), has_undo@) =~= out@);
    out
}

impl StepsRun {
    /// No step has run yet.
    pub fn new() -> (r: StepsRun)
        ensures
            r.next == 0,
            r.executed@ == Seq::<usize>::empty(),
            steps_run_wf(r),
    {
        StepsRun { next: 0, executed: Vec::new() }
    }

    /// Records the result of step `self.next`. A success is remembered; a
    /// failure undoes the executed steps that have an undo command, latest
    /// first, when the policy says so, and stops unless the policy says to
    /// continue.
    pub fn on_step_result(&mut self, policy: &OnFailure, has_undo: &Vec<bool>, ok: bool) -> (a:
        StepsAction)
        requires
            old(self).next < has_undo.len(),
            steps_run_wf(*old(self)),
        ensures
            final(self).next == old(self).next + 1,
            final(self).executed@ == (if ok {
                old(self).executed@.push(old(self).next)
            } else {
                old(self).executed@
            }),
            steps_run_wf(*final(self)),
            a.undo@ == (if !ok && policy.undo == UndoMode::ExecutedSteps {
                undo_order(old(self).executed@, has_undo@)
            } else {
                Seq::empty()
            }),
            a.stop == (!ok && !policy.continue_on_failure),
    {
        let current = self.next;
        let mut undo: Vec<usize> = Vec::new();
        let mut stop = false;
        if ok {
            self.executed.push(current);
        } else {
            match policy.undo {
                UndoMode::Nothing => {},
                UndoMode::ExecutedSteps => {
                    undo = undo_list(&self.executed, has_undo);
                },
            }
            stop = !policy.continue_on_failure;
        }
        self.next = current + 1;
        StepsAction { undo, stop }
    }
}

/// Retry settings of a step.
#[derive(Debug, Clone, Copy, PartialEq, Eq, Structural)]
pub struct RetrySpec {
    pub attempts: u32,
    pub backoff_ms: u64,
}

/// The number of times a step may run: its retry attempts, at least one.
pub open spec fn effective_attempts(retry: Option<RetrySpec>) -> u32 {
    match retry {
        Some(r) => if r.attempts >= 1 {
            r.attempts
        } else {
            1
        },
        None => 1,
    }
}

/// The number of times a step may run.
pub fn retry_attempts(retry: &Option<RetrySpec>) -> (n: u32)
    ensures
        n == effective_attempts(*retry),
        n >= 1,
{
    match retry {
        Some(r) => if r.attempts >= 1 {
            r.attempts
        } else {
            1
        },
        None => 1,
    }
}

/// After attempt number `attempt` (counting from 0) failed: whether to wait
/// and try again, or give up with that attempt's error.
pub fn retry_after_failure(attempt: u32, attempts: u32) -> (again: bool)
    requires
        attempt < attempts,
    ensures
        again == (attempt + 1 < attempts),
{
    attempt + 1 < attempts
}

/// A step runs at most its attempts and at least once: attempt `i` follows a
/// failed attempt `i - 1` only while `i` is below the attempts.
pub proof fn lemma_retry_bounds(retry: Option<RetrySpec>, attempt: u32)
    requires
        attempt < effective_attempts(retry),
    ensures
        effective_attempts(retry) >= 1,
        (attempt + 1 < effective_attempts(retry)) ==> attempt + 1 <= effective_attempts(retry) - 1,
        !(attempt + 1 < effective_attempts(retry)) ==> attempt == effective_attempts(retry) - 1,
{
}

} // verus!
