use vstd::prelude::*;
use crate::config::{Mode, OutputMode};
use crate::json::JsonValue;

verus! {

/// The shape of one execution: how many fixtures, how many runs of each, and whether the first
/// failing run ends it (CI mode).
pub struct LoopPlan {
    pub fixtures: u64,
    pub runs: u64,
    pub fail_fast: bool,
}

/// Where an execution stands: the next fixture and run, and whether any run failed.
pub struct LoopState {
    pub fixture: u64,
    pub run: u64,
    pub any_failed: bool,
    pub stopped: bool,
}

/// What the caller does next.
pub enum LoopAction {
    /// Invoke the action on this fixture, for this run.
    Invoke { fixture: u64, run: u64 },
    /// Nothing is left to run.
    Finish,
}

/// The number of runs per fixture: the configured repeat count, at least one.
pub fn repeat_count(repeat: u32) -> (r: u64)
    ensures
        r == (if repeat == 0 {
            1
        } else {
            repeat as u64
        }),
{
    if repeat == 0 {
        1
    } else {
        repeat as u64
    }
}

/// The plan for a configuration with `fixtures` fixtures.
pub fn plan_for(fixtures: u64, repeat: u32, mode: &Mode) -> (r: LoopPlan)
    ensures
        r.fixtures == fixtures,
        r.runs == (if repeat == 0 {
            1
        } else {
            repeat as u64
        }),
        r.fail_fast == (*mode == Mode::Ci),
{
    LoopPlan {
        fixtures,
        runs: repeat_count(repeat),
        fail_fast: match mode {
            Mode::Ci => true,
            Mode::Normal => false,
        },
    }
}

pub fn start() -> (r: LoopState)
    ensures
        r.fixture == 0 && r.run == 0 && !r.any_failed && !r.stopped,
{
    LoopState { fixture: 0, run: 0, any_failed: false, stopped: false }
}

pub open spec fn state_ok(plan: LoopPlan, s: LoopState) -> bool {
    plan.runs >= 1 && s.fixture <= plan.fixtures && s.run < plan.runs
}

/// The next step: invoke the current fixture and run, or finish when every fixture has run or
/// the execution stopped.
pub fn next_action(plan: &LoopPlan, state: &LoopState) -> (r: LoopAction)
    ensures
        (state.stopped || state.fixture >= plan.fixtures) ==> r is Finish,
        !(state.stopped || state.fixture >= plan.fixtures) ==> r == (LoopAction::Invoke {
            fixture: state.fixture,
            run: state.run,
        }),
{
    if state.stopped || state.fixture >= plan.fixtures {
        LoopAction::Finish
    } else {
        LoopAction::Invoke { fixture: state.fixture, run: state.run }
    }
}

/// Where the execution stands after a run: a failure is remembered and, in fail-fast mode, stops
/// the execution; otherwise the next run of the fixture follows, then the first run of the next
/// fixture.
pub fn after_run(plan: &LoopPlan, state: &LoopState, run_ok: bool) -> (r: LoopState)
    requires
        state_ok(*plan, *state),
        state.fixture < plan.fixtures,
    ensures
        r.any_failed == (state.any_failed || !run_ok),
        r.stopped == (state.stopped || (!run_ok && plan.fail_fast)),
        state_ok(*plan, r),
        !r.stopped ==> (if state.run + 1 < plan.runs {
            r.fixture == state.fixture && r.run == state.run + 1
        } else {
            r.fixture == state.fixture + 1 && r.run == 0
        }),
{
    let any_failed = state.any_failed || !run_ok;
    if !run_ok && plan.fail_fast {
        return LoopState { fixture: state.fixture, run: state.run, any_failed, stopped: true };
    }
    if state.run + 1 < plan.runs {
        LoopState { fixture: state.fixture, run: state.run + 1, any_failed, stopped: state.stopped }
    } else {
        LoopState { fixture: state.fixture + 1, run: 0, any_failed, stopped: state.stopped }
    }
}

/// Where run reports go: printed unless in CI mode or written to a file; collected when the output
/// mode is `File`.
pub fn output_routing(output_mode: &OutputMode, mode: &Mode) -> (r: (bool, bool))
    ensures
        r.1 == (*output_mode == OutputMode::File),
        r.0 == (*mode != Mode::Ci && *output_mode != OutputMode::File),
{
    let write_file = match output_mode {
        OutputMode::File => true,
        _ => false,
    };
    let ci = match mode {
        Mode::Ci => true,
        Mode::Normal => false,
    };
    (!ci && !write_file, write_file)
}

/// What an output file holds: the list of run envelopes when there was more than one run, the
/// single envelope otherwise, or null when nothing ran.
pub fn file_payload(envelopes: Vec<JsonValue>, total_runs: u64) -> (r: JsonValue)
    ensures
        total_runs > 1 ==> r == JsonValue::Array(envelopes),
        total_runs <= 1 && envelopes@.len() > 0 ==> r == envelopes@[0],
        total_runs <= 1 && envelopes@.len() == 0 ==> r@ is Null,
{
    if total_runs > 1 {
        JsonValue::Array(envelopes)
    } else {
        let mut e = envelopes;
        if e.len() > 0 {
            e.swap_remove(0)
        } else {
            JsonValue::Null
        }
    }
}

} // verus!
