//! The decisions of a workflow's execution: which action runs next, and
//! whether a failed action stops the workflow. Running the actions is left
//! to the caller, who reports each one's result.
use vstd::prelude::*;

use crate::workflow::{WorkflowAction, WorkflowConfig, WorkflowStatus, WorkflowStep};

verus! {

/// Where an execution stands: the position of the next action to run, or
/// the end of the steps; and whether a required step has failed.
#[derive(Debug, Clone, Copy, PartialEq, Eq, Structural)]
pub struct RunState {
    pub step: usize,
    pub action: usize,
    pub failed: bool,
}

/// What running an action gave.
#[derive(Debug, Clone, Copy, PartialEq, Eq, Structural)]
pub enum ActionResult {
    /// The command ran and exited with this code.
    Exited(i32),
    /// The command could not be run.
    NotStarted,
}

/// The first action position at or after action `j` of step `i`, in step
/// order and then action order; `(steps.len(), 0)` when there is none.
pub open spec fn next_position(steps: Seq<WorkflowStep>, i: int, j: int) -> (int, int)
    decreases steps.len() - i,
{
    if i < 0 || i >= steps.len() {
        (steps.len() as int, 0)
    } else if 0 <= j < steps[i].actions@.len() {
        (i, j)
    } else {
        next_position(steps, i + 1, 0)
    }
}

/// The state points at an action of `steps`, or at their end.
pub open spec fn well_placed(steps: Seq<WorkflowStep>, s: RunState) -> bool {
    ||| (s.step == steps.len() && s.action == 0)
    ||| (s.step < steps.len() && s.action < steps[s.step as int].actions@.len())
}

/// The execution is over: a required step failed, or no action is left.
pub open spec fn finished(steps: Seq<WorkflowStep>, s: RunState) -> bool {
    s.failed || s.step >= steps.len()
}

/// An action's result counts as success when the command exited with 0.
pub open spec fn succeeded(r: ActionResult) -> bool {
    r == ActionResult::Exited(0)
}

proof fn lemma_next_position(steps: Seq<WorkflowStep>, i: int, j: int)
    requires
        0 <= i <= steps.len(),
        0 <= j,
    ensures
        ({
            let (a, b) = next_position(steps, i, j);
            &&& i <= a <= steps.len()
            &&& 0 <= b
            &&& a == steps.len() ==> b == 0
            &&& a < steps.len() ==> b < steps[a].actions@.len()
        }),
    decreases steps.len() - i,
{
    if i < steps.len() && !(j < steps[i].actions@.len()) {
        lemma_next_position(steps, i + 1, 0);
    }
}

fn next_position_exec(steps: &Vec<WorkflowStep>, i0: usize, j0: usize) -> (r: (usize, usize))
    requires
        i0 <= steps@.len(),
    ensures
        (r.0 as int, r.1 as int) == next_position(steps@, i0 as int, j0 as int),
        well_placed(steps@, RunState { step: r.0, action: r.1, failed: false }),
{
    let mut i = i0;
    let mut j = j0;
    proof {
        lemma_next_position(steps@, i as int, j as int);
    }
    while i < steps.len() && j >= steps[i].actions.len()
        invariant
            i <= steps@.len(),
            next_position(steps@, i as int, j as int) == next_position(
                steps@,
                i0 as int,
                j0 as int,
            ),
        decreases steps@.len() - i,
    {
        i = i + 1;
        j = 0;
    }
    proof {
        lemma_next_position(steps@, i as int, j as int);
    }
    if i >= steps.len() {
        (steps.len(), 0)
    } else {
        (i, j)
    }
}

/// The state before any action of `config` has run.
pub fn start(config: &WorkflowConfig) -> (r: RunState)
    ensures
        (r.step as int, r.action as int) == next_position(config.steps@, 0, 0),
        !r.failed,
        well_placed(config.steps@, r),
{
    let (step, action) = next_position_exec(&config.steps, 0, 0);
    RunState { step, action, failed: false }
}

/// Whether the execution is over.
pub fn is_finished(config: &WorkflowConfig, state: &RunState) -> (r: bool)
    ensures
        r == finished(config.steps@, *state),
{
    state.failed || state.step >= config.steps.len()
}

/// The action to run next.
pub fn current_action<'a>(config: &'a WorkflowConfig, state: &RunState) -> (r: &'a WorkflowAction)
    requires
        well_placed(config.steps@, *state),
        !finished(config.steps@, *state),
    ensures
        *r == config.steps@[state.step as int].actions@[state.action as int],
{
    &config.steps[state.step].actions[state.action]
}

/// The state after the current action gave `result`: a failure in a
/// required step ends the execution as failed; otherwise it goes on with
/// the next action, of this step or of a later one.
pub fn advance(config: &WorkflowConfig, state: RunState, result: ActionResult) -> (r: RunState)
    requires
        well_placed(config.steps@, state),
        !finished(config.steps@, state),
    ensures
        well_placed(config.steps@, r),
        if !succeeded(result) && config.steps@[state.step as int].required {
            r == RunState { failed: true, ..state }
        } else {
            !r.failed && (r.step as int, r.action as int) == next_position(
                config.steps@,
                state.step as int,
                state.action + 1,
            )
        },
{
    let ok = match result {
        ActionResult::Exited(code) => code == 0,
        ActionResult::NotStarted => false,
    };
    if !ok && config.steps[state.step].required {
        RunState { failed: true, ..state }
    } else {
        let n = config.steps[state.step].actions.len();
        assert(state.action < n);
        let (step, action) = next_position_exec(&config.steps, state.step, state.action + 1);
        RunState { step, action, failed: false }
    }
}

/// The status an execution ends with.
pub fn final_status(state: &RunState) -> (r: WorkflowStatus)
    ensures
        r == if state.failed {
            WorkflowStatus::Failed
        } else {
            WorkflowStatus::Completed
        },
{
    if state.failed {
        WorkflowStatus::Failed
    } else {
        WorkflowStatus::Completed
    }
}

} // verus!
