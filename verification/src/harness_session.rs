//! The harness's request step: which requests a session still serves, the
//! quit that ends it, and the crop request refused outside crop mode. Each
//! served request goes on to its command's own checks.

use vstd::prelude::*;
use crate::harness::{failure, HarnessFailure};

verus! {

/// The commands a harness request carries, without their arguments.
#[derive(Debug, Clone, Copy, PartialEq, Eq, Structural)]
pub enum CommandKind {
    Ping,
    Observe,
    Screenshot,
    DumpRender,
    ObserveLibrary,
    ImageStats,
    CompareImages,
    Open,
    ImportFiles,
    ImportFolder,
    SetSlider,
    ResetSlider,
    Click,
    Key,
    SetCrop,
    WaitIdle,
    Quit,
}

/// What the step reads of the app: whether a quit was acknowledged, and
/// whether crop mode is on.
#[derive(Debug, Clone, Copy, PartialEq, Eq, Structural)]
pub struct SessionState {
    pub quitting: bool,
    pub crop_mode: bool,
}

/// What the app does with a request.
pub enum StepAction {
    /// Answer with this failure and do nothing else.
    Refuse(HarnessFailure),
    /// Run the command (its own checks come next).
    Serve(CommandKind),
    /// Acknowledge the quit, write the run manifest and exit after a flush.
    Quit,
}

pub open spec fn refusal_is(a: StepAction, id: u64, code: Seq<char>, message: Seq<char>) -> bool {
    a matches StepAction::Refuse(f) && f.id == id && f.code@ == code && f.message@ == message
}

/// The step for request `id` carrying `command`: after a quit every request
/// is refused with "quitting"; a quit marks the session quitting; a crop
/// outside crop mode is refused as unavailable; any other request is
/// served.
pub open spec fn step_spec(state: SessionState, id: u64, command: CommandKind, next: SessionState, action: StepAction) -> bool {
    if state.quitting {
        next == state && refusal_is(action, id, "quitting"@, "app is quitting"@)
    } else if command == CommandKind::Quit {
        next == (SessionState { quitting: true, ..state }) && action is Quit
    } else if command == CommandKind::SetCrop && !state.crop_mode {
        next == state && refusal_is(
            action,
            id,
            "unavailable"@,
            "crop mode is off \u{2014} click the 'crop' control first (a user can only drag a crop while crop mode is active)"@,
        )
    } else {
        next == state && action == StepAction::Serve(command)
    }
}

pub fn harness_step(state: SessionState, id: u64, command: CommandKind) -> (r: (SessionState, StepAction))
    ensures
        step_spec(state, id, command, r.0, r.1),
{
    if state.quitting {
        return (state, StepAction::Refuse(failure(id, "quitting", "app is quitting")));
    }
    match command {
        CommandKind::Quit => (SessionState { quitting: true, crop_mode: state.crop_mode }, StepAction::Quit),
        CommandKind::SetCrop => {
            if state.crop_mode {
                (state, StepAction::Serve(command))
            } else {
                (
                    state,
                    StepAction::Refuse(
                        failure(
                            id,
                            "unavailable",
                            "crop mode is off \u{2014} click the 'crop' control first (a user can only drag a crop while crop mode is active)",
                        ),
                    ),
                )
            }
        },
        _ => (state, StepAction::Serve(command)),
    }
}

/// Once a quit is acknowledged the session stays quitting and refuses every
/// request that follows, whatever it carries.
pub proof fn law_quit_refuses_what_follows(
    state: SessionState,
    quit_id: u64,
    next: SessionState,
    action: StepAction,
    later: Seq<(u64, CommandKind)>,
    states: Seq<SessionState>,
    actions: Seq<StepAction>,
)
    requires
        !state.quitting,
        step_spec(state, quit_id, CommandKind::Quit, next, action),
        states.len() == later.len() + 1,
        actions.len() == later.len(),
        states[0] == next,
        forall|i: int| 0 <= i < later.len() ==> step_spec(#[trigger] states[i], later[i].0, later[i].1, states[i + 1], actions[i]),
    ensures
        action is Quit,
        forall|i: int| 0 <= i < later.len() ==> refusal_is(#[trigger] actions[i], later[i].0, "quitting"@, "app is quitting"@),
        forall|i: int| 0 <= i <= later.len() ==> (#[trigger] states[i]).quitting,
{
    assert forall|i: int| 0 <= i <= later.len() implies (#[trigger] states[i]).quitting by {
        lemma_stays_quitting(later, states, actions, i);
    }
    assert forall|i: int| 0 <= i < later.len() implies refusal_is(#[trigger] actions[i], later[i].0, "quitting"@, "app is quitting"@) by {
        lemma_stays_quitting(later, states, actions, i);
    }
}

proof fn lemma_stays_quitting(
    later: Seq<(u64, CommandKind)>,
    states: Seq<SessionState>,
    actions: Seq<StepAction>,
    i: int,
)
    requires
        states.len() == later.len() + 1,
        actions.len() == later.len(),
        states[0].quitting,
        forall|k: int| 0 <= k < later.len() ==> step_spec(#[trigger] states[k], later[k].0, later[k].1, states[k + 1], actions[k]),
        0 <= i <= later.len(),
    ensures
        states[i].quitting,
    decreases i,
{
    if i > 0 {
        lemma_stays_quitting(later, states, actions, i - 1);
        assert(step_spec(states[i - 1], later[i - 1].0, later[i - 1].1, states[i], actions[i - 1]));
    }
}

} // verus!
