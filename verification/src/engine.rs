//! The decision for one component: leave it, start it, or give it up.
//!
//! Each component is settled by itself. Whatever becomes of one has no
//! bearing on the next.

use vstd::prelude::*;
use crate::model::{ComponentSpec, Task, TaskView};
use crate::runtime::LaunchResult;

verus! {

/// Why a component could not be brought up.
#[derive(Clone, Copy, PartialEq, Eq, Structural, Debug)]
pub enum Fault {
    /// The desired state names no image for the component.
    MissingImage,
    /// The runtime could not be invoked.
    NotStarted,
    /// The launch command ran and reported failure.
    ExitFailure,
}

/// What became of one component in one iteration.
#[derive(Clone, Copy, PartialEq, Eq, Structural, Debug)]
pub enum Outcome {
    /// It was running already.
    Skipped,
    /// It was started.
    Done,
    /// It was not running and could not be started.
    Failed(Fault),
}

/// What to do about one component.
#[derive(Debug)]
pub enum Decision {
    /// Nothing: it runs.
    Skip,
    /// Start an instance named `name` from `image`.
    Launch { name: String, image: String },
    /// Nothing can be done: the desired state names no image for it.
    Reject,
}

/// A decision as plain values.
pub ghost enum DecisionView {
    Skip,
    Launch { name: Seq<char>, image: Seq<char> },
    Reject,
}

impl View for Decision {
    type V = DecisionView;

    open spec fn view(&self) -> DecisionView {
        match self {
            Decision::Skip => DecisionView::Skip,
            Decision::Launch { name, image } => DecisionView::Launch {
                name: name@,
                image: image@,
            },
            Decision::Reject => DecisionView::Reject,
        }
    }
}

/// The decision for a task: skip it where its instance runs; else start it
/// from its image; where it has none, reject it.
pub open spec fn settle(task: TaskView, running: bool) -> DecisionView {
    if running {
        DecisionView::Skip
    } else {
        match task.image {
            Some(image) => DecisionView::Launch { name: task.name, image },
            None => DecisionView::Reject,
        }
    }
}

/// The outcome of a component whose launch ended as `result` says.
pub open spec fn outcome_of(result: LaunchResult) -> Outcome {
    match result {
        LaunchResult::Exited { success: true } => Outcome::Done,
        LaunchResult::Exited { success: false } => Outcome::Failed(Fault::ExitFailure),
        LaunchResult::NotStarted => Outcome::Failed(Fault::NotStarted),
    }
}

/// The decision for a task, given whether its instance runs.
pub fn plan(task: &Task, running: bool) -> (r: Decision)
    ensures
        r@ == settle(task@, running),
{
    if running {
        Decision::Skip
    } else {
        match &task.image {
            Some(image) => Decision::Launch { name: task.name.clone(), image: image.clone() },
            None => Decision::Reject,
        }
    }
}

/// The decision for a component, given whether its instance runs.
pub fn reconcile(component: &ComponentSpec, running: bool) -> (r: Decision)
    ensures
        r@ == settle(component.spec_task(), running),
{
    let task = component.task();
    plan(&task, running)
}

/// The outcome of a component whose launch ended as `result` says.
pub fn launch_outcome(result: LaunchResult) -> (r: Outcome)
    ensures
        r == outcome_of(result),
{
    match result {
        LaunchResult::Exited { success } => {
            if success {
                Outcome::Done
            } else {
                Outcome::Failed(Fault::ExitFailure)
            }
        },
        LaunchResult::NotStarted => Outcome::Failed(Fault::NotStarted),
    }
}

} // verus!
