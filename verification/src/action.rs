//! What the library asks its caller to do on the control filesystem, and
//! what the caller answers.

use vstd::prelude::*;
use crate::directive::Directive;
use crate::error::ControllerError;
use crate::kinds::Controllers;

verus! {

/// One thing to do in a subsystem's directory.
#[derive(Clone, Copy, Debug, PartialEq, Eq, Structural, Hash)]
pub enum Operation {
    /// Create the directory. A directory that is there already counts as
    /// created.
    CreateDir,
    /// Remove the directory.
    RemoveDir,
    /// Write the directive's value to the control file of its tunable.
    Write(Directive),
    /// Write the process id to the directory's task list, which moves the
    /// process there from wherever it was in that hierarchy.
    AddTask(u64),
    /// Take the process off the directory's task list.
    RemoveTask(u64),
}

/// An operation on the directory `path` of the hierarchy of `kind`.
#[derive(Clone, Debug, PartialEq, Eq)]
pub struct Action {
    pub kind: Controllers,
    pub path: String,
    pub op: Operation,
}

/// The mathematical content of an [`Action`].
pub ghost struct Step {
    pub kind: Controllers,
    pub path: Seq<char>,
    pub op: Operation,
}

impl View for Action {
    type V = Step;

    open spec fn view(&self) -> Step {
        Step { kind: self.kind, path: self.path@, op: self.op }
    }
}

/// The contents of a list of actions.
pub open spec fn steps(actions: Seq<Action>) -> Seq<Step> {
    actions.map_values(|a: Action| a@)
}

/// How an action ended.
#[derive(Clone, Copy, Debug, PartialEq, Eq, Structural, Hash)]
pub enum Outcome {
    Done,
    Failed(ControllerError),
}

/// The outcome of the action at position `i`. An action for which no outcome
/// is given was not performed, which counts as a failed write.
pub open spec fn outcome_at(outcomes: Seq<Outcome>, i: int) -> Outcome {
    if 0 <= i < outcomes.len() {
        outcomes[i]
    } else {
        Outcome::Failed(ControllerError::Io)
    }
}

/// The outcome of the action at position `i`.
pub fn outcome_of(outcomes: &Vec<Outcome>, i: usize) -> (o: Outcome)
    ensures
        o == outcome_at(outcomes@, i as int),
{
    if i < outcomes.len() {
        outcomes[i]
    } else {
        Outcome::Failed(ControllerError::Io)
    }
}

} // verus!
