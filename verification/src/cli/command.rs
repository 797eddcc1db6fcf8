//! What every command goes through: connect, work, shut down.

use vstd::prelude::*;
use crate::cli::transfer;
use crate::error::{Error, ErrorView};

verus! {

/// Where a command stands.
enum Stage {
    /// The backend has to be connected.
    Connect,
    /// The command's own work has to be done.
    Work,
    /// The backend has to be shut down, whatever came of the work.
    Shutdown { outcome: Result<(), Error> },
    Done { outcome: Result<(), Error> },
}

/// A command's stage with views.
#[verifier::ext_equal]
pub enum CommandView {
    Connect,
    Work,
    Shutdown { outcome: Result<(), ErrorView> },
    Done { outcome: Result<(), ErrorView> },
}

/// What to do next.
#[derive(Clone, Copy, PartialEq, Eq, Debug, Structural)]
pub enum CommandAction {
    Connect,
    Work,
    Shutdown,
    /// Nothing more to do.
    Finish,
}

/// One command on its way.
pub struct CommandRun {
    stage: Stage,
}

/// A result with the view of its error.
pub open spec fn outcome_view(r: Result<(), Error>) -> Result<(), ErrorView> {
    match r {
        Ok(_) => Ok(()),
        Err(e) => Err(e@),
    }
}

impl View for CommandRun {
    type V = CommandView;

    closed spec fn view(&self) -> CommandView {
        match self.stage {
            Stage::Connect => CommandView::Connect,
            Stage::Work => CommandView::Work,
            Stage::Shutdown { outcome } => CommandView::Shutdown {
                outcome: outcome_view(outcome),
            },
            Stage::Done { outcome } => CommandView::Done { outcome: outcome_view(outcome) },
        }
    }
}

impl CommandView {
    /// What a stage asks for.
    pub open spec fn action(self) -> CommandAction {
        match self {
            CommandView::Connect => CommandAction::Connect,
            CommandView::Work => CommandAction::Work,
            CommandView::Shutdown { .. } => CommandAction::Shutdown,
            CommandView::Done { .. } => CommandAction::Finish,
        }
    }

    /// The stage once that came to `r`. A backend that never connected is not
    /// shut down; one that did is, and the error of the work outranks that of
    /// the shutdown.
    pub open spec fn next(self, r: Result<(), ErrorView>) -> CommandView {
        match self {
            CommandView::Connect => if r is Err {
                CommandView::Done { outcome: r }
            } else {
                CommandView::Work
            },
            CommandView::Work => CommandView::Shutdown { outcome: r },
            CommandView::Shutdown { outcome } => CommandView::Done {
                outcome: if outcome is Err {
                    outcome
                } else {
                    r
                },
            },
            CommandView::Done { .. } => self,
        }
    }
}

impl CommandRun {
    /// A command that has not started.
    pub fn new() -> (r: Self)
        ensures
            r@ == CommandView::Connect,
    {
        CommandRun { stage: Stage::Connect }
    }

    /// What to do next.
    pub fn action(&self) -> (r: CommandAction)
        ensures
            r == self@.action(),
    {
        match self.stage {
            Stage::Connect => CommandAction::Connect,
            Stage::Work => CommandAction::Work,
            Stage::Shutdown { .. } => CommandAction::Shutdown,
            Stage::Done { .. } => CommandAction::Finish,
        }
    }

    /// Takes in what that came to.
    pub fn step(self, r: Result<(), Error>) -> (after: Self)
        ensures
            after@ == self@.next(outcome_view(r)),
    {
        let stage = match self.stage {
            Stage::Connect => match r {
                Ok(_) => Stage::Work,
                Err(e) => Stage::Done { outcome: Err(e) },
            },
            Stage::Work => Stage::Shutdown { outcome: r },
            Stage::Shutdown { outcome } => Stage::Done { outcome: transfer::finish(outcome, r) },
            Stage::Done { outcome } => Stage::Done { outcome },
        };
        CommandRun { stage }
    }

    /// What the command came to; `None` while it is still going on.
    pub fn outcome(self) -> (r: Option<Result<(), Error>>)
        ensures
            match self@ {
                CommandView::Done { outcome } => r matches Some(o) && outcome_view(o) == outcome,
                _ => r is None,
            },
    {
        match self.stage {
            Stage::Done { outcome } => Some(outcome),
            _ => None,
        }
    }
}

/// Where a command stands once its actions came to this, in order.
pub open spec fn after_actions(results: Seq<Result<(), ErrorView>>) -> CommandView
    decreases results.len(),
{
    if results.len() == 0 {
        CommandView::Connect
    } else {
        after_actions(results.drop_last()).next(results.last())
    }
}

/// How many of these actions were shutdowns.
pub open spec fn shutdowns(results: Seq<Result<(), ErrorView>>) -> nat
    decreases results.len(),
{
    if results.len() == 0 {
        0
    } else {
        let earlier = results.drop_last();
        shutdowns(earlier) + if after_actions(earlier).action() is Shutdown {
            1nat
        } else {
            0
        }
    }
}

/// A backend that was connected is shut down once before the command ends,
/// whether the work succeeded or not, and after the work; one that was not is
/// never shut down. The first thing that failed is what the command reports.
pub proof fn what_was_connected_is_shut_down_once(results: Seq<Result<(), ErrorView>>)
    ensures
        shutdowns(results) <= 1,
        after_actions(results) matches CommandView::Done { outcome } ==> results.len() >= 1 && {
            if results[0] is Err {
                &&& shutdowns(results) == 0
                &&& outcome == results[0]
            } else {
                &&& shutdowns(results) == 1
                &&& results.len() >= 3
                &&& outcome == if results[1] is Err {
                    results[1]
                } else {
                    results[2]
                }
            }
        },
        match after_actions(results) {
            CommandView::Connect => results.len() == 0 && shutdowns(results) == 0,
            CommandView::Work => results.len() == 1 && results[0] is Ok && shutdowns(results) == 0,
            CommandView::Shutdown { outcome } => {
                &&& results.len() == 2
                &&& results[0] is Ok
                &&& outcome == results[1]
                &&& shutdowns(results) == 0
            },
            CommandView::Done { .. } => true,
        },
    decreases results.len(),
{
    if results.len() > 0 {
        what_was_connected_is_shut_down_once(results.drop_last());
    }
}

} // verus!
