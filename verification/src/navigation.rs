//! The time-step controller of an interactive viewer.
//!
//! The viewer owns the current step. It hands each command here together
//! with that step and gets back the step to show next and what to do.

use vstd::prelude::*;

verus! {

/// What the user asks for.
#[derive(Clone, Copy, Debug, PartialEq, Eq, Structural)]
pub enum Command {
    /// Show the next step.
    Forward,
    /// Show the previous step.
    Back,
    /// End the session.
    Quit,
}

/// What the viewer does in answer to a command.
#[derive(Clone, Copy, Debug, PartialEq, Eq, Structural)]
pub enum Reaction {
    /// Clear the screen and draw the grid at the new step.
    Redraw,
    /// Leave the screen as it is.
    Stay,
    /// Leave the loop.
    Stop,
}

/// The step that follows `epoch`.
pub fn next(epoch: u32) -> (res: u32)
    requires
        epoch < u32::MAX,
    ensures
        res == epoch + 1,
{
    epoch + 1
}

/// The step before `epoch`; step 0 has none and stays.
pub fn previous(epoch: u32) -> (res: u32)
    ensures
        res == if epoch == 0 {
            0
        } else {
            epoch - 1
        },
{
    if epoch == 0 {
        0
    } else {
        epoch - 1
    }
}

/// Answers one command at step `epoch`: the step to show next, and whether
/// to redraw, to do nothing or to stop. Going back from step 0 does
/// nothing; quitting keeps the step.
pub fn react(epoch: u32, command: Command) -> (res: (u32, Reaction))
    requires
        command == Command::Forward ==> epoch < u32::MAX,
    ensures
        command == Command::Forward ==> res == ((epoch + 1) as u32, Reaction::Redraw),
        command == Command::Back && epoch > 0 ==> res == ((epoch - 1) as u32, Reaction::Redraw),
        command == Command::Back && epoch == 0 ==> res == (0u32, Reaction::Stay),
        command == Command::Quit ==> res == (epoch, Reaction::Stop),
{
    match command {
        Command::Forward => (next(epoch), Reaction::Redraw),
        Command::Back => {
            if epoch == 0 {
                (epoch, Reaction::Stay)
            } else {
                (previous(epoch), Reaction::Redraw)
            }
        },
        Command::Quit => (epoch, Reaction::Stop),
    }
}

} // verus!
