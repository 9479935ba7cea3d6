use crate::yabai::{Command, Window};
use vstd::prelude::*;

verus! {

/// The requests that stash a window: none for one that is minimized already.
pub open spec fn stash_plan(window: Window) -> Seq<Command> {
    if window.is_minimized {
        seq![]
    } else {
        seq![Command::Minimize(window.id)]
    }
}

/// The requests that bring a window back into view and see to it that it floats.
pub open spec fn unstash_plan(window: Window) -> Seq<Command> {
    if window.is_floating {
        seq![Command::Focus(window.id)]
    } else {
        seq![Command::Focus(window.id), Command::ToggleFloat]
    }
}

/// The requests that bring a window back among the tiled ones: a floating
/// window is made to tile again.
pub open spec fn restore_plan(window: Window) -> Seq<Command> {
    if window.is_floating {
        seq![Command::Focus(window.id), Command::ToggleFloat]
    } else {
        seq![Command::Focus(window.id)]
    }
}

/// The requests that flip the stash state of a window.
pub open spec fn toggle_plan(window: Window) -> Seq<Command> {
    if window.is_minimized {
        unstash_plan(window)
    } else {
        stash_plan(window)
    }
}

/// Unstashes a minimized window and stashes any other.
pub fn toggle(window: &Window) -> (commands: Vec<Command>)
    ensures
        commands@ == toggle_plan(*window),
{
    if window.is_minimized {
        unstash(window)
    } else {
        stash(window)
    }
}

/// Minimizes a window, unless it is minimized already.
pub fn stash(window: &Window) -> (commands: Vec<Command>)
    ensures
        commands@ == stash_plan(*window),
{
    let mut commands: Vec<Command> = Vec::new();
    if window.is_minimized {
        return commands;
    }
    commands.push(Command::Minimize(window.id));
    commands
}

/// Focuses a window and makes it float if it does not.
pub fn unstash(window: &Window) -> (commands: Vec<Command>)
    ensures
        commands@ == unstash_plan(*window),
{
    let mut commands: Vec<Command> = Vec::new();
    commands.push(Command::Focus(window.id));
    if !window.is_floating {
        commands.push(Command::ToggleFloat);
    }
    commands
}

/// Focuses a window and makes it tile if it floats.
pub fn restore(window: &Window) -> (commands: Vec<Command>)
    ensures
        commands@ == restore_plan(*window),
{
    let mut commands: Vec<Command> = Vec::new();
    commands.push(Command::Focus(window.id));
    if window.is_floating {
        commands.push(Command::ToggleFloat);
    }
    commands
}

} // verus!
