pub mod cycle;
pub mod show;
pub mod stash;

use crate::cmd::cycle::cycled;
use crate::cmd::show::peeked;
use crate::cmd::stash::directed;
use crate::state::State;
use crate::yabai::{Command, Window};
use vstd::prelude::*;

verus! {

/// What one invocation is asked to do.
pub struct Args {
    pub cmd: Cmd,
}

/// The three commands.
pub enum Cmd {
    /// Cycle through the stashed windows.
    Cycle(CycleArgs),
    /// Toggle the window that was stashed last.
    Show(ShowArgs),
    /// Stash or unstash one window.
    Stash(StashArgs),
}

impl Cmd {
    /// What the command comes to over a queue and the windows that live:
    /// nothing at all, or the requests to send and the queue to save after them.
    pub open spec fn outcome(self, queue: Seq<u32>, windows: Seq<Window>) -> Option<
        (Seq<Command>, Seq<u32>),
    > {
        match self {
            Cmd::Cycle(_) => Some((cycled(queue, windows).0.plan(), cycled(queue, windows).1)),
            Cmd::Show(_) => Some((peeked(queue, windows).0.plan(), peeked(queue, windows).1)),
            Cmd::Stash(args) => directed(queue, args.window, args.behavior, windows),
        }
    }

    /// Takes the decision that the command asks for. `None` says that there is
    /// nothing to do, not even to save the queue; otherwise the requests are to
    /// be sent and the queue saved after them.
    pub fn run(&self, state: &mut State, windows: &[Window]) -> (commands: Option<Vec<Command>>)
        ensures
            match self.outcome(old(state)@, windows@) {
                Some((plan, queue)) => {
                    &&& commands matches Some(commands) && commands@ == plan
                    &&& final(state)@ == queue
                },
                None => commands is None && final(state)@ == old(state)@,
            },
            old(state)@.no_duplicates() ==> final(state)@.no_duplicates(),
    {
        match self {
            Cmd::Cycle(_) => Some(cycle::run(state, windows)),
            Cmd::Show(_) => Some(show::run(state, windows)),
            Cmd::Stash(args) => stash::run(state, args, windows),
        }
    }
}

/// Cycling takes no argument.
#[derive(Debug)]
pub struct CycleArgs {}

/// Showing takes no argument.
#[derive(Debug)]
pub struct ShowArgs {}

/// Which window to stash or unstash, and how.
#[derive(Debug)]
pub struct StashArgs {
    /// The identifier of the window; the focused window where there is none.
    pub window: Option<u32>,
    /// What to do with the window.
    pub behavior: StashBehavior,
}

/// What the stash command does with its window.
#[derive(Debug, Clone, Copy, PartialEq, Eq, Structural)]
pub enum StashBehavior {
    /// Unstash a window of the queue, stash any other.
    Toggle,
    /// Minimize the window and see to it that the queue holds it.
    Stash,
    /// Take the window out of the queue and tile it again.
    Unstash,
}

impl Default for StashBehavior {
    fn default() -> (behavior: StashBehavior)
        ensures
            behavior == StashBehavior::Toggle,
    {
        StashBehavior::Toggle
    }
}

impl StashBehavior {
    /// The behavior that a word names, if it names one.
    pub open spec fn named(word: Seq<char>) -> Option<StashBehavior> {
        if word == "toggle"@ {
            Some(StashBehavior::Toggle)
        } else if word == "stash"@ {
            Some(StashBehavior::Stash)
        } else if word == "unstash"@ {
            Some(StashBehavior::Unstash)
        } else {
            None
        }
    }

    /// The words that refuse a word which names no behavior.
    pub open spec fn refusal(word: Seq<char>) -> Seq<char> {
        "Unexpected behavior `"@ + word + "`"@
    }

    /// Reads a behavior from its name. Any other word is refused, and the
    /// refusal quotes it.
    pub fn from_str(s: &str) -> (behavior: Result<StashBehavior, String>)
        ensures
            match behavior {
                Ok(behavior) => StashBehavior::named(s@) == Some(behavior),
                Err(refusal) => StashBehavior::named(s@) is None && refusal@
                    == StashBehavior::refusal(s@),
            },
    {
        let word = String::from_str(s);
        if word == String::from_str("toggle") {
            Ok(StashBehavior::Toggle)
        } else if word == String::from_str("stash") {
            Ok(StashBehavior::Stash)
        } else if word == String::from_str("unstash") {
            Ok(StashBehavior::Unstash)
        } else {
            let mut refusal = String::from_str("Unexpected behavior `");
            refusal.append(s);
            refusal.append("`");
            Err(refusal)
        }
    }
}

impl std::str::FromStr for StashBehavior {
    type Err = String;

    fn from_str(s: &str) -> (behavior: Result<StashBehavior, String>)
        ensures
            match behavior {
                Ok(behavior) => StashBehavior::named(s@) == Some(behavior),
                Err(refusal) => StashBehavior::named(s@) is None && refusal@
                    == StashBehavior::refusal(s@),
            },
    {
        StashBehavior::from_str(s)
    }
}

} // verus!
