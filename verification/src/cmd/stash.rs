use crate::cmd::cycle::first_with_id;
use crate::cmd::{StashArgs, StashBehavior};
use crate::ops::{self, restore_plan, stash_plan};
use crate::state::State;
use crate::yabai::{Command, Window};
use vstd::prelude::*;

verus! {

/// The first window in the list that has the focus.
pub open spec fn first_focused(windows: Seq<Window>) -> Option<Window>
    decreases windows.len(),
{
    if windows.len() == 0 {
        None
    } else if windows[0].has_focus {
        Some(windows[0])
    } else {
        first_focused(windows.skip(1))
    }
}

/// The window that a request is about: the one with the identifier asked for,
/// or the focused one where none was asked for.
pub open spec fn target(windows: Seq<Window>, requested: Option<u32>) -> Option<Window> {
    match requested {
        Some(id) => first_with_id(windows, id),
        None => first_focused(windows),
    }
}

/// Stashing a window: the requests, and the queue, which gains the window at
/// its front unless it holds it already.
pub open spec fn stashed(queue: Seq<u32>, window: Window) -> (Seq<Command>, Seq<u32>) {
    (
        stash_plan(window),
        if queue.contains(window.id) {
            queue
        } else {
            seq![window.id] + queue
        },
    )
}

/// Restoring a window: the requests, and the queue without its first entry
/// for the window.
pub open spec fn restored(queue: Seq<u32>, window: Window) -> (Seq<Command>, Seq<u32>) {
    (restore_plan(window), queue.remove_value(window.id))
}

/// What a request does: nothing at all, or the requests to send and the queue
/// to save after them.
pub open spec fn directed(
    queue: Seq<u32>,
    requested: Option<u32>,
    behavior: StashBehavior,
    windows: Seq<Window>,
) -> Option<(Seq<Command>, Seq<u32>)> {
    match target(windows, requested) {
        None => None,
        Some(window) => match behavior {
            StashBehavior::Toggle => if queue.contains(window.id) {
                Some(restored(queue, window))
            } else {
                Some(stashed(queue, window))
            },
            StashBehavior::Stash => Some(stashed(queue, window)),
            StashBehavior::Unstash => if queue.contains(window.id) {
                Some(restored(queue, window))
            } else {
                None
            },
        },
    }
}

/// Stashes or unstashes one window. `None` says that there is nothing to do,
/// not even to save the queue; otherwise the requests are to be sent and the
/// queue saved after them.
pub fn run(state: &mut State, args: &StashArgs, windows: &[Window]) -> (commands: Option<
    Vec<Command>,
>)
    ensures
        match directed(old(state)@, args.window, args.behavior, windows@) {
            Some((plan, queue)) => {
                &&& commands matches Some(commands) && commands@ == plan
                &&& final(state)@ == queue
            },
            None => commands is None && final(state)@ == old(state)@,
        },
        old(state)@.no_duplicates() ==> final(state)@.no_duplicates(),
{
    proof {
        if let Some(window) = target(windows@, args.window) {
            lemma_stashed_holds(old(state)@, window);
            if old(state)@.no_duplicates() {
                lemma_restored_forgets(old(state)@, window);
            }
        }
    }
    let window = match find_window(windows, args.window) {
        Some(window) => window,
        None => return None,
    };
    let id = state.position(window.id);
    proof {
        state@.index_of_first_ensures(window.id);
    }
    match args.behavior {
        StashBehavior::Toggle => match id {
            Some(id) => Some(restore(state, &window, id)),
            None => Some(stash(state, &window)),
        },
        StashBehavior::Stash => Some(stash(state, &window)),
        StashBehavior::Unstash => match id {
            Some(id) => Some(restore(state, &window, id)),
            None => None,
        },
    }
}

/// Minimizes the window and puts it at the front of the queue, unless the
/// queue holds it already.
pub fn stash(state: &mut State, window: &Window) -> (commands: Vec<Command>)
    ensures
        (commands@, final(state)@) == stashed(old(state)@, *window),
        final(state)@.contains(window.id),
        old(state)@.no_duplicates() ==> final(state)@.no_duplicates(),
{
    proof {
        lemma_stashed_holds(old(state)@, *window);
    }
    let commands = ops::stash(window);
    if !state.contains(&window.id) {
        state.push_front(window.id);
    }
    commands
}

/// Tiles the window again and takes the entry at `index` out of the queue.
pub fn restore(state: &mut State, window: &Window, index: usize) -> (commands: Vec<Command>)
    ensures
        commands@ == restore_plan(*window),
        final(state)@ == if index < old(state)@.len() {
            old(state)@.remove(index as int)
        } else {
            old(state)@
        },
{
    let commands = ops::restore(window);
    state.remove(index);
    commands
}

/// Picks the window that a request is about.
pub fn find_window(windows: &[Window], id: Option<u32>) -> (window: Option<Window>)
    ensures
        window == target(windows@, id),
{
    let mut i: usize = 0;
    assert(windows@.skip(0) =~= windows@);
    while i < windows.len()
        invariant
            i <= windows@.len(),
            target(windows@, id) == target(windows@.skip(i as int), id),
        decreases windows@.len() - i,
    {
        let window = windows[i];
        let found = match id {
            Some(id) => window.id == id,
            None => window.has_focus,
        };
        if found {
            return Some(window);
        }
        assert(windows@.skip(i as int).skip(1) =~= windows@.skip(i + 1));
        i += 1;
    }
    None
}

/// Stashing a window that is minimized already sends nothing to the window
/// manager, and the queue holds the window afterwards all the same.
pub proof fn lemma_stash_minimized(
    queue: Seq<u32>,
    requested: Option<u32>,
    windows: Seq<Window>,
    window: Window,
)
    requires
        target(windows, requested) == Some(window),
        window.is_minimized,
    ensures
        directed(queue, requested, StashBehavior::Stash, windows) matches Some((plan, after))
            && plan.len() == 0 && after.contains(window.id),
{
    lemma_stashed_holds(queue, window);
}

/// After a window is stashed the queue holds it, and holds nothing twice if
/// it did not before.
pub proof fn lemma_stashed_holds(queue: Seq<u32>, window: Window)
    ensures
        stashed(queue, window).1.contains(window.id),
        queue.no_duplicates() ==> stashed(queue, window).1.no_duplicates(),
{
    let after = stashed(queue, window).1;
    if !queue.contains(window.id) {
        assert(after[0] == window.id);
        assert forall|i: int| 0 < i < after.len() implies after[i] == queue[i - 1] by {}
    }
}

/// After a window is restored a queue that held nothing twice holds nothing
/// twice, and the window no more.
pub proof fn lemma_restored_forgets(queue: Seq<u32>, window: Window)
    requires
        queue.no_duplicates(),
    ensures
        !restored(queue, window).1.contains(window.id),
        restored(queue, window).1.no_duplicates(),
{
    let after = restored(queue, window).1;
    queue.index_of_first_ensures(window.id);
    if let Some(at) = queue.index_of_first(window.id) {
        assert forall|i: int| 0 <= i < after.len() implies after[i] == queue[if i < at {
            i
        } else {
            i + 1
        }] by {}
    }
}

} // verus!
