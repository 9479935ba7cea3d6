use crate::cmd::cycle::{cycled, find_window, first_with_id, is_live, lemma_first_with_id, Action};
use crate::ops;
use crate::state::State;
use crate::yabai::{Command, Window};
use vstd::prelude::*;

verus! {

/// The action that a look at the front of `queue` takes, and the queue that it
/// leaves: front entries without a window are dropped, and the first entry that
/// has one is toggled and kept.
pub open spec fn peeked(queue: Seq<u32>, windows: Seq<Window>) -> (Action, Seq<u32>)
    decreases queue.len(),
{
    if queue.len() == 0 {
        (Action::Nothing, queue)
    } else {
        match first_with_id(windows, queue[0]) {
            Some(window) => (Action::Toggle(window), queue),
            None => peeked(queue.skip(1), windows),
        }
    }
}

/// Finds the most recent entry of the queue that still has a window, and
/// drops the entries in front of it.
pub fn peek(state: &mut State, windows: &[Window]) -> (action: Action)
    ensures
        (action, final(state)@) == peeked(old(state)@, windows@),
        old(state)@.no_duplicates() ==> final(state)@.no_duplicates(),
{
    proof {
        lemma_peek_drops_dead(old(state)@, windows@);
    }
    loop
        invariant
            peeked(state@, windows@) == peeked(old(state)@, windows@),
            old(state)@.no_duplicates() ==> peeked(old(state)@, windows@).1.no_duplicates(),
        decreases state@.len(),
    {
        let id = match state.front() {
            Some(id) => *id,
            None => return Action::Nothing,
        };
        match find_window(windows, id) {
            Some(window) => return Action::Toggle(*window),
            None => {},
        }
        state.pop_front();
    }
}

/// Toggles the window that was stashed last and is still there: the requests
/// to send before the queue is saved.
pub fn run(state: &mut State, windows: &[Window]) -> (commands: Vec<Command>)
    ensures
        final(state)@ == peeked(old(state)@, windows@).1,
        commands@ == peeked(old(state)@, windows@).0.plan(),
        old(state)@.no_duplicates() ==> final(state)@.no_duplicates(),
{
    proof {
        lemma_peek_drops_dead(old(state)@, windows@);
    }
    match peek(state, windows) {
        Action::Toggle(window) => ops::toggle(&window),
        _ => Vec::new(),
    }
}

/// A look at an empty queue asks for nothing and leaves the queue empty.
pub proof fn lemma_peek_empty(queue: Seq<u32>, windows: Seq<Window>)
    requires
        queue.len() == 0,
    ensures
        peeked(queue, windows) == (Action::Nothing, Seq::<u32>::empty()),
{
}

/// A single entry without a window is dropped by a look at the queue, where a
/// cycle keeps it; neither asks for anything.
pub proof fn lemma_peek_single_dead(queue: Seq<u32>, windows: Seq<Window>)
    requires
        queue.len() == 1,
        !is_live(windows, queue[0]),
    ensures
        peeked(queue, windows) == (Action::Nothing, Seq::<u32>::empty()),
        cycled(queue, windows) == (Action::Nothing, queue),
{
    lemma_first_with_id(windows, queue[0]);
    lemma_peek_empty(queue.skip(1), windows);
}

/// A look at the queue leaves a part of it from some entry on, and nothing
/// that it dropped had a window. Where it toggles a window, that window is
/// the one of the entry now at the front; where it asks for nothing, the
/// queue is empty.
pub proof fn lemma_peek_drops_dead(queue: Seq<u32>, windows: Seq<Window>)
    ensures
        ({
            let (action, rest) = peeked(queue, windows);
            let dropped = queue.len() - rest.len();
            &&& 0 <= dropped <= queue.len()
            &&& rest == queue.skip(dropped)
            &&& queue.no_duplicates() ==> rest.no_duplicates()
            &&& forall|i: int| 0 <= i < dropped ==> !is_live(windows, #[trigger] queue[i])
            &&& match action {
                Action::Toggle(window) => rest.len() > 0 && first_with_id(windows, rest[0]) == Some(
                    window,
                ),
                Action::Nothing => rest.len() == 0,
                _ => false,
            }
        }),
    decreases queue.len(),
{
    if queue.len() > 0 {
        lemma_first_with_id(windows, queue[0]);
        if first_with_id(windows, queue[0]) is None {
            let tail = queue.skip(1);
            lemma_peek_drops_dead(tail, windows);
            let dropped = tail.len() - peeked(tail, windows).1.len();
            assert forall|i: int| 0 <= i < dropped + 1 implies !is_live(
                windows,
                #[trigger] queue[i],
            ) by {
                if i > 0 {
                    assert(queue[i] == tail[i - 1]);
                }
            }
        }
    }
}

} // verus!
