use crate::ops::{self, stash_plan, toggle_plan, unstash_plan};
use crate::state::State;
use crate::yabai::{Command, Window};
use vstd::prelude::*;

verus! {

/// What has to be done to the windows after a decision over the queue.
#[derive(Debug, Clone, Copy, PartialEq, Eq, Structural)]
pub enum Action {
    /// Nothing.
    Nothing,
    /// Flip the stash state of the window.
    Toggle(Window),
    /// Bring the window back.
    Unstash(Window),
    /// Minimize one window and bring another back.
    Cycle { stash: Window, unstash: Window },
}

impl Action {
    /// The requests that carry the action out, in the order in which they are sent.
    pub open spec fn plan(self) -> Seq<Command> {
        match self {
            Action::Nothing => Seq::empty(),
            Action::Toggle(window) => toggle_plan(window),
            Action::Unstash(window) => unstash_plan(window),
            Action::Cycle { stash, unstash } => stash_plan(stash) + unstash_plan(unstash),
        }
    }
}

/// Whether some window in the list has the identifier `id`.
pub open spec fn is_live(windows: Seq<Window>, id: u32) -> bool {
    exists|i: int| 0 <= i < windows.len() && #[trigger] windows[i].id == id
}

/// Whether no two windows in the list share an identifier, as it is with the
/// windows of one session of the window manager.
pub open spec fn distinct_ids(windows: Seq<Window>) -> bool {
    forall|i: int, j: int|
        0 <= i < j < windows.len() ==> #[trigger] windows[i].id != #[trigger] windows[j].id
}

/// The first window in the list that has the identifier `id`.
pub open spec fn first_with_id(windows: Seq<Window>, id: u32) -> Option<Window>
    decreases windows.len(),
{
    if windows.len() == 0 {
        None
    } else if windows[0].id == id {
        Some(windows[0])
    } else {
        first_with_id(windows.skip(1), id)
    }
}

/// The last window in the list that has the identifier `id`.
pub open spec fn last_with_id(windows: Seq<Window>, id: u32) -> Option<Window>
    decreases windows.len(),
{
    if windows.len() == 0 {
        None
    } else if windows.last().id == id {
        Some(windows.last())
    } else {
        last_with_id(windows.drop_last(), id)
    }
}

/// The window that follows in a cycle: the last one with the identifier
/// `next`, unless `next` names the current window itself.
pub open spec fn successor(windows: Seq<Window>, curr: u32, next: u32) -> Option<Window> {
    if next == curr {
        None
    } else {
        last_with_id(windows, next)
    }
}

/// The action that a cycle over `queue` takes, and the queue that it leaves.
///
/// An empty queue asks for nothing. A single entry is toggled if its window
/// lives, and is kept either way. Of two or more, a front entry without a
/// window is dropped, then a second entry without a window or equal to the
/// front one, until the front two both live or one entry is left: a minimized
/// front window is brought back, any other gives way to the second and goes
/// to the back.
pub open spec fn cycled(queue: Seq<u32>, windows: Seq<Window>) -> (Action, Seq<u32>)
    decreases queue.len(),
{
    if queue.len() == 0 {
        (Action::Nothing, queue)
    } else if queue.len() == 1 {
        match first_with_id(windows, queue[0]) {
            Some(window) => (Action::Toggle(window), queue),
            None => (Action::Nothing, queue),
        }
    } else {
        match last_with_id(windows, queue[0]) {
            None => cycled(queue.skip(1), windows),
            Some(curr) => match successor(windows, queue[0], queue[1]) {
                None => cycled(queue.remove(1), windows),
                Some(next) => if curr.is_minimized {
                    (Action::Unstash(curr), queue)
                } else {
                    (Action::Cycle { stash: curr, unstash: next }, queue.skip(1).push(queue[0]))
                },
            },
        }
    }
}

/// Cycles through the stashed windows: the requests to send before the queue
/// is saved.
pub fn run(state: &mut State, windows: &[Window]) -> (commands: Vec<Command>)
    ensures
        commands@ == cycled(old(state)@, windows@).0.plan(),
        final(state)@ == cycled(old(state)@, windows@).1,
        old(state)@.no_duplicates() ==> final(state)@.no_duplicates(),
{
    match cycle(state, windows) {
        Action::Nothing => Vec::new(),
        Action::Toggle(window) => ops::toggle(&window),
        Action::Unstash(window) => ops::unstash(&window),
        Action::Cycle { stash, unstash } => {
            let mut commands = ops::stash(&stash);
            let mut rest = ops::unstash(&unstash);
            commands.append(&mut rest);
            commands
        },
    }
}

/// Looks for the first window with the identifier `id`.
pub fn find_window(windows: &[Window], id: u32) -> (window: Option<&Window>)
    ensures
        match window {
            Some(window) => first_with_id(windows@, id) == Some(*window),
            None => first_with_id(windows@, id) is None,
        },
{
    let mut i: usize = 0;
    assert(windows@.skip(0) =~= windows@);
    while i < windows.len()
        invariant
            i <= windows@.len(),
            first_with_id(windows@, id) == first_with_id(windows@.skip(i as int), id),
        decreases windows@.len() - i,
    {
        if windows[i].id == id {
            return Some(&windows[i]);
        }
        assert(windows@.skip(i as int).skip(1) =~= windows@.skip(i + 1));
        i += 1;
    }
    None
}

/// Looks for the windows of the front entry `curr` and of the entry `next`
/// behind it, in one pass over the list.
fn find_pair(windows: &[Window], curr: u32, next: u32) -> (pair: (Option<Window>, Option<Window>))
    ensures
        pair.0 == last_with_id(windows@, curr),
        pair.1 == successor(windows@, curr, next),
{
    let mut curr_window: Option<Window> = None;
    let mut next_window: Option<Window> = None;
    let mut i: usize = 0;
    while i < windows.len()
        invariant
            i <= windows@.len(),
            curr_window == last_with_id(windows@.take(i as int), curr),
            next_window == successor(windows@.take(i as int), curr, next),
        decreases windows@.len() - i,
    {
        let window = windows[i];
        assert(windows@.take(i + 1).drop_last() =~= windows@.take(i as int));
        if window.id == curr {
            curr_window = Some(window);
        } else if window.id == next {
            next_window = Some(window);
        }
        i += 1;
    }
    assert(windows@.take(i as int) =~= windows@);
    (curr_window, next_window)
}

/// Decides what a cycle does, and updates the queue accordingly.
pub fn cycle(state: &mut State, windows: &[Window]) -> (action: Action)
    ensures
        (action, final(state)@) == cycled(old(state)@, windows@),
        old(state)@.no_duplicates() ==> final(state)@.no_duplicates(),
{
    proof {
        lemma_cycle_keeps_distinct(old(state)@, windows@);
    }
    loop
        invariant
            cycled(state@, windows@) == cycled(old(state)@, windows@),
            old(state)@.no_duplicates() ==> cycled(old(state)@, windows@).1.no_duplicates(),
        decreases state@.len(),
    {
        if state.is_empty() {
            return Action::Nothing;
        }
        if state.len() == 1 {
            let entry = match state.front() {
                Some(entry) => *entry,
                None => return Action::Nothing,
            };
            return match find_window(windows, entry) {
                Some(window) => Action::Toggle(*window),
                None => Action::Nothing,
            };
        }
        let ghost before = state@;
        let curr = match state.pop_front() {
            Some(curr) => curr,
            None => return Action::Nothing,
        };
        let next = match state.front() {
            Some(next) => *next,
            None => return Action::Nothing,
        };
        let (curr_window, next_window) = find_pair(windows, curr, next);
        let curr_window = match curr_window {
            Some(window) => window,
            None => continue,
        };
        let next_window = match next_window {
            Some(window) => window,
            None => {
                state.pop_front();
                state.push_front(curr);
                assert(state@ =~= before.remove(1));
                continue;
            },
        };
        if curr_window.is_minimized {
            state.push_front(curr);
            return Action::Unstash(curr_window);
        }
        state.push_back(curr);
        return Action::Cycle { stash: curr_window, unstash: next_window };
    }
}

/// A lookup from the front finds a window of the list with the identifier
/// asked for, and finds none only where there is none.
pub proof fn lemma_first_with_id(windows: Seq<Window>, id: u32)
    ensures
        match first_with_id(windows, id) {
            Some(window) => windows.contains(window) && window.id == id,
            None => !is_live(windows, id),
        },
    decreases windows.len(),
{
    if windows.len() > 0 && windows[0].id != id {
        let rest = windows.skip(1);
        lemma_first_with_id(rest, id);
        if first_with_id(rest, id) is None {
            assert forall|i: int| 0 <= i < windows.len() implies windows[i].id != id by {
                if i > 0 {
                    assert(rest[i - 1].id == windows[i].id);
                }
            }
        }
    }
}

/// A lookup from the back finds a window of the list with the identifier
/// asked for, and finds none only where there is none.
pub proof fn lemma_last_with_id(windows: Seq<Window>, id: u32)
    ensures
        match last_with_id(windows, id) {
            Some(window) => windows.contains(window) && window.id == id,
            None => !is_live(windows, id),
        },
    decreases windows.len(),
{
    if windows.len() > 0 && windows.last().id != id {
        let rest = windows.drop_last();
        lemma_last_with_id(rest, id);
        if last_with_id(rest, id) is None {
            assert forall|i: int| 0 <= i < windows.len() implies windows[i].id != id by {
                if i < rest.len() {
                    assert(rest[i].id == windows[i].id);
                }
            }
        }
    }
}

/// Where no two windows share an identifier, a window of the list is the one
/// that either lookup finds under its identifier.
pub proof fn lemma_lookup_finds(windows: Seq<Window>, window: Window)
    requires
        distinct_ids(windows),
        windows.contains(window),
    ensures
        first_with_id(windows, window.id) == Some(window),
        last_with_id(windows, window.id) == Some(window),
{
    lemma_first_with_id(windows, window.id);
    lemma_last_with_id(windows, window.id);
}

/// A cycle over an empty queue asks for nothing and leaves the queue empty.
pub proof fn lemma_cycle_empty(queue: Seq<u32>, windows: Seq<Window>)
    requires
        queue.len() == 0,
    ensures
        cycled(queue, windows) == (Action::Nothing, Seq::<u32>::empty()),
{
}

/// A cycle over a single entry whose window lives toggles that window and
/// leaves the queue as it is.
pub proof fn lemma_cycle_single_live(queue: Seq<u32>, windows: Seq<Window>, window: Window)
    requires
        queue.len() == 1,
        distinct_ids(windows),
        windows.contains(window),
        window.id == queue[0],
    ensures
        cycled(queue, windows) == (Action::Toggle(window), queue),
{
    lemma_lookup_finds(windows, window);
}

/// A cycle over a single entry without a window asks for nothing and keeps
/// the entry.
pub proof fn lemma_cycle_single_dead(queue: Seq<u32>, windows: Seq<Window>)
    requires
        queue.len() == 1,
        !is_live(windows, queue[0]),
    ensures
        cycled(queue, windows) == (Action::Nothing, queue),
{
    lemma_first_with_id(windows, queue[0]);
}

/// A cycle over two entries that both live: a front window that is not
/// minimized gives way to the second and goes behind it; a minimized one is
/// brought back and the queue stays.
pub proof fn lemma_cycle_pair(windows: Seq<Window>, front: Window, second: Window)
    requires
        distinct_ids(windows),
        windows.contains(front),
        windows.contains(second),
        front.id != second.id,
    ensures
        cycled(seq![front.id, second.id], windows) == if front.is_minimized {
            (Action::Unstash(front), seq![front.id, second.id])
        } else {
            (Action::Cycle { stash: front, unstash: second }, seq![second.id, front.id])
        },
{
    lemma_lookup_finds(windows, front);
    lemma_lookup_finds(windows, second);
}

/// Entries without a window at the front of a queue make no difference to a
/// cycle, as long as an entry follows them: they are dropped, and the cycle
/// goes on as it would over the rest.
pub proof fn lemma_cycle_drops_dead(dead: Seq<u32>, rest: Seq<u32>, windows: Seq<Window>)
    requires
        forall|i: int| 0 <= i < dead.len() ==> !is_live(windows, #[trigger] dead[i]),
        rest.len() > 0,
    ensures
        cycled(dead + rest, windows) == cycled(rest, windows),
    decreases dead.len(),
{
    if dead.len() > 0 {
        let queue = dead + rest;
        lemma_last_with_id(windows, queue[0]);
        assert(queue.skip(1) =~= dead.skip(1) + rest);
        lemma_cycle_drops_dead(dead.skip(1), rest, windows);
    }
}

/// A second entry without a window makes no difference to a cycle whose front
/// entry has one: it is dropped, and the cycle goes on as it would without it.
pub proof fn lemma_cycle_drops_dead_second(
    front: u32,
    second: u32,
    rest: Seq<u32>,
    windows: Seq<Window>,
)
    requires
        is_live(windows, front),
        !is_live(windows, second),
    ensures
        cycled(seq![front, second] + rest, windows) == cycled(seq![front] + rest, windows),
{
    let queue = seq![front, second] + rest;
    lemma_last_with_id(windows, front);
    lemma_last_with_id(windows, second);
    assert(queue.remove(1) =~= seq![front] + rest);
}

/// A cycle over a queue that ends in two live entries and holds only entries
/// without a window before them drops those, and goes on as over the two.
pub proof fn lemma_cycle_heals(dead: Seq<u32>, windows: Seq<Window>, front: Window, second: Window)
    requires
        forall|i: int| 0 <= i < dead.len() ==> !is_live(windows, #[trigger] dead[i]),
        distinct_ids(windows),
        windows.contains(front),
        windows.contains(second),
        front.id != second.id,
    ensures
        cycled(dead + seq![front.id, second.id], windows) == if front.is_minimized {
            (Action::Unstash(front), seq![front.id, second.id])
        } else {
            (Action::Cycle { stash: front, unstash: second }, seq![second.id, front.id])
        },
{
    lemma_cycle_drops_dead(dead, seq![front.id, second.id], windows);
    lemma_cycle_pair(windows, front, second);
}

/// A cycle puts no entry into the queue that was not there, and leaves no
/// entry twice in a queue that held none twice.
pub proof fn lemma_cycle_keeps_distinct(queue: Seq<u32>, windows: Seq<Window>)
    ensures
        forall|id: u32| cycled(queue, windows).1.contains(id) ==> queue.contains(id),
        queue.no_duplicates() ==> cycled(queue, windows).1.no_duplicates(),
    decreases queue.len(),
{
    if queue.len() >= 2 {
        if last_with_id(windows, queue[0]) is None {
            lemma_cycle_keeps_distinct(queue.skip(1), windows);
            lemma_part_keeps_distinct(queue, queue.skip(1));
        } else if successor(windows, queue[0], queue[1]) is None {
            lemma_cycle_keeps_distinct(queue.remove(1), windows);
            lemma_part_keeps_distinct(queue, queue.remove(1));
        } else {
            lemma_part_keeps_distinct(queue, queue.skip(1).push(queue[0]));
        }
    }
}

/// A queue that takes each of its entries from its own place in another
/// holds nothing that the other does not hold, and nothing twice if the other
/// holds nothing twice. So it is with a queue that lost an entry, and with one
/// whose front entry went to the back.
proof fn lemma_part_keeps_distinct(queue: Seq<u32>, part: Seq<u32>)
    requires
        queue.len() > 0,
        part == queue.skip(1) || (queue.len() > 1 && part == queue.remove(1)) || part
            == queue.skip(1).push(queue[0]),
    ensures
        forall|id: u32| part.contains(id) ==> queue.contains(id),
        queue.no_duplicates() ==> part.no_duplicates(),
{
    let from = |i: int|
        if part == queue.skip(1) {
            i + 1
        } else if part == queue.skip(1).push(queue[0]) {
            if i == part.len() - 1 {
                0
            } else {
                i + 1
            }
        } else if i < 1 {
            i
        } else {
            i + 1
        };
    assert forall|i: int| 0 <= i < part.len() implies 0 <= from(i) < queue.len() && part[i]
        == queue[from(i)] by {}
    assert forall|id: u32| part.contains(id) implies queue.contains(id) by {
        let i = choose|i: int| 0 <= i < part.len() && part[i] == id;
        assert(queue[from(i)] == id);
    }
    if queue.no_duplicates() {
        assert forall|i: int, j: int| 0 <= i < part.len() && 0 <= j < part.len() && i != j implies part[i]
            != part[j] by {
            assert(part[i] == queue[from(i)] && part[j] == queue[from(j)]);
        }
    }
}

} // verus!
