use danke::cmd::cycle::{cycle, find_window, run, Action};
use danke::state::State;
use danke::yabai::{Command, Window};

#[test]
fn none_given_empty() {
    let windows = vec![];
    let mut state = State::from(vec![]);

    assert_eq!(cycle(&mut state, &windows), Action::Nothing);
}

#[test]
fn none_given_one_without_window() {
    let window = Window {
        id: 420,
        ..Default::default()
    };

    let windows = vec![window];
    let mut state = State::from(vec![69]);

    assert_eq!(cycle(&mut state, &windows), Action::Nothing);
}

#[test]
fn toggle_given_one() {
    let window = Window {
        id: 69,
        ..Default::default()
    };

    let windows = vec![window];
    let mut state = State::from(vec![69]);

    assert_eq!(cycle(&mut state, &windows), Action::Toggle(window));
}

#[test]
fn toggle_given_missing_first_window() {
    let window = Window {
        id: 1,
        ..Default::default()
    };

    let windows = vec![window];
    let mut state = State::from(vec![5, 4, 3, 2, 1]);

    assert_eq!(cycle(&mut state, &windows), Action::Toggle(window));
}

#[test]
fn toggle_given_missing_second_window() {
    let window = Window {
        id: 1,
        ..Default::default()
    };

    let windows = vec![window];
    let mut state = State::from(vec![1, 2, 3, 4, 5, 6, 7]);

    assert_eq!(cycle(&mut state, &windows), Action::Toggle(window));
}

#[test]
fn unstash_given_minimized() {
    let first = Window {
        id: 1,
        is_minimized: true,
        ..Default::default()
    };

    let second = Window {
        id: 2,
        ..Default::default()
    };

    let windows = vec![first, second];
    let mut state = State::from(vec![1, 2]);

    assert_eq!(cycle(&mut state, &windows), Action::Unstash(first));
    assert_eq!(state.len(), 2);
    assert_eq!(state.front(), Some(&1));
    assert_eq!(state.back(), Some(&2));
}

#[test]
fn cycle_happy() {
    let first = Window {
        id: 1,
        ..Default::default()
    };

    let second = Window {
        id: 2,
        ..Default::default()
    };

    let windows = vec![first, second];
    let mut state = State::from(vec![1, 2]);

    assert_eq!(
        cycle(&mut state, &windows),
        Action::Cycle {
            stash: first,
            unstash: second
        }
    );

    assert_eq!(state.len(), 2);
    assert_eq!(state.front(), Some(&2));
    assert_eq!(state.back(), Some(&1));
}

#[test]
fn cycle_given_missing_front_windows() {
    let first = Window {
        id: 1,
        ..Default::default()
    };

    let second = Window {
        id: 2,
        ..Default::default()
    };

    let windows = vec![first, second];
    let mut state = State::from(vec![10, 11, 12, 1, 2]);

    assert_eq!(
        cycle(&mut state, &windows),
        Action::Cycle {
            stash: first,
            unstash: second
        },
    );

    assert_eq!(state.len(), 2);
    assert_eq!(state.front(), Some(&2));
    assert_eq!(state.back(), Some(&1));
}

#[test]
fn cycle_given_missing_second_windows() {
    let first = Window {
        id: 1,
        ..Default::default()
    };

    let second = Window {
        id: 10,
        ..Default::default()
    };

    let windows = vec![first, second];
    let mut state = State::from(vec![1, 2, 3, 4, 5, 6, 7, 8, 9, 10]);

    assert_eq!(
        cycle(&mut state, &windows),
        Action::Cycle {
            stash: first,
            unstash: second,
        }
    );

    assert_eq!(state.len(), 2);
    assert_eq!(state.front(), Some(&10));
    assert_eq!(state.back(), Some(&1));
}

fn live(id: u32) -> Window {
    Window {
        id,
        ..Default::default()
    }
}

fn minimized(id: u32) -> Window {
    Window {
        id,
        is_minimized: true,
        ..Default::default()
    }
}

#[test]
fn empty_queue_stays_empty() {
    let windows = vec![live(1), live(2)];
    let mut state = State::from(vec![]);

    assert_eq!(cycle(&mut state, &windows), Action::Nothing);
    assert!(state.is_empty());
    assert_eq!(state.to_vec(), Vec::<u32>::new());
}

#[test]
fn single_live_entry_is_toggled_and_kept() {
    let windows = vec![live(3), live(69), live(4)];
    let mut state = State::from(vec![69]);

    assert_eq!(cycle(&mut state, &windows), Action::Toggle(live(69)));
    assert_eq!(state.to_vec(), vec![69]);
}

#[test]
fn single_minimized_entry_is_toggled_too() {
    let windows = vec![minimized(69)];
    let mut state = State::from(vec![69]);

    assert_eq!(cycle(&mut state, &windows), Action::Toggle(minimized(69)));
    assert_eq!(state.to_vec(), vec![69]);
}

#[test]
fn single_dead_entry_is_kept() {
    let windows = vec![live(420)];
    let mut state = State::from(vec![69]);

    assert_eq!(cycle(&mut state, &windows), Action::Nothing);
    assert_eq!(state.to_vec(), vec![69]);
}

#[test]
fn two_live_entries_rotate() {
    let windows = vec![live(1), live(2)];
    let mut state = State::from(vec![1, 2]);

    assert_eq!(
        cycle(&mut state, &windows),
        Action::Cycle {
            stash: live(1),
            unstash: live(2)
        }
    );
    assert_eq!(state.to_vec(), vec![2, 1]);
}

#[test]
fn minimized_front_is_unstashed_in_place() {
    let windows = vec![minimized(1), live(2)];
    let mut state = State::from(vec![1, 2]);

    assert_eq!(cycle(&mut state, &windows), Action::Unstash(minimized(1)));
    assert_eq!(state.to_vec(), vec![1, 2]);
}

#[test]
fn minimized_front_with_dead_second_is_toggled() {
    let windows = vec![minimized(1)];
    let mut state = State::from(vec![1, 2]);

    assert_eq!(cycle(&mut state, &windows), Action::Toggle(minimized(1)));
    assert_eq!(state.to_vec(), vec![1]);
}

#[test]
fn dead_entries_in_front_are_evicted() {
    let windows = vec![live(1), live(2)];
    let mut state = State::from(vec![10, 11, 12, 1, 2]);

    assert_eq!(
        cycle(&mut state, &windows),
        Action::Cycle {
            stash: live(1),
            unstash: live(2)
        }
    );
    assert_eq!(state.to_vec(), vec![2, 1]);
}

#[test]
fn dead_entries_in_front_of_a_minimized_pair() {
    let windows = vec![minimized(1), live(2)];
    let mut state = State::from(vec![10, 11, 1, 2]);

    assert_eq!(cycle(&mut state, &windows), Action::Unstash(minimized(1)));
    assert_eq!(state.to_vec(), vec![1, 2]);
}

#[test]
fn entries_behind_the_pair_stay_in_order() {
    let windows = vec![live(1), live(2), live(3)];
    let mut state = State::from(vec![1, 2, 3, 4]);

    assert_eq!(
        cycle(&mut state, &windows),
        Action::Cycle {
            stash: live(1),
            unstash: live(2)
        }
    );
    assert_eq!(state.to_vec(), vec![2, 3, 4, 1]);
}

#[test]
fn dead_second_entry_is_evicted() {
    let windows = vec![live(1), live(3)];
    let mut state = State::from(vec![1, 2, 3]);

    assert_eq!(
        cycle(&mut state, &windows),
        Action::Cycle {
            stash: live(1),
            unstash: live(3)
        }
    );
    assert_eq!(state.to_vec(), vec![3, 1]);
}

#[test]
fn all_dead_leaves_the_last_entry() {
    let windows = vec![live(9)];
    let mut state = State::from(vec![1, 2, 3]);

    assert_eq!(cycle(&mut state, &windows), Action::Nothing);
    assert_eq!(state.to_vec(), vec![3]);
}

#[test]
fn doubled_entry_counts_as_dead_second() {
    let windows = vec![live(1)];
    let mut state = State::from(vec![1, 1]);

    assert_eq!(cycle(&mut state, &windows), Action::Toggle(live(1)));
    assert_eq!(state.to_vec(), vec![1]);
}

#[test]
fn single_entry_takes_the_first_window_of_its_id() {
    let floating = Window {
        id: 5,
        is_floating: true,
        ..Default::default()
    };
    let windows = vec![floating, live(5)];
    let mut state = State::from(vec![5]);

    assert_eq!(cycle(&mut state, &windows), Action::Toggle(floating));
}

#[test]
fn pair_takes_the_last_window_of_each_id() {
    let floating = Window {
        id: 5,
        is_floating: true,
        ..Default::default()
    };
    let windows = vec![floating, live(5), live(6)];
    let mut state = State::from(vec![5, 6]);

    assert_eq!(
        cycle(&mut state, &windows),
        Action::Cycle {
            stash: live(5),
            unstash: live(6)
        }
    );
}

#[test]
fn find_window_returns_the_first_match() {
    let focused = Window {
        id: 2,
        has_focus: true,
        ..Default::default()
    };
    let windows = vec![live(1), focused, live(2)];

    assert_eq!(find_window(&windows, 2), Some(&focused));
    assert_eq!(find_window(&windows, 1), Some(&live(1)));
    assert_eq!(find_window(&windows, 3), None);
    assert_eq!(find_window(&[], 3), None);
}

#[test]
fn run_of_a_cycle_minimizes_then_focuses() {
    let windows = vec![live(1), live(2)];
    let mut state = State::from(vec![1, 2]);

    assert_eq!(
        run(&mut state, &windows),
        vec![Command::Minimize(1), Command::Focus(2), Command::ToggleFloat]
    );
    assert_eq!(state.to_vec(), vec![2, 1]);
}

#[test]
fn run_of_an_unstash_focuses_and_floats() {
    let windows = vec![minimized(1), live(2)];
    let mut state = State::from(vec![1, 2]);

    assert_eq!(
        run(&mut state, &windows),
        vec![Command::Focus(1), Command::ToggleFloat]
    );
    assert_eq!(state.to_vec(), vec![1, 2]);
}

#[test]
fn run_of_a_toggle_stashes_a_visible_window() {
    let windows = vec![live(7)];
    let mut state = State::from(vec![7]);

    assert_eq!(run(&mut state, &windows), vec![Command::Minimize(7)]);
    assert_eq!(state.to_vec(), vec![7]);
}

#[test]
fn run_over_nothing_sends_nothing() {
    let windows = vec![live(7)];
    let mut state = State::from(vec![]);

    assert_eq!(run(&mut state, &windows), vec![]);
    assert!(state.is_empty());
}
