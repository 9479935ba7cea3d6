use danke::err::Error;
use danke::state::{State, Stored};

#[test]
fn save_writes_a_compact_list() {
    assert_eq!(State::from(vec![1, 2, 3]).save(), "[1,2,3]");
    assert_eq!(State::from(vec![42]).save(), "[42]");
    assert_eq!(State::from(vec![0, 4294967295]).save(), "[0,4294967295]");
}

#[test]
fn save_of_an_empty_queue() {
    assert_eq!(State::from(vec![]).save(), "[]");
    assert_eq!(State::default().save(), "[]");
}

#[test]
fn read_of_a_list() {
    let state = State::read(Stored::Text("[3,1,2]".to_string())).unwrap();
    assert_eq!(state.to_vec(), vec![3, 1, 2]);
}

#[test]
fn read_bears_blanks() {
    let state = State::read(Stored::Text(" [ 7 ,\n 8 ] ".to_string())).unwrap();
    assert_eq!(state.to_vec(), vec![7, 8]);
}

#[test]
fn read_of_a_missing_file_is_empty() {
    let state = State::read(Stored::Missing).unwrap();
    assert!(state.is_empty());
}

#[test]
fn read_of_an_unreadable_file_fails() {
    assert!(matches!(
        State::read(Stored::Unreadable),
        Err(Error::StateRead)
    ));
}

#[test]
fn read_of_a_corrupt_file_is_empty() {
    for text in ["", "{}", "[1,2", "[1,-2]", "[1,4294967296]", "[\"1\"]", "null", "[1,2] x"] {
        let state = State::read(Stored::Text(text.to_string())).unwrap();
        assert!(state.is_empty(), "{}", format!("{text:?}"));
    }
}

#[test]
fn read_does_not_repair_a_doubled_entry() {
    let state = State::read(Stored::Text("[5,5]".to_string())).unwrap();
    assert_eq!(state.to_vec(), vec![5, 5]);
}

#[test]
fn saved_then_read_is_the_same_queue() {
    for ids in [vec![], vec![0], vec![9, 10, 11], vec![4294967295, 1, 100, 23]] {
        let text = State::from(ids.clone()).save();
        let back = State::read(Stored::Text(text)).unwrap();
        assert_eq!(back.to_vec(), ids);
    }
}

#[test]
fn queue_from_a_list() {
    let state = State::from(vec![4, 5, 6]);
    assert_eq!(state.len(), 3);
    assert!(!state.is_empty());
    assert_eq!(state.front(), Some(&4));
    assert_eq!(state.back(), Some(&6));
    assert_eq!(state.to_vec(), vec![4, 5, 6]);
}

#[test]
fn empty_queue() {
    let state = State::default();
    assert_eq!(state.len(), 0);
    assert!(state.is_empty());
    assert_eq!(state.front(), None);
    assert_eq!(state.back(), None);
}

#[test]
fn push_and_pop() {
    let mut state = State::from(vec![2]);
    state.push_front(1);
    state.push_back(3);
    assert_eq!(state.to_vec(), vec![1, 2, 3]);
    assert_eq!(state.pop_front(), Some(1));
    assert_eq!(state.pop_front(), Some(2));
    assert_eq!(state.pop_front(), Some(3));
    assert_eq!(state.pop_front(), None);
    assert!(state.is_empty());
}

#[test]
fn remove_at_an_index() {
    let mut state = State::from(vec![1, 2, 3]);
    assert_eq!(state.remove(1), Some(2));
    assert_eq!(state.to_vec(), vec![1, 3]);
    assert_eq!(state.remove(2), None);
    assert_eq!(state.to_vec(), vec![1, 3]);
}

#[test]
fn membership_and_position() {
    let state = State::from(vec![7, 8, 7]);
    assert!(state.contains(&7));
    assert!(state.contains(&8));
    assert!(!state.contains(&9));
    assert_eq!(state.position(7), Some(0));
    assert_eq!(state.position(8), Some(1));
    assert_eq!(state.position(9), None);
}

#[test]
fn clone_is_the_same_queue() {
    let state = State::from(vec![1, 2]);
    let mut copy = state.clone();
    copy.push_back(3);
    assert_eq!(state.to_vec(), vec![1, 2]);
    assert_eq!(copy.to_vec(), vec![1, 2, 3]);
}

#[test]
fn queue_of_a_decoded_list() {
    assert_eq!(State::from_decoded(Some(vec![2, 1])).to_vec(), vec![2, 1]);
    assert_eq!(State::from_decoded(Some(vec![])).to_vec(), Vec::<u32>::new());
    assert!(State::from_decoded(None).is_empty());
}

#[test]
fn queue_opens_as_a_deque() {
    let mut state = State::from(vec![1, 2, 3]);
    assert_eq!(state.iter().copied().collect::<Vec<u32>>(), vec![1, 2, 3]);
    assert_eq!(state.get(1), Some(&2));
    state.rotate_left(1);
    assert_eq!(state.to_vec(), vec![2, 3, 1]);
    assert_eq!(state.pop_back(), Some(1));
    assert_eq!(state.to_vec(), vec![2, 3]);
}

#[test]
fn long_queue_is_saved_and_read() {
    let ids: Vec<u32> = (0..5000).map(|i| 4294967295 - i * 7).collect();
    let text = State::from(ids.clone()).save();
    assert!(text.starts_with("[4294967295,4294967288,"));
    assert!(text.ends_with(",4294932302]"));
    let back = State::read(Stored::Text(text)).unwrap();
    assert_eq!(back.to_vec(), ids);
}
