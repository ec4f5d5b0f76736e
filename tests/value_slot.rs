use async_once::{Action, OnceState, Phase, ValueSlot};

#[test]
fn empty_slot_has_no_value() {
    let slot: ValueSlot<u32> = ValueSlot::new();
    assert_eq!(slot.get(), None);
}

#[test]
fn first_set_value_publishes() {
    let slot: ValueSlot<String> = ValueSlot::new();
    let stored = slot.set_value("first".to_string());
    assert_eq!(stored, Ok(&"first".to_string()));
    assert_eq!(slot.get(), Some(&"first".to_string()));
}

#[test]
fn second_set_value_hands_value_back() {
    let slot: ValueSlot<u32> = ValueSlot::new();
    assert_eq!(slot.set_value(1), Ok(&1));
    assert_eq!(slot.set_value(2), Err(2));
    assert_eq!(slot.get(), Some(&1));
}

#[test]
fn report_of_value_publishes_and_wakes() {
    let slot: ValueSlot<u32> = ValueSlot::new();
    let mut state: OnceState<&u32> = OnceState::new();
    assert_eq!(state.request(1), Action::Drive);
    assert_eq!(state.request(2), Action::Park);
    let (published, wake) = slot.report(&mut state, 1, Some(8)).unwrap();
    assert_eq!(published, Some(&8));
    assert_eq!(wake, vec![2]);
    assert_eq!(slot.get(), Some(&8));
    assert_eq!(state.phase(), Phase::Ready);
    assert_eq!(state.value(), Some(&&8));
}

#[test]
fn report_of_wait_keeps_slot_empty() {
    let slot: ValueSlot<u32> = ValueSlot::new();
    let mut state: OnceState<&u32> = OnceState::new();
    assert_eq!(state.request(1), Action::Drive);
    let (published, wake) = slot.report(&mut state, 1, None).unwrap();
    assert_eq!(published, None);
    assert!(wake.is_empty());
    assert_eq!(slot.get(), None);
    assert_eq!(state.phase(), Phase::Initializing);
    assert_eq!(state.parked(), vec![1]);
    assert_eq!(state.driver(), None);
}

#[test]
fn report_into_filled_slot_hands_value_back() {
    let slot: ValueSlot<u32> = ValueSlot::new();
    assert_eq!(slot.set_value(3), Ok(&3));
    let mut state: OnceState<&u32> = OnceState::new();
    assert_eq!(state.request(1), Action::Drive);
    assert_eq!(slot.report(&mut state, 1, Some(4)), Err(4));
    assert_eq!(state.driver(), Some(1));
    assert_eq!(state.phase(), Phase::Initializing);
    assert_eq!(slot.get(), Some(&3));
}
