use chain_state::batch::{Batch, Capability, Outcome};
use chain_state::state::State;

fn registry() -> State {
    State::new().expect("the registry of the compiled-in chains")
}

fn places<T>(batch: &Batch<T>) -> Vec<usize> {
    batch.units().iter().map(|unit| unit.chain).collect()
}

#[test]
fn update_data_launches_one_unit_per_chain() {
    let state = registry();
    let batch = state.update_data();
    assert_eq!(batch.capability(), Capability::RefreshData);
    assert_eq!(batch.len(), 5);
    assert_eq!(places(&batch), vec![0, 1, 2, 3, 4]);
    assert!(batch.outcomes().iter().all(|outcome| outcome.is_none()));
    assert!(!batch.is_complete());
}

#[test]
fn update_database_launches_one_unit_per_chain() {
    let state = registry();
    let batch = state.update_database();
    assert_eq!(batch.capability(), Capability::RefreshDatabase);
    assert_eq!(places(&batch), vec![0, 1, 2, 3, 4]);
    assert!(batch.outcomes().iter().all(|outcome| outcome.is_none()));
}

#[test]
fn subscribe_to_events_launches_one_unit_per_chain() {
    let state = registry();
    let batch = state.subscribe_to_events();
    assert_eq!(batch.capability(), Capability::Subscribe);
    assert_eq!(places(&batch), vec![0, 1, 2, 3, 4]);
    assert!(batch.outcomes().iter().all(|outcome| outcome.is_none()));
}

#[test]
fn no_chain_gets_two_units() {
    let state = registry();
    for batch in [state.update_data(), state.update_database(), state.subscribe_to_events()] {
        let mut seen = places(&batch);
        seen.dedup();
        assert_eq!(seen.len(), state.len());
    }
}

#[test]
fn a_failed_unit_leaves_the_others_alone() {
    let state = registry();
    let mut batch = state.update_data();
    assert!(batch.record(0, Outcome::Completed));
    assert!(batch.record(2, Outcome::Failed));
    assert_eq!(
        batch.outcomes().clone(),
        vec![Some(Outcome::Completed), None, Some(Outcome::Failed), None, None]
    );
    assert_eq!(places(&batch), vec![0, 1, 2, 3, 4]);
    assert!(!batch.is_complete());
    assert!(batch.record(1, Outcome::Completed));
    assert!(batch.record(3, Outcome::Completed));
    assert!(!batch.is_complete());
    assert!(batch.record(4, Outcome::Completed));
    assert!(batch.is_complete());
    assert_eq!(
        batch.outcomes().clone(),
        vec![
            Some(Outcome::Completed),
            Some(Outcome::Completed),
            Some(Outcome::Failed),
            Some(Outcome::Completed),
            Some(Outcome::Completed)
        ]
    );
}

#[test]
fn a_batch_completes_when_every_unit_fails() {
    let state = registry();
    let mut batch = state.subscribe_to_events();
    for slot in 0..batch.len() {
        assert!(!batch.is_complete());
        assert!(batch.record(slot, Outcome::Failed));
    }
    assert!(batch.is_complete());
    assert!(batch.outcomes().iter().all(|outcome| *outcome == Some(Outcome::Failed)));
}

#[test]
fn units_may_end_in_any_order() {
    let state = registry();
    let mut forward = state.update_database();
    let mut backward = state.update_database();
    assert!(forward.record(1, Outcome::Failed));
    assert!(forward.record(4, Outcome::Completed));
    assert!(backward.record(4, Outcome::Completed));
    assert!(backward.record(1, Outcome::Failed));
    assert_eq!(forward.outcomes(), backward.outcomes());
}

#[test]
fn a_unit_ends_only_once() {
    let state = registry();
    let mut batch = state.update_data();
    assert!(batch.record(3, Outcome::Failed));
    assert!(!batch.record(3, Outcome::Completed));
    assert_eq!(batch.outcomes()[3], Some(Outcome::Failed));
}

#[test]
fn a_slot_outside_the_batch_is_turned_down() {
    let state = registry();
    let mut batch = state.update_data();
    assert!(!batch.record(5, Outcome::Completed));
    assert!(!batch.record(usize::MAX, Outcome::Failed));
    assert!(batch.outcomes().iter().all(|outcome| outcome.is_none()));
    assert_eq!(batch.len(), 5);
}

#[test]
fn a_second_round_starts_afresh() {
    let state = registry();
    let mut first = state.update_data();
    for slot in 0..first.len() {
        assert!(first.record(slot, Outcome::Completed));
    }
    assert!(first.is_complete());
    let second = state.update_data();
    assert_eq!(places(&second), places(&first));
    assert_eq!(second.len(), 5);
    assert!(second.outcomes().iter().all(|outcome| outcome.is_none()));
    assert!(!second.is_complete());
    assert_eq!(state.len(), 5);
}
