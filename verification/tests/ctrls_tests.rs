use carla_bridge::CtrlsMemory;

#[test]
fn new_memory_restores_the_initial_value_everywhere() {
    let mem = CtrlsMemory::new(vec![89, 79, 69], Some(0));
    assert_eq!(mem.restore(), vec![(89, 0), (79, 0), (69, 0)]);
}

#[test]
fn new_memory_without_initial_value_restores_nothing() {
    let mem = CtrlsMemory::new(vec![89, 79, 69], None);
    assert_eq!(mem.restore(), vec![]);
}

#[test]
fn stored_values_are_restored_in_controller_order() {
    let mut mem = CtrlsMemory::new(vec![89, 79, 69], None);
    mem.store(69, 21);
    mem.store(89, 5);
    assert_eq!(mem.restore(), vec![(89, 5), (69, 21)]);
}

#[test]
fn storing_overwrites_the_previous_value() {
    let mut mem = CtrlsMemory::new(vec![30, 31], Some(0));
    mem.store(30, 64);
    mem.store(30, 127);
    assert_eq!(mem.restore(), vec![(30, 127), (31, 0)]);
}

#[test]
fn unwatched_controller_is_ignored() {
    let mut mem = CtrlsMemory::new(vec![30, 31], None);
    mem.store(99, 64);
    assert_eq!(mem.restore(), vec![]);
}

#[test]
fn duplicate_controllers_store_into_the_first_slot() {
    let mut mem = CtrlsMemory::new(vec![30, 30], None);
    mem.store(30, 7);
    assert_eq!(mem.restore(), vec![(30, 7)]);
}
