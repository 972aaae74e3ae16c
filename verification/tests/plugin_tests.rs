use class_quicklook::plugin::{RefCount, E_NOINTERFACE, GENERATOR_INTERFACE_ID, S_OK};

#[test]
fn new_instance_holds_one_reference() {
    let rc = RefCount::new();
    assert_eq!(rc.count(), 1);
    assert!(!rc.is_released());
}

#[test]
fn release_undoes_add_ref() {
    let mut rc = RefCount::new();
    assert_eq!(rc.add_ref(), 2);
    assert_eq!(rc.add_ref(), 3);
    assert_eq!(rc.release(), 2);
    assert_eq!(rc.release(), 1);
    assert!(!rc.is_released());
}

#[test]
fn last_release_frees_the_instance() {
    let mut rc = RefCount::new();
    assert_eq!(rc.release(), 0);
    assert!(rc.is_released());
}

#[test]
fn query_for_the_offered_interface_adds_a_reference() {
    let mut rc = RefCount::new();
    assert_eq!(rc.query_interface(true), S_OK);
    assert_eq!(rc.count(), 2);
}

#[test]
fn query_for_another_interface_is_refused() {
    let mut rc = RefCount::new();
    assert_eq!(rc.query_interface(false), E_NOINTERFACE);
    assert_eq!(E_NOINTERFACE, 0x8000_0004);
    assert_eq!(rc.count(), 1);
}

#[test]
fn interface_id_is_a_uuid_string() {
    assert_eq!(GENERATOR_INTERFACE_ID, "865AF5E0-6D30-4345-951B-D37105754F2D");
}
