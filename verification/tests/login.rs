use ichi::login::{LoginItemState, ServiceStatus};

#[test]
fn only_enabled_shows_a_checkmark() {
    assert!(LoginItemState::Enabled.is_enabled());
    assert!(!LoginItemState::Disabled.is_enabled());
    assert!(!LoginItemState::RequiresApproval.is_enabled());
    assert!(!LoginItemState::Unavailable.is_enabled());
}

#[test]
fn ambiguous_states_explain_themselves_in_the_menu() {
    assert_eq!(LoginItemState::Enabled.menu_title(), "Launch at Login");
    assert_eq!(LoginItemState::Disabled.menu_title(), "Launch at Login");
    assert!(LoginItemState::RequiresApproval.menu_title().contains("approve"));
    assert!(LoginItemState::Unavailable.menu_title().contains("/Applications"));
}

#[test]
fn system_status_maps_onto_menu_states() {
    assert_eq!(LoginItemState::from_status(ServiceStatus::Enabled), LoginItemState::Enabled);
    assert_eq!(LoginItemState::from_status(ServiceStatus::RequiresApproval), LoginItemState::RequiresApproval);
    assert_eq!(LoginItemState::from_status(ServiceStatus::NotFound), LoginItemState::Unavailable);
    assert_eq!(LoginItemState::from_status(ServiceStatus::NotRegistered), LoginItemState::Disabled);
    assert_eq!(LoginItemState::from_status(ServiceStatus::Other), LoginItemState::Disabled);
}
