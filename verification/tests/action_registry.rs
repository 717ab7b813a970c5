use daw_reaper::action_registry::ReaperActionRegistry;
use daw_reaper::menu::{derive_menu_group, titlecase_underscored};

#[test]
fn derive_menu_group_session() {
    assert_eq!(derive_menu_group("FTS_SESSION_TOGGLE_PLAYBACK"), "Session");
}

#[test]
fn derive_menu_group_transport() {
    assert_eq!(derive_menu_group("FTS_TRANSPORT_PLAY"), "Transport");
}

#[test]
fn derive_menu_group_markers_regions() {
    assert_eq!(
        derive_menu_group("FTS_MARKERS_REGIONS_INSERT_MARKER"),
        "Markers Regions"
    );
}

#[test]
fn derive_menu_group_signal() {
    assert_eq!(derive_menu_group("FTS_SIGNAL_NEXT_SONG"), "Signal");
}

#[test]
fn derive_menu_group_sync() {
    assert_eq!(derive_menu_group("FTS_SYNC_TOGGLE_LINK"), "Sync");
}

#[test]
fn derive_menu_group_dynamic_template() {
    assert_eq!(
        derive_menu_group("FTS_DYNAMIC_TEMPLATE_SORT_ALL"),
        "Dynamic Template"
    );
}

#[test]
fn derive_menu_group_visibility_manager() {
    assert_eq!(
        derive_menu_group("FTS_VISIBILITY_MANAGER_TOGGLE_DRUMS"),
        "Visibility Manager"
    );
}

#[test]
fn derive_menu_group_auto_color() {
    assert_eq!(derive_menu_group("FTS_AUTO_COLOR_COLOR_ALL"), "Auto Color");
}

#[test]
fn derive_menu_group_daw() {
    assert_eq!(derive_menu_group("FTS_DAW_SOMETHING"), "Daw");
}

#[test]
fn derive_menu_group_unknown_prefix_falls_back_to_first_segment() {
    assert_eq!(derive_menu_group("UNKNOWN_PREFIX"), "Unknown");
}

#[test]
fn titlecase_underscored_multi_word() {
    assert_eq!(titlecase_underscored("MARKERS_REGIONS"), "Markers Regions");
}

#[test]
fn titlecase_underscored_single_word() {
    assert_eq!(titlecase_underscored("TRANSPORT"), "Transport");
}

#[test]
fn titlecase_underscored_two_words() {
    assert_eq!(titlecase_underscored("AUTO_COLOR"), "Auto Color");
}

#[test]
fn titlecase_underscored_empty() {
    assert_eq!(titlecase_underscored(""), "");
}

#[test]
fn menu_group_without_fts_prefix_uses_known_domain() {
    assert_eq!(derive_menu_group("REAPER_EXTENSION_RELOAD"), "Reaper Extension");
    assert_eq!(derive_menu_group("FTS_"), "");
    assert_eq!(derive_menu_group("FTS_CUSTOM_THING"), "Custom");
}

#[test]
fn registering_twice_returns_the_first_command_id() {
    let mut reg = ReaperActionRegistry::new();
    assert_eq!(reg.begin_registration("FTS_SESSION_PLAY", false), None);
    assert_eq!(
        reg.finish_registration("FTS_SESSION_PLAY", "Play", true, Some(4242)),
        4242
    );
    assert_eq!(reg.registered_command_id("FTS_SESSION_PLAY"), Some(4242));
    assert_eq!(reg.begin_registration("FTS_SESSION_PLAY", false), Some(4242));
    let menu = reg.menu_actions();
    assert_eq!(menu.len(), 1);
    assert_eq!(menu[0].command_name, "FTS_SESSION_PLAY");
    assert_eq!(menu[0].display_name, "Play");
    assert_eq!(menu[0].group, "Session");
}

#[test]
fn failed_host_registration_records_nothing() {
    let mut reg = ReaperActionRegistry::new();
    assert_eq!(reg.begin_registration("FTS_SYNC_LINK", false), None);
    assert_eq!(reg.finish_registration("FTS_SYNC_LINK", "Link", true, None), 0);
    assert_eq!(reg.finish_registration("FTS_SYNC_LINK", "Link", true, Some(0)), 0);
    assert_eq!(reg.registered_command_id("FTS_SYNC_LINK"), None);
    assert_eq!(reg.menu_actions().len(), 0);
}

#[test]
fn hidden_actions_stay_out_of_the_menu() {
    let mut reg = ReaperActionRegistry::new();
    reg.begin_registration("FTS_DAW_HIDDEN", false);
    assert_eq!(reg.finish_registration("FTS_DAW_HIDDEN", "Hidden", false, Some(7)), 7);
    assert_eq!(reg.menu_actions().len(), 0);
    assert_eq!(reg.registered_command_id("FTS_DAW_HIDDEN"), Some(7));
}

#[test]
fn toggle_state_starts_off_and_follows_updates() {
    let mut reg = ReaperActionRegistry::new();
    reg.begin_registration("FTS_TRANSPORT_LOOP", true);
    reg.finish_registration("FTS_TRANSPORT_LOOP", "Loop", false, Some(10));
    assert_eq!(reg.get_toggle_state("FTS_TRANSPORT_LOOP"), Some(false));
    assert!(!reg.read_toggle_state("FTS_TRANSPORT_LOOP"));
    reg.set_toggle_state("FTS_TRANSPORT_LOOP", true);
    assert_eq!(reg.get_toggle_state("FTS_TRANSPORT_LOOP"), Some(true));
    assert!(reg.read_toggle_state("FTS_TRANSPORT_LOOP"));
}

#[test]
fn toggle_state_of_unknown_action_is_ignored() {
    let mut reg = ReaperActionRegistry::new();
    reg.set_toggle_state("FTS_NOPE", true);
    assert_eq!(reg.get_toggle_state("FTS_NOPE"), None);
    assert!(!reg.read_toggle_state("FTS_NOPE"));
}

#[test]
fn unregister_forgets_id_menu_entries_and_toggle() {
    let mut reg = ReaperActionRegistry::new();
    reg.begin_registration("FTS_SIGNAL_A", true);
    reg.finish_registration("FTS_SIGNAL_A", "A", true, Some(1));
    reg.begin_registration("FTS_SIGNAL_B", false);
    reg.finish_registration("FTS_SIGNAL_B", "B", true, Some(2));
    assert!(reg.unregister_action("FTS_SIGNAL_A"));
    assert_eq!(reg.registered_command_id("FTS_SIGNAL_A"), None);
    assert_eq!(reg.get_toggle_state("FTS_SIGNAL_A"), None);
    let menu = reg.menu_actions();
    assert_eq!(menu.len(), 1);
    assert_eq!(menu[0].command_name, "FTS_SIGNAL_B");
    assert!(!reg.unregister_action("FTS_SIGNAL_A"));
}
