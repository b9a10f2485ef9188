use g13_nexus::editor::{ButtonFill, G13App};
use g13_nexus::G13Config;

fn app_with(bindings: &[(&str, &str)], profiles: &[&str]) -> G13App {
    let mut config = G13Config::default();
    for (k, v) in bindings {
        config.keys.insert(k.to_string(), v.to_string());
    }
    G13App::new(config, profiles.iter().map(|p| p.to_string()).collect())
}

fn press(app: &mut G13App, key: &str) {
    app.handle_pressed_key(key.to_string());
}

#[test]
fn new_app_starts_idle_on_slot_m1() {
    let app = app_with(&[], &["default"]);
    assert_eq!(app.selected_profile, "default");
    assert_eq!(app.active_m_slot, "M1");
    assert!(app.active_key.is_empty());
    assert!(app.edit_value.is_empty());
    assert!(!app.is_recording);
    assert!(!app.is_macro_recording);
    assert!(app.recorded_macro_steps.is_empty());
    assert!(app.macros.entries().is_empty());
}

#[test]
fn pressing_a_key_selects_it_with_its_binding() {
    let mut app = app_with(&[("G5", "KEY_F")], &["default"]);
    press(&mut app, "G5");
    assert_eq!(app.active_key, "G5");
    assert_eq!(app.edit_value, "KEY_F");
    press(&mut app, "G6");
    assert_eq!(app.active_key, "G6");
    assert_eq!(app.edit_value, "");
}

#[test]
fn empty_press_changes_nothing() {
    let mut app = app_with(&[], &["default"]);
    press(&mut app, "");
    assert!(app.active_key.is_empty());
    assert!(!app.is_recording);
}

#[test]
fn mr_toggles_on_device_recording() {
    let mut app = app_with(&[], &["default"]);
    press(&mut app, "MR");
    assert!(app.is_recording);
    assert!(app.active_key.is_empty());
    press(&mut app, "MR");
    assert!(!app.is_recording);
}

#[test]
fn m_keys_switch_the_slot() {
    let mut app = app_with(&[], &["default"]);
    press(&mut app, "M3");
    assert_eq!(app.active_m_slot, "M3");
    assert!(app.active_key.is_empty());
    // not an M slot: three characters, or a non-ASCII second character
    press(&mut app, "MXY");
    assert_eq!(app.active_m_slot, "M3");
    assert_eq!(app.active_key, "MXY");
    press(&mut app, "Mé");
    assert_eq!(app.active_m_slot, "M3");
    assert_eq!(app.active_key, "Mé");
}

#[test]
fn on_device_recording_files_bindings_under_the_slot() {
    let mut app = app_with(&[("G1", "KEY_A")], &["default"]);
    press(&mut app, "M2");
    press(&mut app, "MR");
    press(&mut app, "G1");
    press(&mut app, "G2");
    press(&mut app, "G1");
    assert_eq!(app.macros.get("M2_G1"), Some(&vec!["KEY_A".to_string(), "KEY_A".to_string()]));
    assert_eq!(app.macros.get("M2_G2"), Some(&vec!["G2".to_string()]));
    assert!(app.active_key.is_empty());
}

#[test]
fn save_and_clear_binding() {
    let mut app = app_with(&[("G2", "KEY_B")], &["default"]);
    app.select_key("G1");
    app.edit_value = "KEY_SPACE".to_string();
    app.save_binding();
    assert!(app.active_key.is_empty());
    assert_eq!(app.config.keys.get("G1"), Some(&"KEY_SPACE".to_string()));
    assert_eq!(app.config.keys.get("G2"), Some(&"KEY_B".to_string()));
    app.select_key("G1");
    assert_eq!(app.edit_value, "KEY_SPACE");
    app.clear_binding();
    assert!(app.config.keys.get("G1").is_none());
    assert_eq!(app.display_binding("G1"), "");
    app.select_key("G1");
    assert_eq!(app.edit_value, "");
}

#[test]
fn macro_round_trip_binds_macro() {
    let mut app = app_with(&[], &["default"]);
    app.select_key("G4");
    app.start_macro_recording();
    assert!(app.is_macro_recording);
    assert_eq!(app.macro_target_key, "G4");
    assert!(app.key_highlighted("G4"));
    press(&mut app, "G1");
    press(&mut app, "G4"); // the macro's own key is not a step
    press(&mut app, "MR"); // no toggle while a macro is recorded
    press(&mut app, "G2");
    assert!(!app.is_recording);
    assert_eq!(app.recorded_steps_text(), "Recorded Steps: [G1 -> MR -> G2]");
    assert_eq!(app.recording_notice(), "Recording macro for [G4]. Press keys on G13 hardware...");
    app.stop_macro_recording();
    assert!(!app.is_macro_recording);
    assert!(app.active_key.is_empty());
    assert_eq!(app.edit_value, "MACRO:G1,MR,G2");
    assert_eq!(app.config.keys.get("G4"), Some(&"MACRO:G1,MR,G2".to_string()));
    assert_eq!(app.display_binding("G4"), "Macro");
}

#[test]
fn empty_macro_binding() {
    let mut app = app_with(&[], &["default"]);
    app.select_key("G7");
    app.start_macro_recording();
    app.stop_macro_recording();
    assert_eq!(app.config.keys.get("G7"), Some(&"MACRO:".to_string()));
    assert_eq!(app.display_binding("G7"), "Macro");
}

#[test]
fn cancel_stops_recording_and_selection() {
    let mut app = app_with(&[], &["default"]);
    app.select_key("G3");
    app.start_macro_recording();
    app.cancel_edit();
    assert!(!app.is_macro_recording);
    assert!(app.active_key.is_empty());
    assert!(app.config.keys.get("G3").is_none());
}

#[test]
fn create_profile_adds_once() {
    let mut app = app_with(&[], &["default"]);
    assert!(!app.create_profile());
    app.new_profile_name = "fps".to_string();
    assert!(app.create_profile());
    assert_eq!(app.config.profile_name, "fps");
    assert_eq!(app.profiles, vec!["default".to_string(), "fps".to_string()]);
    assert!(app.new_profile_name.is_empty());
    app.new_profile_name = "fps".to_string();
    assert!(app.create_profile());
    assert_eq!(app.profiles.len(), 2);
}

#[test]
fn delete_profile_switches_to_first_left() {
    let mut app = app_with(&[], &["a", "b", "c"]);
    assert!(app.can_delete_profile());
    assert_eq!(app.forget_profile("a"), Some("b".to_string()));
    assert_eq!(app.profiles, vec!["b".to_string(), "c".to_string()]);
    assert_eq!(app.forget_profile("c"), Some("b".to_string()));
    assert!(!app.can_delete_profile());
}

#[test]
fn deleting_a_duplicated_name_can_empty_the_list() {
    let mut app = app_with(&[], &["a", "a"]);
    assert!(app.can_delete_profile());
    assert_eq!(app.forget_profile("a"), None);
    assert!(app.profiles.is_empty());
}

#[test]
fn choose_and_load_profile() {
    let mut app = app_with(&[], &["default", "fps"]);
    assert!(!app.choose_profile("default"));
    assert!(app.choose_profile("fps"));
    assert_eq!(app.selected_profile, "fps");
    let mut cfg = G13Config::default();
    cfg.profile_name = "fps".to_string();
    cfg.color = [0, 0, 255];
    app.apply_loaded_profile("fps", cfg);
    assert_eq!(app.config.color, [0, 0, 255]);
    assert_eq!(app.config.profile_name, "fps");
    assert_eq!(app.selected_profile, "fps");
}

#[test]
fn m_key_buttons() {
    let mut app = app_with(&[("M2", "KEY_X"), ("M3", "MACRO:G1")], &["default"]);
    assert_eq!(app.m_key_label("M1"), "M1\n[ACTIVE]");
    assert_eq!(app.m_key_label("M2"), "M2\nKEY_X");
    assert_eq!(app.m_key_label("M3"), "M3\nMacro");
    assert_eq!(app.m_key_label("MR"), "MR");
    assert_eq!(app.m_key_fill("MR"), ButtonFill::Plain);
    app.click_m_key("MR");
    assert!(app.is_recording);
    assert_eq!(app.active_key, "MR");
    assert_eq!(app.m_key_label("MR"), "MR\n[REC]");
    assert_eq!(app.m_key_fill("MR"), ButtonFill::Recording);
    assert!(app.m_key_name_emphasized("MR"));
    app.click_m_key("M2");
    assert_eq!(app.active_m_slot, "M2");
    assert_eq!(app.active_key, "M2");
    assert_eq!(app.edit_value, "KEY_X");
    assert_eq!(app.m_key_fill("M2"), ButtonFill::Selected);
    assert_eq!(app.m_key_label("M2"), "M2\n[ACTIVE]");
    assert!(!app.m_key_name_emphasized("M3"));
}

#[test]
fn key_buttons() {
    let mut app = app_with(&[("G9", "KEY_Q")], &["default"]);
    assert_eq!(app.display_binding("G9"), "KEY_Q");
    assert!(!app.key_highlighted("G9"));
    app.select_key("G9");
    assert!(app.key_highlighted("G9"));
    assert!(app.key_name_emphasized("G9"));
    assert!(!app.key_name_emphasized("G8"));
    assert_eq!(app.configuring_title(), "Configuring Key: G9");
}

#[test]
fn pressed_slot_is_labelled_active() {
    let mut app = app_with(&[], &["default"]);
    press(&mut app, "M2");
    assert_eq!(app.m_key_label("M2"), "M2\n[ACTIVE]");
    assert_eq!(app.m_key_label("M1"), "M1");
}
