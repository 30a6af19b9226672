use brook_controller_relay::config::default_sf6_profile;
use brook_controller_relay::hid::{open_options, DeviceEvent, HidState, RelayAction, INITIAL_REPORT};
use brook_controller_relay::keycodes::{KEY_A, KEY_D, KEY_E, KEY_NONE, KEY_S, KEY_U, KEY_W, KEY_Y};
use brook_controller_relay::relay::{key_stroke, KeyStroke};

/// A short, readable form of an action.
fn show(a: &RelayAction) -> String {
    match a {
        RelayAction::Key(k) => format!("key {:#x} {}", k.code, if k.down { "down" } else { "up" }),
        RelayAction::Button(b) => format!("button {} {} {}", b.button, b.pressed, b.label),
        RelayAction::Hat(h) => format!("hat {} {}", h.direction, h.keys.join(",")),
    }
}

fn shows(v: &[RelayAction]) -> Vec<String> {
    v.iter().map(show).collect()
}

fn report(b0: u8, b1: u8, b2: u8) -> [u8; 8] {
    [b0, b1, b2, 128, 128, 128, 128, 0]
}

#[test]
fn new_state_starts_neutral() {
    let s = HidState::for_profile(&default_sf6_profile(), true);
    assert_eq!(s.prev_report, INITIAL_REPORT);
    assert_eq!(s.prev_wasd, [false; 4]);
    assert_eq!(s.button_codes.len(), 15);
    assert_eq!(s.dpad_codes, [KEY_W, KEY_S, KEY_A, KEY_D]);
}

#[test]
fn button_press_and_release() {
    let mut s = HidState::for_profile(&default_sf6_profile(), true);
    let a = s.process_report(&report(0x01, 0, 8));
    assert_eq!(shows(&a), vec![format!("key {:#x} down", KEY_U), "button 1 true btn1".to_string()]);
    assert_eq!(s.prev_report, report(0x01, 0, 8));
    let a = s.process_report(&report(0x00, 0, 8));
    assert_eq!(shows(&a), vec![format!("key {:#x} up", KEY_U), "button 1 false btn1".to_string()]);
}

#[test]
fn dual_key_button() {
    let mut s = HidState::for_profile(&default_sf6_profile(), true);
    let a = s.process_report(&report(0x10, 0, 8));
    assert_eq!(
        shows(&a),
        vec![format!("key {:#x} down", KEY_Y), format!("key {:#x} down", KEY_E), "button 5 true btn5".to_string()]
    );
}

#[test]
fn unassigned_button_only_notifies() {
    let mut s = HidState::for_profile(&default_sf6_profile(), true);
    let a = s.process_report(&report(0x00, 0x01, 8));
    assert_eq!(shows(&a), vec!["button 9 true btn9".to_string()]);
    let a = s.process_report(&report(0x00, 0x01, 0x88));
    assert_eq!(shows(&a), vec!["button 15 true btn15".to_string()]);
}

#[test]
fn inactive_relay_posts_no_keys() {
    let mut s = HidState::for_profile(&default_sf6_profile(), false);
    let a = s.process_report(&report(0x03, 0, 0));
    assert_eq!(
        shows(&a),
        vec!["button 1 true btn1".to_string(), "button 2 true btn2".to_string(), "hat 0 up".to_string()]
    );
    s.set_relay_active(true);
    let a = s.process_report(&report(0x01, 0, 0));
    assert_eq!(shows(&a), vec![format!("key {:#x} up", 0x26), "button 2 false btn2".to_string()]);
}

#[test]
fn hat_moves() {
    let mut s = HidState::for_profile(&default_sf6_profile(), true);
    let a = s.process_report(&report(0, 0, 1));
    assert_eq!(
        shows(&a),
        vec![format!("key {:#x} down", KEY_W), format!("key {:#x} down", KEY_D), "hat 1 up,right".to_string()]
    );
    assert_eq!(s.prev_wasd, [true, false, false, true]);
    let a = s.process_report(&report(0, 0, 5));
    assert_eq!(
        shows(&a),
        vec![
            format!("key {:#x} up", KEY_W),
            format!("key {:#x} down", KEY_A),
            format!("key {:#x} down", KEY_S),
            format!("key {:#x} up", KEY_D),
            "hat 5 left,down".to_string(),
        ]
    );
    let a = s.process_report(&report(0, 0, 0x0F));
    assert_eq!(
        shows(&a),
        vec![format!("key {:#x} up", KEY_A), format!("key {:#x} up", KEY_S), "hat 8 ".to_string()]
    );
}

#[test]
fn repeated_report_is_quiet() {
    let mut s = HidState::for_profile(&default_sf6_profile(), true);
    let r = report(0x21, 0x02, 0x83);
    assert!(!s.process_report(&r).is_empty());
    assert!(s.process_report(&r).is_empty());
}

#[test]
fn short_or_failed_reports_are_ignored() {
    let mut s = HidState::for_profile(&default_sf6_profile(), true);
    assert!(s.process_report(&[0xFF, 0xFF, 0]).is_empty());
    assert_eq!(s.prev_report, INITIAL_REPORT);
    assert!(s.on_input_report(-1, &report(1, 0, 8)).is_empty());
    assert!(s.on_input_report(0, &[1, 0, 8, 128]).is_empty());
    assert!(s.on_input_report(0, &INITIAL_REPORT).is_empty());
    assert_eq!(s.prev_report, INITIAL_REPORT);
    let a = s.on_input_report(0, &[1, 0, 8, 128, 128, 128, 128, 0, 99]);
    assert_eq!(a.len(), 2);
    assert_eq!(s.prev_report, report(1, 0, 8));
}

#[test]
fn update_mappings_keeps_history() {
    let mut s = HidState::new(vec![], [KEY_NONE; 4], true);
    let a = s.process_report(&report(1, 0, 8));
    assert_eq!(shows(&a), vec!["button 1 true btn1".to_string()]);
    s.update_mappings(&default_sf6_profile());
    assert_eq!(s.prev_report, report(1, 0, 8));
    let a = s.process_report(&report(0, 0, 8));
    assert_eq!(shows(&a), vec![format!("key {:#x} up", KEY_U), "button 1 false btn1".to_string()]);
}

#[test]
fn key_strokes() {
    assert_eq!(key_stroke(KEY_NONE, true), None);
    assert_eq!(key_stroke(KEY_U, false), Some(KeyStroke { code: KEY_U, down: false }));
}

#[test]
fn device_events() {
    let e = DeviceEvent::connected(None);
    assert_eq!(e.name, "Unknown Device");
    assert!(e.connected);
    let e = DeviceEvent::connected(Some("Brook".to_string()));
    assert_eq!(e.name, "Brook");
    let e = DeviceEvent::removed();
    assert_eq!(e.name, "");
    assert!(!e.connected);
}

#[test]
fn open_options_fall_back_to_shared() {
    assert_eq!(open_options(true), (1, 0));
    assert_eq!(open_options(false), (0, 0));
}

#[test]
fn dpad_codes_are_up_down_left_right() {
    let mut s = HidState::new(vec![], [10, 20, 30, 40], true);
    let a = s.process_report(&report(0, 0, 6));
    assert_eq!(shows(&a), vec![format!("key {:#x} down", 30), "hat 6 left".to_string()]);
    let a = s.process_report(&report(0, 0, 4));
    assert_eq!(
        shows(&a),
        vec![format!("key {:#x} up", 30), format!("key {:#x} down", 20), "hat 4 down".to_string()]
    );
    let a = s.process_report(&report(0, 0, 1));
    assert_eq!(
        shows(&a),
        vec![
            format!("key {:#x} down", 10),
            format!("key {:#x} up", 20),
            format!("key {:#x} down", 40),
            "hat 1 up,right".to_string(),
        ]
    );
}
