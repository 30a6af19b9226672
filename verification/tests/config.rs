use brook_controller_relay::config::{
    button_key, config_dir, config_path, default_sf6_profile, resolve_keycodes, AppConfig, ButtonMapping,
    DpadMapping, Profile,
};
use brook_controller_relay::keycodes::{
    KEY_A, KEY_D, KEY_E, KEY_ESCAPE, KEY_F, KEY_H, KEY_I, KEY_J, KEY_K, KEY_L, KEY_NONE, KEY_O, KEY_Q, KEY_S,
    KEY_TAB, KEY_U, KEY_W, KEY_Y,
};
use brook_controller_relay::named_map::NamedMap;

fn one_button_profile(key: &str, primary: &str, secondary: Option<&str>) -> Profile {
    let mut buttons = NamedMap::new();
    buttons.insert(
        key.to_string(),
        ButtonMapping {
            primary: primary.to_string(),
            secondary: secondary.map(|s| s.to_string()),
            label: "x".to_string(),
        },
    );
    Profile {
        buttons,
        dpad: DpadMapping {
            up: "UpArrow".to_string(),
            down: "DownArrow".to_string(),
            left: "LeftArrow".to_string(),
            right: "RightArrow".to_string(),
        },
    }
}

#[test]
fn default_profile_contents() {
    let p = default_sf6_profile();
    assert_eq!(p.buttons.len(), 15);
    let b1 = p.buttons.get("btn1").unwrap();
    assert_eq!(b1.primary, "U");
    assert_eq!(b1.secondary, None);
    assert_eq!(b1.label, "Light");
    let b5 = p.buttons.get("btn5").unwrap();
    assert_eq!(b5.primary, "Y");
    assert_eq!(b5.secondary.as_deref(), Some("E"));
    assert_eq!(b5.label, "Impact / Tab→");
    let b6 = p.buttons.get("btn6").unwrap();
    assert_eq!(b6.label, "L+M / Tab←");
    assert_eq!(p.buttons.get("btn15").unwrap().label, "Extra");
    assert!(p.buttons.get("btn16").is_none());
    assert_eq!(p.dpad.up, "W");
    assert_eq!(p.dpad.down, "S");
    assert_eq!(p.dpad.left, "A");
    assert_eq!(p.dpad.right, "D");
}

#[test]
fn default_profile_resolves_to_sf6_keys() {
    let (buttons, dpad) = resolve_keycodes(&default_sf6_profile());
    assert_eq!(
        buttons,
        vec![
            (KEY_U, KEY_NONE),
            (KEY_J, KEY_NONE),
            (KEY_K, KEY_NONE),
            (KEY_I, KEY_NONE),
            (KEY_Y, KEY_E),
            (KEY_H, KEY_Q),
            (KEY_O, KEY_NONE),
            (KEY_L, KEY_NONE),
            (KEY_NONE, KEY_NONE),
            (KEY_F, KEY_NONE),
            (KEY_NONE, KEY_NONE),
            (KEY_NONE, KEY_NONE),
            (KEY_ESCAPE, KEY_NONE),
            (KEY_TAB, KEY_NONE),
            (KEY_NONE, KEY_NONE),
        ]
    );
    assert_eq!(dpad, [KEY_W, KEY_S, KEY_A, KEY_D]);
}

#[test]
fn unmapped_buttons_resolve_to_none() {
    let p = one_button_profile("btn3", "escape", Some("nonsense"));
    let (buttons, dpad) = resolve_keycodes(&p);
    assert_eq!(buttons.len(), 15);
    assert_eq!(buttons[2], (KEY_ESCAPE, KEY_NONE));
    assert_eq!(buttons[0], (KEY_NONE, KEY_NONE));
    assert_eq!(buttons[14], (KEY_NONE, KEY_NONE));
    assert_eq!(dpad, [0x7E, 0x7D, 0x7B, 0x7C]);
}

#[test]
fn button_keys() {
    assert_eq!(button_key(1), "btn1");
    assert_eq!(button_key(15), "btn15");
}

#[test]
fn default_config() {
    let c = AppConfig::default();
    assert_eq!(c.active_profile, "SF6 Modern");
    assert_eq!(c.device.vid, "0x0f0d");
    assert_eq!(c.device.pid, "0x0202");
    assert!(c.device.seize);
    assert!(!c.auto_start);
    assert_eq!(c.list_profiles(), vec!["SF6 Modern".to_string()]);
    assert!(c.active_profile_mappings().is_some());
}

#[test]
fn save_then_load_profile() {
    let mut c = AppConfig::default();
    c.save_profile("Mine".to_string(), one_button_profile("btn1", "Space", None));
    let p = c.load_profile("Mine").unwrap();
    assert_eq!(p.buttons.get("btn1").unwrap().primary, "Space");
    let mut names = c.list_profiles();
    names.sort();
    assert_eq!(names, vec!["Mine".to_string(), "SF6 Modern".to_string()]);
    c.save_profile("Mine".to_string(), one_button_profile("btn1", "Tab", None));
    assert_eq!(c.load_profile("Mine").unwrap().buttons.get("btn1").unwrap().primary, "Tab");
    assert_eq!(c.list_profiles().len(), 2);
}

#[test]
fn load_missing_profile() {
    let c = AppConfig::default();
    assert_eq!(c.load_profile("Other").err().unwrap(), "Profile 'Other' not found");
}

#[test]
fn delete_profile_rules() {
    let mut c = AppConfig::default();
    assert_eq!(c.delete_profile("SF6 Modern").err().unwrap(), "Cannot delete the last profile");
    c.save_profile("Mine".to_string(), default_sf6_profile());
    assert_eq!(
        c.delete_profile("SF6 Modern").err().unwrap(),
        "Cannot delete the active profile. Switch to another profile first."
    );
    assert_eq!(c.delete_profile("Mine"), Ok(()));
    assert!(c.load_profile("Mine").is_err());
    assert_eq!(c.list_profiles().len(), 1);
    c.save_profile("Mine".to_string(), default_sf6_profile());
    assert_eq!(c.delete_profile("Absent"), Ok(()));
    assert_eq!(c.list_profiles().len(), 2);
}

#[test]
fn relay_settings_of_default_config() {
    let c = AppConfig::default();
    let s = c.relay_settings().unwrap();
    assert_eq!(s.vid, 0x0f0d);
    assert_eq!(s.pid, 0x0202);
    assert!(s.seize);
    assert_eq!(s.profile.buttons.len(), 15);
}

#[test]
fn relay_settings_errors() {
    let mut c = AppConfig::default();
    c.device.vid = "0xzz".to_string();
    assert_eq!(c.relay_settings().err().unwrap(), "Invalid VID: invalid digit found in string");
    c.device.vid = "0x".to_string();
    assert_eq!(c.relay_settings().err().unwrap(), "Invalid VID: cannot parse integer from empty string");
    c.device.vid = "0x0f0d".to_string();
    c.device.pid = "0x100000000".to_string();
    assert_eq!(c.relay_settings().err().unwrap(), "Invalid PID: number too large to fit in target type");
    c.device.pid = "0x0202".to_string();
    c.active_profile = "Gone".to_string();
    assert_eq!(c.relay_settings().err().unwrap(), "Active profile not found");
}

#[test]
fn auto_start_falls_back() {
    let mut c = AppConfig::default();
    c.device.vid = "0xnope".to_string();
    c.device.pid = "0x1".to_string();
    c.active_profile = "Gone".to_string();
    c.device.seize = false;
    let s = c.auto_start_settings();
    assert_eq!(s.vid, 0x0f0d);
    assert_eq!(s.pid, 1);
    assert!(!s.seize);
    assert_eq!(s.profile.buttons.get("btn2").unwrap().primary, "J");
}

#[test]
fn config_paths() {
    assert_eq!(config_dir("/Users/me"), "/Users/me/Library/Application Support/brook-controller-relay");
    assert_eq!(
        config_path("/Users/me"),
        "/Users/me/Library/Application Support/brook-controller-relay/config.json"
    );
    assert_eq!(
        config_path("/Users/me/"),
        "/Users/me/Library/Application Support/brook-controller-relay/config.json"
    );
    assert_eq!(config_path(""), "Library/Application Support/brook-controller-relay/config.json");
}

#[test]
fn clone_keeps_everything() {
    let mut c = AppConfig::default();
    c.save_profile("Mine".to_string(), one_button_profile("btn2", "Q", Some("E")));
    let d = c.clone();
    assert_eq!(d.active_profile, c.active_profile);
    assert_eq!(d.list_profiles(), c.list_profiles());
    let b = d.load_profile("Mine").unwrap();
    assert_eq!(b.buttons.get("btn2").unwrap().secondary.as_deref(), Some("E"));
}
