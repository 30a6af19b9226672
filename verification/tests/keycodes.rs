use brook_controller_relay::keycodes::{
    all_keys, key_code, key_name, KEY_A, KEY_D, KEY_E, KEY_ESCAPE, KEY_F12, KEY_G, KEY_LEFT_BRACKET, KEY_NONE,
    KEY_U, KEY_UP_ARROW,
};

#[test]
fn all_keys_has_every_entry_in_order() {
    let keys = all_keys();
    assert_eq!(keys.len(), 69);
    assert_eq!(keys[0].name, "A");
    assert_eq!(keys[0].code, KEY_A);
    assert_eq!(keys[25].name, "Z");
    assert_eq!(keys[26].name, "0");
    assert_eq!(keys[36].name, "Space");
    assert_eq!(keys[36].display, "␣");
    assert_eq!(keys[39].name, "Escape");
    assert_eq!(keys[39].display, "⎋");
    assert_eq!(keys[51].name, "Grave");
    assert_eq!(keys[51].display, "`");
    assert_eq!(keys[50].display, "\\");
    assert_eq!(keys[52].name, "UpArrow");
    assert_eq!(keys[52].code, KEY_UP_ARROW);
    assert_eq!(keys[67].name, "F12");
    assert_eq!(keys[67].code, KEY_F12);
    assert_eq!(keys[68].name, "None");
    assert_eq!(keys[68].code, KEY_NONE);
    assert_eq!(keys[68].display, "—");
}

#[test]
fn key_code_finds_names() {
    assert_eq!(key_code("U"), KEY_U);
    assert_eq!(key_code("Escape"), KEY_ESCAPE);
    assert_eq!(key_code("LeftBracket"), KEY_LEFT_BRACKET);
    assert_eq!(key_code("UpArrow"), KEY_UP_ARROW);
}

#[test]
fn key_code_ignores_ascii_case() {
    assert_eq!(key_code("u"), KEY_U);
    assert_eq!(key_code("ESCAPE"), KEY_ESCAPE);
    assert_eq!(key_code("leftbracket"), KEY_LEFT_BRACKET);
    assert_eq!(key_code("f12"), KEY_F12);
}

#[test]
fn key_code_of_none_and_unknown_names() {
    assert_eq!(key_code("None"), KEY_NONE);
    assert_eq!(key_code("none"), KEY_NONE);
    assert_eq!(key_code(""), KEY_NONE);
    assert_eq!(key_code("Hyper"), KEY_NONE);
    assert_eq!(key_code("É"), KEY_NONE);
    assert_eq!(key_code(" A"), KEY_NONE);
}

#[test]
fn key_name_finds_codes() {
    assert_eq!(key_name(KEY_A), "A");
    assert_eq!(key_name(KEY_G), "G");
    assert_eq!(key_name(KEY_D), "D");
    assert_eq!(key_name(KEY_E), "E");
    assert_eq!(key_name(KEY_ESCAPE), "Escape");
    assert_eq!(key_name(KEY_NONE), "None");
}

#[test]
fn key_name_of_unknown_codes_is_hex() {
    assert_eq!(key_name(0x0A), "0x0A");
    assert_eq!(key_name(0x34), "0x34");
    assert_eq!(key_name(0x7F), "0x7F");
    assert_eq!(key_name(0x100), "0x100");
    assert_eq!(key_name(0xBEEF), "0xBEEF");
}

#[test]
fn every_key_round_trips() {
    for entry in all_keys() {
        assert_eq!(key_code(&entry.name), entry.code);
        assert_eq!(key_name(entry.code), entry.name);
        assert_eq!(key_code(&key_name(entry.code)), entry.code);
        assert_eq!(key_code(&entry.name.to_ascii_lowercase()), entry.code);
    }
}

#[test]
fn unknown_code_names_find_no_key() {
    for code in [0x0Au16, 0x34, 0x7F, 0x100, 0xBEEF] {
        assert_eq!(key_code(&key_name(code)), KEY_NONE);
    }
}
