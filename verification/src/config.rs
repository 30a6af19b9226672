//! Configuration: button mappings, profiles, the device to relay and the
//! application settings, with the operations the user interface performs on
//! them.

use vstd::prelude::*;

use crate::device::{id_error_message, parse_device_id, spec_parse_device_id};
use crate::keycodes::{is_key_name, key_code, key_table, spec_key_code, KEY_NONE};
use crate::named_map::NamedMap;
use crate::text::{chars_of, decimal, push_decimal, str_eq};

verus! {

/// Number of buttons a profile maps.
pub const MAPPED_BUTTONS: usize = 15;

/// The mapping key of button number `n` (counted from 1): "btn" followed by `n`.
pub open spec fn button_label(n: nat) -> Seq<char> {
    "btn"@ + decimal(n)
}

/// The mapping key of button number `n`, such as "btn3".
pub fn button_key(n: usize) -> (s: String)
    ensures
        s@ == button_label(n as nat),
{
    let mut s = String::from_str("btn");
    push_decimal(&mut s, n as u64);
    s
}

/// A single button mapping: which keyboard keys to send when this HID button
/// is pressed.
#[derive(Debug)]
pub struct ButtonMapping {
    /// Primary keyboard key name (e.g., "U", "J", "Escape").
    pub primary: String,
    /// Optional secondary key (for dual-key buttons like L+M + Tab).
    pub secondary: Option<String>,
    /// User-visible label (e.g., "Light Attack", "Parry").
    pub label: String,
}

/// Mathematical form of a `ButtonMapping`.
pub struct ButtonView {
    pub primary: Seq<char>,
    pub secondary: Option<Seq<char>>,
    pub label: Seq<char>,
}

impl View for ButtonMapping {
    type V = ButtonView;

    open spec fn view(&self) -> ButtonView {
        ButtonView {
            primary: self.primary@,
            secondary: match self.secondary {
                Some(s) => Some(s@),
                None => None,
            },
            label: self.label@,
        }
    }
}

/// D-pad key assignments (normally WASD).
#[derive(Debug)]
pub struct DpadMapping {
    pub up: String,
    pub down: String,
    pub left: String,
    pub right: String,
}

/// Mathematical form of a `DpadMapping`.
pub struct DpadView {
    pub up: Seq<char>,
    pub down: Seq<char>,
    pub left: Seq<char>,
    pub right: Seq<char>,
}

impl View for DpadMapping {
    type V = DpadView;

    open spec fn view(&self) -> DpadView {
        DpadView { up: self.up@, down: self.down@, left: self.left@, right: self.right@ }
    }
}

/// A complete mapping profile.
#[derive(Debug)]
pub struct Profile {
    /// Button mappings by mapping key ("btn1" to "btn15").
    pub buttons: NamedMap<ButtonMapping>,
    pub dpad: DpadMapping,
}

/// Mathematical form of a `Profile`.
pub struct ProfileView {
    pub buttons: Map<Seq<char>, ButtonView>,
    pub dpad: DpadView,
}

impl View for Profile {
    type V = ProfileView;

    open spec fn view(&self) -> ProfileView {
        ProfileView { buttons: self.buttons@.map_values(|b: ButtonMapping| b@), dpad: self.dpad@ }
    }
}

/// Device identification.
#[derive(Debug)]
pub struct DeviceConfig {
    /// Vendor id, written in hexadecimal such as "0x0f0d".
    pub vid: String,
    /// Product id, written in hexadecimal such as "0x0202".
    pub pid: String,
    /// Whether to open the device exclusively.
    pub seize: bool,
}

/// Mathematical form of a `DeviceConfig`.
pub struct DeviceView {
    pub vid: Seq<char>,
    pub pid: Seq<char>,
    pub seize: bool,
}

impl View for DeviceConfig {
    type V = DeviceView;

    open spec fn view(&self) -> DeviceView {
        DeviceView { vid: self.vid@, pid: self.pid@, seize: self.seize }
    }
}

/// Top-level configuration.
#[derive(Debug)]
pub struct AppConfig {
    /// Name of the profile in use.
    pub active_profile: String,
    pub device: DeviceConfig,
    /// Profiles by name.
    pub profiles: NamedMap<Profile>,
    /// Start the relay automatically when the app opens.
    pub auto_start: bool,
}

/// Mathematical form of an `AppConfig`.
pub struct ConfigView {
    pub active_profile: Seq<char>,
    pub device: DeviceView,
    pub profiles: Map<Seq<char>, ProfileView>,
    pub auto_start: bool,
}

impl View for AppConfig {
    type V = ConfigView;

    open spec fn view(&self) -> ConfigView {
        ConfigView {
            active_profile: self.active_profile@,
            device: self.device@,
            profiles: self.profiles@.map_values(|p: Profile| p@),
            auto_start: self.auto_start,
        }
    }
}

impl Clone for ButtonMapping {
    fn clone(&self) -> (r: Self)
        ensures
            r@ == self@,
    {
        ButtonMapping {
            primary: self.primary.clone(),
            secondary: match &self.secondary {
                Some(s) => Some(s.clone()),
                None => None,
            },
            label: self.label.clone(),
        }
    }
}

impl Clone for DpadMapping {
    fn clone(&self) -> (r: Self)
        ensures
            r@ == self@,
    {
        DpadMapping {
            up: self.up.clone(),
            down: self.down.clone(),
            left: self.left.clone(),
            right: self.right.clone(),
        }
    }
}

impl Clone for Profile {
    fn clone(&self) -> (r: Self)
        ensures
            r@ == self@,
    {
        let buttons = self.buttons.clone();
        let r = Profile { buttons, dpad: self.dpad.clone() };
        assert(r@.buttons =~= self@.buttons);
        r
    }
}

impl Clone for DeviceConfig {
    fn clone(&self) -> (r: Self)
        ensures
            r@ == self@,
    {
        DeviceConfig { vid: self.vid.clone(), pid: self.pid.clone(), seize: self.seize }
    }
}

impl Clone for AppConfig {
    fn clone(&self) -> (r: Self)
        ensures
            r@ == self@,
    {
        let profiles = self.profiles.clone();
        let r = AppConfig {
            active_profile: self.active_profile.clone(),
            device: self.device.clone(),
            profiles,
            auto_start: self.auto_start,
        };
        assert(r@.profiles =~= self@.profiles);
        r
    }
}

/// The button mappings of the SF6 Modern Controls default profile.
pub open spec fn sf6_buttons() -> Map<Seq<char>, ButtonView> {
    Map::<Seq<char>, ButtonView>::empty()
        .insert(button_label(1), ButtonView { primary: "U"@, secondary: None, label: "Light"@ })
        .insert(button_label(2), ButtonView { primary: "J"@, secondary: None, label: "Medium"@ })
        .insert(button_label(3), ButtonView { primary: "K"@, secondary: None, label: "Heavy"@ })
        .insert(button_label(4), ButtonView { primary: "I"@, secondary: None, label: "Special"@ })
        .insert(button_label(5), ButtonView { primary: "Y"@, secondary: Some("E"@), label: "Impact / Tab→"@ })
        .insert(button_label(6), ButtonView { primary: "H"@, secondary: Some("Q"@), label: "L+M / Tab←"@ })
        .insert(button_label(7), ButtonView { primary: "O"@, secondary: None, label: "Parry"@ })
        .insert(button_label(8), ButtonView { primary: "L"@, secondary: None, label: "Assist"@ })
        .insert(button_label(9), ButtonView { primary: "None"@, secondary: None, label: "Touch"@ })
        .insert(button_label(10), ButtonView { primary: "F"@, secondary: None, label: "Start"@ })
        .insert(button_label(11), ButtonView { primary: "None"@, secondary: None, label: "L3"@ })
        .insert(button_label(12), ButtonView { primary: "None"@, secondary: None, label: "R3"@ })
        .insert(button_label(13), ButtonView { primary: "Escape"@, secondary: None, label: "Home"@ })
        .insert(button_label(14), ButtonView { primary: "Tab"@, secondary: None, label: "Select"@ })
        .insert(button_label(15), ButtonView { primary: "None"@, secondary: None, label: "Extra"@ })
}

/// The SF6 Modern Controls default profile: the buttons of `sf6_buttons`, and
/// the d-pad on W, S, A, D.
pub open spec fn sf6_profile() -> ProfileView {
    ProfileView {
        buttons: sf6_buttons(),
        dpad: DpadView { up: "W"@, down: "S"@, left: "A"@, right: "D"@ },
    }
}

/// Sets the mapping of button number `n`.
fn insert_button(
    buttons: &mut NamedMap<ButtonMapping>,
    n: usize,
    primary: &str,
    secondary: Option<String>,
    label: &str,
)
    ensures
        final(buttons)@.map_values(|b: ButtonMapping| b@) == old(buttons)@.map_values(
            |b: ButtonMapping| b@,
        ).insert(
            button_label(n as nat),
            ButtonView {
                primary: primary@,
                secondary: match secondary {
                    Some(s) => Some(s@),
                    None => None,
                },
                label: label@,
            },
        ),
{
    let mapping = ButtonMapping {
        primary: String::from_str(primary),
        secondary,
        label: String::from_str(label),
    };
    let key = button_key(n);
    buttons.insert(key, mapping);
    assert(buttons@.map_values(|b: ButtonMapping| b@) =~= old(buttons)@.map_values(
        |b: ButtonMapping| b@,
    ).insert(button_label(n as nat), mapping@));
}

/// The SF6 Modern Controls default mapping.
pub fn default_sf6_profile() -> (p: Profile)
    ensures
        p@ == sf6_profile(),
{
    let mut buttons: NamedMap<ButtonMapping> = NamedMap::new();
    assert(buttons@.map_values(|b: ButtonMapping| b@) =~= Map::<Seq<char>, ButtonView>::empty());
    insert_button(&mut buttons, 1, "U", None, "Light");
    insert_button(&mut buttons, 2, "J", None, "Medium");
    insert_button(&mut buttons, 3, "K", None, "Heavy");
    insert_button(&mut buttons, 4, "I", None, "Special");
    insert_button(&mut buttons, 5, "Y", Some(String::from_str("E")), "Impact / Tab→");
    insert_button(&mut buttons, 6, "H", Some(String::from_str("Q")), "L+M / Tab←");
    insert_button(&mut buttons, 7, "O", None, "Parry");
    insert_button(&mut buttons, 8, "L", None, "Assist");
    insert_button(&mut buttons, 9, "None", None, "Touch");
    insert_button(&mut buttons, 10, "F", None, "Start");
    insert_button(&mut buttons, 11, "None", None, "L3");
    insert_button(&mut buttons, 12, "None", None, "R3");
    insert_button(&mut buttons, 13, "Escape", None, "Home");
    insert_button(&mut buttons, 14, "Tab", None, "Select");
    insert_button(&mut buttons, 15, "None", None, "Extra");
    let p = Profile {
        buttons,
        dpad: DpadMapping {
            up: String::from_str("W"),
            down: String::from_str("S"),
            left: String::from_str("A"),
            right: String::from_str("D"),
        },
    };
    assert(p@.buttons =~= sf6_buttons());
    p
}

/// The key codes that a button mapping resolves to: the codes of its primary
/// and secondary keys (`KEY_NONE` where there is no secondary key).
pub open spec fn resolve_mapping(m: ButtonView) -> (u16, u16) {
    (
        spec_key_code(m.primary),
        match m.secondary {
            Some(s) => spec_key_code(s),
            None => KEY_NONE,
        },
    )
}

/// The key codes of button number `n` (counted from 1) in a profile:
/// `(KEY_NONE, KEY_NONE)` when the profile does not map it.
pub open spec fn resolve_button(buttons: Map<Seq<char>, ButtonView>, n: nat) -> (u16, u16) {
    if buttons.contains_key(button_label(n)) {
        resolve_mapping(buttons[button_label(n)])
    } else {
        (KEY_NONE, KEY_NONE)
    }
}

/// The d-pad key codes of a profile, in the order up, down, left, right.
pub open spec fn resolve_dpad(d: DpadView) -> Seq<u16> {
    seq![spec_key_code(d.up), spec_key_code(d.down), spec_key_code(d.left), spec_key_code(d.right)]
}

/// Resolve a profile's button mapping to actual keycodes for the relay engine.
/// Returns the (primary, secondary) key codes of buttons 1 to 15, in order,
/// and the d-pad key codes (up, down, left, right).
pub fn resolve_keycodes(profile: &Profile) -> (r: (Vec<(u16, u16)>, [u16; 4]))
    ensures
        r.0@.len() == MAPPED_BUTTONS,
        forall|i: int| 0 <= i < MAPPED_BUTTONS ==> r.0@[i] == resolve_button(profile@.buttons, (i + 1) as nat),
        r.1@ == resolve_dpad(profile@.dpad),
{
    let mut button_codes: Vec<(u16, u16)> = Vec::new();
    let mut i: usize = 1;
    while i <= MAPPED_BUTTONS
        invariant
            1 <= i <= MAPPED_BUTTONS + 1,
            button_codes@.len() == i - 1,
            forall|j: int| 0 <= j < i - 1 ==> button_codes@[j] == resolve_button(profile@.buttons, (j + 1) as nat),
        decreases MAPPED_BUTTONS + 1 - i,
    {
        let key = button_key(i);
        match profile.buttons.get(key.as_str()) {
            Some(mapping) => {
                let primary = key_code(mapping.primary.as_str());
                let secondary = match &mapping.secondary {
                    Some(s) => key_code(s.as_str()),
                    None => KEY_NONE,
                };
                assert(profile@.buttons[button_label(i as nat)] == mapping@);
                button_codes.push((primary, secondary));
            },
            None => {
                button_codes.push((KEY_NONE, KEY_NONE));
            },
        }
        i += 1;
    }
    let dpad = [
        key_code(profile.dpad.up.as_str()),
        key_code(profile.dpad.down.as_str()),
        key_code(profile.dpad.left.as_str()),
        key_code(profile.dpad.right.as_str()),
    ];
    assert(dpad@ =~= resolve_dpad(profile@.dpad));
    (button_codes, dpad)
}

/// `base` joined with the relative path `part`, as `Path::join` does on a
/// platform whose separator is '/': a separator is put between them unless
/// `base` is empty or already ends with one.
pub open spec fn join_path(base: Seq<char>, part: Seq<char>) -> Seq<char> {
    if base.len() > 0 && base.last() != '/' {
        base + seq!['/'] + part
    } else {
        base + part
    }
}

/// The directory holding the configuration, under the home directory `home`:
/// Library/Application Support/brook-controller-relay.
pub open spec fn spec_config_dir(home: Seq<char>) -> Seq<char> {
    join_path(join_path(join_path(home, "Library"@), "Application Support"@), "brook-controller-relay"@)
}

/// The configuration file: config.json in the configuration directory.
pub open spec fn spec_config_path(home: Seq<char>) -> Seq<char> {
    join_path(spec_config_dir(home), "config.json"@)
}

/// Join a relative path component to a path.
fn join_path_exec(base: String, part: &str) -> (r: String)
    ensures
        r@ == join_path(base@, part@),
{
    let chars = chars_of(base.as_str());
    let n = chars.len();
    let mut r = base;
    if n > 0 && chars[n - 1] != '/' {
        r.append("/");
        proof {
            reveal_strlit("/");
        }
    }
    r.append(part);
    assert(r@ =~= join_path(base@, part@));
    r
}

/// The directory holding the configuration, given the home directory.
pub fn config_dir(home: &str) -> (d: String)
    ensures
        d@ == spec_config_dir(home@),
{
    let d = join_path_exec(String::from_str(home), "Library");
    let d = join_path_exec(d, "Application Support");
    join_path_exec(d, "brook-controller-relay")
}

/// The configuration file's path, given the home directory.
pub fn config_path(home: &str) -> (p: String)
    ensures
        p@ == spec_config_path(home@),
{
    join_path_exec(config_dir(home), "config.json")
}

/// The name of the default profile.
pub open spec fn default_profile_name() -> Seq<char> {
    "SF6 Modern"@
}

impl Default for AppConfig {
    /// The configuration used when none is stored: the SF6 Modern profile, active,
    /// for the Brook controller (vendor 0x0f0d, product 0x0202) opened exclusively,
    /// without automatic start.
    fn default() -> (c: Self)
        ensures
            c@.active_profile == default_profile_name(),
            c@.device == (DeviceView { vid: "0x0f0d"@, pid: "0x0202"@, seize: true }),
            c@.profiles == Map::<Seq<char>, ProfileView>::empty().insert(default_profile_name(), sf6_profile()),
            !c@.auto_start,
    {
        let mut profiles: NamedMap<Profile> = NamedMap::new();
        let profile = default_sf6_profile();
        profiles.insert(String::from_str("SF6 Modern"), profile);
        let c = AppConfig {
            active_profile: String::from_str("SF6 Modern"),
            device: DeviceConfig {
                vid: String::from_str("0x0f0d"),
                pid: String::from_str("0x0202"),
                seize: true,
            },
            profiles,
            auto_start: false,
        };
        assert(c@.profiles =~= Map::<Seq<char>, ProfileView>::empty().insert(default_profile_name(), sf6_profile()));
        c
    }
}

/// The message for a profile that does not exist.
pub open spec fn profile_not_found(name: Seq<char>) -> Seq<char> {
    "Profile '"@ + name + "' not found"@
}

/// The message refusing to delete the only profile.
pub open spec fn last_profile_message() -> Seq<char> {
    "Cannot delete the last profile"@
}

/// The message refusing to delete the active profile.
pub open spec fn active_profile_message() -> Seq<char> {
    "Cannot delete the active profile. Switch to another profile first."@
}

/// The message for an active profile that does not exist.
pub open spec fn active_profile_missing() -> Seq<char> {
    "Active profile not found"@
}

/// Loading profile `name`: its mappings, or the "not found" message.
pub open spec fn spec_load_profile(c: ConfigView, name: Seq<char>) -> Result<ProfileView, Seq<char>> {
    if c.profiles.contains_key(name) {
        Ok(c.profiles[name])
    } else {
        Err(profile_not_found(name))
    }
}

/// Saving profile `name`: it is created or replaced; nothing else changes.
pub open spec fn spec_save_profile(c: ConfigView, name: Seq<char>, p: ProfileView) -> ConfigView {
    ConfigView { profiles: c.profiles.insert(name, p), ..c }
}

/// Deleting profile `name`: refused when it is the only profile left or the
/// active one; otherwise it is removed (whether or not it existed).
pub open spec fn spec_delete_profile(c: ConfigView, name: Seq<char>) -> (ConfigView, Result<(), Seq<char>>) {
    if c.profiles.len() <= 1 {
        (c, Err(last_profile_message()))
    } else if c.active_profile == name {
        (c, Err(active_profile_message()))
    } else {
        (ConfigView { profiles: c.profiles.remove(name), ..c }, Ok(()))
    }
}

/// What the relay is started with.
#[derive(Debug)]
pub struct RelaySettings {
    pub vid: i32,
    pub pid: i32,
    pub seize: bool,
    pub profile: Profile,
}

impl AppConfig {
    /// A configuration holds finitely many profiles.
    pub proof fn lemma_profiles_finite(&self)
        ensures
            self@.profiles.dom().finite(),
    {
        self.profiles.lemma_finite();
        assert(self@.profiles.dom() =~= self.profiles@.dom());
    }

    /// The active profile, if the configuration holds it.
    pub fn active_profile_mappings(&self) -> (r: Option<&Profile>)
        ensures
            r is None <==> !self@.profiles.contains_key(self@.active_profile),
            r matches Some(p) ==> p@ == self@.profiles[self@.active_profile],
    {
        self.profiles.get(self.active_profile.as_str())
    }

    /// The names of all profiles, each once.
    pub fn list_profiles(&self) -> (names: Vec<String>)
        ensures
            names@.map_values(|s: String| s@).no_duplicates(),
            names@.map_values(|s: String| s@).to_set() == self@.profiles.dom(),
    {
        let names = self.profiles.keys();
        assert(self@.profiles.dom() =~= self.profiles@.dom());
        names
    }

    /// A copy of profile `name`, or the "not found" message.
    pub fn load_profile(&self, name: &str) -> (r: Result<Profile, String>)
        ensures
            match r {
                Ok(p) => spec_load_profile(self@, name@) == Ok::<ProfileView, Seq<char>>(p@),
                Err(m) => spec_load_profile(self@, name@) == Err::<ProfileView, Seq<char>>(m@),
            },
    {
        match self.profiles.get(name) {
            Some(p) => Ok(p.clone()),
            None => {
                let mut m = String::from_str("Profile '");
                m.append(name);
                m.append("' not found");
                Err(m)
            },
        }
    }

    /// Create or replace profile `name`.
    pub fn save_profile(&mut self, name: String, profile: Profile)
        ensures
            final(self)@ == spec_save_profile(old(self)@, name@, profile@),
    {
        let ghost k = name@;
        let ghost v = profile@;
        self.profiles.insert(name, profile);
        assert(self@.profiles =~= old(self)@.profiles.insert(k, v));
    }

    /// Delete profile `name`, unless it is the only one or the active one.
    pub fn delete_profile(&mut self, name: &str) -> (r: Result<(), String>)
        ensures
            (final(self)@, match r {
                Ok(()) => Ok::<(), Seq<char>>(()),
                Err(m) => Err(m@),
            }) == spec_delete_profile(old(self)@, name@),
    {
        assert(self@.profiles.dom() =~= self.profiles@.dom());
        if self.profiles.len() <= 1 {
            return Err(String::from_str("Cannot delete the last profile"));
        }
        if str_eq(self.active_profile.as_str(), name) {
            return Err(String::from_str("Cannot delete the active profile. Switch to another profile first."));
        }
        self.profiles.remove(name);
        assert(self@.profiles =~= old(self)@.profiles.remove(name@));
        Ok(())
    }

    /// The settings to start the relay with: the device ids parsed from the
    /// configuration and a copy of the active profile, or the message for the
    /// first thing that is wrong.
    pub fn relay_settings(&self) -> (r: Result<RelaySettings, String>)
        ensures
            match spec_parse_device_id(self@.device.vid) {
                Err(e) => r matches Err(m) && m@ == "Invalid VID: "@ + id_error_message(e),
                Ok(vid) => match spec_parse_device_id(self@.device.pid) {
                    Err(e) => r matches Err(m) && m@ == "Invalid PID: "@ + id_error_message(e),
                    Ok(pid) => if self@.profiles.contains_key(self@.active_profile) {
                        r matches Ok(s) && s.vid == vid && s.pid == pid && s.seize == self@.device.seize
                            && s.profile@ == self@.profiles[self@.active_profile]
                    } else {
                        r matches Err(m) && m@ == active_profile_missing()
                    },
                },
            },
    {
        let vid = match parse_device_id(self.device.vid.as_str()) {
            Ok(v) => v,
            Err(e) => {
                let m = String::from_str("Invalid VID: ").concat(e.message().as_str());
                return Err(m);
            },
        };
        let pid = match parse_device_id(self.device.pid.as_str()) {
            Ok(v) => v,
            Err(e) => {
                let m = String::from_str("Invalid PID: ").concat(e.message().as_str());
                return Err(m);
            },
        };
        match self.active_profile_mappings() {
            Some(p) => Ok(RelaySettings { vid, pid, seize: self.device.seize, profile: p.clone() }),
            None => Err(String::from_str("Active profile not found")),
        }
    }

    /// The settings the relay starts with on its own at launch: ids that do
    /// not parse fall back to the Brook controller's (0x0f0d, 0x0202), and a
    /// missing active profile to the SF6 Modern default.
    pub fn auto_start_settings(&self) -> (s: RelaySettings)
        ensures
            s.vid == (match spec_parse_device_id(self@.device.vid) {
                Ok(v) => v,
                Err(_) => 0x0f0d,
            }),
            s.pid == (match spec_parse_device_id(self@.device.pid) {
                Ok(v) => v,
                Err(_) => 0x0202,
            }),
            s.seize == self@.device.seize,
            s.profile@ == (if self@.profiles.contains_key(self@.active_profile) {
                self@.profiles[self@.active_profile]
            } else {
                sf6_profile()
            }),
    {
        let vid = match parse_device_id(self.device.vid.as_str()) {
            Ok(v) => v,
            Err(_) => 0x0f0d,
        };
        let pid = match parse_device_id(self.device.pid.as_str()) {
            Ok(v) => v,
            Err(_) => 0x0202,
        };
        let profile = match self.active_profile_mappings() {
            Some(p) => p.clone(),
            None => default_sf6_profile(),
        };
        RelaySettings { vid, pid, seize: self.device.seize, profile }
    }
}

/// A profile saved under a name is what loading that name gives back.
pub proof fn lemma_load_after_save(c: ConfigView, name: Seq<char>, p: ProfileView)
    ensures
        spec_load_profile(spec_save_profile(c, name, p), name) == Ok::<ProfileView, Seq<char>>(p),
{
}

/// Saving a profile leaves every other profile, and the rest of the
/// configuration, as it was.
pub proof fn lemma_save_keeps_others(c: ConfigView, name: Seq<char>, other: Seq<char>, p: ProfileView)
    requires
        other != name,
    ensures
        spec_load_profile(spec_save_profile(c, name, p), other) == spec_load_profile(c, other),
        spec_save_profile(c, name, p).active_profile == c.active_profile,
        spec_save_profile(c, name, p).device == c.device,
        spec_save_profile(c, name, p).auto_start == c.auto_start,
{
}

/// Deleting a profile never takes away the active profile: if the
/// configuration has it before, it has it, unchanged, after.
pub proof fn lemma_delete_keeps_active(c: ConfigView, name: Seq<char>)
    requires
        c.profiles.contains_key(c.active_profile),
    ensures
        spec_delete_profile(c, name).0.active_profile == c.active_profile,
        spec_load_profile(spec_delete_profile(c, name).0, c.active_profile) == spec_load_profile(
            c,
            c.active_profile,
        ),
{
}

/// Deleting never leaves the configuration without a profile. (Every
/// configuration's profile map is finite: `AppConfig::lemma_profiles_finite`.)
pub proof fn lemma_delete_keeps_a_profile(c: ConfigView, name: Seq<char>)
    requires
        c.profiles.dom().finite(),
        c.profiles.len() >= 1,
    ensures
        spec_delete_profile(c, name).0.profiles.len() >= 1,
{
    if c.profiles.len() > 1 && c.active_profile != name {
        let d = c.profiles.remove(name);
        assert(d.dom() =~= c.profiles.dom().remove(name));
        if c.profiles.contains_key(name) {
            assert(c.profiles.dom().remove(name).len() == c.profiles.dom().len() - 1);
        } else {
            assert(c.profiles.dom().remove(name) =~= c.profiles.dom());
        }
    }
}

/// A profile that was deleted is no longer found; every other profile is
/// kept as it was.
pub proof fn lemma_deleted_profile_is_gone(c: ConfigView, name: Seq<char>, other: Seq<char>)
    requires
        spec_delete_profile(c, name).1 is Ok,
        other != name,
    ensures
        spec_load_profile(spec_delete_profile(c, name).0, name) == Err::<ProfileView, Seq<char>>(
            profile_not_found(name),
        ),
        spec_load_profile(spec_delete_profile(c, name).0, other) == spec_load_profile(c, other),
{
}

/// Every key name in the SF6 default profile (each primary key, each
/// secondary key and each d-pad key) is the name of a key in the table.
pub proof fn lemma_sf6_names_are_keys()
    ensures
        forall|k: Seq<char>|
            #[trigger] sf6_buttons().contains_key(k) ==> is_key_name(sf6_buttons()[k].primary) && (
            sf6_buttons()[k].secondary matches Some(n) ==> is_key_name(n)),
        is_key_name(sf6_profile().dpad.up),
        is_key_name(sf6_profile().dpad.down),
        is_key_name(sf6_profile().dpad.left),
        is_key_name(sf6_profile().dpad.right),
{
    reveal_strlit("U");
    reveal_strlit("J");
    reveal_strlit("K");
    reveal_strlit("I");
    reveal_strlit("Y");
    reveal_strlit("E");
    reveal_strlit("H");
    reveal_strlit("Q");
    reveal_strlit("O");
    reveal_strlit("L");
    reveal_strlit("F");
    reveal_strlit("W");
    reveal_strlit("S");
    reveal_strlit("A");
    reveal_strlit("D");
    reveal_strlit("Tab");
    reveal_strlit("Escape");
    reveal_strlit("None");
    assert(key_table()[20].0 =~= "U"@);
    assert(key_table()[9].0 =~= "J"@);
    assert(key_table()[10].0 =~= "K"@);
    assert(key_table()[8].0 =~= "I"@);
    assert(key_table()[24].0 =~= "Y"@);
    assert(key_table()[4].0 =~= "E"@);
    assert(key_table()[7].0 =~= "H"@);
    assert(key_table()[16].0 =~= "Q"@);
    assert(key_table()[14].0 =~= "O"@);
    assert(key_table()[11].0 =~= "L"@);
    assert(key_table()[5].0 =~= "F"@);
    assert(key_table()[22].0 =~= "W"@);
    assert(key_table()[18].0 =~= "S"@);
    assert(key_table()[0].0 =~= "A"@);
    assert(key_table()[3].0 =~= "D"@);
    assert(key_table()[38].0 =~= "Tab"@);
    assert(key_table()[39].0 =~= "Escape"@);
    assert(key_table()[68].0 =~= "None"@);
    assert forall|k: Seq<char>| #[trigger] sf6_buttons().contains_key(k) implies is_key_name(sf6_buttons()[k].primary) && (
        sf6_buttons()[k].secondary matches Some(n) ==> is_key_name(n)) by {
    }
}

} // verus!
