//! Decoding of the controller's 8-byte HID input reports into button and
//! hat-switch changes, and the relay decisions taken on each report.
//!
//! The state kept between reports is `HidState`; each report is turned into an
//! ordered list of `RelayAction`s (keyboard strokes to post and events for the
//! user interface), which the application layer performs.

use vstd::prelude::*;

use crate::keycodes::KEY_NONE;
use crate::relay::{key_stroke, KeyStroke};
use crate::config::{
    button_key, button_label, resolve_button, resolve_dpad, resolve_keycodes, Profile, MAPPED_BUTTONS,
};

verus! {

/// Number of buttons a report carries.
pub const BUTTON_COUNT: usize = 15;

/// The report that the relay assumes before the first one arrives: no button
/// pressed, hat switch neutral, sticks centred.
pub const INITIAL_REPORT: [u8; 8] = [0, 0, 8, 128, 128, 128, 128, 0];

/// A button changed state (payload of the "button-pressed" UI event).
#[derive(Clone, Debug)]
pub struct ButtonEvent {
    /// Button number, counted from 1.
    pub button: usize,
    pub pressed: bool,
    /// The button's mapping key, such as "btn3".
    pub label: String,
}

/// The hat switch moved (payload of the "hat-changed" UI event).
#[derive(Clone, Debug)]
pub struct HatEvent {
    /// Hat position: 0 (up) to 7 clockwise, 8 neutral.
    pub direction: u8,
    /// The d-pad directions now held, among "up", "left", "down", "right".
    pub keys: Vec<String>,
}

/// A controller was connected or disconnected (payload of "device-status").
#[derive(Clone, Debug)]
pub struct DeviceEvent {
    pub name: String,
    pub connected: bool,
}

impl DeviceEvent {
    /// The event for a device that was connected, named by its product name,
    /// or "Unknown Device" when it reports none.
    pub fn connected(name: Option<String>) -> (e: DeviceEvent)
        ensures
            e.connected,
            e.name@ == (match name {
                Some(n) => n@,
                None => "Unknown Device"@,
            }),
    {
        match name {
            Some(n) => DeviceEvent { name: n, connected: true },
            None => DeviceEvent { name: String::from_str("Unknown Device"), connected: true },
        }
    }

    /// The event for a device that was removed: no name.
    pub fn removed() -> (e: DeviceEvent)
        ensures
            !e.connected,
            e.name@ == Seq::<char>::empty(),
    {
        DeviceEvent { name: String::new(), connected: false }
    }
}

/// Option for opening the HID manager without exclusive access.
pub const OPEN_SHARED: u32 = 0x00;

/// Option for opening the HID manager with exclusive access ("seize").
pub const OPEN_SEIZE: u32 = 0x01;

/// The options to open the HID manager with: first with exclusive access if
/// `seize` is set, then, if that fails, once more without.
pub fn open_options(seize: bool) -> (r: (u32, u32))
    ensures
        r.0 == (if seize { OPEN_SEIZE } else { OPEN_SHARED }),
        r.1 == OPEN_SHARED,
{
    (if seize { OPEN_SEIZE } else { OPEN_SHARED }, OPEN_SHARED)
}

/// What the relay does in response to a report, in order.
#[derive(Debug)]
pub enum RelayAction {
    /// Post this keyboard event.
    Key(KeyStroke),
    /// Tell the user interface that a button changed.
    Button(ButtonEvent),
    /// Tell the user interface that the hat switch moved.
    Hat(HatEvent),
}

/// Mathematical form of a `RelayAction`.
pub enum ActionView {
    Key { code: u16, down: bool },
    Button { button: usize, pressed: bool, label: Seq<char> },
    Hat { direction: u8, keys: Seq<Seq<char>> },
}

impl View for RelayAction {
    type V = ActionView;

    open spec fn view(&self) -> ActionView {
        match self {
            RelayAction::Key(k) => ActionView::Key { code: k.code, down: k.down },
            RelayAction::Button(b) => ActionView::Button {
                button: b.button,
                pressed: b.pressed,
                label: b.label@,
            },
            RelayAction::Hat(h) => ActionView::Hat {
                direction: h.direction,
                keys: h.keys@.map_values(|s: String| s@),
            },
        }
    }
}

/// The views of a list of actions.
pub open spec fn action_views(v: Seq<RelayAction>) -> Seq<ActionView> {
    v.map_values(|a: RelayAction| a@)
}

/// Bit `k` (0 = least significant) of `b`.
pub open spec fn bit(b: u8, k: u8) -> bool {
    (b >> k) & 1u8 == 1u8
}

/// Whether button `i` (0-based, below 15) is held in report `r`: buttons 0-7 are
/// the bits of byte 0, buttons 8-13 bits 0-5 of byte 1, button 14 bit 7 of byte 2.
pub open spec fn report_button(r: Seq<u8>, i: int) -> bool {
    if i < 8 {
        bit(r[0], i as u8)
    } else if i < 14 {
        bit(r[1], (i - 8) as u8)
    } else {
        bit(r[2], 7)
    }
}

/// Hat position of report `r`: the low nibble of byte 2, with every value above
/// 8 read as 8 (neutral).
pub open spec fn hat_of(r: Seq<u8>) -> int {
    let h = r[2] & 0x0Fu8;
    if h > 8 {
        8
    } else {
        h as int
    }
}

/// The d-pad keys held at hat position `h`, in the order up (W), left (A),
/// down (S), right (D). Positions go clockwise from 0 (up); 8 is neutral.
pub open spec fn hat_dirs(h: int) -> Seq<bool> {
    seq![
        h == 0 || h == 1 || h == 7,
        h == 5 || h == 6 || h == 7,
        h == 3 || h == 4 || h == 5,
        h == 1 || h == 2 || h == 3,
    ]
}

/// Where direction `i` of `hat_dirs` (up, left, down, right) has its key code
/// among the d-pad codes, which are laid out up, down, left, right.
pub open spec fn dpad_slot(i: int) -> int {
    if i == 1 {
        2
    } else if i == 2 {
        1
    } else {
        i
    }
}

/// The position of direction `i`'s key code among the d-pad codes.
fn dpad_slot_index(i: usize) -> (k: usize)
    requires
        i < 4,
    ensures
        k == dpad_slot(i as int),
        k < 4,
{
    if i == 1 {
        2
    } else if i == 2 {
        1
    } else {
        i
    }
}

/// The names of the d-pad directions, in the order of `hat_dirs`.
pub open spec fn dir_name(i: int) -> Seq<char> {
    if i == 0 {
        "up"@
    } else if i == 1 {
        "left"@
    } else if i == 2 {
        "down"@
    } else {
        "right"@
    }
}

/// The names of the directions held at hat position `h`, in the order of `hat_dirs`.
pub open spec fn held_dir_names(h: int) -> Seq<Seq<char>> {
    held_dir_names_prefix(h, 4)
}

/// The held direction names among the first `n` directions.
pub open spec fn held_dir_names_prefix(h: int, n: int) -> Seq<Seq<char>>
    decreases n,
{
    if n <= 0 {
        seq![]
    } else if hat_dirs(h)[n - 1] {
        held_dir_names_prefix(h, n - 1).push(dir_name(n - 1))
    } else {
        held_dir_names_prefix(h, n - 1)
    }
}

/// The keyboard event posted for `code`, if any.
pub open spec fn stroke_actions(code: u16, down: bool) -> Seq<ActionView> {
    if code == KEY_NONE {
        seq![]
    } else {
        seq![ActionView::Key { code, down }]
    }
}

/// State kept between reports.
#[derive(Debug)]
pub struct HidState {
    /// The last report processed (its first 8 bytes).
    pub prev_report: [u8; 8],
    /// The d-pad keys held after the last report (up, left, down, right).
    pub prev_wasd: [bool; 4],
    /// Primary and secondary key code of each button, by button index.
    pub button_codes: Vec<(u16, u16)>,
    /// Key codes of the d-pad directions (up, down, left, right), as
    /// `resolve_keycodes` gives them.
    pub dpad_codes: [u16; 4],
    /// Whether keyboard events are posted.
    pub relay_active: bool,
}

impl HidState {
    /// What button `i` contributes when report `r` arrives: if its state changed,
    /// the keys mapped to it (when the relay is active and `i` has a mapping),
    /// then the UI event.
    pub open spec fn button_step(self, r: Seq<u8>, i: int) -> Seq<ActionView> {
        let now = report_button(r, i);
        if now != report_button(self.prev_report@, i) {
            let keys = if self.relay_active && i < self.button_codes@.len() {
                stroke_actions(self.button_codes@[i].0, now) + stroke_actions(
                    self.button_codes@[i].1,
                    now,
                )
            } else {
                seq![]
            };
            keys.push(
                ActionView::Button { button: (i + 1) as usize, pressed: now, label: button_label((i + 1) as nat) },
            )
        } else {
            seq![]
        }
    }

    /// The actions of the first `n` buttons.
    pub open spec fn buttons_actions(self, r: Seq<u8>, n: int) -> Seq<ActionView>
        decreases n,
    {
        if n <= 0 {
            seq![]
        } else {
            self.buttons_actions(r, n - 1) + self.button_step(r, n - 1)
        }
    }

    /// What d-pad direction `i` (in the order of `hat_dirs`: up, left, down,
    /// right) contributes: the press or release of that direction's key, when
    /// the direction changed and the relay is active.
    pub open spec fn dpad_step(self, r: Seq<u8>, i: int) -> Seq<ActionView> {
        let now = hat_dirs(hat_of(r))[i];
        if now != self.prev_wasd@[i] && self.relay_active {
            stroke_actions(self.dpad_codes@[dpad_slot(i)], now)
        } else {
            seq![]
        }
    }

    /// The actions of the first `n` d-pad directions.
    pub open spec fn dpad_actions(self, r: Seq<u8>, n: int) -> Seq<ActionView>
        decreases n,
    {
        if n <= 0 {
            seq![]
        } else {
            self.dpad_actions(r, n - 1) + self.dpad_step(r, n - 1)
        }
    }

    /// The hat event, when the hat position differs from the last report's.
    pub open spec fn hat_actions(self, r: Seq<u8>) -> Seq<ActionView> {
        let h = hat_of(r);
        if h != hat_of(self.prev_report@) {
            seq![ActionView::Hat { direction: h as u8, keys: held_dir_names(h) }]
        } else {
            seq![]
        }
    }

    /// Everything the relay does for report `r`, in order: buttons 1 to 15, then
    /// the d-pad keys, then the hat event.
    pub open spec fn report_actions(self, r: Seq<u8>) -> Seq<ActionView> {
        self.buttons_actions(r, BUTTON_COUNT as int) + self.dpad_actions(r, 4) + self.hat_actions(r)
    }

    /// A relay state for the given key mappings, before any report.
    pub fn new(button_codes: Vec<(u16, u16)>, dpad_codes: [u16; 4], relay_active: bool) -> (s:
        HidState)
        ensures
            s.prev_report@ == INITIAL_REPORT@,
            s.prev_wasd@ == seq![false, false, false, false],
            s.button_codes == button_codes,
            s.dpad_codes == dpad_codes,
            s.relay_active == relay_active,
    {
        let s = HidState {
            prev_report: INITIAL_REPORT,
            prev_wasd: [false, false, false, false],
            button_codes,
            dpad_codes,
            relay_active,
        };
        assert(s.prev_wasd@ =~= seq![false, false, false, false]);
        s
    }

    /// Process one input report: decide the actions, then remember the report.
    ///
    /// A report shorter than 8 bytes is ignored.
    pub fn process_report(&mut self, report: &[u8]) -> (actions: Vec<RelayAction>)
        ensures
            report@.len() < 8 ==> actions@.len() == 0 && *final(self) == *old(self),
            report@.len() >= 8 ==> {
                &&& action_views(actions@) == old(self).report_actions(report@)
                &&& final(self).prev_report@ == report@.subrange(0, 8)
                &&& final(self).prev_wasd@ == hat_dirs(hat_of(report@))
                &&& final(self).button_codes == old(self).button_codes
                &&& final(self).dpad_codes == old(self).dpad_codes
                &&& final(self).relay_active == old(self).relay_active
            },
    {
        let mut actions: Vec<RelayAction> = Vec::new();
        if report.len() < 8 {
            return actions;
        }
        assert(action_views(actions@) =~= seq![]);
        let mut i: usize = 0;
        while i < BUTTON_COUNT
            invariant
                report@.len() >= 8,
                i <= BUTTON_COUNT,
                *self == *old(self),
                action_views(actions@) == self.buttons_actions(report@, i as int),
            decreases BUTTON_COUNT - i,
        {
            let now = button_state(report, i);
            let before = button_state(&self.prev_report, i);
            let ghost prior = action_views(actions@);
            if now != before {
                if self.relay_active && i < self.button_codes.len() {
                    let (primary, secondary) = self.button_codes[i];
                    push_stroke(&mut actions, primary, now);
                    push_stroke(&mut actions, secondary, now);
                }
                let label = button_key(i + 1);
                let ghost mid = action_views(actions@);
                actions.push(RelayAction::Button(ButtonEvent { button: i + 1, pressed: now, label }));
                assert(action_views(actions@) =~= mid.push(actions@.last()@));
            }
            assert(action_views(actions@) =~= prior + self.button_step(report@, i as int));
            i += 1;
        }
        let hat = hat_position(report[2]);
        let new_wasd = hat_directions(hat);
        let mut j: usize = 0;
        while j < 4
            invariant
                report@.len() >= 8,
                j <= 4,
                *self == *old(self),
                hat == hat_of(report@),
                new_wasd@ == hat_dirs(hat as int),
                action_views(actions@) == self.buttons_actions(report@, BUTTON_COUNT as int)
                    + self.dpad_actions(report@, j as int),
            decreases 4 - j,
        {
            let ghost prior = action_views(actions@);
            if new_wasd[j] != self.prev_wasd[j] && self.relay_active {
                push_stroke(&mut actions, self.dpad_codes[dpad_slot_index(j)], new_wasd[j]);
            }
            assert(action_views(actions@) =~= prior + self.dpad_step(report@, j as int));
            j += 1;
        }
        let prev_hat = hat_position(self.prev_report[2]);
        let ghost prior = action_views(actions@);
        if hat != prev_hat {
            let ev = hat_event(hat, &new_wasd);
            actions.push(RelayAction::Hat(ev));
            assert(action_views(actions@) =~= prior.push(actions@.last()@));
        }
        assert(action_views(actions@) =~= prior + self.hat_actions(report@));
        self.prev_wasd = new_wasd;
        self.prev_report = [report[0], report[1], report[2], report[3], report[4], report[5], report[6], report[7]];
        assert(self.prev_report@ =~= report@.subrange(0, 8));
        actions
    }

    /// Handle an input report as delivered by the HID layer: reports that failed,
    /// are shorter than 8 bytes, or repeat the last report's first 8 bytes are
    /// skipped; any other is processed.
    pub fn on_input_report(&mut self, result: i32, report: &[u8]) -> (actions: Vec<RelayAction>)
        ensures
            (result != 0 || report@.len() < 8 || report@.subrange(0, 8) == old(self).prev_report@)
                ==> actions@.len() == 0 && *final(self) == *old(self),
            !(result != 0 || report@.len() < 8 || report@.subrange(0, 8) == old(self).prev_report@)
                ==> {
                &&& action_views(actions@) == old(self).report_actions(report@)
                &&& final(self).prev_report@ == report@.subrange(0, 8)
                &&& final(self).prev_wasd@ == hat_dirs(hat_of(report@))
                &&& final(self).button_codes == old(self).button_codes
                &&& final(self).dpad_codes == old(self).dpad_codes
                &&& final(self).relay_active == old(self).relay_active
            },
    {
        if result != 0 || report.len() < 8 {
            return Vec::new();
        }
        let mut same = true;
        let mut k: usize = 0;
        while k < 8
            invariant
                report@.len() >= 8,
                k <= 8,
                same <==> forall|m: int| 0 <= m < k ==> report@[m] == self.prev_report@[m],
            decreases 8 - k,
        {
            if report[k] != self.prev_report[k] {
                same = false;
            }
            k += 1;
        }
        if same {
            assert(report@.subrange(0, 8) =~= self.prev_report@);
            return Vec::new();
        }
        assert(!same ==> report@.subrange(0, 8) != self.prev_report@) by {
            if !same {
                let m = choose|m: int| 0 <= m < 8 && report@[m] != self.prev_report@[m];
                assert(report@.subrange(0, 8)[m] != self.prev_report@[m]);
            }
        }
        self.process_report(report)
    }

    /// A relay state for a profile's mappings, before any report.
    pub fn for_profile(profile: &Profile, relay_active: bool) -> (s: HidState)
        ensures
            s.prev_report@ == INITIAL_REPORT@,
            s.prev_wasd@ == seq![false, false, false, false],
            s.button_codes@.len() == MAPPED_BUTTONS,
            forall|i: int| 0 <= i < MAPPED_BUTTONS ==> s.button_codes@[i] == resolve_button(profile@.buttons, (i + 1) as nat),
            s.dpad_codes@ == resolve_dpad(profile@.dpad),
            s.relay_active == relay_active,
    {
        let (button_codes, dpad_codes) = resolve_keycodes(profile);
        HidState::new(button_codes, dpad_codes, relay_active)
    }

    /// Replace the key mappings with those of a profile (without restarting),
    /// keeping the report history and the relay switch.
    pub fn update_mappings(&mut self, profile: &Profile)
        ensures
            final(self).button_codes@.len() == MAPPED_BUTTONS,
            forall|i: int| 0 <= i < MAPPED_BUTTONS ==> final(self).button_codes@[i] == resolve_button(profile@.buttons, (i + 1) as nat),
            final(self).dpad_codes@ == resolve_dpad(profile@.dpad),
            final(self).prev_report == old(self).prev_report,
            final(self).prev_wasd == old(self).prev_wasd,
            final(self).relay_active == old(self).relay_active,
    {
        let (button_codes, dpad_codes) = resolve_keycodes(profile);
        self.button_codes = button_codes;
        self.dpad_codes = dpad_codes;
    }

    /// Turn keyboard posting on or off, keeping everything else.
    pub fn set_relay_active(&mut self, active: bool)
        ensures
            final(self).relay_active == active,
            final(self).prev_report == old(self).prev_report,
            final(self).prev_wasd == old(self).prev_wasd,
            final(self).button_codes == old(self).button_codes,
            final(self).dpad_codes == old(self).dpad_codes,
    {
        self.relay_active = active;
    }
}


/// The key codes of the keyboard events in `v`, in order.
pub open spec fn posted_codes(v: Seq<ActionView>) -> Seq<u16>
    decreases v.len(),
{
    if v.len() == 0 {
        seq![]
    } else {
        posted_codes(v.drop_last()) + match v.last() {
            ActionView::Key { code, down } => seq![code],
            _ => seq![],
        }
    }
}

/// Every keyboard event in `v` goes the direction `down`.
pub open spec fn all_strokes(v: Seq<ActionView>, down: bool) -> bool {
    forall|k: int| 0 <= k < v.len() ==> (#[trigger] v[k] matches ActionView::Key { code, down: d } ==> d == down)
}

proof fn lemma_posted_codes_concat(a: Seq<ActionView>, b: Seq<ActionView>)
    ensures
        posted_codes(a + b) == posted_codes(a) + posted_codes(b),
    decreases b.len(),
{
    if b.len() == 0 {
        assert(a + b =~= a);
        assert(posted_codes(a) + posted_codes(b) =~= posted_codes(a));
    } else {
        assert((a + b).drop_last() =~= a + b.drop_last());
        lemma_posted_codes_concat(a, b.drop_last());
        assert(posted_codes(a + b) =~= posted_codes(a) + posted_codes(b));
    }
}

/// The codes posted for one mapped key: the code itself, unless it is `KEY_NONE`.
proof fn lemma_stroke_codes(code: u16, down: bool)
    ensures
        posted_codes(stroke_actions(code, down)) == (if code == KEY_NONE { seq![] } else { seq![code] }),
        all_strokes(stroke_actions(code, down), down),
{
    let e = Seq::<ActionView>::empty();
    assert(posted_codes(e) == Seq::<u16>::empty());
    if code != KEY_NONE {
        let v = stroke_actions(code, down);
        assert(v.drop_last() =~= e);
        assert(v.last() == ActionView::Key { code, down });
        assert(posted_codes(v) =~= seq![code]);
    } else {
        assert(stroke_actions(code, down) =~= e);
    }
}

/// The keys a button posts when it changes, and their direction.
proof fn lemma_button_step_keys(s: HidState, r: Seq<u8>, i: int)
    requires
        0 <= i < BUTTON_COUNT,
        report_button(r, i) != report_button(s.prev_report@, i),
    ensures
        posted_codes(s.button_step(r, i)) == (if s.relay_active && i < s.button_codes@.len() {
            (if s.button_codes@[i].0 == KEY_NONE { seq![] } else { seq![s.button_codes@[i].0] }) + (
            if s.button_codes@[i].1 == KEY_NONE { seq![] } else { seq![s.button_codes@[i].1] })
        } else {
            seq![]
        }),
        all_strokes(s.button_step(r, i), report_button(r, i)),
{
    let now = report_button(r, i);
    let keys = if s.relay_active && i < s.button_codes@.len() {
        stroke_actions(s.button_codes@[i].0, now) + stroke_actions(s.button_codes@[i].1, now)
    } else {
        seq![]
    };
    let ev = ActionView::Button { button: (i + 1) as usize, pressed: now, label: button_label((i + 1) as nat) };
    assert(s.button_step(r, i) == keys.push(ev));
    assert(keys.push(ev) =~= keys + seq![ev]);
    lemma_posted_codes_concat(keys, seq![ev]);
    assert(seq![ev].drop_last() =~= Seq::<ActionView>::empty());
    assert(seq![ev].last() == ev);
    assert(posted_codes(Seq::<ActionView>::empty()) == Seq::<u16>::empty());
    assert(posted_codes(seq![ev]) =~= Seq::<u16>::empty());
    if s.relay_active && i < s.button_codes@.len() {
        lemma_stroke_codes(s.button_codes@[i].0, now);
        lemma_stroke_codes(s.button_codes@[i].1, now);
        lemma_posted_codes_concat(stroke_actions(s.button_codes@[i].0, now), stroke_actions(s.button_codes@[i].1, now));
        assert(posted_codes(keys) + Seq::<u16>::empty() =~= posted_codes(keys));
    } else {
        assert(posted_codes(keys) + Seq::<u16>::empty() =~= posted_codes(keys));
    }
    let v = s.button_step(r, i);
    assert forall|k: int| 0 <= k < v.len() implies (#[trigger] v[k] matches ActionView::Key { code, down: d } ==> d == now) by {
        if s.relay_active && i < s.button_codes@.len() {
            let a = stroke_actions(s.button_codes@[i].0, now);
            if k < a.len() {
                assert(v[k] == a[k]);
            } else if k < keys.len() {
                assert(v[k] == stroke_actions(s.button_codes@[i].1, now)[k - a.len()]);
            }
        }
    }
}

/// A button's release posts the very keys its press posted, in the same order
/// (its primary then its secondary key, leaving out `KEY_NONE`); only the
/// direction differs: a press posts every key down, a release every key up.
/// So over a press and the following release, every key put down is let up.
pub proof fn lemma_release_mirrors_press(s1: HidState, r1: Seq<u8>, s2: HidState, r2: Seq<u8>, i: int)
    requires
        0 <= i < BUTTON_COUNT,
        s1.button_codes == s2.button_codes,
        s1.relay_active == s2.relay_active,
        report_button(r1, i) && !report_button(s1.prev_report@, i),
        !report_button(r2, i) && report_button(s2.prev_report@, i),
    ensures
        posted_codes(s1.button_step(r1, i)) == posted_codes(s2.button_step(r2, i)),
        all_strokes(s1.button_step(r1, i), true),
        all_strokes(s2.button_step(r2, i), false),
{
    lemma_button_step_keys(s1, r1, i);
    lemma_button_step_keys(s2, r2, i);
}

/// The hat switch is an 8-way switch read clockwise from up: positions 0, 2,
/// 4 and 6 hold exactly up, right, down and left; each diagonal position
/// 1, 3, 5, 7 holds exactly the directions of its two neighbours (7, up-left,
/// holds up and left); position 8 holds nothing. Directions are listed up,
/// left, down, right.
pub proof fn lemma_hat_positions()
    ensures
        hat_dirs(0) == seq![true, false, false, false],
        hat_dirs(2) == seq![false, false, false, true],
        hat_dirs(4) == seq![false, false, true, false],
        hat_dirs(6) == seq![false, true, false, false],
        hat_dirs(8) == seq![false, false, false, false],
        forall|h: int, d: int|
            0 <= h < 8 && h % 2 == 1 && 0 <= d < 4 ==> #[trigger] hat_dirs(h)[d] == (hat_dirs(h - 1)[d] || hat_dirs(
                (h + 1) % 8,
            )[d]),
{
    assert(hat_dirs(0) =~= seq![true, false, false, false]);
    assert(hat_dirs(2) =~= seq![false, false, false, true]);
    assert(hat_dirs(4) =~= seq![false, false, true, false]);
    assert(hat_dirs(6) =~= seq![false, true, false, false]);
    assert(hat_dirs(8) =~= seq![false, false, false, false]);
}

/// Whether some action in `v` posts a keyboard event.
pub open spec fn posts_keys(v: Seq<ActionView>) -> bool {
    exists|k: int| 0 <= k < v.len() && #[trigger] v[k] is Key
}

/// A report that repeats the one just processed changes nothing: once the
/// state remembers report `r` the way `process_report` leaves it, `r` gives no
/// action at all.
pub proof fn lemma_repeated_report_is_quiet(s: HidState, r: Seq<u8>)
    requires
        r.len() >= 8,
        s.prev_report@ == r.subrange(0, 8),
        s.prev_wasd@ == hat_dirs(hat_of(r)),
    ensures
        s.report_actions(r) == Seq::<ActionView>::empty(),
{
    assert(s.prev_report@[0] == r[0] && s.prev_report@[1] == r[1] && s.prev_report@[2] == r[2]);
    lemma_quiet_buttons(s, r, BUTTON_COUNT as int);
    lemma_quiet_dpad(s, r, 4);
    assert(s.report_actions(r) =~= Seq::<ActionView>::empty());
}

proof fn lemma_quiet_buttons(s: HidState, r: Seq<u8>, n: int)
    requires
        r.len() >= 8,
        s.prev_report@[0] == r[0],
        s.prev_report@[1] == r[1],
        s.prev_report@[2] == r[2],
        n <= BUTTON_COUNT,
    ensures
        s.buttons_actions(r, n) == Seq::<ActionView>::empty(),
    decreases n,
{
    if n > 0 {
        lemma_quiet_buttons(s, r, n - 1);
        assert(s.buttons_actions(r, n) =~= Seq::<ActionView>::empty());
    }
}

proof fn lemma_quiet_dpad(s: HidState, r: Seq<u8>, n: int)
    requires
        r.len() >= 8,
        s.prev_wasd@ == hat_dirs(hat_of(r)),
        n <= 4,
    ensures
        s.dpad_actions(r, n) == Seq::<ActionView>::empty(),
    decreases n,
{
    if n > 0 {
        lemma_quiet_dpad(s, r, n - 1);
        assert(s.dpad_actions(r, n) =~= Seq::<ActionView>::empty());
    }
}

/// While the relay is inactive, reports only produce user-interface events:
/// no keyboard event is posted.
pub proof fn lemma_inactive_relay_posts_no_keys(s: HidState, r: Seq<u8>)
    requires
        !s.relay_active,
    ensures
        !posts_keys(s.report_actions(r)),
{
    lemma_inactive_buttons(s, r, BUTTON_COUNT as int);
    lemma_inactive_dpad(s, r, 4);
    let v = s.report_actions(r);
    let b = s.buttons_actions(r, BUTTON_COUNT as int);
    let d = s.dpad_actions(r, 4);
    assert forall|k: int| 0 <= k < v.len() implies !(#[trigger] v[k] is Key) by {
        if k < b.len() {
            assert(v[k] == b[k]);
        } else if k < b.len() + d.len() {
            assert(v[k] == d[k - b.len()]);
        } else {
            assert(v[k] == s.hat_actions(r)[k - b.len() - d.len()]);
        }
    }
}

proof fn lemma_inactive_buttons(s: HidState, r: Seq<u8>, n: int)
    requires
        !s.relay_active,
    ensures
        forall|k: int| 0 <= k < s.buttons_actions(r, n).len() ==> !(#[trigger] s.buttons_actions(r, n)[k] is Key),
    decreases n,
{
    if n > 0 {
        lemma_inactive_buttons(s, r, n - 1);
        let a = s.buttons_actions(r, n - 1);
        let st = s.button_step(r, n - 1);
        assert forall|k: int| 0 <= k < s.buttons_actions(r, n).len() implies !(#[trigger] s.buttons_actions(r, n)[k] is Key) by {
            if k < a.len() {
                assert(s.buttons_actions(r, n)[k] == a[k]);
            } else {
                assert(s.buttons_actions(r, n)[k] == st[k - a.len()]);
            }
        }
    }
}

proof fn lemma_inactive_dpad(s: HidState, r: Seq<u8>, n: int)
    requires
        !s.relay_active,
    ensures
        s.dpad_actions(r, n) == Seq::<ActionView>::empty(),
    decreases n,
{
    if n > 0 {
        lemma_inactive_dpad(s, r, n - 1);
        assert(s.dpad_actions(r, n) =~= Seq::<ActionView>::empty());
    }
}

/// Whether button `i` is held in `report`.
fn button_state(report: &[u8], i: usize) -> (b: bool)
    requires
        report@.len() >= 3,
        i < BUTTON_COUNT,
    ensures
        b == report_button(report@, i as int),
{
    if i < 8 {
        (report[0] >> (i as u8)) & 1 == 1
    } else if i < 14 {
        (report[1] >> ((i - 8) as u8)) & 1 == 1
    } else {
        (report[2] >> 7u8) & 1 == 1
    }
}

/// The hat position encoded in a report's byte 2.
fn hat_position(b: u8) -> (h: usize)
    ensures
        h <= 8,
        forall|r: Seq<u8>| r.len() >= 3 && r[2] == b ==> h == hat_of(r),
{
    let h = b & 0x0F;
    if h > 8 {
        8
    } else {
        h as usize
    }
}

/// The d-pad keys held at a hat position.
fn hat_directions(h: usize) -> (d: [bool; 4])
    ensures
        d@ == hat_dirs(h as int),
{
    let d = [
        h == 0 || h == 1 || h == 7,
        h == 5 || h == 6 || h == 7,
        h == 3 || h == 4 || h == 5,
        h == 1 || h == 2 || h == 3,
    ];
    assert(d@ =~= hat_dirs(h as int));
    d
}

/// The name of d-pad direction `i`.
fn dir_name_string(i: usize) -> (s: String)
    requires
        i < 4,
    ensures
        s@ == dir_name(i as int),
{
    if i == 0 {
        String::from_str("up")
    } else if i == 1 {
        String::from_str("left")
    } else if i == 2 {
        String::from_str("down")
    } else {
        String::from_str("right")
    }
}

/// The hat event for position `h` with the directions `dirs` held.
fn hat_event(h: usize, dirs: &[bool; 4]) -> (ev: HatEvent)
    requires
        h <= 8,
        dirs@ == hat_dirs(h as int),
    ensures
        ev.direction == h as u8,
        ev.keys@.map_values(|s: String| s@) == held_dir_names(h as int),
{
    let mut keys: Vec<String> = Vec::new();
    let mut i: usize = 0;
    while i < 4
        invariant
            i <= 4,
            dirs@ == hat_dirs(h as int),
            keys@.map_values(|s: String| s@) == held_dir_names_prefix(h as int, i as int),
        decreases 4 - i,
    {
        if dirs[i] {
            let name = dir_name_string(i);
            let ghost prior = keys@.map_values(|s: String| s@);
            keys.push(name);
            assert(keys@.map_values(|s: String| s@) =~= prior.push(dir_name(i as int)));
        }
        i += 1;
    }
    HatEvent { direction: h as u8, keys }
}

/// Append the keyboard event for `code`, if one is posted.
fn push_stroke(actions: &mut Vec<RelayAction>, code: u16, down: bool)
    ensures
        action_views(final(actions)@) == action_views(old(actions)@) + stroke_actions(code, down),
{
    let ghost prior = action_views(actions@);
    match key_stroke(code, down) {
        Some(k) => {
            actions.push(RelayAction::Key(k));
            assert(action_views(actions@) =~= prior.push(actions@.last()@));
        },
        None => {},
    }
    assert(action_views(actions@) =~= prior + stroke_actions(code, down));
}

} // verus!
