//! Decisions of the exclusive input capture: which devices are captured, which
//! key combinations are held, and when the user's emergency combination
//! releases every device.
use vstd::prelude::*;
use crate::text::{starts_with, is_prefix, chars_of, string_from_chars};

verus! {

/// Name prefix of the virtual devices that this program creates itself.
pub open spec fn ignore_prefix() -> Seq<char> {
    seq!['W', 'a', 'y', 'V', 'R']
}

/// Linux input key codes used by the capture.
pub const KEY_ESC: u16 = 1;
pub const KEY_TAB: u16 = 15;
pub const KEY_ENTER: u16 = 28;
pub const KEY_LEFTCTRL: u16 = 29;
pub const KEY_A: u16 = 30;
pub const KEY_Z: u16 = 44;
pub const KEY_LEFTALT: u16 = 56;
pub const KEY_SPACE: u16 = 57;
pub const KEY_F4: u16 = 62;
pub const KEY_KP1: u16 = 79;
pub const KEY_KP0: u16 = 82;
pub const KEY_KPENTER: u16 = 96;
pub const KEY_RIGHTCTRL: u16 = 97;
pub const KEY_RIGHTALT: u16 = 100;
pub const KEY_DELETE: u16 = 111;
pub const BTN_LEFT: u16 = 0x110;
pub const BTN_TASK: u16 = 0x117;
pub const REL_X: u16 = 0;
pub const REL_Y: u16 = 1;

/// A key combination that the capture reports or acts on.
#[derive(Debug, Clone, Copy, PartialEq, Eq, Structural, Hash)]
pub enum KeyCombo {
    AltF4,
    AltTab,
    /// Always consumed by the capture itself: it releases every device.
    CtrlAltDel,
}

/// Whether the keys in `pressed` hold the combination.
pub open spec fn combo_pressed(combo: KeyCombo, pressed: Set<u16>) -> bool {
    let alt = pressed.contains(KEY_LEFTALT) || pressed.contains(KEY_RIGHTALT);
    let ctrl = pressed.contains(KEY_LEFTCTRL) || pressed.contains(KEY_RIGHTCTRL);
    match combo {
        KeyCombo::AltF4 => alt && pressed.contains(KEY_F4),
        KeyCombo::AltTab => alt && pressed.contains(KEY_TAB),
        KeyCombo::CtrlAltDel => ctrl && alt && pressed.contains(KEY_DELETE),
    }
}

fn vec_contains(v: &Vec<u16>, x: u16) -> (r: bool)
    ensures
        r == v@.contains(x),
{
    let mut i: usize = 0;
    while i < v.len()
        invariant
            i <= v.len(),
            forall|j: int| 0 <= j < i ==> v@[j] != x,
        decreases v.len() - i,
    {
        if v[i] == x {
            return true;
        }
        i += 1;
    }
    false
}

fn index_of(v: &Vec<u16>, x: u16) -> (r: Option<usize>)
    ensures
        match r {
            Some(i) => i < v@.len() && v@[i as int] == x,
            None => !v@.contains(x),
        },
{
    let mut i: usize = 0;
    while i < v.len()
        invariant
            i <= v.len(),
            forall|j: int| 0 <= j < i ==> v@[j] != x,
        decreases v.len() - i,
    {
        if v[i] == x {
            return Some(i);
        }
        i += 1;
    }
    None
}

/// Whether the keys in `pressed` hold the combination.
pub fn key_combo_is_pressed(combo: KeyCombo, pressed: &Vec<u16>) -> (r: bool)
    ensures
        r == combo_pressed(combo, pressed@.to_set()),
{
    let alt = vec_contains(pressed, KEY_LEFTALT) || vec_contains(pressed, KEY_RIGHTALT);
    let ctrl = vec_contains(pressed, KEY_LEFTCTRL) || vec_contains(pressed, KEY_RIGHTCTRL);
    match combo {
        KeyCombo::AltF4 => alt && vec_contains(pressed, KEY_F4),
        KeyCombo::AltTab => alt && vec_contains(pressed, KEY_TAB),
        KeyCombo::CtrlAltDel => ctrl && alt && vec_contains(pressed, KEY_DELETE),
    }
}

/// What the capture reports about one key event.
#[derive(Debug, Clone, Copy, PartialEq, Eq, Structural)]
pub enum CapturedKeyEvent {
    Key { code: u16, pressed: bool },
    KeyCombo { combo: KeyCombo, pressed: bool },
}

/// The verdict on one key event.
pub enum KeyEventResult {
    /// The key code does not fit the 16-bit Linux key code range.
    Ignored,
    /// Ctrl+Alt+Del is held: release every device.
    EmergencyUngrab,
    /// Report these events, in order.
    Report(Vec<CapturedKeyEvent>),
}

/// The keys and reported combinations of one input device.
pub struct DeviceKeyState {
    pub pressed_keys: Vec<u16>,
    pub active_combos: Vec<KeyCombo>,
}

/// The combinations that are reported (Ctrl+Alt+Del never is).
pub open spec fn reported_combo(c: KeyCombo) -> bool {
    c == KeyCombo::AltF4 || c == KeyCombo::AltTab
}

/// The combination events for one reported combination.
pub open spec fn combo_change(combo: KeyCombo, was: bool, now: bool) -> Seq<CapturedKeyEvent> {
    if was == now { seq![] } else { seq![CapturedKeyEvent::KeyCombo { combo, pressed: now }] }
}

impl DeviceKeyState {
    /// Each key and each combination is listed at most once.
    pub open spec fn wf(self) -> bool {
        self.pressed_keys@.no_duplicates() && self.active_combos@.no_duplicates()
    }

    /// A device with nothing held.
    pub fn new() -> (s: Self)
        ensures
            s.wf(),
            s.pressed_keys@.len() == 0,
            s.active_combos@.len() == 0,
    {
        DeviceKeyState { pressed_keys: Vec::new(), active_combos: Vec::new() }
    }

    /// Forgets every held key and combination (after a grab change).
    pub fn clear(&mut self)
        ensures
            final(self).wf(),
            final(self).pressed_keys@.len() == 0,
            final(self).active_combos@.len() == 0,
    {
        self.pressed_keys = Vec::new();
        self.active_combos = Vec::new();
    }

    fn set_key(&mut self, code: u16, pressed: bool)
        requires
            old(self).wf(),
        ensures
            final(self).wf(),
            final(self).pressed_keys@.to_set() == if pressed {
                old(self).pressed_keys@.to_set().insert(code)
            } else {
                old(self).pressed_keys@.to_set().remove(code)
            },
            final(self).active_combos == old(self).active_combos,
    {
        let ghost old_keys = self.pressed_keys@;
        let found = index_of(&self.pressed_keys, code);
        if let Some(i) = found {
            if !pressed {
                self.pressed_keys.remove(i);
                proof {
                    let new_keys = self.pressed_keys@;
                    assert(new_keys =~= old_keys.take(i as int) + old_keys.skip(i + 1));
                    assert forall|x: u16| new_keys.contains(x) implies old_keys.contains(x) && x != code by {
                        let k = choose|k: int| 0 <= k < new_keys.len() && new_keys[k] == x;
                        if k < i {
                            assert(old_keys[k] == x);
                            assert(old_keys[i as int] == code);
                        } else {
                            assert(old_keys[k + 1] == x);
                            assert(old_keys[i as int] == code);
                        }
                    }
                    assert forall|x: u16| old_keys.contains(x) && x != code implies new_keys.contains(x) by {
                        let k = choose|k: int| 0 <= k < old_keys.len() && old_keys[k] == x;
                        if k < i {
                            assert(new_keys[k] == x);
                        } else {
                            assert(old_keys[i as int] == code);
                            assert(new_keys[k - 1] == x);
                        }
                    }
                    assert(new_keys.to_set() =~= old_keys.to_set().remove(code));
                    assert forall|a: int, b: int| 0 <= a < b < new_keys.len() implies new_keys[a] != new_keys[b] by {
                        let oa = if a < i { a } else { a + 1 };
                        let ob = if b < i { b } else { b + 1 };
                        assert(old_keys[oa] == new_keys[a]);
                        assert(old_keys[ob] == new_keys[b]);
                    }
                }
            } else {
                assert(old_keys[i as int] == code);
                assert(old_keys.contains(code));
                assert(self.pressed_keys@ == old_keys);
                assert forall|x: u16| old_keys.to_set().insert(code).contains(x) == old_keys.to_set().contains(x) by {
                    if x == code {
                        assert(old_keys.contains(x));
                    }
                }
                assert(old_keys.to_set().insert(code) =~= old_keys.to_set());
            }
        } else {
            if pressed {
                self.pressed_keys.push(code);
                let ghost nk = self.pressed_keys@;
                assert(nk == old_keys.push(code));
                assert forall|x: u16| nk.contains(x) == (x == code || old_keys.contains(x)) by {
                    if old_keys.contains(x) {
                        let k = choose|k: int| 0 <= k < old_keys.len() && old_keys[k] == x;
                        assert(nk[k] == x);
                    }
                    if x == code {
                        assert(nk[old_keys.len() as int] == x);
                    }
                    if nk.contains(x) && x != code {
                        let k = choose|k: int| 0 <= k < nk.len() && nk[k] == x;
                        assert(old_keys[k] == x);
                    }
                }
                assert(nk.to_set() =~= old_keys.to_set().insert(code));
                assert forall|a: int, b: int| 0 <= a < b < nk.len() implies nk[a] != nk[b] by {
                    if b == old_keys.len() {
                        assert(old_keys.contains(nk[a]));
                    }
                }
            } else {
                assert(old_keys.to_set() =~= old_keys.to_set().remove(code));
            }
        }
    }

    fn combo_active(&self, combo: KeyCombo) -> (r: bool)
        ensures
            r == self.active_combos@.contains(combo),
    {
        let mut i: usize = 0;
        while i < self.active_combos.len()
            invariant
                i <= self.active_combos.len(),
                forall|j: int| 0 <= j < i ==> self.active_combos@[j] != combo,
            decreases self.active_combos.len() - i,
        {
            if self.active_combos[i] == combo {
                return true;
            }
            i += 1;
        }
        false
    }

    fn set_combo(&mut self, combo: KeyCombo, active: bool)
        requires
            old(self).wf(),
            old(self).active_combos@.contains(combo) != active,
        ensures
            final(self).wf(),
            forall|c: KeyCombo| final(self).active_combos@.contains(c) == if c == combo {
                active
            } else {
                old(self).active_combos@.contains(c)
            },
            final(self).pressed_keys == old(self).pressed_keys,
    {
        let ghost old_c = self.active_combos@;
        if active {
            self.active_combos.push(combo);
            assert forall|c: KeyCombo| self.active_combos@.contains(c) == (c == combo || old_c.contains(c)) by {
                if old_c.contains(c) {
                    let k = choose|k: int| 0 <= k < old_c.len() && old_c[k] == c;
                    assert(self.active_combos@[k] == c);
                }
                if c == combo {
                    assert(self.active_combos@[old_c.len() as int] == c);
                }
            }
        } else {
            let mut kept: Vec<KeyCombo> = Vec::new();
            let mut i: usize = 0;
            while i < self.active_combos.len()
                invariant
                    i <= self.active_combos.len(),
                    self.active_combos@ == old_c,
                    old_c.no_duplicates(),
                    kept@.no_duplicates(),
                    forall|x: KeyCombo| #![trigger kept@.contains(x)]
                        kept@.contains(x) <==> (x != combo && old_c.take(i as int).contains(x)),
                decreases self.active_combos.len() - i,
            {
                let c = self.active_combos[i];
                let ghost prev_kept = kept@;
                if c != combo {
                    proof {
                        assert(!kept@.contains(c)) by {
                            if kept@.contains(c) {
                                let t = old_c.take(i as int);
                                assert(t.contains(c));
                                let k = choose|k: int| 0 <= k < t.len() && #[trigger] t[k] == c;
                                assert(old_c[k] == c);
                                assert(old_c[i as int] == c);
                            }
                        }
                    }
                    kept.push(c);
                }
                proof {
                    let prev = old_c.take(i as int);
                    let next = old_c.take(i + 1);
                    assert(next == prev.push(c));
                    assert forall|x: KeyCombo| #![trigger kept@.contains(x)]
                        kept@.contains(x) <==> (x != combo && next.contains(x)) by {
                        if kept@.contains(x) {
                            if prev_kept.contains(x) {
                                let k = choose|k: int| 0 <= k < prev.len() && #[trigger] prev[k] == x;
                                assert(next[k] == x);
                            } else {
                                let k = choose|k: int| 0 <= k < kept@.len() && #[trigger] kept@[k] == x;
                                if k < prev_kept.len() {
                                    assert(prev_kept[k] == x);
                                }
                                assert(x == c);
                                assert(next[i as int] == x);
                            }
                        }
                        if x != combo && next.contains(x) {
                            let k = choose|k: int| 0 <= k < next.len() && #[trigger] next[k] == x;
                            if k < i {
                                assert(prev[k] == x);
                                assert(prev_kept.contains(x));
                                let j = choose|j: int| 0 <= j < prev_kept.len() && #[trigger] prev_kept[j] == x;
                                assert(kept@[j] == x);
                            } else {
                                assert(x == c);
                                assert(kept@[kept@.len() - 1] == x);
                            }
                        }
                    }
                }
                i += 1;
            }
            assert(old_c.take(old_c.len() as int) == old_c);
            self.active_combos = kept;
        }
    }

    /// Handles one key event of the device: updates the held keys, reports a
    /// press or release of Alt+F4 and Alt+Tab whenever its complete state
    /// changes, then the key itself. Holding Ctrl+Alt+Del asks for an
    /// emergency release instead of any report.
    pub fn process_key(&mut self, code: u32, pressed: bool) -> (r: KeyEventResult)
        requires
            old(self).wf(),
        ensures
            final(self).wf(),
            code > 0xffff ==> r is Ignored && *final(self) == *old(self),
            code <= 0xffff ==> ({
                let k = code as u16;
                let keys = if pressed {
                    old(self).pressed_keys@.to_set().insert(k)
                } else {
                    old(self).pressed_keys@.to_set().remove(k)
                };
                &&& final(self).pressed_keys@.to_set() == keys
                &&& if pressed && combo_pressed(KeyCombo::CtrlAltDel, keys) {
                    &&& r is EmergencyUngrab
                    &&& final(self).active_combos == old(self).active_combos
                } else {
                    let was_f4 = old(self).active_combos@.contains(KeyCombo::AltF4);
                    let was_tab = old(self).active_combos@.contains(KeyCombo::AltTab);
                    let now_f4 = combo_pressed(KeyCombo::AltF4, keys);
                    let now_tab = combo_pressed(KeyCombo::AltTab, keys);
                    &&& r matches KeyEventResult::Report(events) && events@ == combo_change(
                        KeyCombo::AltF4,
                        was_f4,
                        now_f4,
                    ) + combo_change(KeyCombo::AltTab, was_tab, now_tab) + seq![
                        CapturedKeyEvent::Key { code: k, pressed },
                    ]
                    &&& final(self).active_combos@.contains(KeyCombo::AltF4) == now_f4
                    &&& final(self).active_combos@.contains(KeyCombo::AltTab) == now_tab
                    &&& final(self).active_combos@.contains(KeyCombo::CtrlAltDel) == old(
                        self,
                    ).active_combos@.contains(KeyCombo::CtrlAltDel)
                }
            }),
    {
        if code > 0xffff {
            return KeyEventResult::Ignored;
        }
        let k = code as u16;
        self.set_key(k, pressed);
        if pressed && key_combo_is_pressed(KeyCombo::CtrlAltDel, &self.pressed_keys) {
            return KeyEventResult::EmergencyUngrab;
        }
        let mut events: Vec<CapturedKeyEvent> = Vec::new();
        let ghost c0 = self.active_combos@;
        let now_f4 = key_combo_is_pressed(KeyCombo::AltF4, &self.pressed_keys);
        let was_f4 = self.combo_active(KeyCombo::AltF4);
        if now_f4 != was_f4 {
            self.set_combo(KeyCombo::AltF4, now_f4);
            events.push(CapturedKeyEvent::KeyCombo { combo: KeyCombo::AltF4, pressed: now_f4 });
        }
        let ghost c1 = self.active_combos@;
        assert(c1.contains(KeyCombo::AltTab) == c0.contains(KeyCombo::AltTab));
        assert(c1.contains(KeyCombo::CtrlAltDel) == c0.contains(KeyCombo::CtrlAltDel));
        assert(c1.contains(KeyCombo::AltF4) == now_f4);
        let now_tab = key_combo_is_pressed(KeyCombo::AltTab, &self.pressed_keys);
        let was_tab = self.combo_active(KeyCombo::AltTab);
        if now_tab != was_tab {
            self.set_combo(KeyCombo::AltTab, now_tab);
            events.push(CapturedKeyEvent::KeyCombo { combo: KeyCombo::AltTab, pressed: now_tab });
        }
        let ghost c2 = self.active_combos@;
        assert(c2.contains(KeyCombo::AltF4) == c1.contains(KeyCombo::AltF4));
        assert(c2.contains(KeyCombo::CtrlAltDel) == c1.contains(KeyCombo::CtrlAltDel));
        assert(c2.contains(KeyCombo::AltTab) == now_tab);
        events.push(CapturedKeyEvent::Key { code: k, pressed });
        KeyEventResult::Report(events)
    }
}

/// The buttons that make a device with relative axes a mouse.
pub open spec fn is_mouse_button(code: u16) -> bool {
    BTN_LEFT <= code <= BTN_TASK
}

/// Whether the device looks like a keyboard: letter keys with at least two of
/// escape, enter and space, or a numeric keypad.
pub open spec fn spec_looks_like_keyboard(keys: Set<u16>) -> bool {
    let full = (keys.contains(KEY_A) || keys.contains(KEY_Z)) && (
        (if keys.contains(KEY_ESC) { 1int } else { 0int })
        + (if keys.contains(KEY_ENTER) { 1int } else { 0int })
        + (if keys.contains(KEY_SPACE) { 1int } else { 0int }) >= 2);
    let keypad = keys.contains(KEY_KP0) && keys.contains(KEY_KP1) && keys.contains(KEY_KPENTER);
    full || keypad
}

/// Whether the device looks like a mouse: X and Y relative axes and a mouse
/// button.
pub open spec fn spec_looks_like_mouse(rel_axes: Option<Set<u16>>, keys: Set<u16>) -> bool {
    match rel_axes {
        None => false,
        Some(axes) => axes.contains(REL_X) && axes.contains(REL_Y) && exists|b: u16|
            is_mouse_button(b) && #[trigger] keys.contains(b),
    }
}

/// Whether the device looks like a keyboard (see [`spec_looks_like_keyboard`]).
pub fn looks_like_keyboard(keys: &Vec<u16>) -> (r: bool)
    ensures
        r == spec_looks_like_keyboard(keys@.to_set()),
{
    let mut count: u8 = 0;
    if vec_contains(keys, KEY_ESC) {
        count += 1;
    }
    if vec_contains(keys, KEY_ENTER) {
        count += 1;
    }
    if vec_contains(keys, KEY_SPACE) {
        count += 1;
    }
    let full = (vec_contains(keys, KEY_A) || vec_contains(keys, KEY_Z)) && count >= 2;
    let keypad = vec_contains(keys, KEY_KP0) && vec_contains(keys, KEY_KP1) && vec_contains(keys, KEY_KPENTER);
    full || keypad
}

/// Whether the device looks like a mouse (see [`spec_looks_like_mouse`]).
/// `rel_axes` is `None` when the device reports no relative axes.
pub fn looks_like_mouse(rel_axes: Option<&Vec<u16>>, keys: &Vec<u16>) -> (r: bool)
    ensures
        r <==> (rel_axes matches Some(a) && a@.contains(REL_X) && a@.contains(REL_Y)
            && exists|b: u16| BTN_LEFT <= b <= BTN_TASK && #[trigger] keys@.contains(b)),
        r == spec_looks_like_mouse(
            match rel_axes { Some(a) => Some(a@.to_set()), None => None },
            keys@.to_set(),
        ),
{
    let Some(axes) = rel_axes else {
        return false;
    };
    if !(vec_contains(axes, REL_X) && vec_contains(axes, REL_Y)) {
        return false;
    }
    let mut b: u16 = BTN_LEFT;
    while b <= BTN_TASK
        invariant
            BTN_LEFT <= b <= BTN_TASK + 1,
            rel_axes == Some(axes),
            axes@.contains(REL_X) && axes@.contains(REL_Y),
            forall|x: u16| BTN_LEFT <= x < b ==> !keys@.contains(x),
        decreases BTN_TASK + 1 - b,
    {
        if vec_contains(keys, b) {
            assert(keys@.to_set().contains(b));
            return true;
        }
        b += 1;
    }
    assert forall|x: u16| is_mouse_button(x) implies !#[trigger] keys@.to_set().contains(x) by {}
    false
}

/// Whether a device is captured: not one of this program's own virtual
/// devices, it reports its keys, and it looks like a keyboard or a mouse.
pub open spec fn spec_should_capture(name: Option<Seq<char>>, keys: Option<Set<u16>>, rel_axes: Option<Set<u16>>) -> bool {
    if name matches Some(n) && is_prefix(ignore_prefix(), n) {
        false
    } else {
        match keys {
            None => false,
            Some(k) => spec_looks_like_keyboard(k) || spec_looks_like_mouse(rel_axes, k),
        }
    }
}

/// A device that is not one of the program's own and has X and Y relative
/// axes and a mouse button is captured, whether or not it also looks like
/// a keyboard; so is one with letter, escape and enter keys.
pub proof fn law_mice_and_keyboards_captured(name: Option<Seq<char>>, keys: Set<u16>, rel_axes: Set<u16>, button: u16)
    requires
        name matches Some(n) ==> !is_prefix(ignore_prefix(), n),
    ensures
        BTN_LEFT <= button <= BTN_TASK && keys.contains(button) && rel_axes.contains(REL_X) && rel_axes.contains(REL_Y)
            ==> spec_should_capture(name, Some(keys), Some(rel_axes)),
        keys.contains(KEY_A) && keys.contains(KEY_ESC) && keys.contains(KEY_ENTER)
            ==> spec_should_capture(name, Some(keys), Some(rel_axes)),
        !spec_should_capture(name, None, Some(rel_axes)),
{
    if BTN_LEFT <= button <= BTN_TASK && keys.contains(button) {
        assert(is_mouse_button(button));
    }
}

/// Whether a device is captured (see [`spec_should_capture`]).
pub fn should_capture_device(name: Option<&str>, keys: Option<&Vec<u16>>, rel_axes: Option<&Vec<u16>>) -> (r: bool)
    ensures
        // a mouse (X and Y relative axes and a mouse button) that is not one
        // of the program's own devices is captured
        (name matches Some(n) ==> !is_prefix(seq!['W', 'a', 'y', 'V', 'R'], n@))
            && (keys matches Some(k) && exists|b: u16| BTN_LEFT <= b <= BTN_TASK && #[trigger] k@.contains(b))
            && (rel_axes matches Some(a) && a@.contains(REL_X) && a@.contains(REL_Y)) ==> r,
        // so is a keyboard with letters, escape and enter
        (name matches Some(n) ==> !is_prefix(seq!['W', 'a', 'y', 'V', 'R'], n@))
            && (keys matches Some(k) && k@.contains(KEY_A) && k@.contains(KEY_ESC) && k@.contains(KEY_ENTER)) ==> r,
        // the program's own devices and devices without keys never are
        name matches Some(n) && is_prefix(seq!['W', 'a', 'y', 'V', 'R'], n@) ==> !r,
        keys is None ==> !r,
        r == spec_should_capture(
            match name { Some(n) => Some(n@), None => None },
            match keys { Some(k) => Some(k@.to_set()), None => None },
            match rel_axes { Some(a) => Some(a@.to_set()), None => None },
        ),
{
    if let Some(n) = name {
        let prefix = string_from_chars(&vec!['W', 'a', 'y', 'V', 'R']);
        assert(prefix@ == ignore_prefix());
        if starts_with(n, prefix.as_str()) {
            return false;
        }
    }
    let Some(k) = keys else {
        return false;
    };
    let r = looks_like_keyboard(k) || looks_like_mouse(rel_axes, k);
    proof {
        if exists|b: u16| BTN_LEFT <= b <= BTN_TASK && #[trigger] k@.contains(b) {
            let b = choose|b: u16| BTN_LEFT <= b <= BTN_TASK && #[trigger] k@.contains(b);
            assert(k@.to_set().contains(b) && is_mouse_button(b));
        }
        if k@.contains(KEY_A) && k@.contains(KEY_ESC) && k@.contains(KEY_ENTER) {
            assert(k@.to_set().contains(KEY_A) && k@.to_set().contains(KEY_ESC) && k@.to_set().contains(KEY_ENTER));
        }
    }
    r
}

/// The message of an error raised while acting on an input device:
/// `failed to <action> <path>: <error>`.
pub open spec fn device_context_message(action: Seq<char>, path: Seq<char>, error: Seq<char>) -> Seq<char> {
    seq!['f', 'a', 'i', 'l', 'e', 'd', ' ', 't', 'o', ' '] + action + seq![' '] + path + seq![':', ' '] + error
}

/// The message of an error raised while acting on an input device (the error
/// keeps its kind; only the message gains the action and the device path).
pub fn with_device_context(action: &str, path: &str, error: &str) -> (m: String)
    ensures
        m@ == device_context_message(action@, path@, error@),
{
    let mut v: Vec<char> = vec!['f', 'a', 'i', 'l', 'e', 'd', ' ', 't', 'o', ' '];
    let mut a = chars_of(action);
    v.append(&mut a);
    v.push(' ');
    let mut p = chars_of(path);
    v.append(&mut p);
    v.push(':');
    v.push(' ');
    let mut e = chars_of(error);
    v.append(&mut e);
    let m = string_from_chars(&v);
    assert(m@ =~= device_context_message(action@, path@, error@));
    m
}

/// The devices to release again when grabbing every device failed at device
/// `failed_at`: those before it that the attempt grabbed itself (they were
/// not grabbed already).
pub fn grab_rollback(already_grabbed: &Vec<bool>, failed_at: usize) -> (r: Vec<usize>)
    requires
        failed_at <= already_grabbed@.len(),
    ensures
        forall|i: usize| r@.contains(i) <==> (i < failed_at && !already_grabbed@[i as int]),
        r@.no_duplicates(),
{
    let mut r: Vec<usize> = Vec::new();
    let mut i: usize = 0;
    while i < failed_at
        invariant
            i <= failed_at <= already_grabbed@.len(),
            forall|j: usize| r@.contains(j) <==> (j < i && !already_grabbed@[j as int]),
            forall|k: int| 0 <= k < r@.len() ==> r@[k] < i,
            r@.no_duplicates(),
        decreases failed_at - i,
    {
        if !already_grabbed[i] {
            let ghost before = r@;
            r.push(i);
            proof {
                assert forall|j: usize| r@.contains(j) <==> (j < i + 1 && !already_grabbed@[j as int]) by {
                    if r@.contains(j) && j != i {
                        let k = choose|k: int| 0 <= k < r@.len() && r@[k] == j;
                        assert(before[k] == j);
                    }
                    if j == i {
                        assert(r@[before.len() as int] == i);
                    } else if j < i && !already_grabbed@[j as int] {
                        let k = choose|k: int| 0 <= k < before.len() && before[k] == j;
                        assert(r@[k] == j);
                    }
                }
            }
        }
        i += 1;
    }
    r
}

/// Milliseconds without a sign of life from the compositor after which
/// grabbed devices are released.
pub const WATCHDOG_TIMEOUT_MS: u64 = 5000;

/// The capture worker's grab and watchdog (times in milliseconds).
pub struct GrabWatchdog {
    pub grabbed: bool,
    pub deadline_ms: u64,
}

impl GrabWatchdog {
    /// Nothing grabbed; the watchdog runs from `now_ms`.
    pub fn new(now_ms: u64) -> (w: Self)
        requires
            now_ms + WATCHDOG_TIMEOUT_MS <= u64::MAX,
        ensures
            !w.grabbed,
            w.deadline_ms == now_ms + WATCHDOG_TIMEOUT_MS,
    {
        GrabWatchdog { grabbed: false, deadline_ms: now_ms + WATCHDOG_TIMEOUT_MS }
    }

    /// A grab (or release) was asked for at `now_ms` and carried out with
    /// result `succeeded`: devices stay grabbed only after a successful grab.
    pub fn set_grabbed(&mut self, requested: bool, succeeded: bool, now_ms: u64)
        requires
            now_ms + WATCHDOG_TIMEOUT_MS <= u64::MAX,
        ensures
            final(self).grabbed == (requested && succeeded),
            final(self).deadline_ms == now_ms + WATCHDOG_TIMEOUT_MS,
    {
        self.grabbed = requested && succeeded;
        self.deadline_ms = now_ms + WATCHDOG_TIMEOUT_MS;
    }

    /// The compositor is alive at `now_ms`.
    pub fn reset(&mut self, now_ms: u64)
        requires
            now_ms + WATCHDOG_TIMEOUT_MS <= u64::MAX,
        ensures
            final(self).grabbed == old(self).grabbed,
            final(self).deadline_ms == now_ms + WATCHDOG_TIMEOUT_MS,
    {
        self.deadline_ms = now_ms + WATCHDOG_TIMEOUT_MS;
    }

    /// Whether the watchdog ran out while devices are grabbed: they are
    /// released at once.
    pub fn expired(&self, now_ms: u64) -> (r: bool)
        ensures
            r == (self.grabbed && now_ms >= self.deadline_ms),
    {
        self.grabbed && now_ms >= self.deadline_ms
    }

    /// Every device was released in an emergency.
    pub fn emergency_ungrabbed(&mut self)
        ensures
            !final(self).grabbed,
            final(self).deadline_ms == old(self).deadline_ms,
    {
        self.grabbed = false;
    }
}

} // verus!
