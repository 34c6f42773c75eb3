//! The decisions of the on-screen keyboard: what a press or a release of one of
//! its keys does to the keyboard state and which key events, modifier changes
//! and side effects it asks for.
use vstd::prelude::*;
use crate::text::clone_strings;
use crate::hid::{KeyModifier, VirtualKey, SHIFT, CTRL, ALT, SUPER, ALTGR};

verus! {

/// Outcome of handling a key press (or motion) against the swipe-to-type engine.
#[derive(Debug, PartialEq, Eq, Structural, Clone, Copy)]
pub enum KeyPressOutcome {
    /// The event was fed into swipe tracking. Do not dispatch a key.
    Consumed,
    /// Not a swipe target. Dispatch as a normal key event.
    Dispatch,
}

/// Outcome of handling a key release against the swipe-to-type engine.
#[derive(Debug, PartialEq, Eq, Structural, Clone, Copy)]
pub enum KeyReleaseOutcome {
    /// A swipe left the first key; prediction was already triggered. Nothing to dispatch.
    Predict,
    /// Pressed and released on the same key. Dispatch a tap with the given modifier.
    TapKey { modifier: KeyModifier },
    /// Not a swipe target. Dispatch a normal key-up.
    Normal,
}

/// The pointer button that pressed a key.
#[derive(Debug, PartialEq, Eq, Structural, Clone, Copy)]
pub enum MouseButtonIndex {
    Left,
    Right,
    Middle,
}

/// Which modifier a middle-click adds to a key press (configuration).
#[derive(Debug, PartialEq, Eq, Structural, Clone, Copy)]
pub enum AltModifier {
    Off,
    Shift,
    Ctrl,
    Alt,
    Super,
    AltGr,
}

/// The modifier bit of an [`AltModifier`] setting (none for `Off`).
pub open spec fn spec_alt_modifier_to_key(m: AltModifier) -> KeyModifier {
    match m {
        AltModifier::Shift => SHIFT,
        AltModifier::Ctrl => CTRL,
        AltModifier::Alt => ALT,
        AltModifier::Super => SUPER,
        AltModifier::AltGr => ALTGR,
        AltModifier::Off => 0,
    }
}

/// The modifier bit of an [`AltModifier`] setting (none for `Off`).
pub fn alt_modifier_to_key(m: AltModifier) -> (k: KeyModifier)
    ensures
        k == spec_alt_modifier_to_key(m),
{
    match m {
        AltModifier::Shift => SHIFT,
        AltModifier::Ctrl => CTRL,
        AltModifier::Alt => ALT,
        AltModifier::Super => SUPER,
        AltModifier::AltGr => ALTGR,
        AltModifier::Off => 0,
    }
}

/// The modifiers that a key press or tap releases again once the key is up.
pub const AUTO_RELEASE_MASK: KeyModifier = 0xcd;

/// A slot that holds the latest word predictions until they are taken.
/// `value` is meaningful only while `present` is set.
pub struct PredictionSlot {
    pub present: bool,
    pub value: Option<Vec<String>>,
}

impl PredictionSlot {
    /// An empty slot.
    pub fn new() -> (s: Self)
        ensures
            !s.present,
            s.value is None,
    {
        PredictionSlot { present: false, value: None }
    }

    /// Stores `value` (`None` is an explicit clear) and marks the slot pending.
    pub fn set(&mut self, value: Option<Vec<String>>)
        ensures
            final(self).present,
            final(self).value == value,
    {
        self.value = value;
        self.present = true;
    }

    /// Returns the latest pending value, if any, and clears the slot.
    /// `Some(Some(words))` is a fresh prediction, `Some(None)` is an explicit
    /// clear, `None` means nothing pending.
    pub fn take(&mut self) -> (r: Option<Option<Vec<String>>>)
        ensures
            r == if old(self).present { Some(old(self).value) } else { None },
            !final(self).present,
            old(self).present ==> final(self).value is None,
            !old(self).present ==> final(self).value == old(self).value,
    {
        if !self.present {
            return None;
        }
        self.present = false;
        let v = self.value.take();
        Some(v)
    }
}

/// What a key of the on-screen keyboard does.
pub enum KeyButtonData {
    /// A plain key; `pressed` tracks whether it is down.
    Key { vk: VirtualKey, pressed: bool },
    /// A modifier key; `sticky` is set when the press latched the modifier.
    Modifier { modifier: KeyModifier, sticky: bool },
    /// A sequence of key events.
    Macro { verbs: Vec<(VirtualKey, bool)> },
    /// Runs a program on press and optionally another on release.
    Exec { program: String, args: Vec<String>, release_program: Option<String>, release_args: Vec<String> },
    /// Cycles through the configured keymaps.
    KeymapSwitch { layouts: usize },
}

/// What the keyboard asks its host to do, in order.
#[derive(PartialEq, Eq)]
pub enum KeyboardAction {
    SetModifiers(KeyModifier),
    SendKey(VirtualKey, bool),
    PlayClick,
    /// Reap the finished child processes that keys started earlier.
    ReapProcesses,
    /// Start `program` with `args` as a child process.
    Spawn { program: String, args: Vec<String> },
    /// Tell the user that no keymaps are configured.
    NoKeymapsToast,
}

/// The state shared by all keys of the keyboard.
pub struct KeyboardState {
    pub modifiers: KeyModifier,
    pub alt_modifier: KeyModifier,
    pub keymap_switch_index: usize,
    pub keymap_switch_pending: bool,
}

/// The modifier that the pointer button adds to a plain key press.
pub open spec fn button_modifier(button: MouseButtonIndex, alt_modifier: KeyModifier) -> KeyModifier {
    match button {
        MouseButtonIndex::Right => SHIFT,
        MouseButtonIndex::Middle => alt_modifier,
        MouseButtonIndex::Left => 0,
    }
}

impl KeyboardState {
    /// A copy of the state as handed to another keymap's panel: the modifiers,
    /// the middle-click modifier and the keymap cycle position carry over, a
    /// pending keymap switch does not.
    pub fn take(&mut self) -> (s: Self)
        ensures
            s.modifiers == old(self).modifiers,
            s.alt_modifier == old(self).alt_modifier,
            s.keymap_switch_index == old(self).keymap_switch_index,
            !s.keymap_switch_pending,
            *final(self) == *old(self),
    {
        KeyboardState {
            modifiers: self.modifiers,
            alt_modifier: self.alt_modifier,
            keymap_switch_index: self.keymap_switch_index,
            keymap_switch_pending: false,
        }
    }
}

/// A modifier key press: the modifier is held afterwards, and the press
/// latches it (`sticky`) when it was not held before.
pub open spec fn modifier_press(mods: KeyModifier, m: KeyModifier) -> (KeyModifier, bool) {
    (mods | m, mods & m == 0)
}

/// A modifier key release: a latched modifier stays held, otherwise it is
/// released.
pub open spec fn modifier_release(mods: KeyModifier, m: KeyModifier, sticky: bool) -> KeyModifier {
    if sticky { mods } else { mods & !m }
}

/// The modifiers held after a plain key is released, by swipe outcome. A tap
/// adds its modifier first. Then the modifiers of `AUTO_RELEASE_MASK` are
/// dropped. A swipe prediction changes nothing.
pub open spec fn key_release_modifiers(mods: KeyModifier, outcome: KeyReleaseOutcome) -> KeyModifier {
    match outcome {
        KeyReleaseOutcome::Predict => mods,
        KeyReleaseOutcome::TapKey { modifier } => (mods | modifier) & !AUTO_RELEASE_MASK,
        KeyReleaseOutcome::Normal => mods & !AUTO_RELEASE_MASK,
    }
}

/// A plain key pressed with the right button is shifted, with the middle
/// button it gets the configured middle-click modifier, with the left
/// button nothing is added.
pub proof fn law_press_button_modifiers(mods: KeyModifier, alt_modifier: KeyModifier)
    ensures
        mods | button_modifier(MouseButtonIndex::Right, alt_modifier) == mods | SHIFT,
        mods | button_modifier(MouseButtonIndex::Middle, alt_modifier) == mods | alt_modifier,
        mods | button_modifier(MouseButtonIndex::Left, alt_modifier) == mods,
{
    assert(mods | 0u8 == mods) by (bit_vector);
}

/// Handles a pointer press on a key. `swipe` is the swipe engine's verdict for
/// a plain key (`None` when swipe typing is off).
pub fn handle_press(
    state: &mut KeyboardState,
    key: &mut KeyButtonData,
    button: MouseButtonIndex,
    swipe: Option<KeyPressOutcome>,
) -> (actions: Vec<KeyboardAction>)
    ensures
        // a dispatched press on a plain key holds the modifiers that the
        // button adds: shift for the right button, the configured
        // middle-click modifier for the middle one, none for the left one
        *old(key) is Key && swipe != Some(KeyPressOutcome::Consumed) ==> {
            &&& actions@.len() == 3
            &&& actions@[0] == KeyboardAction::SetModifiers(final(state).modifiers)
            &&& button == MouseButtonIndex::Right ==> final(state).modifiers == old(state).modifiers | SHIFT
            &&& button == MouseButtonIndex::Middle ==> final(state).modifiers == old(state).modifiers | old(state).alt_modifier
            &&& button == MouseButtonIndex::Left ==> final(state).modifiers == old(state).modifiers
        },
        match *old(key) {
            KeyButtonData::Key { vk, pressed } => {
                if swipe == Some(KeyPressOutcome::Consumed) {
                    &&& *final(state) == *old(state)
                    &&& *final(key) == *old(key)
                    &&& actions@ == Seq::<KeyboardAction>::empty()
                } else {
                    let mods = old(state).modifiers | button_modifier(button, old(state).alt_modifier);
                    &&& final(state).modifiers == mods
                    &&& final(state).alt_modifier == old(state).alt_modifier
                    &&& final(state).keymap_switch_index == old(state).keymap_switch_index
                    &&& final(state).keymap_switch_pending == old(state).keymap_switch_pending
                    &&& *final(key) == (KeyButtonData::Key { vk, pressed: true })
                    &&& actions@ == seq![KeyboardAction::SetModifiers(mods), KeyboardAction::SendKey(vk, true),
                        KeyboardAction::PlayClick]
                }
            },
            KeyButtonData::Modifier { modifier, sticky } => {
                let mods = modifier_press(old(state).modifiers, modifier).0;
                &&& final(state).modifiers == mods
                &&& final(state).alt_modifier == old(state).alt_modifier
                &&& final(state).keymap_switch_index == old(state).keymap_switch_index
                &&& final(state).keymap_switch_pending == old(state).keymap_switch_pending
                &&& *final(key) == (KeyButtonData::Modifier {
                    modifier,
                    sticky: modifier_press(old(state).modifiers, modifier).1,
                })
                &&& actions@ == seq![KeyboardAction::SetModifiers(mods), KeyboardAction::PlayClick]
            },
            KeyButtonData::Macro { verbs } => {
                &&& *final(state) == *old(state)
                &&& *final(key) == *old(key)
                &&& actions@ == verbs@.map_values(|v: (VirtualKey, bool)| KeyboardAction::SendKey(v.0, v.1))
                    .push(KeyboardAction::PlayClick)
            },
            KeyButtonData::Exec { program, args, .. } => {
                &&& *final(state) == *old(state)
                &&& *final(key) == *old(key)
                &&& actions@.len() == 3
                &&& actions@[0] == KeyboardAction::ReapProcesses
                &&& actions@[1] matches KeyboardAction::Spawn { program: p, args: a } && p == program
                    && a@ == args@
                &&& actions@[2] == KeyboardAction::PlayClick
            },
            KeyButtonData::KeymapSwitch { layouts } => {
                &&& *final(key) == *old(key)
                &&& final(state).modifiers == old(state).modifiers
                &&& final(state).alt_modifier == old(state).alt_modifier
                &&& if layouts == 0 {
                    &&& final(state).keymap_switch_index == old(state).keymap_switch_index
                    &&& final(state).keymap_switch_pending == old(state).keymap_switch_pending
                    &&& actions@ == seq![KeyboardAction::NoKeymapsToast]
                } else {
                    &&& final(state).keymap_switch_index == (old(state).keymap_switch_index + 1) % (layouts as int)
                    &&& final(state).keymap_switch_pending
                    &&& actions@ == seq![KeyboardAction::PlayClick]
                }
            },
        },
{
    let mut actions: Vec<KeyboardAction> = Vec::new();
    match key {
        KeyButtonData::Key { vk, pressed } => {
            let outcome = match swipe {
                Some(o) => o,
                None => KeyPressOutcome::Dispatch,
            };
            if outcome == KeyPressOutcome::Dispatch {
                let extra = match button {
                    MouseButtonIndex::Right => SHIFT,
                    MouseButtonIndex::Middle => state.alt_modifier,
                    MouseButtonIndex::Left => 0,
                };
                let m0 = state.modifiers;
                assert(m0 | 0u8 == m0) by (bit_vector);
                state.modifiers = state.modifiers | extra;
                actions.push(KeyboardAction::SetModifiers(state.modifiers));
                actions.push(KeyboardAction::SendKey(*vk, true));
                *pressed = true;
                actions.push(KeyboardAction::PlayClick);
            }
        },
        KeyButtonData::Modifier { modifier, sticky } => {
            *sticky = state.modifiers & *modifier == 0;
            state.modifiers = state.modifiers | *modifier;
            actions.push(KeyboardAction::SetModifiers(state.modifiers));
            actions.push(KeyboardAction::PlayClick);
        },
        KeyButtonData::Macro { verbs } => {
            let mut i: usize = 0;
            while i < verbs.len()
                invariant
                    i <= verbs.len(),
                    actions@ == verbs@.take(i as int).map_values(
                        |v: (VirtualKey, bool)| KeyboardAction::SendKey(v.0, v.1),
                    ),
                decreases verbs.len() - i,
            {
                let (vk, press) = verbs[i];
                actions.push(KeyboardAction::SendKey(vk, press));
                assert(verbs@.take(i + 1) == verbs@.take(i as int).push(verbs@[i as int]));
                i += 1;
            }
            assert(verbs@.take(verbs.len() as int) == verbs@);
            actions.push(KeyboardAction::PlayClick);
        },
        KeyButtonData::Exec { program, args, .. } => {
            actions.push(KeyboardAction::ReapProcesses);
            let p: String = (*program).clone();
            let a = clone_strings(&*args);
            actions.push(KeyboardAction::Spawn { program: p, args: a });
            actions.push(KeyboardAction::PlayClick);
        },
        KeyButtonData::KeymapSwitch { layouts } => {
            if *layouts == 0 {
                actions.push(KeyboardAction::NoKeymapsToast);
                return actions;
            }
            state.keymap_switch_index = ((state.keymap_switch_index as u128 + 1) % (*layouts as u128)) as usize;
            state.keymap_switch_pending = true;
            actions.push(KeyboardAction::PlayClick);
        },
    }
    actions
}

/// Handles a pointer release on a key. `swipe` is the swipe engine's verdict
/// for a plain key (`None` when swipe typing is off). The flag is false only
/// when a latched modifier ignores the release.
pub fn handle_release(
    state: &mut KeyboardState,
    key: &mut KeyButtonData,
    swipe: Option<KeyReleaseOutcome>,
) -> (r: (bool, Vec<KeyboardAction>))
    ensures
        final(state).alt_modifier == old(state).alt_modifier,
        final(state).keymap_switch_index == old(state).keymap_switch_index,
        final(state).keymap_switch_pending == old(state).keymap_switch_pending,
        match *old(key) {
            KeyButtonData::Key { vk, pressed } => {
                let outcome = match swipe { Some(o) => o, None => KeyReleaseOutcome::Normal };
                let mods = key_release_modifiers(old(state).modifiers, outcome);
                &&& r.0
                &&& final(state).modifiers == mods
                &&& match outcome {
                    KeyReleaseOutcome::Predict => {
                        &&& *final(key) == *old(key)
                        &&& r.1@ == Seq::<KeyboardAction>::empty()
                    },
                    KeyReleaseOutcome::TapKey { modifier } => {
                        &&& *final(key) == (KeyButtonData::Key { vk, pressed: true })
                        &&& r.1@ == seq![
                            KeyboardAction::SetModifiers(old(state).modifiers | modifier),
                            KeyboardAction::SendKey(vk, true),
                            KeyboardAction::SendKey(vk, false),
                            KeyboardAction::SetModifiers(mods),
                            KeyboardAction::PlayClick,
                        ]
                    },
                    KeyReleaseOutcome::Normal => {
                        &&& *final(key) == (KeyButtonData::Key { vk, pressed: false })
                        &&& r.1@ == seq![KeyboardAction::SendKey(vk, false), KeyboardAction::SetModifiers(mods)]
                    },
                }
            },
            KeyButtonData::Modifier { modifier, sticky } => {
                &&& r.0 == !sticky
                &&& *final(key) == *old(key)
                &&& final(state).modifiers == modifier_release(old(state).modifiers, modifier, sticky)
                &&& r.1@ == if sticky {
                    Seq::<KeyboardAction>::empty()
                } else {
                    seq![KeyboardAction::SetModifiers(old(state).modifiers & !modifier)]
                }
            },
            KeyButtonData::Exec { release_program, release_args, .. } => {
                &&& r.0
                &&& *final(key) == *old(key)
                &&& final(state).modifiers == old(state).modifiers
                &&& r.1@.len() == if release_program is Some { 2int } else { 1int }
                &&& r.1@[0] == KeyboardAction::ReapProcesses
                &&& release_program matches Some(prog) ==> r.1@[1] matches KeyboardAction::Spawn {
                    program: p,
                    args: a,
                } && p == prog && a@ == release_args@
            },
            _ => {
                &&& r.0
                &&& *final(key) == *old(key)
                &&& final(state).modifiers == old(state).modifiers
                &&& r.1@ == Seq::<KeyboardAction>::empty()
            },
        },
{
    let mut actions: Vec<KeyboardAction> = Vec::new();
    match key {
        KeyButtonData::Key { vk, pressed } => {
            let outcome = match swipe {
                Some(o) => o,
                None => KeyReleaseOutcome::Normal,
            };
            match outcome {
                KeyReleaseOutcome::Predict => {},
                KeyReleaseOutcome::TapKey { modifier } => {
                    state.modifiers = state.modifiers | modifier;
                    actions.push(KeyboardAction::SetModifiers(state.modifiers));
                    actions.push(KeyboardAction::SendKey(*vk, true));
                    *pressed = true;
                    actions.push(KeyboardAction::SendKey(*vk, false));
                    state.modifiers = state.modifiers & !AUTO_RELEASE_MASK;
                    actions.push(KeyboardAction::SetModifiers(state.modifiers));
                    actions.push(KeyboardAction::PlayClick);
                },
                KeyReleaseOutcome::Normal => {
                    *pressed = false;
                    state.modifiers = state.modifiers & !AUTO_RELEASE_MASK;
                    actions.push(KeyboardAction::SendKey(*vk, false));
                    actions.push(KeyboardAction::SetModifiers(state.modifiers));
                },
            }
            (true, actions)
        },
        KeyButtonData::Modifier { modifier, sticky } => {
            if *sticky {
                (false, actions)
            } else {
                state.modifiers = state.modifiers & !*modifier;
                actions.push(KeyboardAction::SetModifiers(state.modifiers));
                (true, actions)
            }
        },
        KeyButtonData::Exec { release_program, release_args, .. } => {
            actions.push(KeyboardAction::ReapProcesses);
            if let Some(program) = release_program {
                let p: String = (*program).clone();
                let a = clone_strings(&*release_args);
                actions.push(KeyboardAction::Spawn { program: p, args: a });
            }
            (true, actions)
        },
        _ => (true, actions),
    }
}

/// Releasing a plain key (unless a swipe prediction takes over) leaves none of
/// shift, ctrl, alt, super and altgr held.
pub proof fn law_key_release_drops_auto_modifiers(mods: KeyModifier, outcome: KeyReleaseOutcome)
    requires
        outcome != KeyReleaseOutcome::Predict,
    ensures
        key_release_modifiers(mods, outcome) & AUTO_RELEASE_MASK == 0,
        key_release_modifiers(mods, outcome) & !AUTO_RELEASE_MASK == match outcome {
            KeyReleaseOutcome::TapKey { modifier } => (mods | modifier) & !AUTO_RELEASE_MASK,
            _ => mods & !AUTO_RELEASE_MASK,
        },
{
    assert(forall|x: u8| #![auto] (x & !0xcdu8) & 0xcdu8 == 0) by (bit_vector);
    assert(forall|x: u8| #![auto] (x & !0xcdu8) & !0xcdu8 == x & !0xcdu8) by (bit_vector);
}

/// Pressing and releasing a modifier key flips that modifier: a modifier that
/// was off stays latched on after the release, one that was on is released.
/// No other modifier changes.
pub proof fn law_modifier_key_toggles(mods: KeyModifier, m: KeyModifier)
    requires
        m == SHIFT || m == crate::hid::CAPS_LOCK || m == CTRL || m == ALT || m == crate::hid::NUM_LOCK
            || m == SUPER || m == ALTGR,
    ensures
        modifier_release(modifier_press(mods, m).0, m, modifier_press(mods, m).1) == mods ^ m,
{
    assert(forall|x: u8, b: u8| #![auto]
        (b == 1u8 || b == 2u8 || b == 4u8 || b == 8u8 || b == 16u8 || b == 64u8 || b == 128u8) ==> (
            if x & b == 0 { x | b } else { (x | b) & !b }) == x ^ b) by (bit_vector);
}

/// The keymap cycle position stays within the configured keymaps, and after
/// as many presses as there are keymaps it is back where it started.
pub proof fn law_keymap_switch_cycles(index: usize, layouts: usize)
    requires
        layouts > 0,
        index < layouts,
    ensures
        (index + 1) % (layouts as int) < layouts,
        cycle_index(index as int, layouts as int, layouts as nat) == index,
{
    lemma_cycle(index as int, layouts as int, layouts as nat);
    vstd::arithmetic::div_mod::lemma_mod_add_multiples_vanish(index as int, layouts as int);
    vstd::arithmetic::div_mod::lemma_small_mod(index as nat, layouts as nat);
    assert(layouts + index == index + layouts);
    vstd::arithmetic::div_mod::lemma_mod_bound(index + 1, layouts as int);
}

/// The cycle position after `n` presses of a keymap switch key.
pub open spec fn cycle_index(index: int, layouts: int, n: nat) -> int
    decreases n,
{
    if n == 0 { index } else { (cycle_index(index, layouts, (n - 1) as nat) + 1) % layouts }
}

proof fn lemma_cycle(index: int, layouts: int, n: nat)
    requires
        layouts > 0,
        0 <= index < layouts,
        n <= layouts,
    ensures
        cycle_index(index, layouts, n) == (index + n) % layouts,
    decreases n,
{
    if n > 0 {
        lemma_cycle(index, layouts, (n - 1) as nat);
        vstd::arithmetic::div_mod::lemma_add_mod_noop_right(1, index + n - 1, layouts);
        assert(cycle_index(index, layouts, n) == (cycle_index(index, layouts, (n - 1) as nat) + 1) % layouts);
        assert((1 + (index + n - 1) % layouts) % layouts == (index + n) % layouts);
    } else {
        vstd::arithmetic::div_mod::lemma_small_mod(index as nat, layouts as nat);
    }
}

} // verus!
