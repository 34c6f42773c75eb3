use wayvr::hid::{
    get_key_type, key_from_code, key_modifier, modifier_key_events, modifier_keys, virtual_modifier_update,
    virtual_mods_after_key, KeyType, MouseAction, MouseCommand, VirtualKey, ALT, CAPS_LOCK, CTRL, SHIFT, SUPER,
};
use wayvr::input_capture::{
    key_combo_is_pressed, CapturedKeyEvent, DeviceKeyState, GrabWatchdog, KeyCombo, KeyEventResult, KEY_DELETE,
    KEY_F4, KEY_LEFTALT, KEY_LEFTCTRL, KEY_TAB, WATCHDOG_TIMEOUT_MS,
};
use wayvr::keyboard::{
    alt_modifier_to_key, handle_press, handle_release, AltModifier, KeyButtonData, KeyPressOutcome,
    KeyReleaseOutcome, KeyboardAction, KeyboardState, MouseButtonIndex, PredictionSlot, AUTO_RELEASE_MASK,
};
use wayvr::swipe::{ascii_lower, SwipeTracker};

fn state() -> KeyboardState {
    KeyboardState { modifiers: 0, alt_modifier: CTRL, keymap_switch_index: 0, keymap_switch_pending: false }
}

#[test]
fn key_codes_and_types() {
    assert_eq!(VirtualKey::Escape.code(), 9);
    assert_eq!(key_from_code(9), Some(VirtualKey::Escape));
    assert_eq!(key_from_code(0), None);
    assert_eq!(get_key_type(VirtualKey::Q), KeyType::Symbol);
    assert_eq!(get_key_type(VirtualKey::Return), KeyType::Special);
    assert_eq!(get_key_type(VirtualKey::Escape), KeyType::Other);
    assert_eq!(key_modifier(VirtualKey::LShift), Some(SHIFT));
    assert_eq!(key_modifier(VirtualKey::Q), None);
    assert_eq!(modifier_keys(CTRL), vec![VirtualKey::LCtrl, VirtualKey::RCtrl]);
    assert!(modifier_keys(0x20).is_empty());
}

#[test]
fn modifier_changes_become_key_events() {
    let ev = modifier_key_events(SHIFT | ALT, CTRL | ALT | SUPER);
    assert_eq!(
        ev,
        vec![(VirtualKey::LShift, false), (VirtualKey::LCtrl, true), (VirtualKey::LSuper, true)]
    );
    assert!(modifier_key_events(CTRL, CTRL).is_empty());
}

#[test]
fn virtual_keyboard_modifiers() {
    let s = virtual_mods_after_key(0, VirtualKey::LShift, true);
    assert_eq!(s, SHIFT);
    assert_eq!(virtual_mods_after_key(s, VirtualKey::LShift, false), 0);
    let caps = virtual_mods_after_key(0, VirtualKey::Caps, true);
    assert_eq!(caps, CAPS_LOCK);
    assert_eq!(virtual_mods_after_key(caps, VirtualKey::Caps, false), CAPS_LOCK);
    let u = virtual_modifier_update(SHIFT, CTRL | CAPS_LOCK);
    assert_eq!(u.keys, vec![(VirtualKey::LShift, false), (VirtualKey::LCtrl, true)]);
    assert_eq!(u.depressed, CTRL as u32);
    assert_eq!(u.locked, CAPS_LOCK as u32);
}

#[test]
fn mouse_frames_coalesce() {
    let mut a: MouseAction<(i32, i32), i32> = MouseAction::new();
    a.mouse_move((1, 1));
    a.mouse_move((2, 2));
    a.send_button(0x110, true);
    let cmds = a.commit();
    assert_eq!(cmds.len(), 2);
    assert!(matches!(cmds[0], MouseCommand::Move((2, 2))));
    assert!(matches!(cmds[1], MouseCommand::Button { button: 0x110, down: true }));
    a.mouse_move((3, 3));
    a.wheel(5);
    let cmds = a.commit();
    assert_eq!(cmds.len(), 1);
    assert!(matches!(cmds[0], MouseCommand::Scroll(5)));
}

#[test]
fn prediction_slot() {
    let mut slot = PredictionSlot::new();
    assert_eq!(slot.take(), None);
    slot.set(Some(vec!["hi".to_string()]));
    assert_eq!(slot.take(), Some(Some(vec!["hi".to_string()])));
    assert_eq!(slot.take(), None);
    slot.set(None);
    assert_eq!(slot.take(), Some(None));
}

#[test]
fn key_press_and_release() {
    let mut s = state();
    let mut key = KeyButtonData::Key { vk: VirtualKey::A, pressed: false };
    let acts = handle_press(&mut s, &mut key, MouseButtonIndex::Right, None);
    assert!(matches!(acts[..], [
        KeyboardAction::SetModifiers(SHIFT),
        KeyboardAction::SendKey(VirtualKey::A, true),
        KeyboardAction::PlayClick
    ]));
    let (handled, acts) = handle_release(&mut s, &mut key, None);
    assert!(handled);
    assert!(matches!(acts[..], [KeyboardAction::SendKey(VirtualKey::A, false), KeyboardAction::SetModifiers(0)]));
    assert_eq!(s.modifiers & AUTO_RELEASE_MASK, 0);
}

#[test]
fn swipe_outcomes_steer_keys() {
    let mut s = state();
    let mut key = KeyButtonData::Key { vk: VirtualKey::A, pressed: false };
    assert!(handle_press(&mut s, &mut key, MouseButtonIndex::Left, Some(KeyPressOutcome::Consumed)).is_empty());
    let (_, acts) = handle_release(&mut s, &mut key, Some(KeyReleaseOutcome::TapKey { modifier: SHIFT }));
    assert_eq!(acts.len(), 5);
    assert!(matches!(acts[0], KeyboardAction::SetModifiers(SHIFT)));
    assert_eq!(s.modifiers, 0);
    let (_, none) = handle_release(&mut s, &mut key, Some(KeyReleaseOutcome::Predict));
    assert!(none.is_empty());
}

#[test]
fn modifier_keys_latch() {
    let mut s = state();
    let mut key = KeyButtonData::Modifier { modifier: SHIFT, sticky: false };
    handle_press(&mut s, &mut key, MouseButtonIndex::Left, None);
    assert!(matches!(key, KeyButtonData::Modifier { sticky: true, .. }));
    let (handled, acts) = handle_release(&mut s, &mut key, None);
    assert!(!handled);
    assert!(acts.is_empty());
    assert_eq!(s.modifiers, SHIFT);
    // a second press finds it held: the release lets go of it
    handle_press(&mut s, &mut key, MouseButtonIndex::Left, None);
    let (handled, _) = handle_release(&mut s, &mut key, None);
    assert!(handled);
    assert_eq!(s.modifiers, 0);
}

#[test]
fn keymap_switch_cycles() {
    let mut s = state();
    let mut key = KeyButtonData::KeymapSwitch { layouts: 3 };
    for expected in [1, 2, 0, 1] {
        handle_press(&mut s, &mut key, MouseButtonIndex::Left, None);
        assert_eq!(s.keymap_switch_index, expected);
    }
    let mut none = KeyButtonData::KeymapSwitch { layouts: 0 };
    let acts = handle_press(&mut s, &mut none, MouseButtonIndex::Left, None);
    assert!(matches!(acts[..], [KeyboardAction::NoKeymapsToast]));
}

#[test]
fn exec_keys_spawn() {
    let mut s = state();
    let mut key = KeyButtonData::Exec {
        program: "notify".to_string(),
        args: vec!["hi".to_string()],
        release_program: None,
        release_args: Vec::new(),
    };
    let acts = handle_press(&mut s, &mut key, MouseButtonIndex::Left, None);
    assert!(matches!(&acts[1], KeyboardAction::Spawn { program, args } if program == "notify" && args == &vec!["hi".to_string()]));
    let (_, rel) = handle_release(&mut s, &mut key, None);
    assert!(matches!(rel[..], [KeyboardAction::ReapProcesses]));
}

#[test]
fn alt_modifiers() {
    assert_eq!(alt_modifier_to_key(AltModifier::Off), 0);
    assert_eq!(alt_modifier_to_key(AltModifier::Ctrl), CTRL);
}

#[test]
fn swipe_tracking() {
    assert_eq!(ascii_lower('Q'), 'q');
    assert_eq!(ascii_lower('7'), '7');
    let mut t: SwipeTracker<u32> = SwipeTracker::new();
    assert_eq!(t.handle_key_press(true, Some(('H', 1)), true, 5, MouseButtonIndex::Right), KeyPressOutcome::Consumed);
    assert!(!t.did_swipe_leave_first_key());
    t.handle_key_motion(true, Some(('h', 2)), true, 5);
    assert!(!t.did_swipe_leave_first_key());
    // another device is ignored
    t.handle_key_motion(true, Some(('e', 3)), true, 6);
    assert!(!t.did_swipe_leave_first_key());
    t.handle_key_motion(true, Some(('e', 4)), true, 5);
    assert!(t.did_swipe_leave_first_key());
    let (outcome, req) = t.handle_key_release(true, CTRL);
    assert_eq!(outcome, KeyReleaseOutcome::Predict);
    assert_eq!(req.unwrap().swipe, vec![1, 2, 4]);
    assert!(t.is_current_swipe_empty());
}

#[test]
fn swipe_tap_uses_the_button_modifier() {
    let mut t: SwipeTracker<u32> = SwipeTracker::new();
    t.handle_key_press(true, Some(('a', 1)), true, 5, MouseButtonIndex::Middle);
    let (outcome, req) = t.handle_key_release(true, ALT);
    assert_eq!(outcome, KeyReleaseOutcome::TapKey { modifier: ALT });
    assert!(req.is_none());
    assert_eq!(t.prediction_slot.take(), Some(None));
}

#[test]
fn select_words_paste() {
    let mut t: SwipeTracker<u32> = SwipeTracker::new();
    let plan = t.select_word(&"hello".to_string(), SHIFT);
    assert_eq!(plan.text, "hello ");
    assert_eq!(plan.keys.len(), 4);
    assert!(matches!(plan.keys[3], KeyboardAction::SetModifiers(SHIFT)));
    let alt = t.select_alternate_prediction(&"help".to_string(), 0);
    assert_eq!(alt.text, "help ");
    assert_eq!(alt.keys.len(), 8);
    assert!(matches!(alt.keys[1], KeyboardAction::SendKey(VirtualKey::Z, true)));
    assert_eq!(t.last_swiped_word.as_deref(), Some("help"));
}

#[test]
fn key_combos() {
    let mut d = DeviceKeyState::new();
    assert!(matches!(d.process_key(KEY_LEFTALT as u32, true), KeyEventResult::Report(ref e) if e.len() == 1));
    match d.process_key(KEY_F4 as u32, true) {
        KeyEventResult::Report(e) => assert_eq!(
            e,
            vec![
                CapturedKeyEvent::KeyCombo { combo: KeyCombo::AltF4, pressed: true },
                CapturedKeyEvent::Key { code: KEY_F4, pressed: true },
            ]
        ),
        _ => panic!("expected a report"),
    }
    match d.process_key(KEY_F4 as u32, false) {
        KeyEventResult::Report(e) => assert_eq!(e[0], CapturedKeyEvent::KeyCombo { combo: KeyCombo::AltF4, pressed: false }),
        _ => panic!("expected a report"),
    }
    assert!(key_combo_is_pressed(KeyCombo::AltTab, &vec![KEY_LEFTALT, KEY_TAB]));
    d.process_key(KEY_LEFTCTRL as u32, true);
    assert!(matches!(d.process_key(KEY_DELETE as u32, true), KeyEventResult::EmergencyUngrab));
    assert!(matches!(d.process_key(0x10000, true), KeyEventResult::Ignored));
    d.clear();
    assert!(d.pressed_keys.is_empty());
}

#[test]
fn watchdog() {
    let mut w = GrabWatchdog::new(0);
    assert!(!w.expired(WATCHDOG_TIMEOUT_MS + 1));
    w.set_grabbed(true, true, 100);
    assert!(!w.expired(100 + WATCHDOG_TIMEOUT_MS - 1));
    assert!(w.expired(100 + WATCHDOG_TIMEOUT_MS));
    w.reset(200);
    assert!(!w.expired(100 + WATCHDOG_TIMEOUT_MS));
    w.emergency_ungrabbed();
    assert!(!w.expired(u64::MAX));
    w.set_grabbed(true, false, 300);
    assert!(!w.grabbed);
}
