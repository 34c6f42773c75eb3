use wayvr::sets::{
    NamedState, OverlayCategory, OverlayLookupError, OverlaySelector, OverlayWindowManager,
    SavedWindowSet, SetError, ToggleMode, ToggleOutcome, MAX_OVERLAY_SETS,
};

fn named(name: &str, state: u32) -> NamedState<u32> {
    NamedState { name: name.to_string(), state }
}

/// A manager with a keyboard (shown on spawn), a screen and a global watch.
fn sample() -> OverlayWindowManager<u32> {
    let mut m = OverlayWindowManager::new();
    let kbd = m.add("kbd".to_string(), false, OverlayCategory::Keyboard, true, 1);
    m.keyboard_id = Some(kbd.id);
    m.add("screen".to_string(), false, OverlayCategory::Screen, true, 2);
    m.add("watch".to_string(), true, OverlayCategory::Internal, true, 3);
    m.initialized = true;
    m
}

#[test]
fn new_manager_has_one_shown_set() {
    let m: OverlayWindowManager<u32> = OverlayWindowManager::new();
    assert_eq!(m.get_total_sets(), 1);
    assert_eq!(m.get_current_set(), Some(0));
    assert!(!m.get_edit_mode());
}

#[test]
fn add_shows_on_spawn_and_dedups_names() {
    let mut m = sample();
    assert_eq!(m.active, vec![Some(1), Some(2), Some(3)]);
    let a = m.add("screen".to_string(), false, OverlayCategory::Screen, false, 9);
    assert_eq!(a.name, "screen_2");
    assert_eq!(a.id, 3);
    assert!(!a.activated);
    let b = m.add("screen".to_string(), false, OverlayCategory::Screen, false, 9);
    assert_eq!(b.name, "screen_2_2");
    assert_eq!(m.lookup("screen_2"), Some(3));
    assert_eq!(m.lookup("screen_2_2"), Some(4));
    assert_eq!(m.lookup("nothing"), None);
}

#[test]
fn id_by_selector_by_id_and_name() {
    let m = sample();
    assert_eq!(m.id_by_selector(&OverlaySelector::Id(7)), Some(7));
    assert_eq!(m.id_by_selector(&OverlaySelector::Name("screen".to_string())), Some(1));
}

#[test]
fn show_hide_twice_restores_everything() {
    let mut m = sample();
    let hidden = m.show_hide();
    assert!(hidden.reset.is_empty());
    assert_eq!(m.get_current_set(), None);
    // regular overlays are stashed, the global watch stays
    assert_eq!(m.active, vec![None, None, Some(3)]);
    assert_eq!(m.sets[0].overlays, vec![Some(1), Some(2), None]);
    let shown = m.show_hide();
    assert_eq!(shown.reset, vec![0, 1]);
    assert!(!shown.empty_set_toast);
    assert_eq!(m.get_current_set(), Some(0));
    assert_eq!(m.active, vec![Some(1), Some(2), Some(3)]);
    assert_eq!(m.sets[0].overlays, vec![None, None, None]);
}

#[test]
fn switch_to_another_set_and_back() {
    let mut m = sample();
    assert!(m.add_set(11).is_ok());
    // the new set is shown with only the keyboard
    assert_eq!(m.get_current_set(), Some(1));
    assert_eq!(m.active, vec![Some(11), None, Some(3)]);
    let back = m.switch_to_set(Some(0), false);
    assert_eq!(back.reset, vec![0, 1]);
    assert_eq!(m.active, vec![Some(1), Some(2), Some(3)]);
    assert_eq!(m.sets[1].overlays, vec![Some(11), None, None]);
    let again = m.switch_to_set(Some(1), true);
    assert!(again.reset.is_empty());
    assert_eq!(m.active, vec![Some(11), None, Some(3)]);
    assert_eq!(m.restore_set, 1);
}

#[test]
fn switch_to_missing_or_current_set_does_nothing() {
    let mut m = sample();
    let same = m.switch_to_set(Some(0), false);
    assert!(same.reset.is_empty());
    let missing = m.switch_to_set(Some(5), false);
    assert!(missing.reset.is_empty());
    assert_eq!(m.get_current_set(), Some(0));
    assert_eq!(m.active, vec![Some(1), Some(2), Some(3)]);
}

#[test]
fn empty_set_toast_only_for_content_free_sets() {
    let mut m = sample();
    m.add_set(11).unwrap();
    m.switch_to_set(Some(0), false);
    // set 1 holds only the keyboard: furniture, not content
    let out = m.switch_to_set(Some(1), false);
    assert!(out.empty_set_toast);
    m.edit_mode = true;
    m.switch_to_set(Some(0), false);
    let in_edit = m.switch_to_set(Some(1), false);
    assert!(!in_edit.empty_set_toast);
}

#[test]
fn switch_or_toggle_hides_the_shown_set() {
    let mut m = sample();
    m.switch_or_toggle_set(0);
    assert_eq!(m.get_current_set(), None);
    m.switch_or_toggle_set(0);
    assert_eq!(m.get_current_set(), Some(0));
}

#[test]
fn add_set_is_refused_at_the_maximum() {
    let mut m = sample();
    for _ in 1..MAX_OVERLAY_SETS {
        assert!(m.add_set(11).is_ok());
    }
    assert_eq!(m.get_total_sets(), MAX_OVERLAY_SETS);
    assert!(matches!(m.add_set(11), Err(SetError::MaximumSetsReached)));
    assert_eq!(m.get_total_sets(), MAX_OVERLAY_SETS);
}

#[test]
fn delete_active_set_errors() {
    let mut m = sample();
    assert_eq!(m.delete_active_set(), Err(SetError::LastExistingSet));
    m.show_hide();
    assert_eq!(m.delete_active_set(), Err(SetError::NoSetSelected));
}

#[test]
fn delete_active_set_removes_it() {
    let mut m = sample();
    m.add_set(11).unwrap();
    assert_eq!(m.delete_active_set(), Ok(()));
    assert_eq!(m.get_total_sets(), 1);
    assert_eq!(m.get_current_set(), None);
    assert_eq!(m.restore_set, 0);
    // set 0 kept what was stashed into it
    assert_eq!(m.sets[0].overlays, vec![Some(1), Some(2), None]);
}

#[test]
fn toggle_off_then_on_restores_the_state() {
    let mut m = sample();
    assert_eq!(m.toggle_overlay(1, ToggleMode::Toggle, 50), ToggleOutcome::Hidden);
    assert_eq!(m.active[1], None);
    assert_eq!(m.sets[0].hidden_overlays.len(), 1);
    assert_eq!(m.toggle_overlay(1, ToggleMode::Toggle, 50), ToggleOutcome::Restored);
    assert_eq!(m.active[1], Some(2));
    assert!(m.sets[0].hidden_overlays.is_empty());
    assert_eq!(m.toggle_overlay(1, ToggleMode::EnsureOn, 50), ToggleOutcome::Unchanged);
}

#[test]
fn toggle_global_overlay_uses_the_global_set() {
    let mut m = sample();
    assert_eq!(m.toggle_overlay(2, ToggleMode::EnsureOff, 50), ToggleOutcome::Hidden);
    assert_eq!(m.global_set.hidden_overlays.len(), 1);
    assert_eq!(m.global_set.hidden_overlays[0].name, "watch");
    assert_eq!(m.toggle_overlay(2, ToggleMode::EnsureOff, 50), ToggleOutcome::Unchanged);
}

#[test]
fn toggle_without_kept_state_activates_fresh() {
    let mut m = sample();
    let id = m.add("panel".to_string(), false, OverlayCategory::Panel, false, 0).id;
    assert_eq!(m.toggle_overlay(id, ToggleMode::Toggle, 77), ToggleOutcome::Activated);
    assert_eq!(m.active[id], Some(77));
}

#[test]
fn activate_and_flip() {
    let mut m = sample();
    assert_eq!(m.activate_overlay(1, 40), Some(true));
    assert_eq!(m.active[1], Some(40));
    assert_eq!(m.activate_overlay(9, 40), None);
    assert_eq!(m.flip_overlay(1, 41), Some(false));
    assert_eq!(m.active[1], None);
    assert_eq!(m.flip_overlay(1, 41), Some(true));
    assert_eq!(m.active[1], Some(41));
}

#[test]
fn remove_and_cleanup_mirrors() {
    let mut m = sample();
    let shown = m.add("M-1".to_string(), false, OverlayCategory::Mirror, true, 5).id;
    let idle = m.add("M-2".to_string(), false, OverlayCategory::Mirror, false, 5).id;
    assert_eq!(m.cleanup_mirrors(), vec![idle]);
    assert!(m.overlays[shown].live);
    assert!(!m.overlays[idle].live);
    assert_eq!(m.lookup("M-2"), None);
    let removed = m.remove(shown).unwrap();
    assert_eq!(removed.name, "M-1");
    assert_eq!(removed.state, Some(5));
    assert!(m.remove(shown).is_none());
    // a removed name is free again
    let again = m.add("M-1".to_string(), false, OverlayCategory::Mirror, false, 0);
    assert_eq!(again.name, "M-1");
}

#[test]
fn added_overlay_takes_inactive_states() {
    let mut m = sample();
    m.sets[0].inactive_overlays.push(named("app", 70));
    m.add_set(11).unwrap();
    m.sets[0].inactive_overlays.push(named("other", 71));
    m.sets[1].inactive_overlays.push(named("app", 80));
    // set 1 is shown: its state becomes active, set 0 keeps its state by id
    let a = m.add("app".to_string(), false, OverlayCategory::WayVR, true, 99);
    assert!(a.loaded);
    assert!(!a.activated);
    assert_eq!(m.active[a.id], Some(80));
    assert_eq!(m.sets[0].overlays[a.id], Some(70));
    assert_eq!(m.sets[0].inactive_overlays.len(), 1);
    assert!(m.sets[1].inactive_overlays.is_empty());
}

#[test]
fn restore_layout_rebuilds_sets() {
    let mut m = sample();
    let saved = vec![
        SavedWindowSet { overlays: vec![named("screen", 20), named("gone", 21)], hidden_overlays: vec![] },
        SavedWindowSet { overlays: vec![named("kbd", 30)], hidden_overlays: vec![named("screen", 31)] },
    ];
    let globals = vec![named("watch", 40), named("later", 41)];
    let reset = m.restore_layout(saved, globals, 7);
    assert_eq!(reset, vec![2]);
    assert_eq!(m.get_total_sets(), 2);
    assert_eq!(m.get_current_set(), None);
    assert_eq!(m.restore_set, 1);
    assert_eq!(m.sets[0].overlays, vec![None, Some(20), None]);
    assert_eq!(m.sets[0].inactive_overlays.len(), 1);
    assert_eq!(m.sets[0].inactive_overlays[0].name, "gone");
    assert_eq!(m.sets[1].overlays, vec![Some(30), None, None]);
    assert_eq!(m.sets[1].hidden_overlays[0].state, 31);
    assert_eq!(m.active[2], Some(40));
    assert!(m.overlays[2].global);
    assert_eq!(m.global_set.inactive_overlays[0].name, "later");
    let shown = m.show_hide();
    assert_eq!(shown.reset, vec![0]);
    assert_eq!(m.active, vec![Some(30), None, Some(40)]);
}

#[test]
fn restore_layout_without_sets_keeps_everything() {
    let mut m = sample();
    let reset = m.restore_layout(Vec::new(), vec![named("watch", 40)], 0);
    assert!(reset.is_empty());
    assert_eq!(m.get_current_set(), Some(0));
    assert_eq!(m.active, vec![Some(1), Some(2), Some(3)]);
}

#[test]
fn visible_overlay_reports_errors() {
    let mut m = sample();
    assert_eq!(m.visible_overlay("screen"), Ok(1));
    assert_eq!(m.visible_overlay("nope"), Err(OverlayLookupError::NotFound));
    m.toggle_overlay(1, ToggleMode::EnsureOff, 0);
    assert_eq!(m.visible_overlay("screen"), Err(OverlayLookupError::NotVisible));
    assert_eq!(OverlayLookupError::NotFound.message("nope"), "overlay 'nope' not found");
    assert_eq!(OverlayLookupError::NotVisible.message("screen"), "overlay 'screen' is not visible");
}

#[test]
fn persist_layout_saves_by_name_and_leaves_the_manager() {
    let mut m = sample();
    m.watch_id = Some(2);
    m.sets[0].inactive_overlays.push(named("later", 60));
    m.toggle_overlay(1, ToggleMode::EnsureOff, 0);
    let before_active = m.active.clone();
    let saved = m.persist_layout();
    assert_eq!(saved.last_set, 0);
    assert_eq!(saved.sets.len(), 1);
    let mut names: Vec<(String, u32)> = saved.sets[0].overlays.iter().map(|e| (e.name.clone(), e.state)).collect();
    names.sort();
    assert_eq!(names, vec![("kbd".to_string(), 1), ("later".to_string(), 60)]);
    assert_eq!(saved.sets[0].hidden_overlays.len(), 1);
    assert_eq!(saved.sets[0].hidden_overlays[0].name, "screen");
    assert_eq!(saved.sets[0].hidden_overlays[0].state, 2);
    assert_eq!(saved.global.len(), 1);
    assert_eq!(saved.global[0].name, "watch");
    assert_eq!(saved.global[0].state, 3);
    assert_eq!(m.get_current_set(), Some(0));
    assert_eq!(m.active, before_active);
}

#[test]
fn persisted_layout_restores() {
    let mut m = sample();
    m.watch_id = Some(2);
    m.add_set(11).unwrap();
    let saved = m.persist_layout();
    let mut fresh = sample();
    fresh.watch_id = Some(2);
    fresh.restore_layout(saved.sets, saved.global, saved.last_set);
    assert_eq!(fresh.get_total_sets(), 2);
    assert_eq!(fresh.restore_set, 1);
    fresh.show_hide();
    assert_eq!(fresh.active, vec![Some(11), None, Some(3)]);
    fresh.switch_to_set(Some(0), false);
    assert_eq!(fresh.active, vec![Some(1), Some(2), Some(3)]);
}

#[test]
fn restoring_the_saved_layout_gives_back_the_hidden_manager() {
    let mut m = sample();
    m.watch_id = Some(2);
    m.add_set(11).unwrap();
    m.switch_to_set(Some(0), false);
    m.sets[1].hidden_overlays.push(named("screen", 5));
    let saved = m.persist_layout();
    let mut hidden = sample();
    hidden.watch_id = Some(2);
    hidden.add_set(11).unwrap();
    hidden.switch_to_set(Some(0), false);
    hidden.sets[1].hidden_overlays.push(named("screen", 5));
    hidden.switch_to_set(None, false);
    m.restore_layout(saved.sets, saved.global, saved.last_set);
    assert_eq!(m.get_current_set(), None);
    assert_eq!(m.restore_set, hidden.restore_set);
    assert_eq!(m.active, hidden.active);
    assert_eq!(m.sets.len(), hidden.sets.len());
    for (a, b) in m.sets.iter().zip(hidden.sets.iter()) {
        assert_eq!(a.overlays, b.overlays);
        let pairs = |v: &Vec<NamedState<u32>>| {
            let mut p: Vec<(String, u32)> = v.iter().map(|e| (e.name.clone(), e.state)).collect();
            p.sort();
            p
        };
        assert_eq!(pairs(&a.inactive_overlays), pairs(&b.inactive_overlays));
        assert_eq!(pairs(&a.hidden_overlays), pairs(&b.hidden_overlays));
    }
}
