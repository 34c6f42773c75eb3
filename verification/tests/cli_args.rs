use wayvr::ctl::{
    handsfree_pointer, positioning_name, HandsfreeMode, HandsfreePointer,
    argv_from_words, flag_from_number, handle_empty_result, is_skipped_line, join_text, parse_batch_line,
    parse_bool, parse_positioning, parse_resolution, parse_window_state_value, set_from_number, split_env,
    window_list_filter, window_state_field_name, ArgError, StateValue, WindowStateField,
};
use wayvr::pos::PositioningKind;

#[test]
fn field_names() {
    assert_eq!(window_state_field_name(WindowStateField::Alpha), "alpha");
    assert_eq!(window_state_field_name(WindowStateField::BlockInput), "block_input");
    assert_eq!(window_state_field_name(WindowStateField::AlignToHmd), "align_to_hmd");
    assert_eq!(window_state_field_name(WindowStateField::Global), "global");
}

#[test]
fn bools() {
    for t in ["1", "true", "on"] {
        assert_eq!(parse_bool(t), Ok(true));
    }
    for f in ["0", "false", "off"] {
        assert_eq!(parse_bool(f), Ok(false));
    }
    assert_eq!(parse_bool("yes"), Err(ArgError::ExpectedBool));
    assert_eq!(parse_bool("TRUE"), Err(ArgError::ExpectedBool));
    assert_eq!(ArgError::ExpectedBool.message(), "expected 0 or 1");
}

#[test]
fn positionings() {
    assert_eq!(parse_positioning("floating"), Ok(PositioningKind::Floating));
    assert_eq!(parse_positioning("follow-head"), Ok(PositioningKind::FollowHead));
    assert_eq!(parse_positioning("follow_hand_left"), Ok(PositioningKind::FollowHandLeft));
    assert_eq!(parse_positioning("follow-hand-right"), Ok(PositioningKind::FollowHandRight));
    assert_eq!(parse_positioning("hmd"), Err(ArgError::ExpectedPositioning));
    assert_eq!(
        ArgError::ExpectedPositioning.message(),
        "expected floating, anchored, static, follow_head or follow_hand_<left|right>"
    );
}

#[test]
fn window_state_values() {
    assert_eq!(parse_window_state_value(WindowStateField::Alpha, "0.5"), Ok(StateValue::Number));
    assert_eq!(parse_window_state_value(WindowStateField::Grabbable, "on"), Ok(StateValue::Bool(true)));
    assert_eq!(
        parse_window_state_value(WindowStateField::Positioning, "static"),
        Ok(StateValue::Positioning(PositioningKind::Static))
    );
    assert_eq!(parse_window_state_value(WindowStateField::Global, "2"), Err(ArgError::ExpectedBool));
}

#[test]
fn resolutions() {
    assert_eq!(parse_resolution("1920x1080"), Ok([1920, 1080]));
    assert_eq!(parse_resolution("+1280x720"), Ok([1280, 720]));
    assert_eq!(parse_resolution("1280x"), Err(ArgError::InvalidResolution));
    assert_eq!(parse_resolution("1280"), Err(ArgError::InvalidResolution));
    assert_eq!(parse_resolution("12a0x720"), Err(ArgError::InvalidResolution));
    assert_eq!(parse_resolution("4294967296x1"), Err(ArgError::InvalidResolution));
    assert_eq!(parse_resolution("4294967295x1"), Ok([4294967295, 1]));
    assert_eq!(parse_resolution("10x20x30"), Err(ArgError::InvalidResolution));
    assert_eq!(
        ArgError::InvalidResolution.message(),
        "Invalid resolution format. Expecting <width>x<height>, for example: 1920x1080, 1280x720"
    );
}

#[test]
fn sets_flags_and_filters() {
    assert_eq!(set_from_number(0), None);
    assert_eq!(set_from_number(3), Some(2));
    assert!(flag_from_number(2));
    assert!(!flag_from_number(0));
    assert_eq!(window_list_filter(false, false), (true, true));
    assert_eq!(window_list_filter(true, false), (true, false));
}

#[test]
fn env_lists() {
    assert_eq!(split_env("A=1,B=2"), vec!["A=1", "B=2"]);
    assert_eq!(split_env(""), vec![""]);
    assert_eq!(split_env("A=1,"), vec!["A=1", ""]);
}

#[test]
fn panel_text() {
    let words = vec!["hello".to_string(), "big".to_string(), "world".to_string()];
    assert_eq!(join_text(&words), "hello big world");
    assert_eq!(join_text(&Vec::new()), "");
}

#[test]
fn batch_lines() {
    assert!(is_skipped_line(""));
    assert!(is_skipped_line("   \t"));
    assert!(is_skipped_line("  # comment"));
    assert!(!is_skipped_line("show-hide # trailing"));
    assert!(!is_skipped_line("switch-set 1"));
}

#[test]
fn batch_line_words() {
    let argv = parse_batch_line("window-state \"my overlay\" set alpha 0.5").unwrap();
    assert_eq!(argv, vec!["wayvrctl", "window-state", "my overlay", "set", "alpha", "0.5"]);
    assert_eq!(parse_batch_line("panel-modify 'unclosed"), Err(ArgError::Parse));
    assert_eq!(ArgError::Parse.message(), "parse error");
    assert_eq!(argv_from_words(vec!["show-hide".to_string()]), vec!["wayvrctl", "show-hide"]);
}

#[test]
fn empty_results() {
    assert_eq!(handle_empty_result(Ok(())), None);
    assert_eq!(handle_empty_result(Err("failed".to_string())), Some("failed".to_string()));
}

#[test]
fn handsfree_modes_select_pointers() {
    assert_eq!(handsfree_pointer(HandsfreeMode::Off), HandsfreePointer::Off);
    assert_eq!(handsfree_pointer(HandsfreeMode::Hmd), HandsfreePointer::HmdOnly);
    assert_eq!(handsfree_pointer(HandsfreeMode::HmdPinch), HandsfreePointer::Hmd);
    assert_eq!(handsfree_pointer(HandsfreeMode::EyeTracking), HandsfreePointer::EyeTrackingOnly);
    assert_eq!(handsfree_pointer(HandsfreeMode::EyeTrackingPinch), HandsfreePointer::EyeTracking);
}

#[test]
fn printed_positionings_read_back() {
    let all = [
        PositioningKind::Floating,
        PositioningKind::Anchored,
        PositioningKind::Static,
        PositioningKind::FollowHead,
        PositioningKind::FollowHandLeft,
        PositioningKind::FollowHandRight,
    ];
    for p in all {
        assert_eq!(parse_positioning(positioning_name(p)), Ok(p));
    }
    assert_eq!(positioning_name(PositioningKind::FollowHandLeft), "follow_hand_left");
}
