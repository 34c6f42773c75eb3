use wayvr::clipboard::{
    is_text_mime_type, notified_property, ClipboardAtoms, ClipboardOwner, SelectionReply, ATOM_NONE, ATOM_STRING,
};
use wayvr::keymap::{classify_fcitx_layout, is_system_alias, parse_keymap_name, FcitxLayout};
use wayvr::metrics::{RecordQueue, RECORD_QUEUE_SIZE};
use wayvr::names::{new_mirror_name, new_passtrhu_name, OverlayNameCounter};
use wayvr::pos::{from_tab_key, to_tab_key, PositioningKind};

#[test]
fn tab_keys_round_trip() {
    for p in [
        PositioningKind::Static,
        PositioningKind::Anchored,
        PositioningKind::Floating,
        PositioningKind::FollowHead,
        PositioningKind::FollowHandLeft,
        PositioningKind::FollowHandRight,
    ] {
        let s = from_tab_key(to_tab_key(p));
        assert_eq!(s.pos, p);
    }
    assert_eq!(to_tab_key(PositioningKind::FollowHead), "hmd");
    assert!(from_tab_key("hand_l").has_lerp);
    assert!(!from_tab_key("static").has_lerp);
}

#[test]
fn overlay_names_count_up() {
    let mut c = OverlayNameCounter::new();
    assert_eq!(new_passtrhu_name(&mut c), "P-1");
    assert_eq!(new_passtrhu_name(&mut c), "P-2");
    let mut m = OverlayNameCounter::new();
    assert_eq!(new_mirror_name(&mut m), "M-1");
    m.next = 41;
    assert_eq!(new_mirror_name(&mut m), "M-41");
    assert_eq!(m.next, 42);
    m.next = usize::MAX;
    new_mirror_name(&mut m);
    assert_eq!(m.next, 0);
}

#[test]
fn fcitx_layouts() {
    match classify_fcitx_layout("keyboard-de-nodeadkeys") {
        FcitxLayout::Layout { layout, variant } => {
            assert_eq!(layout, "de");
            assert_eq!(variant, "nodeadkeys");
        }
        _ => panic!("expected a layout"),
    }
    match classify_fcitx_layout("keyboard-us") {
        FcitxLayout::Layout { layout, variant } => {
            assert_eq!(layout, "us");
            assert_eq!(variant, "");
        }
        _ => panic!("expected a layout"),
    }
    assert!(matches!(classify_fcitx_layout("keyboard-a-b-c"), FcitxLayout::Unknown));
    assert!(matches!(classify_fcitx_layout("keyboard-"), FcitxLayout::Unknown));
    assert!(matches!(classify_fcitx_layout("keyboard--x"), FcitxLayout::Unknown));
    assert!(matches!(classify_fcitx_layout("keyboard-us-"), FcitxLayout::Unknown));
    assert!(matches!(classify_fcitx_layout("pinyin"), FcitxLayout::Ime));
    assert!(matches!(classify_fcitx_layout("anthy"), FcitxLayout::Unknown));
    assert!(is_system_alias("mozc"));
    assert!(!is_system_alias("Mozc"));
}

#[test]
fn keymap_names() {
    assert_eq!(parse_keymap_name("us"), Ok(("us".to_string(), String::new())));
    assert_eq!(parse_keymap_name("de(nodeadkeys)"), Ok(("de".to_string(), "nodeadkeys".to_string())));
    assert_eq!(parse_keymap_name("fr2(a(b)"), Ok(("fr2".to_string(), "a(b".to_string())));
    assert_eq!(
        parse_keymap_name("1us"),
        Err("invalid layout name for keymap switch: 1us".to_string())
    );
    assert!(parse_keymap_name("de()").is_err());
    assert!(parse_keymap_name("de(x)y").is_err());
    assert!(parse_keymap_name("de-x").is_err());
    assert!(parse_keymap_name("").is_err());
}

fn atoms() -> ClipboardAtoms {
    ClipboardAtoms { clipboard: 100, utf8_string: 101, targets: 102, text: 103, text_plain: 104, text_plain_utf8: 105 }
}

#[test]
fn clipboard_targets() {
    let mut o = ClipboardOwner::new(atoms());
    assert_eq!(o.plan_selection_reply(100, 101, 7), SelectionReply::Refuse);
    o.set_content(b"hello".to_vec());
    assert_eq!(o.supported_targets(), vec![102, 101, 105, 104, 103, ATOM_STRING]);
    assert_eq!(o.plan_selection_reply(100, 102, ATOM_NONE), SelectionReply::WriteTargets { property: 102 });
    assert_eq!(o.plan_selection_reply(100, 103, 9), SelectionReply::WriteText { property: 9, type_atom: 103 });
    assert_eq!(o.plan_selection_reply(99, 101, 9), SelectionReply::Refuse);
    o.set_content("héllo".as_bytes().to_vec());
    assert_eq!(o.supported_targets(), vec![102, 101, 105, 104]);
    assert_eq!(o.type_for_text_target(ATOM_STRING), None);
    assert_eq!(o.type_for_text_target(105), Some(105));
    assert_eq!(o.plan_selection_reply(100, 555, 9), SelectionReply::Refuse);
    o.selection_cleared(42);
    assert!(o.owns_clipboard);
    o.selection_cleared(100);
    assert!(!o.owns_clipboard);
    assert!(!o.release_clipboard_if_owned());
    o.set_content(Vec::new());
    assert!(o.release_clipboard_if_owned());
}

#[test]
fn clipboard_notify() {
    assert_eq!(notified_property(SelectionReply::WriteTargets { property: 5 }, true), 5);
    assert_eq!(notified_property(SelectionReply::WriteText { property: 5, type_atom: 1 }, false), ATOM_NONE);
    assert_eq!(notified_property(SelectionReply::Refuse, true), ATOM_NONE);
}

#[test]
fn wayland_mime_types() {
    assert!(is_text_mime_type("text/plain;charset=utf-8"));
    assert!(is_text_mime_type("STRING"));
    assert!(!is_text_mime_type("image/png"));
    assert!(!is_text_mime_type("text/html"));
}

#[test]
fn metrics_queue_is_bounded() {
    let mut q: RecordQueue<usize> = RecordQueue::new();
    for i in 0..(RECORD_QUEUE_SIZE + 10) {
        q.push(i);
        assert!(q.records.len() < RECORD_QUEUE_SIZE);
    }
    assert!(q.is_full());
    let all = q.dump_records();
    assert_eq!(all.len(), RECORD_QUEUE_SIZE - 1);
    assert_eq!(all[0], 11);
    assert_eq!(*all.last().unwrap(), RECORD_QUEUE_SIZE + 9);
    assert!(q.records.is_empty());
    assert!(!q.is_full());
}
