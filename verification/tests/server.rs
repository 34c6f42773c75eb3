use wayvr::input_capture::KeyCombo;
use wayvr::wvr::{
    button_to_mouse_index, capture_action, frame_extents, window_should_render, ShouldRender, StereoMode, CaptureAction, CapturedInput, command_task, next_display_num, parse_process_env, plan_launch, plan_spawn,
    pointer_button_code, initial_window_size, launched_in_cage, new_window_limits, window_icon,
    window_title, InputFocus, InputRouting, KeyRoute, KillSignal, LogicalSize, MouseIndex, SpawnPos,
    SyncOutcome, WaylandEnv, WindowOverlays, WindowSizing, WindowTask, WvrCommand,
};

fn env_pairs(v: &[(String, String)]) -> Vec<(&str, &str)> {
    v.iter().map(|(a, b)| (a.as_str(), b.as_str())).collect()
}

#[test]
fn display_names() {
    let env = WaylandEnv { display_num: 20 };
    assert_eq!(env.wayland_display_num_string(), "wayland-20");
    assert_eq!(env.display_num_string(), ":20");
    assert_eq!(WaylandEnv { display_num: 7 }.wayland_display_num_string(), "wayland-7");
}

#[test]
fn display_numbers_run_out() {
    assert_eq!(next_display_num(20), Some(21));
    assert_eq!(next_display_num(39), Some(40));
    assert_eq!(next_display_num(40), None);
}

#[test]
fn process_environment() {
    let env = parse_process_env("PATH=/bin\0WAYVR_DISPLAY_AUTH=abc\0\0WAYVR_DISPLAY_NAME=x=y\0");
    assert_eq!(env.display_auth.as_deref(), Some("abc"));
    assert_eq!(env.display_name.as_deref(), Some("x=y"));
    let later = parse_process_env("WAYVR_DISPLAY_AUTH=one\0WAYVR_DISPLAY_AUTH=two");
    assert_eq!(later.display_auth.as_deref(), Some("two"));
    let none = parse_process_env("WAYVR_DISPLAY_AUTH\0OTHER=1");
    assert!(none.display_auth.is_none());
    assert!(none.display_name.is_none());
    assert!(parse_process_env("").display_auth.is_none());
}

#[test]
fn pointer_buttons() {
    assert_eq!(button_to_mouse_index(272), Some(MouseIndex::Left));
    assert_eq!(button_to_mouse_index(273), Some(MouseIndex::Right));
    assert_eq!(button_to_mouse_index(274), Some(MouseIndex::Center));
    assert_eq!(button_to_mouse_index(275), None);
    assert_eq!(pointer_button_code(MouseIndex::Left), 0x110);
    assert_eq!(pointer_button_code(MouseIndex::Center), 0x112);
    assert_eq!(pointer_button_code(MouseIndex::Right), 0x111);
}

#[test]
fn native_launch_sets_the_environment() {
    let wl = WaylandEnv { display_num: 21 };
    let args = vec!["--flag".to_string()];
    let extra = vec![("FOO".to_string(), "bar".to_string())];
    let plan = plan_launch("/usr/bin/app", &args, &extra, "key", &wl);
    assert_eq!(plan.program, "/usr/bin/app");
    assert_eq!(plan.args, vec!["--flag"]);
    assert_eq!(
        env_pairs(&plan.env),
        vec![
            ("WAYLAND_DISPLAY", "wayland-21"),
            ("DISPLAY", ":21"),
            ("WAYVR_DISPLAY_AUTH", "key"),
            ("GDK_BACKEND", "wayland,x11"),
            ("QT_QPA_PLATFORM", "wayland;xcb"),
            ("SDL_VIDEODRIVER", "wayland"),
            ("CLUTTER_BACKEND", "wayland"),
            ("MOZ_ENABLE_WAYLAND", "1"),
            ("ELECTRON_OZONE_PLATFORM_HINT", "wayland"),
            ("FOO", "bar"),
        ]
    );
}

#[test]
fn flatpak_launch_passes_variables_to_run() {
    let wl = WaylandEnv { display_num: 20 };
    let args = vec!["run".to_string(), "org.app.App".to_string()];
    let plan = plan_launch("/usr/bin/flatpak", &args, &Vec::new(), "k1", &wl);
    assert_eq!(
        plan.args,
        vec![
            "run",
            "--env=WAYVR_DISPLAY_AUTH=k1",
            "--env=GDK_BACKEND=wayland,x11",
            "--env=QT_QPA_PLATFORM=wayland;xcb",
            "--env=SDL_VIDEODRIVER=wayland",
            "--env=CLUTTER_BACKEND=wayland",
            "--env=MOZ_ENABLE_WAYLAND=1",
            "--env=ELECTRON_OZONE_PLATFORM_HINT=wayland",
            "org.app.App",
        ]
    );
    assert_eq!(env_pairs(&plan.env), vec![("WAYLAND_DISPLAY", "wayland-20"), ("DISPLAY", ":20")]);
    // "flatpak" without "run" is an ordinary launch
    let other = plan_launch("flatpak", &vec!["list".to_string()], &Vec::new(), "k", &wl);
    assert_eq!(other.args, vec!["list"]);
    assert_eq!(other.env.len(), 9);
}

#[test]
fn spawn_draws_a_fresh_uuid_key() {
    let wl = WaylandEnv { display_num: 20 };
    let (key, plan) = plan_spawn("app", &Vec::new(), &Vec::new(), &wl);
    assert_eq!(key.len(), 36);
    let b = key.as_bytes();
    for i in [8, 13, 18, 23] {
        assert_eq!(b[i], b'-');
    }
    assert_eq!(b[14], b'4');
    assert!(matches!(b[19], b'8' | b'9' | b'a' | b'b'));
    assert!(key.chars().all(|c| c == '-' || c.is_ascii_digit() || ('a'..='f').contains(&c)));
    assert_eq!(plan.env[2].1, key);
    let (key2, _) = plan_spawn("app", &Vec::new(), &Vec::new(), &wl);
    assert_ne!(key, key2);
}

#[test]
fn window_overlay_bookkeeping() {
    let mut w = WindowOverlays::new();
    w.overlay_added(100, 1, Some(7));
    w.overlay_added(101, 2, Some(7));
    assert_eq!(w.get_overlay_id(1), Some(100));
    assert_eq!(w.last_process_overlay(7), Some(101));
    // a repeated addition moves the overlay to the newest place
    w.overlay_added(100, 1, Some(7));
    assert_eq!(w.last_process_overlay(7), Some(100));
    assert_eq!(w.window_dropped(1, Some(7)), Some(100));
    assert_eq!(w.get_overlay_id(1), None);
    assert_eq!(w.last_process_overlay(7), Some(101));
    assert_eq!(w.window_dropped(1, Some(7)), None);
    assert_eq!(w.window_dropped(2, Some(7)), Some(101));
    assert_eq!(w.last_process_overlay(7), None);
    assert!(w.process_overlays.is_empty());
}

#[test]
fn drop_undoes_add_on_examples() {
    let mut w = WindowOverlays::new();
    w.overlay_added(5, 50, Some(1));
    w.overlay_added(6, 60, Some(9));
    w.window_dropped(60, Some(9));
    assert_eq!(w.window_to_overlay.len(), 1);
    assert_eq!(w.overlay_to_window.len(), 1);
    assert_eq!(w.process_overlays.len(), 1);
    assert_eq!(w.overlay_to_window.get(&5), Some(&50));
}

#[test]
fn process_removal_and_termination() {
    let mut w = WindowOverlays::new();
    w.overlay_added(100, 1, Some(7));
    w.overlay_added(101, 2, Some(7));
    w.overlay_added(200, 3, Some(8));
    let windows = vec![2, 1, 9];
    assert_eq!(w.termination_drops(KillSignal::Term, &windows), Vec::<u64>::new());
    assert_eq!(w.termination_drops(KillSignal::Kill, &windows), vec![101, 100]);
    assert_eq!(w.process_removed(7, &windows), vec![101, 100]);
    assert_eq!(w.get_overlay_id(1), None);
    assert_eq!(w.get_overlay_id(3), Some(200));
    assert_eq!(w.last_process_overlay(7), None);
    assert_eq!(w.last_process_overlay(8), Some(200));
}

#[test]
fn window_commands() {
    assert_eq!(command_task(WvrCommand::ReloadTitle, 1, None), WindowTask::ReloadTitle);
    assert_eq!(command_task(WvrCommand::CloseWindow, 4, Some(2)), WindowTask::CloseWindow(4));
    assert_eq!(
        command_task(WvrCommand::KillProcess(KillSignal::Kill), 4, Some(2)),
        WindowTask::TerminateProcess { process: 2, signal: KillSignal::Kill }
    );
    assert_eq!(command_task(WvrCommand::KillProcess(KillSignal::Term), 4, None), WindowTask::Nothing);
}

#[test]
fn input_routing() {
    let mut r = InputRouting::new();
    assert_eq!(r.key_route(true), KeyRoute::Desktop);
    assert_eq!(r.set_input_focus(InputFocus::WayVR, true), (true, Some(true)));
    assert_eq!(r.set_input_focus(InputFocus::WayVR, true), (false, None));
    assert_eq!(r.key_route(true), KeyRoute::Server);
    assert_eq!(r.key_route(false), KeyRoute::Nowhere);
    assert_eq!(r.set_input_focus(InputFocus::PhysicalScreen, false), (true, None));
}

fn size(w: i32, h: i32) -> LogicalSize {
    LogicalSize { w, h }
}

#[test]
fn window_sizing() {
    let bounds = size(2560, 1440);
    let mut win = WindowSizing::new(bounds, size(0, 0), size(10000, 100), 1920, 1080);
    assert_eq!(win.max_size, size(2560, 160));
    assert_eq!((win.size_x, win.size_y), (1920, 1080));
    assert!(win.resizable());
    assert_eq!(win.clamp_configure_size(size(4000, 50), bounds), size(2560, 50));
    assert_eq!(win.clamp_configure_size(size(-5, 500), bounds), size(1, 160));
    assert_eq!(win.request_size(size(800, 100), bounds), Some(size(800, 100)));
    assert_eq!(win.request_size(size(800, 100), bounds), None);
    assert_eq!(win.checked_configure_size(size(900, 100)), Some(size(900, 100)));
    assert!(win.remember_committed_size(size(900, 100)));
    assert!(win.pending_configure_size.is_none());
    assert!(!win.remember_committed_size(size(900, 100)));
    let fixed = WindowSizing::new(bounds, size(160, 160), size(160, 160), 0, 0);
    assert!(!fixed.resizable());
    assert_eq!((fixed.size_x, fixed.size_y), (1, 1));
}

#[test]
fn committed_sizes_sync() {
    let bounds = size(2560, 1440);
    let mut win = WindowSizing::new(bounds, size(200, 200), size(1000, 1000), 500, 500);
    assert_eq!(win.sync_committed_size(600, 700, bounds), SyncOutcome::Remembered(true));
    assert_eq!(win.sync_committed_size(600, 700, bounds), SyncOutcome::Remembered(false));
    assert_eq!(win.sync_committed_size(5000, 100, bounds), SyncOutcome::Requested(size(1000, 200)));
    assert_eq!(win.sync_committed_size(5000, 100, bounds), SyncOutcome::AlreadyPending);
    assert_eq!(win.clamp_configure_size(size(1000, 200), bounds), size(1000, 200));
}

#[test]
fn new_window_limits_and_size() {
    let bounds = size(2560, 1440);
    assert_eq!(new_window_limits(size(0, 0), size(0, 0), bounds), (size(1, 1), bounds));
    assert_eq!(new_window_limits(size(300, 200), size(5000, 0), bounds), (size(300, 200), bounds));
    assert_eq!(new_window_limits(size(300, 200), size(5000, 900), bounds), (size(300, 200), size(2560, 900)));
    let (lo, hi) = new_window_limits(size(300, 200), size(1000, 900), bounds);
    assert_eq!(initial_window_size(None, lo, hi), size(1000, 900));
    assert_eq!(initial_window_size(Some((640, 100)), lo, hi), size(640, 200));
    assert_eq!(initial_window_size(Some((1280, 720)), size(1, 1), bounds), size(1280, 720));
    // a maximum below the minimum wins
    assert_eq!(initial_window_size(Some((640, 480)), size(800, 600), size(700, 500)), size(700, 500));
    // bounds smaller than the least maximum keep the maximum within them
    let small = WindowSizing::new(size(100, 120), size(0, 0), size(1000, 1000), 50, 50);
    assert_eq!(small.max_size, size(100, 120));
}

#[test]
fn spawn_position_of_new_windows() {
    let mut w = WindowOverlays::new();
    assert_eq!(w.spawn_pos(7), SpawnPos::Spread);
    w.overlay_added(100, 1, Some(7));
    w.overlay_added(101, 2, Some(7));
    assert_eq!(w.spawn_pos(7), SpawnPos::Parent(101));
    assert_eq!(w.spawn_pos(8), SpawnPos::Spread);
}

#[test]
fn titles_and_icons_of_new_windows() {
    let s = |x: &str| Some(x.to_string());
    assert_eq!(window_title(s("launched"), 42, s("xdg"), s("entry")), "xdg");
    assert_eq!(window_title(s("launched"), 42, None, s("entry")), "entry");
    assert_eq!(window_title(s("launched"), 42, None, None), "launched");
    assert_eq!(window_title(None, 42, None, None), "P42");
    assert_eq!(window_title(None, 0, None, None), "P0");
    assert!(launched_in_cage("/usr/bin/cage"));
    assert!(!launched_in_cage("/usr/bin/cagey"));
    assert_eq!(window_icon(s("a.png"), s("b.png")), s("a.png"));
    assert_eq!(window_icon(None, s("b.png")), s("b.png"));
    assert_eq!(window_icon(None, None), None);
}

#[test]
fn captured_input_dispatch() {
    assert_eq!(
        capture_action(CapturedInput::Key { code: 30, pressed: true }),
        CaptureAction::Key { keycode: 38, pressed: true }
    );
    assert_eq!(
        capture_action(CapturedInput::Key { code: u16::MAX, pressed: false }),
        CaptureAction::Key { keycode: 65543, pressed: false }
    );
    assert_eq!(
        capture_action(CapturedInput::PointerButton { button: 273, pressed: true }),
        CaptureAction::Button { index: MouseIndex::Right, pressed: true }
    );
    assert_eq!(capture_action(CapturedInput::PointerButton { button: 275, pressed: true }), CaptureAction::Nothing);
    assert_eq!(
        capture_action(CapturedInput::PointerAxis { horizontal_v120: -120, vertical_v120: 60 }),
        CaptureAction::Wheel { horizontal_v120: -120, vertical_v120: 60 }
    );
    assert_eq!(capture_action(CapturedInput::UngrabbedAll), CaptureAction::ReleaseAll);
    assert_eq!(
        capture_action(CapturedInput::KeyCombo { combo: KeyCombo::AltF4, pressed: true }),
        CaptureAction::CloseHovered
    );
    assert_eq!(capture_action(CapturedInput::KeyCombo { combo: KeyCombo::AltF4, pressed: false }), CaptureAction::Nothing);
    assert_eq!(capture_action(CapturedInput::KeyCombo { combo: KeyCombo::AltTab, pressed: false }), CaptureAction::AltTab);
    assert_eq!(capture_action(CapturedInput::KeyCombo { combo: KeyCombo::CtrlAltDel, pressed: true }), CaptureAction::Nothing);
}

#[test]
fn frame_extents_of_windows() {
    assert_eq!(frame_extents((800, 600), None, false), ((800, 600), (810, 658)));
    assert_eq!(frame_extents((800, 600), Some(StereoMode::LeftRight), true), ((400, 600), (410, 658)));
    assert_eq!(frame_extents((801, 600), Some(StereoMode::RightLeft), true), ((400, 600), (410, 658)));
    assert_eq!(frame_extents((800, 600), Some(StereoMode::BottomTop), true), ((800, 300), (810, 358)));
    assert_eq!(frame_extents((800, 600), Some(StereoMode::TopBottom), false), ((800, 600), (810, 658)));
    assert_eq!(frame_extents((800, 600), Some(StereoMode::Mono), true), ((800, 600), (810, 658)));
}

#[test]
fn window_render_decision() {
    assert_eq!(window_should_render(true, false, false, ShouldRender::Unable), ShouldRender::Should);
    assert_eq!(window_should_render(false, true, false, ShouldRender::Can), ShouldRender::Should);
    assert_eq!(window_should_render(false, false, true, ShouldRender::Unable), ShouldRender::Should);
    assert_eq!(window_should_render(false, false, false, ShouldRender::Can), ShouldRender::Can);
    assert_eq!(window_should_render(false, false, false, ShouldRender::Unable), ShouldRender::Unable);
}
