//! The built-in Wayland server: naming its display, launching clients into
//! it, telling its clients apart, keeping track of which overlay shows
//! which window, sizing windows, routing captured input and mapping pointer
//! buttons.
use vstd::prelude::*;
use vstd::string::*;
use crate::text::{chars_of, push_decimal, decimal, str_eq, ends_with, is_suffix};
use crate::input_capture::KeyCombo;
use std::collections::HashMap;

verus! {

broadcast use vstd::string::group_string_axioms;

/// First display number tried for the server's socket.
pub const STARTING_WAYLAND_ADDR_IDX: u32 = 20;

/// Display numbers tried after the first one before giving up.
pub const WAYLAND_ADDR_ATTEMPTS: u32 = 20;

/// The display the server listens on.
#[derive(Clone, Copy, PartialEq, Eq, Structural, Debug)]
pub struct WaylandEnv {
    pub display_num: u32,
}

/// `wayland-<n>`, the name of the Wayland socket.
pub open spec fn wayland_display_name(n: u32) -> Seq<char> {
    "wayland-"@ + decimal(n as nat)
}

/// `:<n>`, the name of the X11 display.
pub open spec fn x11_display_name(n: u32) -> Seq<char> {
    ":"@ + decimal(n as nat)
}

impl WaylandEnv {
    /// The name of the Wayland socket, such as `wayland-20`.
    pub fn wayland_display_num_string(&self) -> (s: String)
        ensures
            s@ == wayland_display_name(self.display_num),
    {
        let mut s = String::from_str("wayland-");
        push_decimal(&mut s, self.display_num as u64);
        s
    }

    /// The name of the X11 display, such as `:20`.
    pub fn display_num_string(&self) -> (s: String)
        ensures
            s@ == x11_display_name(self.display_num),
    {
        let mut s = String::from_str(":");
        push_decimal(&mut s, self.display_num as u64);
        s
    }
}

/// The display number to try after `n` could not be bound, or `None` once
/// every number up to `STARTING_WAYLAND_ADDR_IDX + WAYLAND_ADDR_ATTEMPTS`
/// failed.
pub fn next_display_num(n: u32) -> (r: Option<u32>)
    ensures
        n < 40 ==> r == Some((n + 1) as u32),
        n >= 40 ==> r is None,
{
    if n >= STARTING_WAYLAND_ADDR_IDX + WAYLAND_ADDR_ATTEMPTS {
        None
    } else {
        Some(n + 1)
    }
}

/// What a client process tells the server about itself in its environment.
pub struct ProcessWayVREnv {
    pub display_auth: Option<String>,
    /// Set for a process spawned by a user's script.
    pub display_name: Option<String>,
}

/// The model of a [`ProcessWayVREnv`].
pub struct EnvView {
    pub display_auth: Option<Seq<char>>,
    pub display_name: Option<Seq<char>>,
}

impl View for ProcessWayVREnv {
    type V = EnvView;

    open spec fn view(&self) -> EnvView {
        EnvView {
            display_auth: match self.display_auth { Some(s) => Some(s@), None => None },
            display_name: match self.display_name { Some(s) => Some(s@), None => None },
        }
    }
}

/// The first position of `c` in `s`, if any.
pub open spec fn first_index(s: Seq<char>, c: char) -> Option<int> {
    if exists|i: int| 0 <= i < s.len() && s[i] == c {
        Some(choose|i: int| 0 <= i < s.len() && s[i] == c && forall|j: int| 0 <= j < i ==> s[j] != c)
    } else {
        None
    }
}

/// One `KEY=value` entry applied: the two keys the server reads are kept,
/// the others ignored; an entry without `=` is ignored.
pub open spec fn apply_env_entry(acc: EnvView, entry: Seq<char>) -> EnvView {
    match first_index(entry, '=') {
        Some(e) => {
            let key = entry.take(e);
            let value = entry.skip(e + 1);
            if key == "WAYVR_DISPLAY_AUTH"@ {
                EnvView { display_auth: Some(value), ..acc }
            } else if key == "WAYVR_DISPLAY_NAME"@ {
                EnvView { display_name: Some(value), ..acc }
            } else {
                acc
            }
        },
        None => acc,
    }
}

/// The entries of a NUL-separated environment block applied in order, so
/// that a later entry wins.
#[verifier::opaque]
pub open spec fn scan_environ(acc: EnvView, s: Seq<char>) -> EnvView
    decreases s.len(),
{
    match first_index(s, '\0') {
        Some(k) => if 0 <= k < s.len() { scan_environ(apply_env_entry(acc, s.take(k)), s.skip(k + 1)) } else { acc },
        None => apply_env_entry(acc, s),
    }
}

proof fn lemma_first_index(s: Seq<char>, c: char, k: int)
    requires
        0 <= k <= s.len(),
        k < s.len() ==> s[k] == c,
        forall|j: int| 0 <= j < k ==> s[j] != c,
    ensures
        k < s.len() ==> first_index(s, c) == Some(k),
        k == s.len() ==> first_index(s, c) is None,
{
    if k < s.len() {
        assert(exists|i: int| 0 <= i < s.len() && s[i] == c);
        let i = choose|i: int| 0 <= i < s.len() && s[i] == c && forall|j: int| 0 <= j < i ==> s[j] != c;
        assert(exists|i: int| 0 <= i < s.len() && s[i] == c && forall|j: int| 0 <= j < i ==> s[j] != c) by {
            assert(s[k] == c && forall|j: int| 0 <= j < k ==> s[j] != c);
        }
        if i < k {
            assert(s[i] != c);
        } else if i > k {
            assert(s[k] != c);
        }
    }
}

proof fn lemma_scan_step(acc: EnvView, s: Seq<char>, k: int)
    requires
        0 <= k <= s.len(),
        k < s.len() ==> s[k] == '\0',
        forall|j: int| 0 <= j < k ==> s[j] != '\0',
    ensures
        k < s.len() ==> scan_environ(acc, s) == scan_environ(apply_env_entry(acc, s.take(k)), s.skip(k + 1)),
        k == s.len() ==> scan_environ(acc, s) == apply_env_entry(acc, s),
{
    lemma_first_index(s, '\0', k);
    reveal(scan_environ);
}

/// Whether `v[from..to]` spells `lit`.
fn span_is(v: &Vec<char>, from: usize, to: usize, lit: &str) -> (r: bool)
    requires
        from <= to <= v.len(),
    ensures
        r == (v@.subrange(from as int, to as int) == lit@),
{
    let l = chars_of(lit);
    if to - from != l.len() {
        proof {
            if v@.subrange(from as int, to as int) == lit@ {
                assert(v@.subrange(from as int, to as int).len() == l@.len());
            }
        }
        return false;
    }
    let mut i: usize = 0;
    while i < l.len()
        invariant
            l@ == lit@,
            from <= to <= v.len(),
            to - from == l.len(),
            i <= l.len(),
            forall|j: int| 0 <= j < i ==> v@[from + j] == l@[j],
        decreases l.len() - i,
    {
        if v[from + i] != l[i] {
            proof {
                assert(v@.subrange(from as int, to as int)[i as int] != lit@[i as int]);
            }
            return false;
        }
        i += 1;
    }
    assert(v@.subrange(from as int, to as int) =~= lit@);
    true
}

/// The string made of `v[from..to]`.
fn span_string(v: &Vec<char>, from: usize, to: usize) -> (s: String)
    requires
        from <= to <= v.len(),
    ensures
        s@ == v@.subrange(from as int, to as int),
{
    let mut s = String::new();
    let mut i: usize = from;
    while i < to
        invariant
            from <= i <= to <= v.len(),
            s@ == v@.subrange(from as int, i as int),
        decreases to - i,
    {
        crate::text::push_char(&mut s, v[i]);
        assert(v@.subrange(from as int, i + 1) == v@.subrange(from as int, i as int).push(v@[i as int]));
        i += 1;
    }
    s
}

/// The first position at or after `from` that holds `c`, or the length.
fn find_char(v: &Vec<char>, from: usize, c: char) -> (r: usize)
    requires
        from <= v.len(),
    ensures
        from <= r <= v.len(),
        forall|j: int| from <= j < r ==> v@[j] != c,
        r < v.len() ==> v@[r as int] == c,
{
    let mut r = from;
    while r < v.len() && v[r] != c
        invariant
            from <= r <= v.len(),
            forall|j: int| from <= j < r ==> v@[j] != c,
        decreases v.len() - r,
    {
        r += 1;
    }
    r
}

/// Applies the entry `v[start..end]` to `env`.
fn apply_entry(env: &mut ProcessWayVREnv, v: &Vec<char>, start: usize, end: usize)
    requires
        start <= end <= v.len(),
    ensures
        final(env)@ == apply_env_entry(old(env)@, v@.subrange(start as int, end as int)),
{
    let ghost entry = v@.subrange(start as int, end as int);
    let eq = find_char(v, start, '=');
    let eq = if eq > end { end } else { eq };
    proof {
        assert forall|j: int| 0 <= j < eq - start implies entry[j] != '=' by {
            assert(entry[j] == v@[start + j]);
        }
        if eq < end {
            assert(entry[eq - start] == v@[eq as int]);
        }
        lemma_first_index(entry, '=', eq - start);
    }
    if eq < end {
        proof {
            assert(entry.take(eq - start) =~= v@.subrange(start as int, eq as int));
            assert(entry.skip(eq - start + 1) =~= v@.subrange(eq + 1, end as int));
        }
        if span_is(v, start, eq, "WAYVR_DISPLAY_AUTH") {
            env.display_auth = Some(span_string(v, eq + 1, end));
        } else if span_is(v, start, eq, "WAYVR_DISPLAY_NAME") {
            env.display_name = Some(span_string(v, eq + 1, end));
        }
    }
}

/// Reads the server's two variables out of a process environment block
/// (`KEY=value` entries separated by NUL characters; a later entry wins).
pub fn parse_process_env(environ: &str) -> (env: ProcessWayVREnv)
    ensures
        env@ == scan_environ(EnvView { display_auth: None, display_name: None }, environ@),
{
    let v = chars_of(environ);
    let ghost s = v@;
    let ghost empty = EnvView { display_auth: None, display_name: None };
    let mut env = ProcessWayVREnv { display_auth: None, display_name: None };
    let n = v.len();
    let mut start: usize = 0;
    assert(s.skip(0) =~= s);
    loop
        invariant
            s == v@,
            s == environ@,
            empty == (EnvView { display_auth: None, display_name: None }),
            n == v.len(),
            start <= n,
            scan_environ(env@, s.skip(start as int)) == scan_environ(empty, s),
        decreases n - start,
    {
        let ghost rest = s.skip(start as int);
        let ghost env0 = env@;
        let end = find_char(&v, start, '\0');
        proof {
            assert forall|j: int| 0 <= j < end - start implies rest[j] != '\0' by {
                assert(rest[j] == s[start + j]);
            }
            if end < n {
                assert(rest[end - start] == s[end as int]);
            }
            lemma_scan_step(env@, rest, end - start);
            assert(rest.take(end - start) =~= s.subrange(start as int, end as int));
        }
        apply_entry(&mut env, &v, start, end);
        if end == n {
            proof {
                assert(rest =~= s.subrange(start as int, end as int));
                assert(end - start == rest.len());
                assert(scan_environ(env0, rest) == apply_env_entry(env0, rest));
                assert(env@ == apply_env_entry(env0, rest));
            }
            return env;
        }
        proof {
            assert(rest.skip(end - start + 1) =~= s.skip(end + 1));
        }
        start = end + 1;
    }
}

/// A pointer button of a client's seat.
#[derive(Clone, Copy, PartialEq, Eq, Structural, Debug)]
pub enum MouseIndex {
    Left,
    Center,
    Right,
}

/// The seat button for an input-device button code (`BTN_LEFT`,
/// `BTN_RIGHT`, `BTN_MIDDLE`); other buttons are not forwarded.
pub fn button_to_mouse_index(button: u32) -> (r: Option<MouseIndex>)
    ensures
        button == 272 ==> r == Some(MouseIndex::Left),
        button == 273 ==> r == Some(MouseIndex::Right),
        button == 274 ==> r == Some(MouseIndex::Center),
        button != 272 && button != 273 && button != 274 ==> r is None,
{
    match button {
        272 => Some(MouseIndex::Left),
        273 => Some(MouseIndex::Right),
        274 => Some(MouseIndex::Center),
        _ => None,
    }
}

/// The button code that a client is sent for a seat button.
pub fn pointer_button_code(index: MouseIndex) -> (code: u32)
    ensures
        code == match index {
            MouseIndex::Left => 0x110u32,
            MouseIndex::Center => 0x112u32,
            MouseIndex::Right => 0x111u32,
        },
{
    match index {
        MouseIndex::Left => 0x110,
        MouseIndex::Center => 0x112,
        MouseIndex::Right => 0x111,
    }
}

/// A captured input event, but for pointer motion (whose deltas the
/// caller sums up before it moves the pointer).
#[derive(Clone, Copy, PartialEq, Eq, Structural, Debug)]
pub enum CapturedInput {
    Key { code: u16, pressed: bool },
    PointerButton { button: u32, pressed: bool },
    PointerAxis { horizontal_v120: i32, vertical_v120: i32 },
    UngrabbedAll,
    KeyCombo { combo: KeyCombo, pressed: bool },
}

/// What the server does with a captured input event.
#[derive(Clone, Copy, PartialEq, Eq, Structural, Debug)]
pub enum CaptureAction {
    /// Send the key with this keycode (the device's code plus 8) to the
    /// focused client.
    Key { keycode: u32, pressed: bool },
    Button { index: MouseIndex, pressed: bool },
    /// Send a high-resolution wheel step.
    Wheel { horizontal_v120: i32, vertical_v120: i32 },
    /// Release every key and drop the input and keyboard focus.
    ReleaseAll,
    /// Close the window under the pointer, if there is one.
    CloseHovered,
    /// Cycle through the windows.
    AltTab,
    Nothing,
}

/// What the server does with a captured input event.
pub fn capture_action(ev: CapturedInput) -> (a: CaptureAction)
    ensures
        a == match ev {
            CapturedInput::Key { code, pressed } => CaptureAction::Key { keycode: (code + 8) as u32, pressed },
            CapturedInput::PointerButton { button, pressed } =>
                if button == 272 { CaptureAction::Button { index: MouseIndex::Left, pressed } }
                else if button == 273 { CaptureAction::Button { index: MouseIndex::Right, pressed } }
                else if button == 274 { CaptureAction::Button { index: MouseIndex::Center, pressed } }
                else { CaptureAction::Nothing },
            CapturedInput::PointerAxis { horizontal_v120, vertical_v120 } => CaptureAction::Wheel { horizontal_v120, vertical_v120 },
            CapturedInput::UngrabbedAll => CaptureAction::ReleaseAll,
            CapturedInput::KeyCombo { combo, pressed } => match combo {
                KeyCombo::AltF4 => if pressed { CaptureAction::CloseHovered } else { CaptureAction::Nothing },
                KeyCombo::AltTab => CaptureAction::AltTab,
                KeyCombo::CtrlAltDel => CaptureAction::Nothing,
            },
        },
{
    match ev {
        CapturedInput::Key { code, pressed } => CaptureAction::Key { keycode: code as u32 + 8, pressed },
        CapturedInput::PointerButton { button, pressed } => match button_to_mouse_index(button) {
            Some(index) => CaptureAction::Button { index, pressed },
            None => CaptureAction::Nothing,
        },
        CapturedInput::PointerAxis { horizontal_v120, vertical_v120 } => CaptureAction::Wheel { horizontal_v120, vertical_v120 },
        CapturedInput::UngrabbedAll => CaptureAction::ReleaseAll,
        CapturedInput::KeyCombo { combo, pressed } => match combo {
            KeyCombo::AltF4 => if pressed { CaptureAction::CloseHovered } else { CaptureAction::Nothing },
            KeyCombo::AltTab => CaptureAction::AltTab,
            KeyCombo::CtrlAltDel => CaptureAction::Nothing,
        },
    }
}

/// How a client process is started: the program, its arguments and the
/// variables set in its environment, in order (a later one wins).
pub struct LaunchPlan {
    pub program: String,
    pub args: Vec<String>,
    pub env: Vec<(String, String)>,
}

/// The views of a list of strings.
pub open spec fn strings_view(v: Seq<String>) -> Seq<Seq<char>> {
    v.map_values(|s: String| s@)
}

/// The views of a list of variable assignments.
pub open spec fn pairs_view(v: Seq<(String, String)>) -> Seq<(Seq<char>, Seq<char>)> {
    v.map_values(|p: (String, String)| (p.0@, p.1@))
}

/// A launch through `flatpak run`: the variables must be passed as
/// arguments of `run`, since the sandbox does not inherit them.
pub open spec fn is_flatpak_launch(exec_path: Seq<char>, args: Seq<Seq<char>>) -> bool {
    is_suffix("flatpak"@, exec_path) && args.len() > 0 && args[0] == "run"@
}

/// The variables that make toolkits prefer Wayland, after the client's key.
pub open spec fn session_env(auth_key: Seq<char>) -> Seq<(Seq<char>, Seq<char>)> {
    seq![
        ("WAYVR_DISPLAY_AUTH"@, auth_key),
        ("GDK_BACKEND"@, "wayland,x11"@),
        ("QT_QPA_PLATFORM"@, "wayland;xcb"@),
        ("SDL_VIDEODRIVER"@, "wayland"@),
        ("CLUTTER_BACKEND"@, "wayland"@),
        ("MOZ_ENABLE_WAYLAND"@, "1"@),
        ("ELECTRON_OZONE_PLATFORM_HINT"@, "wayland"@),
    ]
}

/// The same variables as `--env=KEY=value` arguments of `flatpak run`.
pub open spec fn flatpak_env_args(auth_key: Seq<char>) -> Seq<Seq<char>> {
    seq![
        "--env=WAYVR_DISPLAY_AUTH="@ + auth_key,
        "--env=GDK_BACKEND=wayland,x11"@,
        "--env=QT_QPA_PLATFORM=wayland;xcb"@,
        "--env=SDL_VIDEODRIVER=wayland"@,
        "--env=CLUTTER_BACKEND=wayland"@,
        "--env=MOZ_ENABLE_WAYLAND=1"@,
        "--env=ELECTRON_OZONE_PLATFORM_HINT=wayland"@,
    ]
}

/// The display variables every client gets.
pub open spec fn display_env(display_num: u32) -> Seq<(Seq<char>, Seq<char>)> {
    seq![("WAYLAND_DISPLAY"@, wayland_display_name(display_num)), ("DISPLAY"@, x11_display_name(display_num))]
}

fn push_pair(v: &mut Vec<(String, String)>, k: &str, val: String)
    ensures
        pairs_view(final(v)@) == pairs_view(old(v)@).push((k@, val@)),
{
    v.push((String::from_str(k), val));
    assert(pairs_view(v@) =~= pairs_view(old(v)@).push((k@, val@)));
}

fn push_string(v: &mut Vec<String>, s: String)
    ensures
        strings_view(final(v)@) == strings_view(old(v)@).push(s@),
{
    v.push(s);
    assert(strings_view(v@) =~= strings_view(old(v)@).push(s@));
}

/// Plans how to start `exec_path` with `args` and the extra variables
/// `env` as a client of the server at `wayland`, authenticated by `auth_key`.
pub fn plan_launch(exec_path: &str, args: &Vec<String>, env: &Vec<(String, String)>, auth_key: &str, wayland: &WaylandEnv) -> (p: LaunchPlan)
    ensures
        p.program@ == exec_path@,
        is_flatpak_launch(exec_path@, strings_view(args@)) ==> {
            &&& strings_view(p.args@) == seq![strings_view(args@)[0]] + flatpak_env_args(auth_key@) + strings_view(args@).skip(1)
            &&& pairs_view(p.env@) == display_env(wayland.display_num) + pairs_view(env@)
        },
        !is_flatpak_launch(exec_path@, strings_view(args@)) ==> {
            &&& strings_view(p.args@) == strings_view(args@)
            &&& pairs_view(p.env@) == display_env(wayland.display_num) + session_env(auth_key@) + pairs_view(env@)
        },
{
    let flatpak = ends_with(exec_path, "flatpak") && args.len() > 0 && str_eq(args[0].as_str(), "run");
    proof {
        if args@.len() > 0 {
            assert(strings_view(args@)[0] == args@[0]@);
        }
    }
    let mut out_env: Vec<(String, String)> = Vec::new();
    push_pair(&mut out_env, "WAYLAND_DISPLAY", wayland.wayland_display_num_string());
    push_pair(&mut out_env, "DISPLAY", wayland.display_num_string());
    let mut out_args: Vec<String> = Vec::new();
    let mut i: usize = 0;
    if flatpak {
        push_string(&mut out_args, args[0].clone());
        push_string(&mut out_args, String::from_str("--env=WAYVR_DISPLAY_AUTH=").concat(auth_key));
        push_string(&mut out_args, String::from_str("--env=GDK_BACKEND=wayland,x11"));
        push_string(&mut out_args, String::from_str("--env=QT_QPA_PLATFORM=wayland;xcb"));
        push_string(&mut out_args, String::from_str("--env=SDL_VIDEODRIVER=wayland"));
        push_string(&mut out_args, String::from_str("--env=CLUTTER_BACKEND=wayland"));
        push_string(&mut out_args, String::from_str("--env=MOZ_ENABLE_WAYLAND=1"));
        push_string(&mut out_args, String::from_str("--env=ELECTRON_OZONE_PLATFORM_HINT=wayland"));
        i = 1;
        proof {
            assert(strings_view(out_args@) =~= seq![strings_view(args@)[0]] + flatpak_env_args(auth_key@) + strings_view(args@).subrange(1, 1));
        }
    } else {
        push_pair(&mut out_env, "WAYVR_DISPLAY_AUTH", String::from_str(auth_key));
        push_pair(&mut out_env, "GDK_BACKEND", String::from_str("wayland,x11"));
        push_pair(&mut out_env, "QT_QPA_PLATFORM", String::from_str("wayland;xcb"));
        push_pair(&mut out_env, "SDL_VIDEODRIVER", String::from_str("wayland"));
        push_pair(&mut out_env, "CLUTTER_BACKEND", String::from_str("wayland"));
        push_pair(&mut out_env, "MOZ_ENABLE_WAYLAND", String::from_str("1"));
        push_pair(&mut out_env, "ELECTRON_OZONE_PLATFORM_HINT", String::from_str("wayland"));
        proof {
            assert(strings_view(out_args@) =~= strings_view(args@).subrange(0, 0));
        }
    }
    let ghost head = if flatpak { seq![strings_view(args@)[0]] + flatpak_env_args(auth_key@) } else { Seq::<Seq<char>>::empty() };
    let ghost start = i as int;
    proof {
        assert(strings_view(out_args@) =~= head + strings_view(args@).subrange(start, i as int));
    }
    while i < args.len()
        invariant
            0 <= start <= i <= args.len(),
            strings_view(out_args@) == head + strings_view(args@).subrange(start, i as int),
        decreases args.len() - i,
    {
        push_string(&mut out_args, args[i].clone());
        proof {
            assert(strings_view(args@).subrange(start, i + 1) =~= strings_view(args@).subrange(start, i as int).push(args@[i as int]@));
            assert(strings_view(out_args@) =~= head + strings_view(args@).subrange(start, i + 1));
        }
        i += 1;
    }
    let ghost env_head = pairs_view(out_env@);
    let mut j: usize = 0;
    while j < env.len()
        invariant
            j <= env.len(),
            pairs_view(out_env@) == env_head + pairs_view(env@).take(j as int),
        decreases env.len() - j,
    {
        let k = env[j].0.clone();
        let val = env[j].1.clone();
        let ghost before = out_env@;
        out_env.push((k, val));
        proof {
            assert(pairs_view(out_env@) =~= pairs_view(before).push((env@[j as int].0@, env@[j as int].1@)));
            assert(pairs_view(env@).take(j + 1) =~= pairs_view(env@).take(j as int).push((env@[j as int].0@, env@[j as int].1@)));
            assert(pairs_view(out_env@) =~= env_head + pairs_view(env@).take(j + 1));
        }
        j += 1;
    }
    proof {
        assert(pairs_view(env@).take(env@.len() as int) =~= pairs_view(env@));
        assert(strings_view(args@).subrange(start, args@.len() as int) =~= strings_view(args@).skip(start));
        if !flatpak {
            assert(strings_view(args@).skip(0) =~= strings_view(args@));
        }
    }
    LaunchPlan { program: String::from_str(exec_path), args: out_args, env: out_env }
}

/// The characters a generated key may hold outside its hyphens.
pub open spec fn is_lower_hex(c: char) -> bool {
    ('0' <= c && c <= '9') || ('a' <= c && c <= 'f')
}

/// A random (version 4) UUID in its hyphenated lower-case form.
pub open spec fn is_v4_uuid_text(s: Seq<char>) -> bool {
    &&& s.len() == 36
    &&& forall|i: int| 0 <= i < 36 ==> (i == 8 || i == 13 || i == 18 || i == 23) ==> #[trigger] s[i] == '-'
    &&& forall|i: int| 0 <= i < 36 && i != 8 && i != 13 && i != 18 && i != 23 ==> is_lower_hex(#[trigger] s[i])
    &&& s[14] == '4'
    &&& (s[19] == '8' || s[19] == '9' || s[19] == 'a' || s[19] == 'b')
}

/// A fresh random key that tells a launched client apart
/// (`uuid::Uuid::new_v4`, written hyphenated in lower case). Each call
/// draws new random bits, so nothing ties two results together.
#[verifier::external_body]
fn generate_auth_key() -> (k: String)
    ensures
        is_v4_uuid_text(k@),
{
    uuid::Uuid::new_v4().to_string()
}

/// Plans how to start a client: a fresh key is drawn for it and handed to
/// [`plan_launch`]. Returns the key with the plan.
pub fn plan_spawn(exec_path: &str, args: &Vec<String>, env: &Vec<(String, String)>, wayland: &WaylandEnv) -> (r: (String, LaunchPlan))
    ensures
        is_v4_uuid_text(r.0@),
        r.1.program@ == exec_path@,
        is_flatpak_launch(exec_path@, strings_view(args@)) ==> {
            &&& strings_view(r.1.args@) == seq![strings_view(args@)[0]] + flatpak_env_args(r.0@) + strings_view(args@).skip(1)
            &&& pairs_view(r.1.env@) == display_env(wayland.display_num) + pairs_view(env@)
        },
        !is_flatpak_launch(exec_path@, strings_view(args@)) ==> {
            &&& strings_view(r.1.args@) == strings_view(args@)
            &&& pairs_view(r.1.env@) == display_env(wayland.display_num) + session_env(r.0@) + pairs_view(env@)
        },
{
    let key = generate_auth_key();
    let plan = plan_launch(exec_path, args, env, key.as_str(), wayland);
    (key, plan)
}

/// `s` with every occurrence of `x` left out.
pub open spec fn without(s: Seq<u64>, x: u64) -> Seq<u64>
    decreases s.len(),
{
    if s.len() == 0 {
        s
    } else if s.last() == x {
        without(s.drop_last(), x)
    } else {
        without(s.drop_last(), x).push(s.last())
    }
}

fn vec_without(v: &Vec<u64>, x: u64) -> (r: Vec<u64>)
    ensures
        r@ == without(v@, x),
{
    let mut r: Vec<u64> = Vec::new();
    let mut i: usize = 0;
    while i < v.len()
        invariant
            i <= v.len(),
            r@ == without(v@.take(i as int), x),
        decreases v.len() - i,
    {
        proof {
            assert(v@.take(i + 1).drop_last() =~= v@.take(i as int));
        }
        if v[i] != x {
            r.push(v[i]);
        }
        i += 1;
    }
    proof {
        assert(v@.take(v.len() as int) =~= v@);
    }
    r
}

/// Which overlay shows which window, and the overlays of each process, in
/// the order they were added.
pub struct WindowOverlays {
    pub window_to_overlay: HashMap<u64, u64>,
    pub overlay_to_window: HashMap<u64, u64>,
    pub process_overlays: HashMap<u64, Vec<u64>>,
}

/// The model of a [`WindowOverlays`].
pub struct WindowOverlaysView {
    pub window_to_overlay: Map<u64, u64>,
    pub overlay_to_window: Map<u64, u64>,
    pub process_overlays: Map<u64, Seq<u64>>,
}

impl View for WindowOverlays {
    type V = WindowOverlaysView;

    open spec fn view(&self) -> WindowOverlaysView {
        WindowOverlaysView {
            window_to_overlay: self.window_to_overlay@,
            overlay_to_window: self.overlay_to_window@,
            process_overlays: self.process_overlays@.map_values(|v: Vec<u64>| v@),
        }
    }
}

impl WindowOverlaysView {
    /// The two maps are inverse to each other.
    pub open spec fn wf(self) -> bool {
        &&& forall|w: u64| #[trigger] self.window_to_overlay.contains_key(w) ==>
            self.overlay_to_window.contains_key(self.window_to_overlay[w]) && self.overlay_to_window[self.window_to_overlay[w]] == w
        &&& forall|o: u64| #[trigger] self.overlay_to_window.contains_key(o) ==>
            self.window_to_overlay.contains_key(self.overlay_to_window[o]) && self.window_to_overlay[self.overlay_to_window[o]] == o
    }

    /// The overlays of `p`, oldest first.
    pub open spec fn overlays_of(self, p: u64) -> Seq<u64> {
        if self.process_overlays.contains_key(p) { self.process_overlays[p] } else { Seq::empty() }
    }

    /// After overlay `oid` was made to show `window` of process `process`.
    pub open spec fn added(self, oid: u64, window: u64, process: Option<u64>) -> Self {
        WindowOverlaysView {
            window_to_overlay: self.window_to_overlay.insert(window, oid),
            overlay_to_window: self.overlay_to_window.insert(oid, window),
            process_overlays: match process {
                Some(p) => self.process_overlays.insert(p, without(self.overlays_of(p), oid).push(oid)),
                None => self.process_overlays,
            },
        }
    }

    /// After `window` (of process `process`) was closed.
    pub open spec fn window_dropped(self, window: u64, process: Option<u64>) -> Self {
        if !self.window_to_overlay.contains_key(window) {
            self
        } else {
            let oid = self.window_to_overlay[window];
            WindowOverlaysView {
                window_to_overlay: self.window_to_overlay.remove(window),
                overlay_to_window: self.overlay_to_window.remove(oid),
                process_overlays: match process {
                    Some(p) => if !self.process_overlays.contains_key(p) {
                        self.process_overlays
                    } else if without(self.process_overlays[p], oid).len() == 0 {
                        self.process_overlays.remove(p)
                    } else {
                        self.process_overlays.insert(p, without(self.process_overlays[p], oid))
                    },
                    None => self.process_overlays,
                },
            }
        }
    }
}

impl WindowOverlays {
    pub fn new() -> (r: Self)
        ensures
            r@.window_to_overlay == Map::<u64, u64>::empty(),
            r@.overlay_to_window == Map::<u64, u64>::empty(),
            r@.process_overlays == Map::<u64, Seq<u64>>::empty(),
    {
        let r = WindowOverlays { window_to_overlay: HashMap::new(), overlay_to_window: HashMap::new(), process_overlays: HashMap::new() };
        assert(r@.process_overlays =~= Map::<u64, Seq<u64>>::empty());
        r
    }

    /// The overlay that shows `window`, if any.
    pub fn get_overlay_id(&self, window: u64) -> (r: Option<u64>)
        ensures
            r == (if self@.window_to_overlay.contains_key(window) { Some(self@.window_to_overlay[window]) } else { None::<u64> }),
    {
        broadcast use vstd::std_specs::hash::group_hash_axioms;
        match self.window_to_overlay.get(&window) {
            Some(o) => Some(*o),
            None => None,
        }
    }

    /// Records that overlay `oid` shows `window` of process `process`; the
    /// overlay becomes the newest of the process.
    pub fn overlay_added(&mut self, oid: u64, window: u64, process: Option<u64>)
        ensures
            final(self)@ == old(self)@.added(oid, window, process),
    {
        broadcast use vstd::std_specs::hash::group_hash_axioms;
        let ghost v0 = self@;
        self.window_to_overlay.insert(window, oid);
        self.overlay_to_window.insert(oid, window);
        if let Some(p) = process {
            let list = match self.process_overlays.remove(&p) {
                Some(l) => vec_without(&l, oid),
                None => {
                    let e: Vec<u64> = Vec::new();
                    assert(without(e@, oid) == e@);
                    e
                },
            };
            let mut list = list;
            list.push(oid);
            self.process_overlays.insert(p, list);
        }
        proof {
            assert(self@.process_overlays =~= v0.added(oid, window, process).process_overlays);
        }
    }

    /// The newest overlay of process `process`, where a new window of it is
    /// placed next to.
    pub fn last_process_overlay(&self, process: u64) -> (r: Option<u64>)
        ensures
            r == (if self@.overlays_of(process).len() > 0 { Some(self@.overlays_of(process).last()) } else { None::<u64> }),
    {
        broadcast use vstd::std_specs::hash::group_hash_axioms;
        match self.process_overlays.get(&process) {
            Some(l) => {
                if l.len() > 0 {
                    Some(l[l.len() - 1])
                } else {
                    None
                }
            },
            None => None,
        }
    }

    /// Forgets `window` (of process `process`), which was closed. Returns
    /// the overlay that showed it, which is to be dropped.
    pub fn window_dropped(&mut self, window: u64, process: Option<u64>) -> (r: Option<u64>)
        ensures
            final(self)@ == old(self)@.window_dropped(window, process),
            r == (if old(self)@.window_to_overlay.contains_key(window) { Some(old(self)@.window_to_overlay[window]) } else { None::<u64> }),
    {
        broadcast use vstd::std_specs::hash::group_hash_axioms;
        let ghost v0 = self@;
        let oid = match self.window_to_overlay.remove(&window) {
            Some(o) => o,
            None => {
                assert(self@.window_to_overlay =~= v0.window_to_overlay);
                return None;
            },
        };
        self.overlay_to_window.remove(&oid);
        if let Some(p) = process {
            match self.process_overlays.remove(&p) {
                Some(l) => {
                    let rest = vec_without(&l, oid);
                    if rest.len() > 0 {
                        self.process_overlays.insert(p, rest);
                    }
                },
                None => {},
            }
        }
        proof {
            assert(self@.process_overlays =~= v0.window_dropped(window, process).process_overlays);
        }
        Some(oid)
    }
}

/// The overlays that show the windows `ws`, in the order of `ws`.
pub open spec fn mapped_overlays(m: Map<u64, u64>, ws: Seq<u64>) -> Seq<u64>
    decreases ws.len(),
{
    if ws.len() == 0 {
        Seq::empty()
    } else if m.contains_key(ws.last()) {
        mapped_overlays(m, ws.drop_last()).push(m[ws.last()])
    } else {
        mapped_overlays(m, ws.drop_last())
    }
}

impl WindowOverlaysView {
    /// After process `p`, whose windows were `ws`, ended.
    pub open spec fn process_removed(self, p: u64, ws: Seq<u64>) -> Self {
        WindowOverlaysView {
            window_to_overlay: self.window_to_overlay.remove_keys(ws.to_set()),
            overlay_to_window: self.overlay_to_window.remove_keys(mapped_overlays(self.window_to_overlay, ws).to_set()),
            process_overlays: self.process_overlays.remove(p),
        }
    }
}

impl WindowOverlays {
    /// The overlays that show the windows `windows`, in that order.
    pub fn overlays_of_windows(&self, windows: &Vec<u64>) -> (r: Vec<u64>)
        ensures
            r@ == mapped_overlays(self@.window_to_overlay, windows@),
    {
        broadcast use vstd::std_specs::hash::group_hash_axioms;
        let mut r: Vec<u64> = Vec::new();
        let mut i: usize = 0;
        while i < windows.len()
            invariant
                i <= windows.len(),
                r@ == mapped_overlays(self@.window_to_overlay, windows@.take(i as int)),
            decreases windows.len() - i,
        {
            proof {
                assert(windows@.take(i + 1).drop_last() =~= windows@.take(i as int));
            }
            match self.window_to_overlay.get(&windows[i]) {
                Some(o) => r.push(*o),
                None => {},
            }
            i += 1;
        }
        proof {
            assert(windows@.take(windows.len() as int) =~= windows@);
        }
        r
    }

    /// Forgets process `process`, which ended, and its windows `windows`.
    /// Returns the overlays that showed them, which are to be dropped.
    pub fn process_removed(&mut self, process: u64, windows: &Vec<u64>) -> (r: Vec<u64>)
        requires
            windows@.no_duplicates(),
        ensures
            final(self)@ == old(self)@.process_removed(process, windows@),
            r@ == mapped_overlays(old(self)@.window_to_overlay, windows@),
    {
        broadcast use vstd::std_specs::hash::group_hash_axioms;
        let ghost v0 = self@;
        let r = self.overlays_of_windows(windows);
        let mut i: usize = 0;
        while i < windows.len()
            invariant
                i <= windows.len(),
                windows@.no_duplicates(),
                self.process_overlays@ == old(self).process_overlays@,
                self@.window_to_overlay == v0.window_to_overlay.remove_keys(windows@.take(i as int).to_set()),
                self@.overlay_to_window == v0.overlay_to_window.remove_keys(mapped_overlays(v0.window_to_overlay, windows@.take(i as int)).to_set()),
            decreases windows.len() - i,
        {
            let w = windows[i];
            proof {
                assert(windows@.take(i + 1).drop_last() =~= windows@.take(i as int));
                assert(windows@.take(i + 1).last() == w);
                assert(!windows@.take(i as int).contains(w)) by {
                    if windows@.take(i as int).contains(w) {
                        let k = choose|k: int| 0 <= k < i && windows@.take(i as int)[k] == w;
                        assert(windows@[k] == windows@[i as int]);
                    }
                }
                assert(windows@.take(i + 1).to_set() =~= windows@.take(i as int).to_set().insert(w));
            }
            match self.window_to_overlay.remove(&w) {
                Some(o) => {
                    self.overlay_to_window.remove(&o);
                    proof {
                        assert(v0.window_to_overlay.contains_key(w) && v0.window_to_overlay[w] == o);
                        let m0 = mapped_overlays(v0.window_to_overlay, windows@.take(i as int));
                        assert(mapped_overlays(v0.window_to_overlay, windows@.take(i + 1)) == m0.push(o));
                        assert forall|x: u64| #[trigger] m0.push(o).contains(x) <==> (m0.contains(x) || x == o) by {
                            if m0.push(o).contains(x) && x != o {
                                let k = choose|k: int| 0 <= k < m0.push(o).len() && m0.push(o)[k] == x;
                                assert(m0[k] == x);
                            }
                            if m0.contains(x) {
                                let k = choose|k: int| 0 <= k < m0.len() && m0[k] == x;
                                assert(m0.push(o)[k] == x);
                            }
                            if x == o {
                                assert(m0.push(o)[m0.len() as int] == o);
                            }
                        }
                        assert(mapped_overlays(v0.window_to_overlay, windows@.take(i + 1)).to_set()
                            =~= mapped_overlays(v0.window_to_overlay, windows@.take(i as int)).to_set().insert(o));
                    }
                },
                None => {},
            }
            proof {
                assert(self@.window_to_overlay =~= v0.window_to_overlay.remove_keys(windows@.take(i + 1).to_set()));
                assert(self@.overlay_to_window =~= v0.overlay_to_window.remove_keys(mapped_overlays(v0.window_to_overlay, windows@.take(i + 1)).to_set()));
            }
            i += 1;
        }
        self.process_overlays.remove(&process);
        proof {
            assert(windows@.take(windows.len() as int) =~= windows@);
            assert(self@.process_overlays =~= v0.process_overlays.remove(process));
        }
        r
    }
}

/// Making an overlay show a window that no overlay showed keeps the window
/// and overlay maps inverse to each other.
pub proof fn law_added_keeps_inverse(v: WindowOverlaysView, oid: u64, window: u64, process: Option<u64>)
    requires
        v.wf(),
        !v.window_to_overlay.contains_key(window),
        !v.overlay_to_window.contains_key(oid),
    ensures
        v.added(oid, window, process).wf(),
{
}

/// Closing a window keeps the window and overlay maps inverse to each other.
pub proof fn law_dropped_keeps_inverse(v: WindowOverlaysView, window: u64, process: Option<u64>)
    requires
        v.wf(),
    ensures
        v.window_dropped(window, process).wf(),
{
}

proof fn lemma_without_absent(s: Seq<u64>, x: u64)
    requires
        !s.contains(x),
    ensures
        without(s, x) == s,
    decreases s.len(),
{
    if s.len() > 0 {
        assert(!s.drop_last().contains(x)) by {
            if s.drop_last().contains(x) {
                let k = choose|k: int| 0 <= k < s.drop_last().len() && s.drop_last()[k] == x;
                assert(s[k] == x);
            }
        }
        lemma_without_absent(s.drop_last(), x);
        assert(s.drop_last().push(s.last()) =~= s);
    }
}

proof fn lemma_without_idem(s: Seq<u64>, x: u64)
    ensures
        without(without(s, x), x) == without(s, x),
    decreases s.len(),
{
    if s.len() > 0 {
        lemma_without_idem(s.drop_last(), x);
        if s.last() != x {
            let w = without(s.drop_last(), x);
            assert(w.push(s.last()).drop_last() =~= w);
        }
    }
}

/// Closing the window that an overlay was just made to show undoes the
/// addition, provided the window and the overlay were not mapped before
/// and the process's list of overlays, if it has one, is not empty and
/// lacks the overlay.
pub proof fn law_drop_undoes_add(v: WindowOverlaysView, oid: u64, window: u64, process: Option<u64>)
    requires
        v.wf(),
        !v.window_to_overlay.contains_key(window),
        !v.overlay_to_window.contains_key(oid),
        process matches Some(p) ==> !v.overlays_of(p).contains(oid),
        process matches Some(p) ==> v.process_overlays.contains_key(p) ==> v.process_overlays[p].len() > 0,
    ensures
        v.added(oid, window, process).window_dropped(window, process) == v,
{
    let a = v.added(oid, window, process);
    let d = a.window_dropped(window, process);
    assert(d.window_to_overlay =~= v.window_to_overlay);
    assert(d.overlay_to_window =~= v.overlay_to_window);
    if let Some(p) = process {
        let l = v.overlays_of(p);
        lemma_without_absent(l, oid);
        let pushed = without(l, oid).push(oid);
        assert(without(pushed, oid) == without(l, oid)) by {
            assert(pushed.drop_last() =~= without(l, oid));
            lemma_without_idem(l, oid);
        }
        if v.process_overlays.contains_key(p) {
            assert(d.process_overlays =~= v.process_overlays);
        } else {
            assert(l.len() == 0);
            assert(d.process_overlays =~= v.process_overlays);
        }
    }
}

/// A window size or bound, in logical pixels.
#[derive(Clone, Copy, PartialEq, Eq, Structural, Debug)]
pub struct LogicalSize {
    pub w: i32,
    pub h: i32,
}

/// `v` raised to at least `lo`, then lowered to at most `hi` (so `hi`
/// wins where `lo > hi`).
pub open spec fn clamp_int(v: int, lo: int, hi: int) -> int {
    let raised = if v < lo { lo } else { v };
    if raised > hi { hi } else { raised }
}

/// Each side brought into the range the two bounds give it.
pub open spec fn clamp_size(s: LogicalSize, lo: LogicalSize, hi: LogicalSize) -> LogicalSize {
    LogicalSize { w: clamp_int(s.w as int, lo.w as int, hi.w as int) as i32, h: clamp_int(s.h as int, lo.h as int, hi.h as int) as i32 }
}

fn clamp_i32(v: i32, lo: i32, hi: i32) -> (r: i32)
    ensures
        r == clamp_int(v as int, lo as int, hi as int),
{
    let raised = if v < lo { lo } else { v };
    if raised > hi { hi } else { raised }
}

fn max_i32(a: i32, b: i32) -> (r: i32)
    ensures
        r == (if a > b { a } else { b }),
{
    if a > b { a } else { b }
}

fn min_i32(a: i32, b: i32) -> (r: i32)
    ensures
        r == (if a < b { a } else { b }),
{
    if a < b { a } else { b }
}

/// The size limits a client's window may be configured to within `bounds`:
/// its minimum (at least 1) and maximum (at least the minimum), both
/// capped by the bounds.
pub open spec fn configure_limits(min_size: LogicalSize, max_size: LogicalSize, bounds: LogicalSize) -> (LogicalSize, LogicalSize) {
    let lo_w = if min_size.w > 1 { min_size.w as int } else { 1 };
    let lo_h = if min_size.h > 1 { min_size.h as int } else { 1 };
    let lo = LogicalSize {
        w: (if lo_w < bounds.w { lo_w } else { bounds.w as int }) as i32,
        h: (if lo_h < bounds.h { lo_h } else { bounds.h as int }) as i32,
    };
    let hi_w = if max_size.w > lo.w { max_size.w as int } else { lo.w as int };
    let hi_h = if max_size.h > lo.h { max_size.h as int } else { lo.h as int };
    let hi = LogicalSize {
        w: (if hi_w < bounds.w { hi_w } else { bounds.w as int }) as i32,
        h: (if hi_h < bounds.h { hi_h } else { bounds.h as int }) as i32,
    };
    (lo, hi)
}

/// The size a window is configured to when `size` is asked within `bounds`.
pub open spec fn configured_size(min_size: LogicalSize, max_size: LogicalSize, size: LogicalSize, bounds: LogicalSize) -> LogicalSize {
    let (lo, hi) = configure_limits(min_size, max_size, bounds);
    let asked = LogicalSize { w: if size.w > 1 { size.w } else { 1 }, h: if size.h > 1 { size.h } else { 1 } };
    clamp_size(asked, lo, hi)
}

/// A client window's size bookkeeping.
pub struct WindowSizing {
    pub min_size: LogicalSize,
    pub max_size: LogicalSize,
    pub bounds: LogicalSize,
    /// The size of the last committed buffer (at least 1 each way).
    pub size_x: u32,
    pub size_y: u32,
    /// The size sent in a configure that the client has not answered yet.
    pub pending_configure_size: Option<LogicalSize>,
}

impl WindowSizing {
    /// A new window within `bounds` whose client asked for `min_size` and
    /// `max_size` (the maximum is kept between 160 and the bounds), and
    /// whose first buffer is `size_x` by `size_y`.
    pub fn new(bounds: LogicalSize, min_size: LogicalSize, max_size: LogicalSize, size_x: u32, size_y: u32) -> (r: Self)
        ensures
            r.bounds == bounds,
            r.min_size == min_size,
            r.max_size == clamp_size(max_size, LogicalSize { w: 160, h: 160 }, bounds),
            r.size_x == (if (size_x as i32) > 1 { (size_x as i32) as u32 } else { 1u32 }),
            r.size_y == (if (size_y as i32) > 1 { (size_y as i32) as u32 } else { 1u32 }),
            r.pending_configure_size is None,
    {
        let mut r = WindowSizing {
            min_size,
            max_size: LogicalSize { w: clamp_i32(max_size.w, 160, bounds.w), h: clamp_i32(max_size.h, 160, bounds.h) },
            bounds,
            size_x: 0,
            size_y: 0,
            pending_configure_size: None,
        };
        r.remember_committed_size(LogicalSize { w: size_x as i32, h: size_y as i32 });
        r
    }

    /// Whether the client lets the window be resized.
    pub fn resizable(&self) -> (r: bool)
        ensures
            r == (self.min_size != self.max_size),
    {
        !(self.min_size.w == self.max_size.w && self.min_size.h == self.max_size.h)
    }

    /// The size the window is configured to when `size` is asked within `bounds`.
    pub fn clamp_configure_size(&self, size: LogicalSize, bounds: LogicalSize) -> (r: LogicalSize)
        ensures
            r == configured_size(self.min_size, self.max_size, size, bounds),
    {
        let lo = LogicalSize {
            w: min_i32(max_i32(self.min_size.w, 1), bounds.w),
            h: min_i32(max_i32(self.min_size.h, 1), bounds.h),
        };
        let hi = LogicalSize {
            w: min_i32(max_i32(self.max_size.w, lo.w), bounds.w),
            h: min_i32(max_i32(self.max_size.h, lo.h), bounds.h),
        };
        let asked = LogicalSize { w: max_i32(size.w, 1), h: max_i32(size.h, 1) };
        LogicalSize { w: clamp_i32(asked.w, lo.w, hi.w), h: clamp_i32(asked.h, lo.h, hi.h) }
    }

    /// Asks for `size` within `bounds`. Returns the size to send in a
    /// configure, or `None` when that size is already pending.
    pub fn request_size(&mut self, size: LogicalSize, bounds: LogicalSize) -> (r: Option<LogicalSize>)
        ensures
            old(self).pending_configure_size == Some(configured_size(old(self).min_size, old(self).max_size, size, bounds)) ==>
                r is None && *final(self) == *old(self),
            old(self).pending_configure_size != Some(configured_size(old(self).min_size, old(self).max_size, size, bounds)) ==> {
                &&& r == Some(configured_size(old(self).min_size, old(self).max_size, size, bounds))
                &&& *final(self) == (WindowSizing { bounds, pending_configure_size: r, ..*old(self) })
            },
    {
        let clamped = self.clamp_configure_size(size, bounds);
        let same = match self.pending_configure_size {
            Some(p) => p.w == clamped.w && p.h == clamped.h,
            None => false,
        };
        if same {
            return None;
        }
        self.bounds = bounds;
        self.pending_configure_size = Some(clamped);
        Some(clamped)
    }

    /// Asks for `size` within the current bounds.
    pub fn checked_configure_size(&mut self, size: LogicalSize) -> (r: Option<LogicalSize>)
        ensures
            old(self).pending_configure_size == Some(configured_size(old(self).min_size, old(self).max_size, size, old(self).bounds)) ==>
                r is None && *final(self) == *old(self),
            old(self).pending_configure_size != Some(configured_size(old(self).min_size, old(self).max_size, size, old(self).bounds)) ==> {
                &&& r == Some(configured_size(old(self).min_size, old(self).max_size, size, old(self).bounds))
                &&& *final(self) == (WindowSizing { pending_configure_size: r, ..*old(self) })
            },
    {
        let b = self.bounds;
        self.request_size(size, b)
    }

    /// The client committed a buffer of `size`. Returns whether the size
    /// changed; no configure is pending any more.
    pub fn remember_committed_size(&mut self, size: LogicalSize) -> (changed: bool)
        ensures
            final(self).size_x == (if size.w > 1 { size.w as u32 } else { 1u32 }),
            final(self).size_y == (if size.h > 1 { size.h as u32 } else { 1u32 }),
            final(self).pending_configure_size is None,
            final(self).min_size == old(self).min_size,
            final(self).max_size == old(self).max_size,
            final(self).bounds == old(self).bounds,
            changed == (old(self).size_x != final(self).size_x || old(self).size_y != final(self).size_y),
    {
        let size_x = max_i32(size.w, 1) as u32;
        let size_y = max_i32(size.h, 1) as u32;
        let changed = self.size_x != size_x || self.size_y != size_y;
        self.size_x = size_x;
        self.size_y = size_y;
        self.pending_configure_size = None;
        changed
    }
}

/// The size a window is configured to lies between its limits, so asking
/// for it again configures nothing new.
pub proof fn law_configured_size_is_stable(min_size: LogicalSize, max_size: LogicalSize, size: LogicalSize, bounds: LogicalSize)
    ensures
        configured_size(min_size, max_size, configured_size(min_size, max_size, size, bounds), bounds)
            == configured_size(min_size, max_size, size, bounds),
{
}

/// Whether a size that a client gave is unset (a side of 0).
pub open spec fn is_unset(s: LogicalSize) -> bool {
    s.w == 0 || s.h == 0
}

/// The size limits of a new window within `bounds`, from the minimum and
/// maximum its client gave: an unset minimum becomes 1 by 1, an unset
/// maximum the bounds, and a set maximum is brought into `[1, bounds]`.
pub open spec fn spec_new_window_limits(min_size: LogicalSize, max_size: LogicalSize, bounds: LogicalSize) -> (LogicalSize, LogicalSize) {
    let lo = if is_unset(min_size) { LogicalSize { w: 1, h: 1 } } else { min_size };
    let hi = if is_unset(max_size) { bounds } else { clamp_size(max_size, LogicalSize { w: 1, h: 1 }, bounds) };
    (lo, hi)
}

/// The size limits of a new window (see [`spec_new_window_limits`]).
pub fn new_window_limits(min_size: LogicalSize, max_size: LogicalSize, bounds: LogicalSize) -> (r: (LogicalSize, LogicalSize))
    ensures
        r == spec_new_window_limits(min_size, max_size, bounds),
{
    let lo = if min_size.w == 0 || min_size.h == 0 { LogicalSize { w: 1, h: 1 } } else { min_size };
    let hi = if max_size.w == 0 || max_size.h == 0 {
        bounds
    } else {
        LogicalSize { w: clamp_i32(max_size.w, 1, bounds.w), h: clamp_i32(max_size.h, 1, bounds.h) }
    };
    (lo, hi)
}

/// The size a new window is first offered: the resolution its process was
/// launched with (each side read as an `i32`), or 1920 by 1080 for a
/// process started elsewhere, brought within the window's limits.
pub fn initial_window_size(resolution: Option<(u32, u32)>, lo: LogicalSize, hi: LogicalSize) -> (r: LogicalSize)
    ensures
        r == clamp_size(
            match resolution {
                Some((w, h)) => LogicalSize { w: w as i32, h: h as i32 },
                None => LogicalSize { w: 1920, h: 1080 },
            },
            lo,
            hi,
        ),
{
    let asked = match resolution {
        Some((w, h)) => LogicalSize { w: w as i32, h: h as i32 },
        None => LogicalSize { w: 1920, h: 1080 },
    };
    LogicalSize { w: clamp_i32(asked.w, lo.w, hi.w), h: clamp_i32(asked.h, lo.h, hi.h) }
}

/// Width of the frame drawn around a window, in pixels.
pub const BORDER_SIZE: u32 = 5;

/// Height of the title bar above a window, in pixels.
pub const BAR_SIZE: u32 = 48;

/// How a client's buffer holds the views of the two eyes.
#[derive(Clone, Copy, PartialEq, Eq, Structural, Debug)]
pub enum StereoMode {
    /// One view for both eyes.
    Mono,
    LeftRight,
    RightLeft,
    TopBottom,
    BottomTop,
}

/// The extent of a window's content and of the whole frame around it
/// (content, borders and title bar), for a client buffer of `image`
/// pixels: in full-frame stereo, the content is one eye's half of the
/// buffer.
pub open spec fn spec_frame_extents(image: (u32, u32), stereo: Option<StereoMode>, full_frame: bool) -> ((int, int), (int, int)) {
    let inner = if !full_frame {
        (image.0 as int, image.1 as int)
    } else {
        match stereo {
            Some(StereoMode::LeftRight) | Some(StereoMode::RightLeft) => ((image.0 / 2) as int, image.1 as int),
            Some(StereoMode::TopBottom) | Some(StereoMode::BottomTop) => (image.0 as int, (image.1 / 2) as int),
            _ => (image.0 as int, image.1 as int),
        }
    };
    (inner, (inner.0 + 2 * BORDER_SIZE, inner.1 + 2 * BORDER_SIZE + BAR_SIZE))
}

/// The extents of a window's content and frame (see [`spec_frame_extents`]).
pub fn frame_extents(image: (u32, u32), stereo: Option<StereoMode>, full_frame: bool) -> (r: ((u32, u32), (u32, u32)))
    requires
        image.0 + 2 * BORDER_SIZE <= u32::MAX,
        image.1 + 2 * BORDER_SIZE + BAR_SIZE <= u32::MAX,
    ensures
        r.0.0 == spec_frame_extents(image, stereo, full_frame).0.0,
        r.0.1 == spec_frame_extents(image, stereo, full_frame).0.1,
        r.1.0 == spec_frame_extents(image, stereo, full_frame).1.0,
        r.1.1 == spec_frame_extents(image, stereo, full_frame).1.1,
{
    let (mut w, mut h) = image;
    match stereo {
        Some(StereoMode::LeftRight) | Some(StereoMode::RightLeft) => {
            if full_frame {
                w = w / 2;
            }
        },
        Some(StereoMode::TopBottom) | Some(StereoMode::BottomTop) => {
            if full_frame {
                h = h / 2;
            }
        },
        _ => {},
    }
    ((w, h), (w + 2 * BORDER_SIZE, h + 2 * BORDER_SIZE + BAR_SIZE))
}

/// Whether a frame is drawn.
#[derive(Clone, Copy, PartialEq, Eq, Structural, Debug)]
pub enum ShouldRender {
    Should,
    Can,
    Unable,
}

/// Whether a window's frame is drawn: always when its surfaces asked for a
/// redraw or it was just resumed, when the client attached a new image, or
/// when the pointer or the popups changed; otherwise as its title bar
/// panel says.
pub fn window_should_render(forced: bool, new_image: bool, dirty: bool, panel: ShouldRender) -> (r: ShouldRender)
    ensures
        r == (if forced || new_image || dirty { ShouldRender::Should } else { panel }),
{
    if forced {
        ShouldRender::Should
    } else if new_image {
        ShouldRender::Should
    } else if dirty {
        ShouldRender::Should
    } else {
        panel
    }
}

/// How a client process is asked to end.
#[derive(Clone, Copy, PartialEq, Eq, Structural, Debug)]
pub enum KillSignal {
    /// Ask politely; the client may show a confirmation dialog.
    Term,
    /// End it at once.
    Kill,
}

/// A command from a client window's title bar.
#[derive(Clone, Copy, PartialEq, Eq, Structural, Debug)]
pub enum WvrCommand {
    ReloadTitle,
    CloseWindow,
    KillProcess(KillSignal),
}

/// What the server does for a window command.
#[derive(Clone, Copy, PartialEq, Eq, Structural, Debug)]
pub enum WindowTask {
    /// Read the window's title again.
    ReloadTitle,
    /// Ask the client to close the window.
    CloseWindow(u64),
    /// End the process that owns the window.
    TerminateProcess { process: u64, signal: KillSignal },
    /// The window is gone; nothing to do.
    Nothing,
}

/// The task for `command` on `window`, whose process is `process` if the
/// window still exists.
pub fn command_task(command: WvrCommand, window: u64, process: Option<u64>) -> (t: WindowTask)
    ensures
        t == match command {
            WvrCommand::ReloadTitle => WindowTask::ReloadTitle,
            WvrCommand::CloseWindow => WindowTask::CloseWindow(window),
            WvrCommand::KillProcess(signal) => match process {
                Some(p) => WindowTask::TerminateProcess { process: p, signal },
                None => WindowTask::Nothing,
            },
        },
{
    match command {
        WvrCommand::ReloadTitle => WindowTask::ReloadTitle,
        WvrCommand::CloseWindow => WindowTask::CloseWindow(window),
        WvrCommand::KillProcess(signal) => match process {
            Some(p) => WindowTask::TerminateProcess { process: p, signal },
            None => WindowTask::Nothing,
        },
    }
}

impl WindowOverlays {
    /// The overlays to drop when a process is ended with `signal`; its
    /// windows are `windows`. A polite request drops none: the client may
    /// still ask the user to confirm.
    pub fn termination_drops(&self, signal: KillSignal, windows: &Vec<u64>) -> (r: Vec<u64>)
        ensures
            signal == KillSignal::Term ==> r@.len() == 0,
            signal == KillSignal::Kill ==> r@ == mapped_overlays(self@.window_to_overlay, windows@),
    {
        match signal {
            KillSignal::Term => Vec::new(),
            KillSignal::Kill => self.overlays_of_windows(windows),
        }
    }
}

/// Where keyboard and pointer input goes.
#[derive(Clone, Copy, PartialEq, Eq, Structural, Debug)]
pub enum InputFocus {
    /// The desktop the overlays show.
    PhysicalScreen,
    /// The windows of the built-in server.
    WayVR,
}

/// Where a key (or a modifier change) is sent.
#[derive(Clone, Copy, PartialEq, Eq, Structural, Debug)]
pub enum KeyRoute {
    Desktop,
    Server,
    /// The focus is on the server, but it is not running.
    Nowhere,
}

/// The routing of input between the desktop and the built-in server.
pub struct InputRouting {
    pub input_focus: InputFocus,
}

impl InputRouting {
    /// Input goes to the desktop at first.
    pub fn new() -> (r: Self)
        ensures
            r.input_focus == InputFocus::PhysicalScreen,
    {
        InputRouting { input_focus: InputFocus::PhysicalScreen }
    }

    /// Moves the focus to `value`. Returns whether it changed, and, when it
    /// changed and the server runs, whether the server now has the focus
    /// (it grabs or releases the input devices accordingly).
    pub fn set_input_focus(&mut self, value: InputFocus, server_running: bool) -> (r: (bool, Option<bool>))
        ensures
            final(self).input_focus == value,
            r.0 == (old(self).input_focus != value),
            r.1 == (if old(self).input_focus != value && server_running { Some(value == InputFocus::WayVR) } else { None::<bool> }),
    {
        if self.input_focus != value {
            self.input_focus = value;
            let notify = if server_running {
                Some(match value {
                    InputFocus::WayVR => true,
                    InputFocus::PhysicalScreen => false,
                })
            } else {
                None
            };
            (true, notify)
        } else {
            (false, None)
        }
    }

    /// Where keys go now.
    pub fn key_route(&self, server_running: bool) -> (r: KeyRoute)
        ensures
            self.input_focus == InputFocus::PhysicalScreen ==> r == KeyRoute::Desktop,
            self.input_focus == InputFocus::WayVR && server_running ==> r == KeyRoute::Server,
            self.input_focus == InputFocus::WayVR && !server_running ==> r == KeyRoute::Nowhere,
    {
        match self.input_focus {
            InputFocus::PhysicalScreen => KeyRoute::Desktop,
            InputFocus::WayVR => if server_running { KeyRoute::Server } else { KeyRoute::Nowhere },
        }
    }
}

/// What syncing a committed buffer size did.
#[derive(Clone, Copy, PartialEq, Eq, Structural, Debug)]
pub enum SyncOutcome {
    /// The size fits the limits and was remembered; whether it changed.
    Remembered(bool),
    /// The size does not fit; a configure with this size is to be sent.
    Requested(LogicalSize),
    /// The size does not fit, but a configure is already pending.
    AlreadyPending,
}

/// The size a committed buffer of `inner` pixels stands for (at least 1).
pub open spec fn committed_size(inner: (u32, u32)) -> LogicalSize {
    LogicalSize {
        w: (if inner.0 > 1 { inner.0 } else { 1u32 }) as i32,
        h: (if inner.1 > 1 { inner.1 } else { 1u32 }) as i32,
    }
}

impl WindowSizing {
    /// The client committed a buffer of `inner_w` by `inner_h` within
    /// `bounds`: remembered if it fits the limits, else the fitting size is
    /// asked for (unless a configure is already pending).
    pub fn sync_committed_size(&mut self, inner_w: u32, inner_h: u32, bounds: LogicalSize) -> (r: SyncOutcome)
        ensures
            ({
                let c = committed_size((inner_w, inner_h));
                let fit = configured_size(old(self).min_size, old(self).max_size, c, bounds);
                &&& c == fit ==> {
                    &&& final(self).size_x == (if c.w > 1 { c.w as u32 } else { 1u32 })
                    &&& final(self).size_y == (if c.h > 1 { c.h as u32 } else { 1u32 })
                    &&& final(self).pending_configure_size is None
                    &&& final(self).min_size == old(self).min_size
                    &&& final(self).max_size == old(self).max_size
                    &&& final(self).bounds == old(self).bounds
                    &&& r == SyncOutcome::Remembered(old(self).size_x != final(self).size_x || old(self).size_y != final(self).size_y)
                }
                &&& c != fit && old(self).pending_configure_size is None ==> {
                    &&& r == SyncOutcome::Requested(fit)
                    &&& *final(self) == (WindowSizing { bounds, pending_configure_size: Some(fit), ..*old(self) })
                }
                &&& c != fit && old(self).pending_configure_size is Some ==> r == SyncOutcome::AlreadyPending && *final(self) == *old(self)
            }),
    {
        let w: u32 = if inner_w > 1 { inner_w } else { 1 };
        let h: u32 = if inner_h > 1 { inner_h } else { 1 };
        let committed = LogicalSize { w: w as i32, h: h as i32 };
        let clamped = self.clamp_configure_size(committed, bounds);
        if committed.w == clamped.w && committed.h == clamped.h {
            let changed = self.remember_committed_size(committed);
            SyncOutcome::Remembered(changed)
        } else if self.pending_configure_size.is_none() {
            match self.request_size(clamped, bounds) {
                Some(s) => SyncOutcome::Requested(s),
                None => SyncOutcome::AlreadyPending,
            }
        } else {
            SyncOutcome::AlreadyPending
        }
    }
}

/// Where the overlay of a new window is placed.
#[derive(Clone, Copy, PartialEq, Eq, Structural, Debug)]
pub enum SpawnPos {
    /// Next to the newest overlay of the same process.
    Parent(u64),
    /// Spread out in front of the user.
    Spread,
}

impl WindowOverlays {
    /// Where the overlay of a new window of `process` is placed.
    pub fn spawn_pos(&self, process: u64) -> (r: SpawnPos)
        ensures
            r == (if self@.overlays_of(process).len() > 0 { SpawnPos::Parent(self@.overlays_of(process).last()) } else { SpawnPos::Spread }),
    {
        match self.last_process_overlay(process) {
            Some(o) => SpawnPos::Parent(o),
            None => SpawnPos::Spread,
        }
    }
}

/// A client runs inside `cage`, whose windows report no useful title.
pub open spec fn is_cage(exec_path: Seq<char>) -> bool {
    is_suffix("cage"@, exec_path)
}

/// The title of a new window: the window's own title; else, when its
/// application is known from a desktop entry, that entry's name; else the
/// name given at launch, or `P<pid>` for a process started elsewhere. The
/// window's own title and the desktop entry are not asked for a window of
/// `cage` (`None` is passed for both then).
pub open spec fn spec_window_title(launch_name: Option<Seq<char>>, pid: u32, xdg_title: Option<Seq<char>>, entry_name: Option<Seq<char>>) -> Seq<char> {
    match xdg_title {
        Some(t) => t,
        None => match entry_name {
            Some(n) => n,
            None => match launch_name {
                Some(n) => n,
                None => "P"@ + decimal(pid as nat),
            },
        },
    }
}

/// The views of an optional string.
pub open spec fn opt_view(s: Option<String>) -> Option<Seq<char>> {
    match s { Some(x) => Some(x@), None => None }
}

/// The title of a new window (see [`spec_window_title`]).
pub fn window_title(launch_name: Option<String>, pid: u32, xdg_title: Option<String>, entry_name: Option<String>) -> (t: String)
    ensures
        t@ == spec_window_title(opt_view(launch_name), pid, opt_view(xdg_title), opt_view(entry_name)),
{
    match xdg_title {
        Some(t) => t,
        None => match entry_name {
            Some(n) => n,
            None => match launch_name {
                Some(n) => n,
                None => {
                    let mut s = String::from_str("P");
                    push_decimal(&mut s, pid as u64);
                    s
                },
            },
        },
    }
}

/// Whether a launched program runs inside `cage`.
pub fn launched_in_cage(exec_path: &str) -> (r: bool)
    ensures
        r == is_cage(exec_path@),
{
    ends_with(exec_path, "cage")
}

/// The icon of a new window: the one given at launch, else the desktop
/// entry's; `None` asks for a generated one.
pub fn window_icon(launch_icon: Option<String>, entry_icon: Option<String>) -> (r: Option<String>)
    ensures
        opt_view(r) == (if launch_icon is Some { opt_view(launch_icon) } else { opt_view(entry_icon) }),
{
    match launch_icon {
        Some(i) => Some(i),
        None => entry_icon,
    }
}

} // verus!
