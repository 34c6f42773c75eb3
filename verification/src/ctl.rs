//! The command-line client's reading of its arguments: window-state
//! fields and values, resolutions, set numbers, environment lists and the
//! lines of a batch.
use vstd::prelude::*;
use vstd::string::*;
use crate::text::{chars_of, is_ws, is_whitespace, str_eq, string_from_chars};
use crate::whisper::join_words;
use crate::pos::PositioningKind;

verus! {

broadcast use vstd::string::group_string_axioms;

/// How the pointer is driven without controllers.
#[derive(Clone, Copy, PartialEq, Eq, Structural, Debug)]
pub enum HandsfreeMode {
    /// No handsfree pointer control.
    Off,
    /// Pointer controlled by the headset.
    Hmd,
    /// Pointer controlled by the headset; left pinch clicks, right pinch grabs.
    HmdPinch,
    /// Pointer controlled by eye gaze.
    EyeTracking,
    /// Pointer controlled by eye gaze; left pinch clicks, right pinch grabs.
    EyeTrackingPinch,
}

/// What drives the pointer in the overlay's configuration.
#[derive(Clone, Copy, PartialEq, Eq, Structural, Debug)]
pub enum HandsfreePointer {
    Off,
    /// The headset, without pinch gestures.
    HmdOnly,
    /// The headset, with pinch gestures.
    Hmd,
    /// Eye gaze, without pinch gestures.
    EyeTrackingOnly,
    /// Eye gaze, with pinch gestures.
    EyeTracking,
}

/// The configured pointer for a handsfree mode asked for by a client: a
/// mode without pinch selects the "only" pointer.
pub fn handsfree_pointer(mode: HandsfreeMode) -> (p: HandsfreePointer)
    ensures
        p == match mode {
            HandsfreeMode::Off => HandsfreePointer::Off,
            HandsfreeMode::Hmd => HandsfreePointer::HmdOnly,
            HandsfreeMode::HmdPinch => HandsfreePointer::Hmd,
            HandsfreeMode::EyeTracking => HandsfreePointer::EyeTrackingOnly,
            HandsfreeMode::EyeTrackingPinch => HandsfreePointer::EyeTracking,
        },
{
    match mode {
        HandsfreeMode::Off => HandsfreePointer::Off,
        HandsfreeMode::Hmd => HandsfreePointer::HmdOnly,
        HandsfreeMode::HmdPinch => HandsfreePointer::Hmd,
        HandsfreeMode::EyeTracking => HandsfreePointer::EyeTrackingOnly,
        HandsfreeMode::EyeTrackingPinch => HandsfreePointer::EyeTracking,
    }
}

/// A handsfree action.
#[derive(Clone, Copy, PartialEq, Eq, Structural, Debug)]
pub enum HandsfreeAction {
    Click,
    Grab,
    /// Right-click modifier (used with click).
    RightModifier,
    /// Middle-click modifier (used with click).
    MiddleModifier,
}

/// A window-state property of an overlay.
#[derive(Clone, Copy, PartialEq, Eq, Structural, Debug)]
pub enum WindowStateField {
    Alpha,
    Additive,
    Grabbable,
    Interactable,
    Positioning,
    Curvature,
    BlockInput,
    AlignToHmd,
    Global,
}

/// The name a field is written with on the command line.
pub open spec fn field_name(f: WindowStateField) -> Seq<char> {
    match f {
        WindowStateField::Alpha => "alpha"@,
        WindowStateField::Grabbable => "grabbable"@,
        WindowStateField::Interactable => "interactable"@,
        WindowStateField::Positioning => "positioning"@,
        WindowStateField::Curvature => "curvature"@,
        WindowStateField::Additive => "additive"@,
        WindowStateField::BlockInput => "block_input"@,
        WindowStateField::AlignToHmd => "align_to_hmd"@,
        WindowStateField::Global => "global"@,
    }
}

/// The name a field is written with on the command line.
pub fn window_state_field_name(field: WindowStateField) -> (s: &'static str)
    ensures
        s@ == field_name(field),
{
    match field {
        WindowStateField::Alpha => "alpha",
        WindowStateField::Grabbable => "grabbable",
        WindowStateField::Interactable => "interactable",
        WindowStateField::Positioning => "positioning",
        WindowStateField::Curvature => "curvature",
        WindowStateField::Additive => "additive",
        WindowStateField::BlockInput => "block_input",
        WindowStateField::AlignToHmd => "align_to_hmd",
        WindowStateField::Global => "global",
    }
}

/// Why an argument was refused.
#[derive(Clone, Copy, PartialEq, Eq, Structural, Debug)]
pub enum ArgError {
    /// A flag was not one of `0`, `false`, `off`, `1`, `true`, `on`.
    ExpectedBool,
    /// A positioning was not one of the known names.
    ExpectedPositioning,
    /// A resolution was not `<width>x<height>`.
    InvalidResolution,
    /// A batch line has an unclosed quote.
    Parse,
}

/// The message shown for an argument error.
pub open spec fn arg_error_message(e: ArgError) -> Seq<char> {
    match e {
        ArgError::ExpectedBool => "expected 0 or 1"@,
        ArgError::ExpectedPositioning => "expected floating, anchored, static, follow_head or follow_hand_<left|right>"@,
        ArgError::InvalidResolution => "Invalid resolution format. Expecting <width>x<height>, for example: 1920x1080, 1280x720"@,
        ArgError::Parse => "parse error"@,
    }
}

impl ArgError {
    /// The message shown for the error.
    pub fn message(&self) -> (m: String)
        ensures
            m@ == arg_error_message(*self),
    {
        match self {
            ArgError::ExpectedBool => String::from_str("expected 0 or 1"),
            ArgError::ExpectedPositioning => String::from_str("expected floating, anchored, static, follow_head or follow_hand_<left|right>"),
            ArgError::InvalidResolution => String::from_str("Invalid resolution format. Expecting <width>x<height>, for example: 1920x1080, 1280x720"),
            ArgError::Parse => String::from_str("parse error"),
        }
    }
}

/// The value of a flag argument.
pub open spec fn spec_parse_bool(raw: Seq<char>) -> Option<bool> {
    if raw == "0"@ || raw == "false"@ || raw == "off"@ {
        Some(false)
    } else if raw == "1"@ || raw == "true"@ || raw == "on"@ {
        Some(true)
    } else {
        None
    }
}

/// Reads a flag argument: `0`, `false`, `off` or `1`, `true`, `on`.
pub fn parse_bool(raw: &str) -> (r: Result<bool, ArgError>)
    ensures
        match spec_parse_bool(raw@) {
            Some(b) => r == Ok::<bool, ArgError>(b),
            None => r == Err::<bool, ArgError>(ArgError::ExpectedBool),
        },
{
    if str_eq(raw, "0") || str_eq(raw, "false") || str_eq(raw, "off") {
        Ok(false)
    } else if str_eq(raw, "1") || str_eq(raw, "true") || str_eq(raw, "on") {
        Ok(true)
    } else {
        Err(ArgError::ExpectedBool)
    }
}

/// The positioning a name stands for.
pub open spec fn spec_parse_positioning(raw: Seq<char>) -> Option<PositioningKind> {
    if raw == "floating"@ {
        Some(PositioningKind::Floating)
    } else if raw == "anchored"@ {
        Some(PositioningKind::Anchored)
    } else if raw == "static"@ {
        Some(PositioningKind::Static)
    } else if raw == "follow_head"@ || raw == "follow-head"@ {
        Some(PositioningKind::FollowHead)
    } else if raw == "follow_hand_left"@ || raw == "follow-hand-left"@ {
        Some(PositioningKind::FollowHandLeft)
    } else if raw == "follow_hand_right"@ || raw == "follow-hand-right"@ {
        Some(PositioningKind::FollowHandRight)
    } else {
        None
    }
}

/// Reads a positioning name (`_` or `-` between the words of the follow modes).
pub fn parse_positioning(raw: &str) -> (r: Result<PositioningKind, ArgError>)
    ensures
        match spec_parse_positioning(raw@) {
            Some(k) => r == Ok::<PositioningKind, ArgError>(k),
            None => r == Err::<PositioningKind, ArgError>(ArgError::ExpectedPositioning),
        },
{
    if str_eq(raw, "floating") {
        Ok(PositioningKind::Floating)
    } else if str_eq(raw, "anchored") {
        Ok(PositioningKind::Anchored)
    } else if str_eq(raw, "static") {
        Ok(PositioningKind::Static)
    } else if str_eq(raw, "follow_head") || str_eq(raw, "follow-head") {
        Ok(PositioningKind::FollowHead)
    } else if str_eq(raw, "follow_hand_left") || str_eq(raw, "follow-hand-left") {
        Ok(PositioningKind::FollowHandLeft)
    } else if str_eq(raw, "follow_hand_right") || str_eq(raw, "follow-hand-right") {
        Ok(PositioningKind::FollowHandRight)
    } else {
        Err(ArgError::ExpectedPositioning)
    }
}

/// The name a positioning is printed with.
pub open spec fn spec_positioning_name(p: PositioningKind) -> Seq<char> {
    match p {
        PositioningKind::Floating => "floating"@,
        PositioningKind::Anchored => "anchored"@,
        PositioningKind::Static => "static"@,
        PositioningKind::FollowHead => "follow_head"@,
        PositioningKind::FollowHandLeft => "follow_hand_left"@,
        PositioningKind::FollowHandRight => "follow_hand_right"@,
    }
}

/// The name a positioning is printed with.
pub fn positioning_name(p: PositioningKind) -> (s: &'static str)
    ensures
        s@ == spec_positioning_name(p),
{
    match p {
        PositioningKind::Floating => "floating",
        PositioningKind::Anchored => "anchored",
        PositioningKind::Static => "static",
        PositioningKind::FollowHead => "follow_head",
        PositioningKind::FollowHandLeft => "follow_hand_left",
        PositioningKind::FollowHandRight => "follow_hand_right",
    }
}

/// A printed positioning reads back as itself.
pub proof fn law_positioning_name_round_trip(p: PositioningKind)
    ensures
        spec_parse_positioning(spec_positioning_name(p)) == Some(p),
{
    reveal_strlit("floating");
    reveal_strlit("anchored");
    reveal_strlit("static");
    reveal_strlit("follow_head");
    reveal_strlit("follow-head");
    reveal_strlit("follow_hand_left");
    reveal_strlit("follow-hand-left");
    reveal_strlit("follow_hand_right");
    reveal_strlit("follow-hand-right");
    let n = spec_positioning_name(p);
    // the names differ from the earlier ones in length, or else in their
    // first character
    assert("floating"@.len() == 8 && "anchored"@.len() == 8 && "static"@.len() == 6);
    assert("follow_head"@.len() == 11 && "follow-head"@.len() == 11);
    assert("follow_hand_left"@.len() == 16 && "follow-hand-left"@.len() == 16);
    match p {
        PositioningKind::Floating => {
            assert(n[0] != "anchored"@[0]);
        },
        PositioningKind::Anchored => {
            assert(n[0] != "floating"@[0]);
        },
        _ => {},
    }
}

/// A window-state value, as far as it is read here.
#[derive(Clone, Copy, PartialEq, Eq, Structural, Debug)]
pub enum StateValue {
    Bool(bool),
    Positioning(PositioningKind),
    /// A number (opacity or curvature), read by the caller.
    Number,
}

/// Reads the value given for `field`.
pub fn parse_window_state_value(field: WindowStateField, raw: &str) -> (r: Result<StateValue, ArgError>)
    ensures
        match field {
            WindowStateField::Alpha | WindowStateField::Curvature => r == Ok::<StateValue, ArgError>(StateValue::Number),
            WindowStateField::Positioning => match spec_parse_positioning(raw@) {
                Some(k) => r == Ok::<StateValue, ArgError>(StateValue::Positioning(k)),
                None => r == Err::<StateValue, ArgError>(ArgError::ExpectedPositioning),
            },
            _ => match spec_parse_bool(raw@) {
                Some(b) => r == Ok::<StateValue, ArgError>(StateValue::Bool(b)),
                None => r == Err::<StateValue, ArgError>(ArgError::ExpectedBool),
            },
        },
{
    match field {
        WindowStateField::Alpha | WindowStateField::Curvature => Ok(StateValue::Number),
        WindowStateField::Positioning => match parse_positioning(raw) {
            Ok(k) => Ok(StateValue::Positioning(k)),
            Err(e) => Err(e),
        },
        _ => match parse_bool(raw) {
            Ok(b) => Ok(StateValue::Bool(b)),
            Err(e) => Err(e),
        },
    }
}

/// Which overlays a listing shows: with neither filter, both kinds.
pub fn window_list_filter(visible: bool, hidden: bool) -> (r: (bool, bool))
    ensures
        !visible && !hidden ==> r == (true, true),
        visible || hidden ==> r == (visible, hidden),
{
    if !visible && !hidden { (true, true) } else { (visible, hidden) }
}

/// The set a set number names: 0 hides every set, `n` is set `n - 1`.
pub fn set_from_number(set_or_0: usize) -> (r: Option<usize>)
    ensures
        set_or_0 == 0 ==> r is None,
        set_or_0 > 0 ==> r == Some((set_or_0 - 1) as usize),
{
    if set_or_0 == 0 { None } else { Some(set_or_0 - 1) }
}

/// A `0` or `1` argument read as a flag: anything but 0 is on.
pub fn flag_from_number(v: u8) -> (r: bool)
    ensures
        r == (v != 0),
{
    v != 0
}

/// The value of a decimal digit character.
pub open spec fn digit_value(c: char) -> nat {
    (c as nat - '0' as nat) as nat
}

/// Whether `c` is an ASCII decimal digit.
pub open spec fn is_digit(c: char) -> bool {
    '0' <= c && c <= '9'
}

/// The number that a string of digits spells.
pub open spec fn digits_value(d: Seq<char>) -> nat
    decreases d.len(),
{
    if d.len() == 0 { 0 } else { digits_value(d.drop_last()) * 10 + digit_value(d.last()) }
}

/// How `str::parse::<u32>` reads `s`: an optional `+`, then one or more
/// digits whose value fits.
pub open spec fn spec_parse_u32(s: Seq<char>) -> Option<u32> {
    let d = unsigned_part(s);
    if d.len() > 0 && all_digits(d) && digits_value(d) <= u32::MAX {
        Some(digits_value(d) as u32)
    } else {
        None
    }
}

/// `s` without a leading `+`.
pub open spec fn unsigned_part(s: Seq<char>) -> Seq<char> {
    if s.len() > 0 && s[0] == '+' { s.skip(1) } else { s }
}

/// Every character of `d` is a digit.
pub open spec fn all_digits(d: Seq<char>) -> bool {
    forall|i: int| 0 <= i < d.len() ==> is_digit(#[trigger] d[i])
}

proof fn lemma_digits_grow(d: Seq<char>, i: int)
    requires
        0 <= i <= d.len(),
    ensures
        digits_value(d.take(i)) <= digits_value(d),
    decreases d.len() - i,
{
    if i < d.len() {
        lemma_digits_grow(d, i + 1);
        assert(d.take(i + 1).drop_last() =~= d.take(i));
    } else {
        assert(d.take(i) =~= d);
    }
}

/// Reads `v[from..to]` as a `u32` the way `str::parse::<u32>` does.
pub fn parse_u32_span(v: &Vec<char>, from: usize, to: usize) -> (r: Option<u32>)
    requires
        from <= to <= v.len(),
    ensures
        r == spec_parse_u32(v@.subrange(from as int, to as int)),
{
    let ghost s = v@.subrange(from as int, to as int);
    let mut start = from;
    if start < to && v[start] == '+' {
        start = start + 1;
    }
    let ghost d = v@.subrange(start as int, to as int);
    proof {
        if s.len() > 0 && s[0] == '+' {
            assert(d =~= s.skip(1));
        } else {
            assert(d =~= s);
        }
    }
    if start == to {
        return None;
    }
    let mut acc: u64 = 0;
    let mut i = start;
    while i < to
        invariant
            from <= start <= i <= to <= v.len(),
            d == v@.subrange(start as int, to as int),
            s == v@.subrange(from as int, to as int),
            d == unsigned_part(s),
            forall|j: int| start <= j < i ==> is_digit(#[trigger] v@[j]),
            acc == digits_value(d.take(i - start)),
            acc <= u32::MAX,
        decreases to - i,
    {
        let c = v[i];
        if !('0' <= c && c <= '9') {
            proof {
                assert(d[i - start] == c);
                assert(!is_digit(d[i - start]));
                assert(!(forall|q: int| 0 <= q < d.len() ==> is_digit(#[trigger] d[q])));
            }
            return None;
        }
        proof {
            assert(d.take(i - start + 1).drop_last() =~= d.take(i - start));
            assert(d.take(i - start + 1).last() == c);
        }
        let digit = (c as u32 - '0' as u32) as u64;
        acc = acc * 10 + digit;
        if acc > 0xffff_ffffu64 {
            proof {
                lemma_digits_grow(d, i - start + 1);
            }
            return None;
        }
        i = i + 1;
    }
    proof {
        assert(d.take(to - start) =~= d);
        assert forall|j: int| 0 <= j < d.len() implies is_digit(#[trigger] d[j]) by {
            assert(d[j] == v@[start + j]);
        }
    }
    Some(acc as u32)
}

/// The resolution a `<width>x<height>` argument gives, split at its first `x`.
pub open spec fn spec_parse_resolution(s: Seq<char>) -> Option<(u32, u32)> {
    if exists|i: int| 0 <= i < s.len() && s[i] == 'x' {
        let k = choose|k: int| 0 <= k < s.len() && s[k] == 'x' && forall|j: int| 0 <= j < k ==> s[j] != 'x';
        match (spec_parse_u32(s.take(k)), spec_parse_u32(s.skip(k + 1))) {
            (Some(w), Some(h)) => Some((w, h)),
            _ => None,
        }
    } else {
        None
    }
}

/// Reads a `<width>x<height>` resolution such as `1920x1080`.
pub fn parse_resolution(raw: &str) -> (r: Result<[u32; 2], ArgError>)
    ensures
        match spec_parse_resolution(raw@) {
            Some((w, h)) => r matches Ok(a) && a@ == seq![w, h],
            None => r == Err::<[u32; 2], ArgError>(ArgError::InvalidResolution),
        },
{
    let v = chars_of(raw);
    let ghost s = v@;
    let mut k: usize = 0;
    while k < v.len() && v[k] != 'x'
        invariant
            k <= v.len(),
            forall|j: int| 0 <= j < k ==> v@[j] != 'x',
        decreases v.len() - k,
    {
        k += 1;
    }
    if k == v.len() {
        return Err(ArgError::InvalidResolution);
    }
    proof {
        let c = choose|c: int| 0 <= c < s.len() && s[c] == 'x' && forall|j: int| 0 <= j < c ==> s[j] != 'x';
        assert(exists|c: int| 0 <= c < s.len() && s[c] == 'x' && forall|j: int| 0 <= j < c ==> s[j] != 'x') by {
            assert(s[k as int] == 'x');
        }
        if c < k {
            assert(s[c] != 'x');
        } else if c > k {
            assert(s[k as int] != 'x');
        }
        assert(s.take(k as int) =~= v@.subrange(0, k as int));
        assert(s.skip(k + 1) =~= v@.subrange(k + 1, v@.len() as int));
    }
    let w = parse_u32_span(&v, 0, k);
    let h = parse_u32_span(&v, k + 1, v.len());
    match (w, h) {
        (Some(w), Some(h)) => Ok([w, h]),
        _ => Err(ArgError::InvalidResolution),
    }
}

/// The parts of `s` between the separators `sep`, in order; an empty `s`
/// has one empty part.
pub open spec fn split_on(s: Seq<char>, sep: char) -> Seq<Seq<char>>
    decreases s.len(),
{
    if s.len() == 0 {
        seq![Seq::<char>::empty()]
    } else {
        let p = split_on(s.drop_last(), sep);
        if s.last() == sep {
            p.push(Seq::<char>::empty())
        } else {
            p.update(p.len() - 1, p.last().push(s.last()))
        }
    }
}

proof fn lemma_split_nonempty(s: Seq<char>, sep: char)
    ensures
        split_on(s, sep).len() > 0,
    decreases s.len(),
{
    if s.len() > 0 {
        lemma_split_nonempty(s.drop_last(), sep);
    }
}

/// The views of a list of strings.
pub open spec fn string_views(v: Seq<String>) -> Seq<Seq<char>> {
    v.map_values(|s: String| s@)
}

/// The variables of a launch, given as one comma-separated argument.
pub fn split_env(env: &str) -> (r: Vec<String>)
    ensures
        string_views(r@) == split_on(env@, ','),
{
    let v = chars_of(env);
    let ghost s = v@;
    let mut parts: Vec<String> = Vec::new();
    let mut cur: Vec<char> = Vec::new();
    let mut i: usize = 0;
    while i < v.len()
        invariant
            s == v@,
            i <= v.len(),
            string_views(parts@).push(cur@) == split_on(s.take(i as int), ','),
        decreases v.len() - i,
    {
        proof {
            assert(s.take(i + 1).drop_last() =~= s.take(i as int));
            assert(s.take(i + 1).last() == v@[i as int]);
            lemma_split_nonempty(s.take(i as int), ',');
        }
        if v[i] == ',' {
            let part = string_from_chars(&cur);
            let ghost before = parts@;
            parts.push(part);
            cur = Vec::new();
            proof {
                assert(string_views(parts@) =~= string_views(before).push(part@));
                assert(string_views(parts@).push(cur@) =~= split_on(s.take(i + 1), ','));
            }
        } else {
            let ghost before = cur@;
            cur.push(v[i]);
            proof {
                let p = split_on(s.take(i as int), ',');
                assert(string_views(parts@).push(cur@) =~= p.update(p.len() - 1, p.last().push(v@[i as int])));
            }
        }
        i += 1;
    }
    let last = string_from_chars(&cur);
    let ghost before = parts@;
    parts.push(last);
    proof {
        assert(s.take(v.len() as int) =~= s);
        assert(string_views(parts@) =~= string_views(before).push(last@));
    }
    parts
}

/// The text of a panel label, given as several words: joined by spaces.
pub fn join_text(words: &Vec<String>) -> (r: String)
    ensures
        r@ == join_words(string_views(words@)),
{
    let mut out: Vec<char> = Vec::new();
    let mut i: usize = 0;
    while i < words.len()
        invariant
            i <= words.len(),
            out@ == join_words(string_views(words@).take(i as int)),
        decreases words.len() - i,
    {
        let w = chars_of(words[i].as_str());
        let ghost before = out@;
        if i > 0 {
            out.push(' ');
        }
        let mut w = w;
        out.append(&mut w);
        proof {
            let t = string_views(words@).take(i + 1);
            assert(t.drop_last() =~= string_views(words@).take(i as int));
            assert(t.last() == words@[i as int]@);
            if i == 0 {
                assert(out@ =~= t[0]);
            } else {
                assert(out@ =~= join_words(t.drop_last()) + seq![' '] + t.last());
            }
        }
        i += 1;
    }
    proof {
        assert(string_views(words@).take(words.len() as int) =~= string_views(words@));
    }
    string_from_chars(&out)
}

/// A batch line that is blank or a comment (`#` after leading whitespace)
/// is skipped.
pub open spec fn skipped_line(line: Seq<char>) -> bool {
    forall|i: int| 0 <= i < line.len() ==> (forall|j: int| 0 <= j < i ==> is_ws(#[trigger] line[j])) ==> (is_ws(line[i]) || line[i] == '#')
}

/// Whether a batch line is skipped: blank, or a comment.
pub fn is_skipped_line(line: &str) -> (r: bool)
    ensures
        r == skipped_line(line@),
{
    let v = chars_of(line);
    let mut i: usize = 0;
    while i < v.len()
        invariant
            v@ == line@,
            i <= v.len(),
            forall|j: int| 0 <= j < i ==> is_ws(#[trigger] v@[j]),
        decreases v.len() - i,
    {
        if !is_whitespace(v[i]) {
            proof {
                if v[i as int] != '#' {
                    assert(!(is_ws(line@[i as int]) || line@[i as int] == '#'));
                } else {
                    assert forall|p: int| 0 <= p < line@.len() && (forall|j: int| 0 <= j < p ==> is_ws(#[trigger] line@[j])) implies (is_ws(line@[p]) || line@[p] == '#') by {
                        if p > i {
                            assert(is_ws(line@[i as int]));
                        }
                    }
                }
            }
            return v[i] == '#';
        }
        i += 1;
    }
    true
}

/// What to log for the result of a command that returns nothing: the error
/// message, if it failed.
pub fn handle_empty_result(result: Result<(), String>) -> (r: Option<String>)
    ensures
        match result {
            Ok(()) => r is None,
            Err(e) => r == Some(e),
        },
{
    match result {
        Ok(()) => None,
        Err(e) => Some(e),
    }
}

/// The program name placed before the words of a batch line.
pub open spec fn program_name() -> Seq<char> {
    "wayvrctl"@
}

/// The arguments of one batch command: the program name, then the words.
pub fn argv_from_words(words: Vec<String>) -> (argv: Vec<String>)
    ensures
        string_views(argv@) == seq![program_name()] + string_views(words@),
{
    let mut argv: Vec<String> = Vec::new();
    argv.push(String::from_str("wayvrctl"));
    let mut words = words;
    let ghost w = words@;
    argv.append(&mut words);
    proof {
        assert(string_views(argv@) =~= seq![program_name()] + string_views(w));
    }
    argv
}

/// The shell-like words of a line (`shell_words::split`), or `None` when a
/// quote is left open.
pub uninterp spec fn shell_words_split(line: Seq<char>) -> Option<Seq<Seq<char>>>;

#[verifier::external_type_specification]
#[verifier::external_body]
pub struct ExShellParseError(shell_words::ParseError);

/// `shell_words::split`: the words of `line` as a POSIX shell would split
/// them (quotes, backslashes, `#` comments). Claimed: the result is the
/// named value for the line, `Err` exactly when the name gives `None`.
#[verifier::external_body]
fn split_words(line: &str) -> (r: Result<Vec<String>, shell_words::ParseError>)
    ensures
        match r {
            Ok(v) => shell_words_split(line@) == Some(string_views(v@)),
            Err(_) => shell_words_split(line@) is None,
        },
{
    shell_words::split(line)
}

/// The arguments of a batch line: its shell-like words after the program
/// name, or `ArgError::Parse` when a quote is left open.
pub fn parse_batch_line(line: &str) -> (r: Result<Vec<String>, ArgError>)
    ensures
        match shell_words_split(line@) {
            Some(words) => r matches Ok(argv) && string_views(argv@) == seq![program_name()] + words,
            None => r == Err::<Vec<String>, ArgError>(ArgError::Parse),
        },
{
    match split_words(line) {
        Ok(words) => Ok(argv_from_words(words)),
        Err(_) => Err(ArgError::Parse),
    }
}

} // verus!
