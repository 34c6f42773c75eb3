//! Bookkeeping of swipe typing: which points belong to the current swipe,
//! whether the swipe left the key it started on, and what a press, a motion or
//! a release on a key means. The points themselves (positions scaled to the
//! keyboard grid, with their timestamps) are computed by the caller.
use vstd::prelude::*;
use crate::hid::{KeyModifier, VirtualKey, SHIFT, CTRL};
use crate::keyboard::{KeyPressOutcome, KeyReleaseOutcome, MouseButtonIndex, PredictionSlot, KeyboardAction};
use crate::text::push_char;

verus! {

/// Number of word candidates kept from one prediction.
pub const PREDICTION_SUGGESTION_COUNT: usize = 5;

/// ASCII lower-casing of one character (`char::to_ascii_lowercase`).
pub open spec fn spec_ascii_lower(c: char) -> char {
    if 'A' <= c && c <= 'Z' { ((c as u32) + 32) as char } else { c }
}

/// ASCII lower-casing of one character (`char::to_ascii_lowercase`).
pub fn ascii_lower(c: char) -> (r: char)
    ensures
        r == spec_ascii_lower(c),
{
    match c {
        'A' => 'a',
        'B' => 'b',
        'C' => 'c',
        'D' => 'd',
        'E' => 'e',
        'F' => 'f',
        'G' => 'g',
        'H' => 'h',
        'I' => 'i',
        'J' => 'j',
        'K' => 'k',
        'L' => 'l',
        'M' => 'm',
        'N' => 'n',
        'O' => 'o',
        'P' => 'p',
        'Q' => 'q',
        'R' => 'r',
        'S' => 's',
        'T' => 't',
        'U' => 'u',
        'V' => 'v',
        'W' => 'w',
        'X' => 'x',
        'Y' => 'y',
        'Z' => 'z',
        _ => c,
    }
}

/// A swipe handed to the prediction worker, with the word swiped before it.
pub struct PredictionRequest<P> {
    pub swipe: Vec<P>,
    pub last_word: Option<String>,
}

/// The state of swipe typing on one keyboard.
pub struct SwipeTracker<P> {
    /// The points of the swipe in progress.
    pub current_swipe: Vec<P>,
    /// Whether a swipe has started (its start time is known).
    pub started: bool,
    /// Lower-cased label of the key the swipe started on, `'\0'` if none.
    pub first_swipe_char: char,
    pub swipe_left_first_key: bool,
    pub current_swipe_device: Option<u64>,
    pub current_swipe_mouse_button_index: Option<MouseButtonIndex>,
    pub last_swiped_word: Option<String>,
    pub prediction_slot: PredictionSlot,
}

/// The tracker holds no swipe in progress.
pub open spec fn swipe_cleared<P>(t: SwipeTracker<P>) -> bool {
    &&& t.current_swipe@.len() == 0
    &&& !t.started
    &&& t.first_swipe_char == '\0'
    &&& !t.swipe_left_first_key
    &&& t.current_swipe_device is None
    &&& t.current_swipe_mouse_button_index is None
}

/// The modifier that a tap adds, by the button that made it.
pub open spec fn tap_modifier(index: Option<MouseButtonIndex>, alt_modifier: KeyModifier) -> KeyModifier {
    match index {
        Some(MouseButtonIndex::Right) => SHIFT,
        Some(MouseButtonIndex::Middle) => alt_modifier,
        _ => 0,
    }
}

/// A tap made with the right button adds shift, one made with the middle
/// button adds the middle-click modifier, any other adds nothing.
pub proof fn law_tap_modifier_by_button(alt_modifier: KeyModifier)
    ensures
        tap_modifier(Some(MouseButtonIndex::Right), alt_modifier) == SHIFT,
        tap_modifier(Some(MouseButtonIndex::Middle), alt_modifier) == alt_modifier,
        tap_modifier(Some(MouseButtonIndex::Left), alt_modifier) == 0,
        tap_modifier(None, alt_modifier) == 0,
{
}

/// The key events that paste the clipboard (ctrl+v) and then restore `mods`.
pub open spec fn paste_keys(mods: KeyModifier) -> Seq<KeyboardAction> {
    seq![
        KeyboardAction::SetModifiers(CTRL),
        KeyboardAction::SendKey(VirtualKey::V, true),
        KeyboardAction::SendKey(VirtualKey::V, false),
        KeyboardAction::SetModifiers(mods),
    ]
}

/// The key events that undo (ctrl+z) and then restore `mods`.
pub open spec fn undo_keys(mods: KeyModifier) -> Seq<KeyboardAction> {
    seq![
        KeyboardAction::SetModifiers(CTRL),
        KeyboardAction::SendKey(VirtualKey::Z, true),
        KeyboardAction::SendKey(VirtualKey::Z, false),
        KeyboardAction::SetModifiers(mods),
    ]
}

fn push_shortcut(actions: &mut Vec<KeyboardAction>, key: VirtualKey, mods: KeyModifier)
    ensures
        final(actions)@ == old(actions)@ + seq![
            KeyboardAction::SetModifiers(CTRL),
            KeyboardAction::SendKey(key, true),
            KeyboardAction::SendKey(key, false),
            KeyboardAction::SetModifiers(mods),
        ],
{
    actions.push(KeyboardAction::SetModifiers(CTRL));
    actions.push(KeyboardAction::SendKey(key, true));
    actions.push(KeyboardAction::SendKey(key, false));
    actions.push(KeyboardAction::SetModifiers(mods));
    assert(final(actions)@ =~= old(actions)@ + seq![
        KeyboardAction::SetModifiers(CTRL),
        KeyboardAction::SendKey(key, true),
        KeyboardAction::SendKey(key, false),
        KeyboardAction::SetModifiers(mods),
    ]);
}

/// `after` is `before` with a point of the swipe over the key labelled
/// `key_label` added (see [`SwipeTracker::add_swipe`]).
pub open spec fn swipe_extended<P>(before: SwipeTracker<P>, after: SwipeTracker<P>, key_label: char, on_grid: bool, device: u64, index: Option<MouseButtonIndex>, point: P) -> bool {
    &&& after.last_swiped_word == before.last_swiped_word
    &&& after.prediction_slot == before.prediction_slot
    &&& if !on_grid || (before.current_swipe_device is Some && before.current_swipe_device != Some(device)) {
        after == before
    } else {
        let lower = spec_ascii_lower(key_label);
        &&& after.current_swipe@ == before.current_swipe@.push(point)
        &&& after.started
        &&& after.swipe_left_first_key == (before.swipe_left_first_key
            || (before.first_swipe_char != '\0' && before.first_swipe_char != lower))
        &&& if before.started {
            &&& after.first_swipe_char == before.first_swipe_char
            &&& after.current_swipe_device == before.current_swipe_device
            &&& after.current_swipe_mouse_button_index == before.current_swipe_mouse_button_index
        } else {
            &&& after.first_swipe_char == lower
            &&& after.current_swipe_device == Some(device)
            &&& after.current_swipe_mouse_button_index == index
        }
    }
}

/// The first point of a swipe on a key of the grid starts it with the
/// pressing button, and the swipe has not left its key, so releasing that
/// key is a tap carrying that button's modifier (shift for the right one).
pub proof fn law_first_press_then_release_is_tap<P>(before: SwipeTracker<P>, after: SwipeTracker<P>, key_label: char, device: u64, index: Option<MouseButtonIndex>, point: P, alt_modifier: KeyModifier)
    requires
        swipe_cleared(before),
        swipe_extended(before, after, key_label, true, device, index, point),
    ensures
        after.current_swipe_mouse_button_index == index,
        !after.swipe_left_first_key,
        index == Some(MouseButtonIndex::Right) ==> tap_modifier(after.current_swipe_mouse_button_index, alt_modifier) == SHIFT,
        index == Some(MouseButtonIndex::Middle) ==> tap_modifier(after.current_swipe_mouse_button_index, alt_modifier) == alt_modifier,
{
}

/// What selecting a predicted word asks for: put `text` on the clipboard of
/// the focused target and send `keys` to paste it.
pub struct PastePlan {
    pub text: String,
    pub keys: Vec<KeyboardAction>,
}

impl<P> SwipeTracker<P> {
    /// A tracker with no swipe, no history and an empty prediction slot.
    pub fn new() -> (t: Self)
        ensures
            swipe_cleared(t),
            t.last_swiped_word is None,
            !t.prediction_slot.present,
    {
        SwipeTracker {
            current_swipe: Vec::new(),
            started: false,
            first_swipe_char: '\0',
            swipe_left_first_key: false,
            current_swipe_device: None,
            current_swipe_mouse_button_index: None,
            last_swiped_word: None,
            prediction_slot: PredictionSlot::new(),
        }
    }

    fn reset_swipe(&mut self)
        ensures
            swipe_cleared(*final(self)),
            final(self).last_swiped_word == old(self).last_swiped_word,
            final(self).prediction_slot == old(self).prediction_slot,
    {
        self.started = false;
        self.current_swipe = Vec::new();
        self.first_swipe_char = '\0';
        self.swipe_left_first_key = false;
        self.current_swipe_device = None;
        self.current_swipe_mouse_button_index = None;
    }

    /// Drops the swipe in progress, clears the shown predictions and forgets
    /// the last swiped word.
    pub fn reset(&mut self)
        ensures
            swipe_cleared(*final(self)),
            final(self).last_swiped_word is None,
            final(self).prediction_slot.present,
            final(self).prediction_slot.value is None,
    {
        self.reset_swipe();
        self.prediction_slot.set(None);
        self.last_swiped_word = None;
    }

    pub fn did_swipe_leave_first_key(&self) -> (r: bool)
        ensures
            r == self.swipe_left_first_key,
    {
        self.swipe_left_first_key
    }

    pub fn is_current_swipe_empty(&self) -> (r: bool)
        ensures
            r == (self.current_swipe@.len() == 0),
    {
        self.current_swipe.len() == 0
    }

    pub fn current_swipe_mouse_button_index(&self) -> (r: Option<MouseButtonIndex>)
        ensures
            r == self.current_swipe_mouse_button_index,
    {
        self.current_swipe_mouse_button_index
    }

    /// Adds a point of the swipe over the key labelled `key_label`. `on_grid`
    /// tells whether the lower-cased label is a key of the swipe keyboard
    /// grid; off-grid keys and points from another device than the one that
    /// started the swipe are ignored. The first point starts the swipe; a
    /// point on another key than the first marks the swipe as having left it.
    pub fn add_swipe(&mut self, key_label: char, on_grid: bool, device: u64, index: Option<MouseButtonIndex>, point: P)
        ensures
            swipe_extended(*old(self), *final(self), key_label, on_grid, device, index, point),
    {
        if !on_grid {
            return;
        }
        if let Some(current_device) = self.current_swipe_device {
            if current_device != device {
                return;
            }
        }
        let lower = ascii_lower(key_label);
        if self.first_swipe_char != '\0' && self.first_swipe_char != lower {
            self.swipe_left_first_key = true;
        }
        if !self.started {
            self.started = true;
            self.first_swipe_char = lower;
            self.current_swipe_device = Some(device);
            self.current_swipe_mouse_button_index = index;
        }
        self.current_swipe.push(point);
    }

    /// A press on a key. Letter keys feed the swipe (when the press has a
    /// position and a label, given as `sample`) and are consumed; anything
    /// else is dispatched as a normal key.
    pub fn handle_key_press(
        &mut self,
        letter: bool,
        sample: Option<(char, P)>,
        on_grid: bool,
        device: u64,
        index: MouseButtonIndex,
    ) -> (o: KeyPressOutcome)
        ensures
            o == if letter { KeyPressOutcome::Consumed } else { KeyPressOutcome::Dispatch },
            !letter || sample is None ==> *final(self) == *old(self),
            letter ==> (sample matches Some((label, point)) ==>
                swipe_extended(*old(self), *final(self), label, on_grid, device, Some(index), point)),
    {
        if !letter {
            return KeyPressOutcome::Dispatch;
        }
        if let Some((label, point)) = sample {
            self.add_swipe(label, on_grid, device, Some(index), point);
        }
        KeyPressOutcome::Consumed
    }

    /// Pointer motion over a key while swiping: a letter key under the pointer
    /// (with `sample` inside the key) extends a swipe that has begun.
    pub fn handle_key_motion(&mut self, letter: bool, sample: Option<(char, P)>, on_grid: bool, device: u64)
        ensures
            old(self).current_swipe@.len() == 0 || !letter || sample is None ==> *final(self) == *old(self),
            old(self).current_swipe@.len() != 0 && letter ==> (sample matches Some((label, point)) ==>
                swipe_extended(*old(self), *final(self), label, on_grid, device, None, point)),
    {
        if self.current_swipe.len() != 0 && letter {
            if let Some((label, point)) = sample {
                self.add_swipe(label, on_grid, device, None, point);
            }
        }
    }

    /// Hands the swipe in progress to the predictor; fails when there is
    /// nothing to predict.
    pub fn predict(&mut self) -> (r: Option<PredictionRequest<P>>)
        ensures
            old(self).current_swipe@.len() == 0 ==> r is None && *final(self) == *old(self),
            old(self).current_swipe@.len() != 0 ==> (r matches Some(req) && req.swipe@ == old(self).current_swipe@
                && req.last_word == old(self).last_swiped_word && swipe_cleared(*final(self))
                && final(self).last_swiped_word == old(self).last_swiped_word
                && final(self).prediction_slot == old(self).prediction_slot),
    {
        if self.current_swipe.len() == 0 {
            return None;
        }
        let mut swipe: Vec<P> = Vec::new();
        std::mem::swap(&mut swipe, &mut self.current_swipe);
        let last_word = match &self.last_swiped_word {
            Some(w) => Some(w.clone()),
            None => None,
        };
        self.reset_swipe();
        Some(PredictionRequest { swipe, last_word })
    }

    /// A release on a key. A swipe that left its first key is handed to the
    /// predictor; a press and release on one letter key is a tap, carrying
    /// shift for a right click and the middle-click modifier for a middle
    /// click; other keys are released normally. The swipe is over afterwards.
    pub fn handle_key_release(&mut self, letter: bool, alt_modifier: KeyModifier) -> (r: (
        KeyReleaseOutcome,
        Option<PredictionRequest<P>>,
    ))
        ensures
            // a tap types its letter shifted when it was made with the right
            // button, with the given middle-click modifier when made with the
            // middle button, and plain otherwise
            letter && !old(self).swipe_left_first_key ==> match old(self).current_swipe_mouse_button_index {
                Some(MouseButtonIndex::Right) => r.0 == (KeyReleaseOutcome::TapKey { modifier: SHIFT }),
                Some(MouseButtonIndex::Middle) => r.0 == (KeyReleaseOutcome::TapKey { modifier: alt_modifier }),
                _ => r.0 == (KeyReleaseOutcome::TapKey { modifier: 0 }),
            },
            !letter ==> r.0 == KeyReleaseOutcome::Normal && r.1 is None && swipe_cleared(*final(self))
                && final(self).last_swiped_word is None && final(self).prediction_slot.present
                && final(self).prediction_slot.value is None,
            letter && old(self).swipe_left_first_key ==> r.0 == KeyReleaseOutcome::Predict && (
                if old(self).current_swipe@.len() == 0 {
                    r.1 is None && *final(self) == *old(self)
                } else {
                    (r.1 matches Some(req) && req.swipe@ == old(self).current_swipe@
                        && req.last_word == old(self).last_swiped_word && swipe_cleared(*final(self))
                        && final(self).last_swiped_word == old(self).last_swiped_word
                        && final(self).prediction_slot == old(self).prediction_slot)
                }),
            letter && !old(self).swipe_left_first_key ==> r.0 == (KeyReleaseOutcome::TapKey {
                modifier: tap_modifier(old(self).current_swipe_mouse_button_index, alt_modifier),
            }) && r.1 is None && swipe_cleared(*final(self)) && final(self).last_swiped_word is None
                && final(self).prediction_slot.present && final(self).prediction_slot.value is None,
    {
        if !letter {
            self.reset();
            return (KeyReleaseOutcome::Normal, None);
        }
        if self.swipe_left_first_key {
            let req = self.predict();
            return (KeyReleaseOutcome::Predict, req);
        }
        let modifier = match self.current_swipe_mouse_button_index {
            Some(MouseButtonIndex::Right) => SHIFT,
            Some(MouseButtonIndex::Middle) => alt_modifier,
            _ => 0,
        };
        self.reset();
        (KeyReleaseOutcome::TapKey { modifier }, None)
    }

    /// Records `word` as the last swiped word and plans pasting it followed by
    /// a space, restoring the keyboard's modifiers `mods` afterwards.
    pub fn select_word(&mut self, word: &String, mods: KeyModifier) -> (plan: PastePlan)
        ensures
            *final(self) == (SwipeTracker { last_swiped_word: Some(*word), ..*old(self) }),
            plan.text@ == word@.push(' '),
            plan.keys@ == paste_keys(mods),
    {
        self.last_swiped_word = Some(word.clone());
        let mut text = word.clone();
        push_char(&mut text, ' ');
        let mut keys: Vec<KeyboardAction> = Vec::new();
        push_shortcut(&mut keys, VirtualKey::V, mods);
        assert(keys@ =~= paste_keys(mods));
        PastePlan { text, keys }
    }

    /// Replaces the word just pasted by an alternative candidate: undo, then
    /// paste `word` as [`SwipeTracker::select_word`] does.
    pub fn select_alternate_prediction(&mut self, word: &String, mods: KeyModifier) -> (plan: PastePlan)
        ensures
            *final(self) == (SwipeTracker { last_swiped_word: Some(*word), ..*old(self) }),
            plan.text@ == word@.push(' '),
            plan.keys@ == undo_keys(mods) + paste_keys(mods),
    {
        let mut keys: Vec<KeyboardAction> = Vec::new();
        push_shortcut(&mut keys, VirtualKey::Z, mods);
        let plan = self.select_word(word, mods);
        let mut all = keys;
        let mut i: usize = 0;
        while i < plan.keys.len()
            invariant
                i <= plan.keys.len(),
                plan.keys@ == paste_keys(mods),
                all@ == undo_keys(mods) + plan.keys@.take(i as int),
            decreases plan.keys.len() - i,
        {
            let k = match &plan.keys[i] {
                KeyboardAction::SetModifiers(m) => KeyboardAction::SetModifiers(*m),
                KeyboardAction::SendKey(k, d) => KeyboardAction::SendKey(*k, *d),
                _ => KeyboardAction::PlayClick,
            };
            all.push(k);
            assert(plan.keys@.take(i + 1) == plan.keys@.take(i as int).push(plan.keys@[i as int]));
            i += 1;
        }
        assert(plan.keys@.take(plan.keys.len() as int) == plan.keys@);
        PastePlan { text: plan.text, keys: all }
    }
}

} // verus!
