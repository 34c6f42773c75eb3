//! The overlay window manager's bookkeeping of window sets.
//!
//! Every overlay has at most one *active state* (its placement while it is
//! shown). A window set stores the states of the overlays that belong to it
//! while another set is shown; switching sets moves states between the active
//! slots and the sets. Overlays marked global stay out of the sets. States
//! of overlays that were toggled off are kept by name, so that toggling the
//! overlay on again brings it back where it was.
//!
//! The state type `S` is opaque here: the manager only moves states around.
//! What a state holds (transforms, curvature, ...) is the caller's business,
//! and so is re-anchoring a state after it was loaded (`reset`).
use vstd::prelude::*;
use vstd::string::*;
use crate::text::{str_eq, push_char};

verus! {

broadcast use vstd::string::group_string_axioms;

/// Most window sets that can be added by hand.
pub const MAX_OVERLAY_SETS: usize = 6;

/// What kind of overlay an entry is.
#[derive(Clone, Copy, PartialEq, Eq, Structural, Debug)]
pub enum OverlayCategory {
    Panel,
    BuiltInPanel,
    Screen,
    Mirror,
    Passthru,
    Keyboard,
    Internal,
    Dashboard,
    WayVR,
}

/// A state kept under an overlay's name.
pub struct NamedState<S> {
    pub name: String,
    pub state: S,
}

/// The states of a list of named entries, by name.
pub open spec fn named_view<S>(v: Seq<NamedState<S>>) -> Map<Seq<char>, S> {
    Map::new(
        |k: Seq<char>| exists|i: int| 0 <= i < v.len() && #[trigger] v[i].name@ == k,
        |k: Seq<char>| v[choose|i: int| 0 <= i < v.len() && #[trigger] v[i].name@ == k].state,
    )
}

/// No name occurs twice in the list.
pub open spec fn names_unique<S>(v: Seq<NamedState<S>>) -> bool {
    forall|i: int, j: int| 0 <= i < v.len() && 0 <= j < v.len() && #[trigger] v[i].name@ == #[trigger] v[j].name@ ==> i == j
}

proof fn lemma_named_view_at<S>(v: Seq<NamedState<S>>, i: int)
    requires
        names_unique(v),
        0 <= i < v.len(),
    ensures
        named_view(v).contains_key(v[i].name@),
        named_view(v)[v[i].name@] == v[i].state,
{
    let k = v[i].name@;
    assert(exists|j: int| 0 <= j < v.len() && #[trigger] v[j].name@ == k);
    let j = choose|j: int| 0 <= j < v.len() && #[trigger] v[j].name@ == k;
    assert(v[j].name@ == v[i].name@);
}

/// Position of the entry named `name`, if any.
fn find_named<S>(v: &Vec<NamedState<S>>, name: &str) -> (r: Option<usize>)
    ensures
        match r {
            Some(i) => i < v.len() && v@[i as int].name@ == name@,
            None => forall|i: int| 0 <= i < v.len() ==> #[trigger] v@[i].name@ != name@,
        },
{
    let mut i: usize = 0;
    while i < v.len()
        invariant
            i <= v.len(),
            forall|j: int| 0 <= j < i ==> #[trigger] v@[j].name@ != name@,
        decreases v.len() - i,
    {
        if str_eq(v[i].name.as_str(), name) {
            return Some(i);
        }
        i += 1;
    }
    None
}

/// Stores `state` under `name`, replacing what was stored there.
pub fn named_set<S>(v: &mut Vec<NamedState<S>>, name: String, state: S)
    requires
        names_unique(old(v)@),
    ensures
        names_unique(final(v)@),
        named_view(final(v)@) == named_view(old(v)@).insert(name@, state),
{
    let ghost old_v = v@;
    let ghost k = name@;
    match find_named(v, name.as_str()) {
        Some(i) => {
            v.set(i, NamedState { name, state });
            proof {
                let nv = v@;
                assert(names_unique(nv)) by {
                    assert forall|a: int, b: int| 0 <= a < nv.len() && 0 <= b < nv.len() && #[trigger] nv[a].name@ == #[trigger] nv[b].name@ implies a == b by {
                        assert(nv[a].name@ == old_v[a].name@);
                        assert(nv[b].name@ == old_v[b].name@);
                    }
                }
                lemma_named_view_at(nv, i as int);
                assert forall|key: Seq<char>| key != k implies
                    (#[trigger] named_view(nv).dom().contains(key) == named_view(old_v).dom().contains(key)) && (named_view(nv).dom().contains(key) ==> named_view(nv)[key] == named_view(old_v)[key]) by {
                    if named_view(nv).contains_key(key) {
                        let a = choose|a: int| 0 <= a < nv.len() && #[trigger] nv[a].name@ == key;
                        assert(old_v[a].name@ == key);
                        lemma_named_view_at(nv, a);
                        lemma_named_view_at(old_v, a);
                    }
                    if named_view(old_v).contains_key(key) {
                        let a = choose|a: int| 0 <= a < old_v.len() && #[trigger] old_v[a].name@ == key;
                        assert(nv[a].name@ == key);
                    }
                }
                assert(nv[i as int].name@ == k);
                assert(named_view(nv).contains_key(k));
                assert(named_view(nv)[k] == state);
                assert(named_view(nv) =~= named_view(old_v).insert(k, state));
            }
        },
        None => {
            v.push(NamedState { name, state });
            proof {
                let nv = v@;
                let n = old_v.len() as int;
                assert(names_unique(nv)) by {
                    assert forall|a: int, b: int| 0 <= a < nv.len() && 0 <= b < nv.len() && #[trigger] nv[a].name@ == #[trigger] nv[b].name@ implies a == b by {
                        if a < n && b < n {
                            assert(nv[a] == old_v[a]);
                            assert(nv[b] == old_v[b]);
                        } else if a < n {
                            assert(old_v[a].name@ != k);
                        } else if b < n {
                            assert(old_v[b].name@ != k);
                        }
                    }
                }
                lemma_named_view_at(nv, n);
                assert forall|key: Seq<char>| key != k implies
                    (#[trigger] named_view(nv).dom().contains(key) == named_view(old_v).dom().contains(key)) && (named_view(nv).dom().contains(key) ==> named_view(nv)[key] == named_view(old_v)[key]) by {
                    if named_view(nv).contains_key(key) {
                        let a = choose|a: int| 0 <= a < nv.len() && #[trigger] nv[a].name@ == key;
                        assert(a < n);
                        assert(old_v[a] == nv[a]);
                        lemma_named_view_at(nv, a);
                        lemma_named_view_at(old_v, a);
                    }
                    if named_view(old_v).contains_key(key) {
                        let a = choose|a: int| 0 <= a < old_v.len() && #[trigger] old_v[a].name@ == key;
                        assert(nv[a] == old_v[a]);
                    }
                }
                assert(named_view(nv) =~= named_view(old_v).insert(k, state));
            }
        },
    }
}

/// Takes out the state stored under `name`, if any.
pub fn named_remove<S>(v: &mut Vec<NamedState<S>>, name: &str) -> (r: Option<S>)
    requires
        names_unique(old(v)@),
    ensures
        names_unique(final(v)@),
        named_view(final(v)@) == named_view(old(v)@).remove(name@),
        r == (if named_view(old(v)@).contains_key(name@) { Some(named_view(old(v)@)[name@]) } else { None }),
{
    let ghost old_v = v@;
    let ghost k = name@;
    match find_named(v, name) {
        Some(i) => {
            let e = v.remove(i);
            proof {
                let nv = v@;
                lemma_named_view_at(old_v, i as int);
                assert(forall|a: int| 0 <= a < nv.len() ==> #[trigger] nv[a] == old_v[if a < i { a } else { a + 1 }]);
                assert(names_unique(nv)) by {
                    assert forall|a: int, b: int| 0 <= a < nv.len() && 0 <= b < nv.len() && #[trigger] nv[a].name@ == #[trigger] nv[b].name@ implies a == b by {
                        let a1 = if a < i { a } else { a + 1 };
                        let b1 = if b < i { b } else { b + 1 };
                        assert(nv[a] == old_v[a1]);
                        assert(nv[b] == old_v[b1]);
                    }
                }
                assert forall|key: Seq<char>| key != k implies
                    (#[trigger] named_view(nv).dom().contains(key) == named_view(old_v).dom().contains(key)) && (named_view(nv).dom().contains(key) ==> named_view(nv)[key] == named_view(old_v)[key]) by {
                    if named_view(nv).contains_key(key) {
                        let a = choose|a: int| 0 <= a < nv.len() && #[trigger] nv[a].name@ == key;
                        let a1 = if a < i { a } else { a + 1 };
                        assert(nv[a] == old_v[a1]);
                        lemma_named_view_at(nv, a);
                        lemma_named_view_at(old_v, a1);
                    }
                    if named_view(old_v).contains_key(key) {
                        let a = choose|a: int| 0 <= a < old_v.len() && #[trigger] old_v[a].name@ == key;
                        assert(a != i);
                        let a0 = if a < i { a } else { a - 1 };
                        assert(nv[a0] == old_v[a]);
                    }
                }
                assert(!named_view(nv).contains_key(k)) by {
                    if named_view(nv).contains_key(k) {
                        let a = choose|a: int| 0 <= a < nv.len() && #[trigger] nv[a].name@ == k;
                        let a1 = if a < i { a } else { a + 1 };
                        assert(nv[a] == old_v[a1]);
                    }
                }
                assert(named_view(nv) =~= named_view(old_v).remove(k));
            }
            Some(e.state)
        },
        None => {
            proof {
                assert(!named_view(old_v).contains_key(k));
                assert(named_view(old_v) =~= named_view(old_v).remove(k));
            }
            None
        },
    }
}

/// What the manager knows of one overlay.
pub struct OverlayInfo {
    pub name: String,
    /// A global overlay is shown in every set and keeps its state out of them.
    pub global: bool,
    pub category: OverlayCategory,
    /// Whether the overlay is shown as soon as it is added.
    pub show_on_spawn: bool,
    /// False once the overlay was removed; its id is not reused.
    pub live: bool,
}

/// The model of an [`OverlayInfo`].
pub struct InfoView {
    pub name: Seq<char>,
    pub global: bool,
    pub category: OverlayCategory,
    pub show_on_spawn: bool,
    pub live: bool,
}

impl View for OverlayInfo {
    type V = InfoView;

    open spec fn view(&self) -> InfoView {
        InfoView {
            name: self.name@,
            global: self.global,
            category: self.category,
            show_on_spawn: self.show_on_spawn,
            live: self.live,
        }
    }
}

/// One window set.
pub struct OverlayWindowSet<S> {
    /// Saved state of each overlay, by overlay id.
    pub overlays: Vec<Option<S>>,
    /// Saved states of overlays that do not exist (yet), by name.
    pub inactive_overlays: Vec<NamedState<S>>,
    /// States of overlays that were toggled off in this set, by name.
    pub hidden_overlays: Vec<NamedState<S>>,
}

/// The model of an [`OverlayWindowSet`].
pub struct SetView<S> {
    pub overlays: Seq<Option<S>>,
    pub inactive: Map<Seq<char>, S>,
    pub hidden: Map<Seq<char>, S>,
}

impl<S> View for OverlayWindowSet<S> {
    type V = SetView<S>;

    open spec fn view(&self) -> SetView<S> {
        SetView {
            overlays: self.overlays@,
            inactive: named_view(self.inactive_overlays@),
            hidden: named_view(self.hidden_overlays@),
        }
    }
}

impl<S> OverlayWindowSet<S> {
    /// Both name lists are free of duplicates.
    pub open spec fn lists_unique(&self) -> bool {
        &&& names_unique(self.inactive_overlays@)
        &&& names_unique(self.hidden_overlays@)
    }

    /// A set that holds nothing for `n` overlays.
    pub fn empty(n: usize) -> (s: Self)
        ensures
            s.lists_unique(),
            s@.overlays == Seq::<Option<S>>::new(n as nat, |i: int| None::<S>),
            s@.inactive == Map::<Seq<char>, S>::empty(),
            s@.hidden == Map::<Seq<char>, S>::empty(),
    {
        let mut overlays: Vec<Option<S>> = Vec::new();
        let mut i: usize = 0;
        while i < n
            invariant
                i <= n,
                overlays@ == Seq::<Option<S>>::new(i as nat, |j: int| None::<S>),
            decreases n - i,
        {
            overlays.push(None);
            i += 1;
            assert(overlays@ =~= Seq::<Option<S>>::new(i as nat, |j: int| None::<S>));
        }
        let s = OverlayWindowSet { overlays, inactive_overlays: Vec::new(), hidden_overlays: Vec::new() };
        assert(s@.inactive =~= Map::<Seq<char>, S>::empty());
        assert(s@.hidden =~= Map::<Seq<char>, S>::empty());
        s
    }
}

/// The model of the manager.
pub struct ManagerView<S> {
    pub overlays: Seq<InfoView>,
    pub active: Seq<Option<S>>,
    pub sets: Seq<SetView<S>>,
    pub global_set: SetView<S>,
    pub current_set: Option<usize>,
    pub restore_set: usize,
    pub keyboard_id: Option<usize>,
    pub watch_id: Option<usize>,
    pub edit_mode: bool,
    pub initialized: bool,
}

/// Kinds of overlay that do not count as content of a set.
pub open spec fn is_furniture(c: OverlayCategory) -> bool {
    c == OverlayCategory::Internal || c == OverlayCategory::Keyboard || c == OverlayCategory::Dashboard
}

impl<S> ManagerView<S> {
    /// The overlay exists and keeps its state in the sets.
    pub open spec fn regular(self, i: int) -> bool {
        self.overlays[i].live && !self.overlays[i].global
    }

    /// The invariant of the manager.
    pub open spec fn wf(self) -> bool {
        &&& self.sets.len() >= 1
        &&& self.restore_set < self.sets.len()
        &&& (self.current_set matches Some(c) ==> c == self.restore_set)
        &&& self.active.len() == self.overlays.len()
        &&& self.overlays.len() <= usize::MAX
        &&& forall|k: int| 0 <= k < self.sets.len() ==> (#[trigger] self.sets[k]).overlays.len() == self.overlays.len()
        &&& (self.current_set matches Some(c) ==> forall|i: int| 0 <= i < self.overlays.len() ==> (#[trigger] self.sets[c as int].overlays[i]) is None)
        &&& forall|i: int| 0 <= i < self.overlays.len() && !(#[trigger] self.overlays[i]).live ==> self.active[i] is None
        &&& forall|i: int, j: int| 0 <= i < self.overlays.len() && 0 <= j < self.overlays.len()
            && (#[trigger] self.overlays[i]).live && (#[trigger] self.overlays[j]).live
            && self.overlays[i].name == self.overlays[j].name ==> i == j
        &&& (self.keyboard_id matches Some(k) ==> k < self.overlays.len())
        &&& (self.watch_id matches Some(k) ==> k < self.overlays.len())
    }

    /// Whether switching to `new` does anything.
    pub open spec fn switch_applies(self, new: Option<usize>) -> bool {
        &&& new != self.current_set
        &&& (new matches Some(k) ==> k < self.sets.len())
    }

    /// The active states of the regular overlays moved into the shown set.
    pub open spec fn stashed(self) -> Self {
        match self.current_set {
            Some(c) => ManagerView {
                active: Seq::new(self.overlays.len(), |i: int| if self.regular(i) { None } else { self.active[i] }),
                sets: self.sets.update(c as int, SetView {
                    overlays: Seq::new(self.overlays.len(), |i: int|
                        if self.regular(i) && self.active[i] is Some { self.active[i] } else { self.sets[c as int].overlays[i] }),
                    ..self.sets[c as int]
                }),
                ..self
            },
            None => self,
        }
    }

    /// Overlay `i` gets its state from set `k` on a load.
    pub open spec fn loads_from(self, k: int, i: int) -> bool {
        self.regular(i) && self.sets[k].overlays[i] is Some
    }

    /// The states saved in set `k` made active, and the set emptied.
    pub open spec fn loaded(self, k: int) -> Self {
        ManagerView {
            active: Seq::new(self.overlays.len(), |i: int|
                if self.loads_from(k, i) { self.sets[k].overlays[i] } else { self.active[i] }),
            sets: self.sets.update(k, SetView {
                overlays: Seq::new(self.overlays.len(), |i: int| None),
                ..self.sets[k]
            }),
            restore_set: k as usize,
            ..self
        }
    }

    /// The manager after switching to `new` (`None`: hide every set).
    pub open spec fn switched(self, new: Option<usize>) -> Self {
        if !self.switch_applies(new) {
            self
        } else {
            let s = self.stashed();
            let l = match new {
                Some(k) => s.loaded(k as int),
                None => s,
            };
            ManagerView { current_set: new, ..l }
        }
    }

    /// The target of a toggle of `set`: hide it if it is shown, else show it.
    pub open spec fn toggle_target(self, set: usize) -> Option<usize> {
        if self.current_set == Some(set) { None } else { Some(set) }
    }

    /// The target of `show_hide`: hide the shown set, or bring back the last one.
    pub open spec fn show_hide_target(self) -> Option<usize> {
        if self.current_set is None { Some(self.restore_set) } else { None }
    }

    /// Whether a switch to `new` should tell the user that the set is empty.
    pub open spec fn empty_set_toast(self, new: Option<usize>) -> bool {
        &&& self.switch_applies(new)
        &&& new is Some
        &&& !self.edit_mode
        &&& self.initialized
        &&& !exists|i: int| 0 <= i < self.overlays.len() && self.stashed().loads_from(new.unwrap() as int, i)
            && !is_furniture(#[trigger] self.overlays[i].category)
    }
}

/// What a switch of sets asks of the caller.
pub struct SwitchOutcome {
    /// Overlays whose loaded state must be re-anchored, in increasing order.
    pub reset: Vec<usize>,
    /// Whether to tell the user that the set just shown is empty.
    pub empty_set_toast: bool,
}

/// `v` lists, in increasing order, exactly the overlays below `n` that a
/// load of set `k` gives a state.
pub open spec fn lists_loaded<S>(v: Seq<usize>, m: ManagerView<S>, k: int, n: int) -> bool {
    &&& forall|a: int, b: int| 0 <= a < b < v.len() ==> v[a] < v[b]
    &&& forall|a: int| 0 <= a < v.len() ==> v[a] < n && m.loads_from(k, #[trigger] v[a] as int)
    &&& forall|i: int| 0 <= i < n && #[trigger] m.loads_from(k, i) ==> v.contains(i as usize)
}

/// The window-set manager.
pub struct OverlayWindowManager<S> {
    pub overlays: Vec<OverlayInfo>,
    /// Active state of each overlay, by id (`None`: not shown).
    pub active: Vec<Option<S>>,
    pub sets: Vec<OverlayWindowSet<S>>,
    /// Hidden and inactive states of the global overlays.
    pub global_set: OverlayWindowSet<S>,
    /// The set that is shown.
    pub current_set: Option<usize>,
    /// The set that `show_hide` brings back: the shown one, or the last one shown.
    pub restore_set: usize,
    pub keyboard_id: Option<usize>,
    /// The watch, whose state is saved with the layout.
    pub watch_id: Option<usize>,
    pub edit_mode: bool,
    pub initialized: bool,
}

impl<S> View for OverlayWindowManager<S> {
    type V = ManagerView<S>;

    open spec fn view(&self) -> ManagerView<S> {
        ManagerView {
            overlays: self.overlays@.map_values(|o: OverlayInfo| o@),
            active: self.active@,
            sets: self.sets@.map_values(|s: OverlayWindowSet<S>| s@),
            global_set: self.global_set@,
            current_set: self.current_set,
            restore_set: self.restore_set,
            keyboard_id: self.keyboard_id,
            watch_id: self.watch_id,
            edit_mode: self.edit_mode,
            initialized: self.initialized,
        }
    }
}

impl<S> OverlayWindowManager<S> {
    /// The invariant of the manager, with the name lists free of duplicates.
    pub open spec fn wf(&self) -> bool {
        &&& self@.wf()
        &&& self.lists_ok()
    }

    /// Every name list of the manager is free of duplicates.
    pub open spec fn lists_ok(&self) -> bool {
        &&& forall|k: int| 0 <= k < self.sets@.len() ==> (#[trigger] self.sets@[k]).lists_unique()
        &&& self.global_set.lists_unique()
    }

    /// A manager with one empty set, shown, and no overlay.
    pub fn new() -> (m: Self)
        ensures
            m.wf(),
            m@.overlays.len() == 0,
            m@.sets.len() == 1,
            m@.current_set == Some(0usize),
            m@.restore_set == 0,
            m@.keyboard_id is None,
            m@.watch_id is None,
            !m@.edit_mode,
            !m@.initialized,
            m@.sets[0].inactive == Map::<Seq<char>, S>::empty(),
            m@.sets[0].hidden == Map::<Seq<char>, S>::empty(),
            m@.global_set.inactive == Map::<Seq<char>, S>::empty(),
            m@.global_set.hidden == Map::<Seq<char>, S>::empty(),
    {
        let mut sets: Vec<OverlayWindowSet<S>> = Vec::new();
        sets.push(OverlayWindowSet::empty(0));
        OverlayWindowManager {
            overlays: Vec::new(),
            active: Vec::new(),
            sets,
            global_set: OverlayWindowSet::empty(0),
            current_set: Some(0),
            restore_set: 0,
            keyboard_id: None,
            watch_id: None,
            edit_mode: false,
            initialized: false,
        }
    }

    pub fn get_edit_mode(&self) -> (r: bool)
        ensures
            r == self@.edit_mode,
    {
        self.edit_mode
    }

    pub fn get_current_set(&self) -> (r: Option<usize>)
        ensures
            r == self@.current_set,
    {
        self.current_set
    }

    pub fn get_total_sets(&self) -> (r: usize)
        ensures
            r == self@.sets.len(),
    {
        self.sets.len()
    }
}

impl<S> OverlayWindowManager<S> {
    /// Moves the active states of the regular overlays into the shown set.
    fn stash_active(&mut self)
        requires
            old(self).wf(),
        ensures
            final(self).lists_ok(),
            final(self)@ == old(self)@.stashed(),
    {
        let ghost old_v = self@;
        let ghost old_sets = self.sets@;
        if let Some(c) = self.current_set {
            let n = self.overlays.len();
            let mut i: usize = 0;
            while i < n
                invariant
                    old_v.wf(),
                    old_v == old(self)@,
                    old_sets == old(self).sets@,
                    old(self).current_set == Some(c),
                    0 <= i <= n,
                    n == self.overlays.len(),
                    self.overlays@ == old(self).overlays@,
                    self.global_set == old(self).global_set,
                    self.current_set == old(self).current_set,
                    self.restore_set == old(self).restore_set,
                    self.keyboard_id == old(self).keyboard_id,
                self.watch_id == old(self).watch_id,
                    self.watch_id == old(self).watch_id,
                    self.edit_mode == old(self).edit_mode,
                    self.initialized == old(self).initialized,
                    self.active@.len() == n,
                    self.sets@.len() == old_sets.len(),
                    c < old_sets.len(),
                    forall|k: int| 0 <= k < old_sets.len() && k != c ==> #[trigger] self.sets@[k] == old_sets[k],
                    self.sets@[c as int].inactive_overlays == old_sets[c as int].inactive_overlays,
                    self.sets@[c as int].hidden_overlays == old_sets[c as int].hidden_overlays,
                    self.sets@[c as int].overlays@.len() == n,
                    forall|j: int| 0 <= j < i ==> #[trigger] self.active@[j] == old_v.stashed().active[j],
                    forall|j: int| i <= j < n ==> #[trigger] self.active@[j] == old_v.active[j],
                    forall|j: int| 0 <= j < i ==> #[trigger] self.sets@[c as int].overlays@[j] == old_v.stashed().sets[c as int].overlays[j],
                    forall|j: int| i <= j < n ==> #[trigger] self.sets@[c as int].overlays@[j] == old_v.sets[c as int].overlays[j],
                decreases n - i,
            {
                if self.overlays[i].live && !self.overlays[i].global {
                    let st = self.active[i].take();
                    if st.is_some() {
                        self.sets[c].overlays.set(i, st);
                    }
                }
                i += 1;
            }
            proof {
                let nv = self@;
                let t = old_v.stashed();
                assert(nv.overlays =~= t.overlays);
                assert(nv.active =~= t.active);
                assert(nv.sets[c as int].overlays =~= t.sets[c as int].overlays);
                assert(nv.sets =~= t.sets);
            }
        } else {
            assert(self@.sets =~= old_v.stashed().sets);
        }
    }

    /// Makes the states saved in set `k` active and empties the set. Returns
    /// the ids that were loaded (unless `keep_transforms`) and whether one of
    /// them is content rather than furniture.
    fn load_set(&mut self, k: usize, keep_transforms: bool) -> (r: (Vec<usize>, bool))
        requires
            old(self).lists_ok(),
            k < old(self)@.sets.len(),
            old(self)@.active.len() == old(self)@.overlays.len(),
            old(self)@.sets[k as int].overlays.len() == old(self)@.overlays.len(),
        ensures
            final(self).lists_ok(),
            final(self)@ == old(self)@.loaded(k as int),
            keep_transforms ==> r.0@.len() == 0,
            !keep_transforms ==> lists_loaded(r.0@, old(self)@, k as int, old(self)@.overlays.len() as int),
            r.1 == exists|i: int| 0 <= i < old(self)@.overlays.len() && old(self)@.loads_from(k as int, i)
                && !is_furniture(#[trigger] old(self)@.overlays[i].category),
    {
        let ghost old_v = self@;
        let ghost old_sets = self.sets@;
        let ghost t = old_v.loaded(k as int);
        let n = self.overlays.len();
        let mut reset: Vec<usize> = Vec::new();
        let mut content = false;
        let mut i: usize = 0;
        while i < n
            invariant
                old_v == old(self)@,
                old_sets == old(self).sets@,
                t == old_v.loaded(k as int),
                0 <= i <= n,
                n == self.overlays.len(),
                k < old_sets.len(),
                old_v.active.len() == n,
                old_v.sets[k as int].overlays.len() == n,
                self.overlays@ == old(self).overlays@,
                self.global_set == old(self).global_set,
                self.current_set == old(self).current_set,
                self.restore_set == old(self).restore_set,
                self.keyboard_id == old(self).keyboard_id,
                self.watch_id == old(self).watch_id,
                self.edit_mode == old(self).edit_mode,
                self.initialized == old(self).initialized,
                self.active@.len() == n,
                self.sets@.len() == old_sets.len(),
                forall|q: int| 0 <= q < old_sets.len() && q != k ==> #[trigger] self.sets@[q] == old_sets[q],
                self.sets@[k as int].inactive_overlays == old_sets[k as int].inactive_overlays,
                self.sets@[k as int].hidden_overlays == old_sets[k as int].hidden_overlays,
                self.sets@[k as int].overlays@.len() == n,
                forall|j: int| 0 <= j < i ==> #[trigger] self.active@[j] == t.active[j],
                forall|j: int| i <= j < n ==> #[trigger] self.active@[j] == old_v.active[j],
                forall|j: int| 0 <= j < i ==> #[trigger] self.sets@[k as int].overlays@[j] is None,
                forall|j: int| i <= j < n ==> #[trigger] self.sets@[k as int].overlays@[j] == old_v.sets[k as int].overlays[j],
                keep_transforms ==> reset@.len() == 0,
                !keep_transforms ==> lists_loaded(reset@, old_v, k as int, i as int),
                content == exists|j: int| 0 <= j < i && old_v.loads_from(k as int, j)
                    && !is_furniture(#[trigger] old_v.overlays[j].category),
            decreases n - i,
        {
            proof {
                assert(old_v.overlays[i as int] == self.overlays@[i as int]@);
            }
            let st = self.sets[k].overlays[i].take();
            if self.overlays[i].live && !self.overlays[i].global && st.is_some() {
                self.active.set(i, st);
                if !keep_transforms {
                    let ghost before = reset@;
                    reset.push(i);
                    proof {
                        assert forall|j: int| 0 <= j < i + 1 && #[trigger] old_v.loads_from(k as int, j) implies reset@.contains(j as usize) by {
                            if j < i {
                                assert(before.contains(j as usize));
                                let w = choose|w: int| 0 <= w < before.len() && before[w] == j as usize;
                                assert(reset@[w] == j as usize);
                            } else {
                                assert(reset@[before.len() as int] == i);
                            }
                        }
                    }
                }
                match self.overlays[i].category {
                    OverlayCategory::Internal | OverlayCategory::Keyboard | OverlayCategory::Dashboard => {},
                    _ => {
                        content = true;
                    },
                }
                proof {
                    if !is_furniture(old_v.overlays[i as int].category) {
                        assert(old_v.loads_from(k as int, i as int));
                    }
                }
            } else {
                proof {
                    assert(!old_v.loads_from(k as int, i as int));
                    if !keep_transforms {
                        assert forall|j: int| 0 <= j < i + 1 && #[trigger] old_v.loads_from(k as int, j) implies reset@.contains(j as usize) by {
                            assert(j < i);
                        }
                    }
                }
            }
            i += 1;
        }
        proof {
            let nv = self@;
            assert(nv.overlays =~= t.overlays);
            assert(nv.active =~= t.active);
            assert(nv.sets[k as int].overlays =~= t.sets[k as int].overlays);
            assert(nv.sets =~= t.sets);
        }
        self.restore_set = k;
        (reset, content)
    }

    /// Shows set `new_set` (`None`: hides every set). Does nothing when that
    /// set is already shown or does not exist.
    pub fn switch_to_set(&mut self, new_set: Option<usize>, keep_transforms: bool) -> (r: SwitchOutcome)
        requires
            old(self).wf(),
        ensures
            final(self).wf(),
            final(self)@ == old(self)@.switched(new_set),
            r.empty_set_toast == old(self)@.empty_set_toast(new_set),
            !(old(self)@.switch_applies(new_set) && new_set is Some && !keep_transforms) ==> r.reset@.len() == 0,
            old(self)@.switch_applies(new_set) && new_set is Some && !keep_transforms ==>
                lists_loaded(r.reset@, old(self)@.stashed(), new_set.unwrap() as int, old(self)@.overlays.len() as int),
    {
        let applies = match new_set {
            Some(k) => k < self.sets.len() && match self.current_set {
                Some(c) => c != k,
                None => true,
            },
            None => self.current_set.is_some(),
        };
        if !applies {
            return SwitchOutcome { reset: Vec::new(), empty_set_toast: false };
        }
        let ghost v0 = self@;
        self.stash_active();
        proof {
            assert(self@.sets.len() == v0.sets.len());
            assert forall|q: int| 0 <= q < self@.sets.len() implies (#[trigger] self@.sets[q]).overlays.len() == self@.overlays.len() by {
                assert(v0.sets[q].overlays.len() == v0.overlays.len());
            }
        }
        let mut out = SwitchOutcome { reset: Vec::new(), empty_set_toast: false };
        if let Some(k) = new_set {
            let (reset, content) = self.load_set(k, keep_transforms);
            out = SwitchOutcome { reset, empty_set_toast: !self.edit_mode && self.initialized && !content };
        }
        self.current_set = new_set;
        proof {
            lemma_switched_wf(v0, new_set);
        }
        out
    }
}

/// Switching sets keeps the invariant.
proof fn lemma_switched_wf<S>(v: ManagerView<S>, new: Option<usize>)
    requires
        v.wf(),
    ensures
        v.switched(new).wf(),
{
    if v.switch_applies(new) {
        let s = v.stashed();
        assert(s.sets.len() == v.sets.len());
        assert forall|q: int| 0 <= q < s.sets.len() implies (#[trigger] s.sets[q]).overlays.len() == s.overlays.len() by {
            assert(v.sets[q].overlays.len() == v.overlays.len());
        }
        let w = v.switched(new);
        assert forall|q: int| 0 <= q < w.sets.len() implies (#[trigger] w.sets[q]).overlays.len() == w.overlays.len() by {
            assert(s.sets[q].overlays.len() == s.overlays.len());
        }
    }
}

impl<S> OverlayWindowManager<S> {
    /// Hides `set` if it is the one shown, else shows it.
    pub fn switch_or_toggle_set(&mut self, set: usize) -> (r: SwitchOutcome)
        requires
            old(self).wf(),
        ensures
            final(self).wf(),
            final(self)@ == old(self)@.switched(old(self)@.toggle_target(set)),
            r.empty_set_toast == old(self)@.empty_set_toast(old(self)@.toggle_target(set)),
            old(self)@.switch_applies(old(self)@.toggle_target(set)) && old(self)@.toggle_target(set) is Some ==>
                lists_loaded(r.reset@, old(self)@.stashed(), set as int, old(self)@.overlays.len() as int),
            !(old(self)@.switch_applies(old(self)@.toggle_target(set)) && old(self)@.toggle_target(set) is Some) ==> r.reset@.len() == 0,
    {
        let new_set = match self.current_set {
            Some(c) => if c == set { None } else { Some(set) },
            None => Some(set),
        };
        self.switch_to_set(new_set, false)
    }

    /// Hides the shown set, or shows again the set that was shown last. When
    /// a set is brought back, the caller first re-centers the anchor on the
    /// viewer, then re-anchors the overlays listed in `reset`.
    pub fn show_hide(&mut self) -> (r: SwitchOutcome)
        requires
            old(self).wf(),
        ensures
            final(self).wf(),
            final(self)@ == old(self)@.switched(old(self)@.show_hide_target()),
            r.empty_set_toast == old(self)@.empty_set_toast(old(self)@.show_hide_target()),
            old(self)@.current_set is None ==>
                lists_loaded(r.reset@, old(self)@, old(self)@.restore_set as int, old(self)@.overlays.len() as int),
            old(self)@.current_set is Some ==> r.reset@.len() == 0,
    {
        let target = if self.current_set.is_none() { Some(self.restore_set) } else { None };
        self.switch_to_set(target, false)
    }
}

/// Hiding the shown set and showing it again gives back the same manager:
/// every overlay is where it was, and every set holds what it held.
pub proof fn law_show_hide_round_trip<S>(v: ManagerView<S>)
    requires
        v.wf(),
        v.current_set is Some,
    ensures
        v.switched(v.show_hide_target()).switched(v.switched(v.show_hide_target()).show_hide_target()) == v,
{
    let c = v.current_set.unwrap() as int;
    let v1 = v.switched(None);
    assert(v.show_hide_target() == None::<usize>);
    assert(v1.show_hide_target() == Some(c as usize));
    let v2 = v1.switched(Some(c as usize));
    assert(v1.stashed() == v1);
    assert(v2.active =~= v.active);
    assert(v2.sets[c].overlays =~= v.sets[c].overlays);
    assert(v2.sets =~= v.sets);
    assert(v2.overlays =~= v.overlays);
}

/// Switching from the shown set to another one and back gives back the same
/// manager, provided the other set holds no state for an overlay that was
/// removed or is global (such a state is dropped when the set is shown).
pub proof fn law_switch_round_trip<S>(v: ManagerView<S>, b: usize)
    requires
        v.wf(),
        v.current_set is Some,
        v.current_set != Some(b),
        b < v.sets.len(),
        forall|i: int| 0 <= i < v.overlays.len() && !v.regular(i) ==> (#[trigger] v.sets[b as int].overlays[i]) is None,
    ensures
        v.switched(Some(b)).switched(v.current_set) == v,
{
    let a = v.current_set.unwrap();
    let v1 = v.switched(Some(b));
    let v2 = v1.switched(Some(a));
    let s1 = v1.stashed();
    assert(v1.current_set == Some(b));
    assert(v1.switch_applies(Some(a)));
    assert(v2.active =~= v.active);
    assert(v2.sets[a as int].overlays =~= v.sets[a as int].overlays);
    assert(v2.sets[b as int].overlays =~= v.sets[b as int].overlays);
    assert(v2.sets =~= v.sets);
    assert(v2.overlays =~= v.overlays);
}

/// How a toggle treats an overlay that is already in the asked state.
#[derive(Clone, Copy, PartialEq, Eq, Structural, Debug)]
pub enum ToggleMode {
    Toggle,
    EnsureOn,
    EnsureOff,
}

/// What a toggle did to the overlay.
#[derive(Clone, Copy, PartialEq, Eq, Structural, Debug)]
pub enum ToggleOutcome {
    /// It was already in the asked state.
    Unchanged,
    /// It was shown; its state is now kept under its name.
    Hidden,
    /// It was hidden; the state kept under its name is active again (the
    /// caller re-anchors it).
    Restored,
    /// It was hidden with no state kept; it is shown with a fresh state.
    Activated,
}

impl<S> ManagerView<S> {
    /// The states kept for toggled-off overlays in the set that `id` belongs to.
    pub open spec fn parent_hidden(self, id: int) -> Map<Seq<char>, S> {
        if self.overlays[id].global { self.global_set.hidden } else { self.sets[self.restore_set as int].hidden }
    }

    /// The manager with the kept states of the set that `id` belongs to replaced.
    pub open spec fn with_parent_hidden(self, id: int, hidden: Map<Seq<char>, S>) -> Self {
        if self.overlays[id].global {
            ManagerView { global_set: SetView { hidden, ..self.global_set }, ..self }
        } else {
            ManagerView {
                sets: self.sets.update(self.restore_set as int, SetView { hidden, ..self.sets[self.restore_set as int] }),
                ..self
            }
        }
    }

    /// What a toggle of overlay `id` does.
    pub open spec fn toggle_outcome(self, id: int, mode: ToggleMode) -> ToggleOutcome {
        let on = self.active[id] is Some;
        if (mode == ToggleMode::EnsureOn && on) || (mode == ToggleMode::EnsureOff && !on) {
            ToggleOutcome::Unchanged
        } else if on {
            ToggleOutcome::Hidden
        } else if self.parent_hidden(id).contains_key(self.overlays[id].name) {
            ToggleOutcome::Restored
        } else {
            ToggleOutcome::Activated
        }
    }

    /// The manager after a toggle of overlay `id`; `fresh` is the state it
    /// gets when it is shown with no kept state.
    pub open spec fn toggled(self, id: int, mode: ToggleMode, fresh: S) -> Self {
        let name = self.overlays[id].name;
        match self.toggle_outcome(id, mode) {
            ToggleOutcome::Unchanged => self,
            ToggleOutcome::Hidden => ManagerView {
                active: self.active.update(id, None),
                ..self.with_parent_hidden(id, self.parent_hidden(id).insert(name, self.active[id].unwrap()))
            },
            ToggleOutcome::Restored => ManagerView {
                active: self.active.update(id, Some(self.parent_hidden(id)[name])),
                ..self.with_parent_hidden(id, self.parent_hidden(id).remove(name))
            },
            ToggleOutcome::Activated => ManagerView { active: self.active.update(id, Some(fresh)), ..self },
        }
    }
}

impl<S> OverlayWindowManager<S> {
    /// Shows or hides overlay `id`, keeping the state of a hidden overlay under
    /// its name in the set it belongs to (the global set for a global overlay,
    /// else the set shown or last shown).
    pub fn toggle_overlay(&mut self, id: usize, mode: ToggleMode, fresh: S) -> (r: ToggleOutcome)
        requires
            old(self).wf(),
            id < old(self)@.overlays.len(),
            old(self)@.overlays[id as int].live,
        ensures
            final(self).wf(),
            r == old(self)@.toggle_outcome(id as int, mode),
            final(self)@ == old(self)@.toggled(id as int, mode, fresh),
            // EnsureOn shows the overlay, and changes nothing only when it is shown
            mode == ToggleMode::EnsureOn ==> final(self)@.active[id as int] is Some,
            mode == ToggleMode::EnsureOn ==> (r == ToggleOutcome::Unchanged <==> old(self)@.active[id as int] is Some),
            // EnsureOff hides it, and changes nothing only when it is hidden
            mode == ToggleMode::EnsureOff ==> final(self)@.active[id as int] is None,
            mode == ToggleMode::EnsureOff ==> (r == ToggleOutcome::Unchanged <==> old(self)@.active[id as int] is None),
            // Toggle flips it
            mode == ToggleMode::Toggle ==> (final(self)@.active[id as int] is Some <==> old(self)@.active[id as int] is None),
            mode == ToggleMode::Toggle ==> r != ToggleOutcome::Unchanged,
            // a hidden overlay that is shown again gets back the state kept under its name
            mode != ToggleMode::EnsureOff && old(self)@.active[id as int] is None
                && old(self)@.parent_hidden(id as int).contains_key(old(self)@.overlays[id as int].name) ==> {
                &&& r == ToggleOutcome::Restored
                &&& final(self)@.active[id as int] == Some(old(self)@.parent_hidden(id as int)[old(self)@.overlays[id as int].name])
            },
            mode != ToggleMode::EnsureOff && old(self)@.active[id as int] is None
                && !old(self)@.parent_hidden(id as int).contains_key(old(self)@.overlays[id as int].name) ==> {
                &&& r == ToggleOutcome::Activated
                &&& final(self)@.active[id as int] == Some(fresh)
            },
            // the other overlays keep their states
            forall|i: int| 0 <= i < old(self)@.active.len() && i != id ==> #[trigger] final(self)@.active[i] == old(self)@.active[i],
    {
        let ghost v0 = self@;
        let is_active = self.active[id].is_some();
        match mode {
            ToggleMode::EnsureOn => if is_active { return ToggleOutcome::Unchanged; },
            ToggleMode::EnsureOff => if !is_active { return ToggleOutcome::Unchanged; },
            ToggleMode::Toggle => {},
        }
        let global = self.overlays[id].global;
        let name = self.overlays[id].name.clone();
        let r = self.restore_set;
        proof {
            assert(v0.overlays[id as int] == self.overlays@[id as int]@);
        }
        if is_active {
            let taken = self.active[id].take();
            match taken {
                Some(st) => {
                    if global {
                        named_set(&mut self.global_set.hidden_overlays, name, st);
                    } else {
                        named_set(&mut self.sets[r].hidden_overlays, name, st);
                    }
                },
                None => {},
            }
            proof {
                let t = v0.toggled(id as int, mode, fresh);
                assert(self@.active =~= t.active);
                assert(self@.sets =~= t.sets);
                assert(self@.overlays =~= t.overlays);
            }
            ToggleOutcome::Hidden
        } else {
            let removed = if global {
                named_remove(&mut self.global_set.hidden_overlays, name.as_str())
            } else {
                named_remove(&mut self.sets[r].hidden_overlays, name.as_str())
            };
            match removed {
                Some(st) => {
                    self.active.set(id, Some(st));
                    proof {
                        let t = v0.toggled(id as int, mode, fresh);
                        assert(self@.active =~= t.active);
                        assert(self@.sets =~= t.sets);
                        assert(self@.overlays =~= t.overlays);
                    }
                    ToggleOutcome::Restored
                },
                None => {
                    self.active.set(id, Some(fresh));
                    proof {
                        let t = v0.toggled(id as int, mode, fresh);
                        assert(v0.parent_hidden(id as int).remove(name@) =~= v0.parent_hidden(id as int));
                        assert(self@.active =~= t.active);
                        assert(self@.sets =~= t.sets);
                        assert(self@.overlays =~= t.overlays);
                    }
                    ToggleOutcome::Activated
                },
            }
        }
    }
}

/// What each toggle mode does to a live overlay: `EnsureOn` shows it (with
/// the state kept under its name, or else the fresh one) and changes
/// nothing only when it is already shown; `EnsureOff` hides it and changes
/// nothing only when it is already hidden; `Toggle` always flips it. No
/// other overlay changes.
pub proof fn law_toggle_modes<S>(v: ManagerView<S>, id: int, fresh: S)
    requires
        v.wf(),
        0 <= id < v.overlays.len(),
        v.overlays[id].live,
    ensures
        v.toggled(id, ToggleMode::EnsureOn, fresh).active[id] is Some,
        v.toggle_outcome(id, ToggleMode::EnsureOn) == ToggleOutcome::Unchanged <==> v.active[id] is Some,
        v.active[id] is None ==> v.toggled(id, ToggleMode::EnsureOn, fresh).active[id]
            == v.toggled(id, ToggleMode::Toggle, fresh).active[id],
        v.active[id] is None && v.parent_hidden(id).contains_key(v.overlays[id].name) ==> {
            &&& v.toggle_outcome(id, ToggleMode::EnsureOn) == ToggleOutcome::Restored
            &&& v.toggled(id, ToggleMode::EnsureOn, fresh).active[id] == Some(v.parent_hidden(id)[v.overlays[id].name])
        },
        v.active[id] is None && !v.parent_hidden(id).contains_key(v.overlays[id].name)
            ==> v.toggled(id, ToggleMode::EnsureOn, fresh).active[id] == Some(fresh),
        v.toggled(id, ToggleMode::EnsureOff, fresh).active[id] is None,
        v.toggle_outcome(id, ToggleMode::EnsureOff) == ToggleOutcome::Unchanged <==> v.active[id] is None,
        v.toggled(id, ToggleMode::Toggle, fresh).active[id] is Some <==> v.active[id] is None,
        forall|m: ToggleMode, i: int| 0 <= i < v.active.len() && i != id
            ==> #[trigger] v.toggled(id, m, fresh).active[i] == v.active[i],
{
}

/// Toggling a shown overlay off and then on again brings back the state it
/// had, and leaves the kept states as they were, provided nothing was kept
/// under its name before.
pub proof fn law_toggle_off_on<S>(v: ManagerView<S>, id: int, fresh1: S, fresh2: S)
    requires
        v.wf(),
        0 <= id < v.overlays.len(),
        v.overlays[id].live,
        v.active[id] is Some,
        !v.parent_hidden(id).contains_key(v.overlays[id].name),
    ensures
        v.toggle_outcome(id, ToggleMode::Toggle) == ToggleOutcome::Hidden,
        v.toggled(id, ToggleMode::Toggle, fresh1).toggle_outcome(id, ToggleMode::Toggle) == ToggleOutcome::Restored,
        v.toggled(id, ToggleMode::Toggle, fresh1).toggled(id, ToggleMode::Toggle, fresh2) == v,
{
    let name = v.overlays[id].name;
    let v1 = v.toggled(id, ToggleMode::Toggle, fresh1);
    assert(v1.overlays == v.overlays);
    assert(v1.parent_hidden(id) == v.parent_hidden(id).insert(name, v.active[id].unwrap()));
    let v2 = v1.toggled(id, ToggleMode::Toggle, fresh2);
    assert(v1.parent_hidden(id).remove(name) =~= v.parent_hidden(id));
    assert(v2.active =~= v.active);
    if v.overlays[id].global {
        assert(v2.global_set == v.global_set);
    } else {
        assert(v2.sets =~= v.sets);
    }
}

/// Why a set could not be added or removed.
#[derive(Clone, Copy, PartialEq, Eq, Structural, Debug)]
pub enum SetError {
    /// There are already `MAX_OVERLAY_SETS` sets.
    MaximumSetsReached,
    /// No set is shown, so there is none to remove.
    NoSetSelected,
    /// The shown set is the only one.
    LastExistingSet,
}

impl<S> ManagerView<S> {
    /// A set that holds nothing.
    pub open spec fn blank_set(self) -> SetView<S> {
        SetView {
            overlays: Seq::new(self.overlays.len(), |i: int| None),
            inactive: Map::empty(),
            hidden: Map::empty(),
        }
    }

    /// Overlay `id` shown with state `st`.
    pub open spec fn activated(self, id: int, st: S) -> Self {
        ManagerView { active: self.active.update(id, Some(st)), ..self }
    }

    /// The manager after a new set is added and shown, with the keyboard
    /// (if there is one) shown in it with state `kbd`.
    pub open spec fn set_added(self, kbd: S) -> Self {
        let w = ManagerView { sets: self.sets.push(self.blank_set()), ..self }.switched(Some(self.sets.len() as usize));
        match self.keyboard_id {
            Some(k) => w.activated(k as int, kbd),
            None => w,
        }
    }

    /// The manager after the shown set is hidden and removed.
    pub open spec fn set_deleted(self) -> Self {
        let w = self.switched(None);
        ManagerView { sets: w.sets.remove(self.current_set.unwrap() as int), restore_set: 0, ..w }
    }

    /// The first live overlay named `name`, if any.
    pub open spec fn lookup(self, name: Seq<char>) -> Option<usize> {
        if exists|i: int| 0 <= i < self.overlays.len() && self.overlays[i].live && #[trigger] self.overlays[i].name == name {
            Some((choose|i: int| 0 <= i < self.overlays.len() && self.overlays[i].live && #[trigger] self.overlays[i].name == name) as usize)
        } else {
            None
        }
    }
}

proof fn lemma_lookup<S>(v: ManagerView<S>, name: Seq<char>)
    requires
        v.overlays.len() <= usize::MAX,
    ensures
        v.lookup(name) matches Some(i) ==> i < v.overlays.len() && v.overlays[i as int].live && v.overlays[i as int].name == name,
        v.lookup(name) is None ==> forall|i: int| 0 <= i < v.overlays.len() && v.overlays[i].live ==> #[trigger] v.overlays[i].name != name,
{
    if exists|i: int| 0 <= i < v.overlays.len() && v.overlays[i].live && #[trigger] v.overlays[i].name == name {
        let i = choose|i: int| 0 <= i < v.overlays.len() && v.overlays[i].live && #[trigger] v.overlays[i].name == name;
        assert(v.lookup(name) == Some(i as usize));
    }
}

/// How a caller names an overlay.
pub enum OverlaySelector {
    Id(usize),
    Name(String),
}

impl<S> OverlayWindowManager<S> {
    /// Adds an empty set and shows it, with the keyboard shown in it in state
    /// `kbd`. Refused once there are `MAX_OVERLAY_SETS` sets.
    pub fn add_set(&mut self, kbd: S) -> (r: Result<SwitchOutcome, SetError>)
        requires
            old(self).wf(),
            old(self)@.keyboard_id matches Some(k) ==> old(self)@.overlays[k as int].live,
        ensures
            final(self).wf(),
            old(self)@.sets.len() >= MAX_OVERLAY_SETS ==> r == Err::<SwitchOutcome, SetError>(SetError::MaximumSetsReached) && final(self)@ == old(self)@,
            old(self)@.sets.len() < MAX_OVERLAY_SETS ==> r is Ok && final(self)@ == old(self)@.set_added(kbd),
    {
        let new_idx = self.sets.len();
        if new_idx >= MAX_OVERLAY_SETS {
            return Err(SetError::MaximumSetsReached);
        }
        let ghost v0 = self@;
        let blank = OverlayWindowSet::empty(self.overlays.len());
        self.sets.push(blank);
        proof {
            let pushed = ManagerView { sets: v0.sets.push(v0.blank_set()), ..v0 };
            assert(self@.sets =~= pushed.sets);
            assert(self@ == pushed);
            assert(pushed.wf()) by {
                assert forall|q: int| 0 <= q < pushed.sets.len() implies (#[trigger] pushed.sets[q]).overlays.len() == pushed.overlays.len() by {
                    if q < v0.sets.len() {
                        assert(pushed.sets[q] == v0.sets[q]);
                    }
                }
                if let Some(c) = pushed.current_set {
                    assert(pushed.sets[c as int] == v0.sets[c as int]);
                }
            }
            assert forall|q: int| 0 <= q < self.sets@.len() implies (#[trigger] self.sets@[q]).lists_unique() by {
                if q < v0.sets.len() {
                    assert(self.sets@[q] == old(self).sets@[q]);
                }
            }
        }
        let out = self.switch_to_set(Some(new_idx), false);
        if let Some(k) = self.keyboard_id {
            self.active.set(k, Some(kbd));
            proof {
                let t = v0.set_added(kbd);
                assert(self@.active =~= t.active);
            }
        }
        Ok(out)
    }

    /// Hides the shown set and removes it; set 0 becomes the one that
    /// `show_hide` brings back.
    pub fn delete_active_set(&mut self) -> (r: Result<(), SetError>)
        requires
            old(self).wf(),
        ensures
            final(self).wf(),
            old(self)@.current_set is None ==> r == Err::<(), SetError>(SetError::NoSetSelected) && final(self)@ == old(self)@,
            old(self)@.current_set is Some && old(self)@.sets.len() <= 1 ==>
                r == Err::<(), SetError>(SetError::LastExistingSet) && final(self)@ == old(self)@,
            old(self)@.current_set is Some && old(self)@.sets.len() > 1 ==> r is Ok && final(self)@ == old(self)@.set_deleted(),
    {
        let set = match self.current_set {
            Some(c) => c,
            None => {
                return Err(SetError::NoSetSelected);
            },
        };
        if self.sets.len() <= 1 {
            return Err(SetError::LastExistingSet);
        }
        let ghost v0 = self@;
        self.switch_to_set(None, false);
        let ghost v1 = self@;
        let ghost sets1 = self.sets@;
        let _ = self.sets.remove(set);
        self.restore_set = 0;
        proof {
            let t = v0.set_deleted();
            assert(self@.sets =~= t.sets);
            assert forall|q: int| 0 <= q < self.sets@.len() implies (#[trigger] self.sets@[q]).lists_unique() by {
                if q < set {
                    assert(self.sets@[q] == sets1[q]);
                } else {
                    assert(self.sets@[q] == sets1[q + 1]);
                }
            }
            assert forall|q: int| 0 <= q < t.sets.len() implies (#[trigger] t.sets[q]).overlays.len() == t.overlays.len() by {
                if q < set {
                    assert(t.sets[q] == v1.sets[q]);
                } else {
                    assert(t.sets[q] == v1.sets[q + 1]);
                }
            }
        }
        Ok(())
    }

    /// The first live overlay named `name`.
    pub fn lookup(&self, name: &str) -> (r: Option<usize>)
        requires
            self.wf(),
        ensures
            r == self@.lookup(name@),
    {
        let n = self.overlays.len();
        let mut i: usize = 0;
        while i < n
            invariant
                self.wf(),
                n == self.overlays.len(),
                i <= n,
                forall|j: int| 0 <= j < i ==> !(self@.overlays[j].live && #[trigger] self@.overlays[j].name == name@),
            decreases n - i,
        {
            proof {
                assert(self@.overlays[i as int] == self.overlays@[i as int]@);
            }
            if self.overlays[i].live && str_eq(self.overlays[i].name.as_str(), name) {
                proof {
                    assert(self@.overlays[i as int].live && self@.overlays[i as int].name == name@);
                    let c = choose|j: int| 0 <= j < self@.overlays.len() && self@.overlays[j].live && #[trigger] self@.overlays[j].name == name@;
                    assert(self@.overlays[c].name == self@.overlays[i as int].name);
                    assert(self@.wf());
                    assert(c == i as int);
                    assert(self@.lookup(name@) == Some(c as usize));
                }
                return Some(i);
            }
            i += 1;
        }
        None
    }

    /// The id that `selector` names, if any.
    pub fn id_by_selector(&self, selector: &OverlaySelector) -> (r: Option<usize>)
        requires
            self.wf(),
        ensures
            match selector {
                OverlaySelector::Id(id) => r == Some(*id),
                OverlaySelector::Name(name) => r == self@.lookup(name@),
            },
    {
        match selector {
            OverlaySelector::Id(id) => Some(*id),
            OverlaySelector::Name(name) => self.lookup(name.as_str()),
        }
    }

    /// Shows overlay `id` with state `st`, whether it was shown or not.
    /// Returns whether it was shown before, or `None` if there is no such
    /// overlay.
    pub fn activate_overlay(&mut self, id: usize, st: S) -> (r: Option<bool>)
        requires
            old(self).wf(),
        ensures
            final(self).wf(),
            !(id < old(self)@.overlays.len() && old(self)@.overlays[id as int].live) ==> r is None && final(self)@ == old(self)@,
            id < old(self)@.overlays.len() && old(self)@.overlays[id as int].live ==>
                r == Some(old(self)@.active[id as int] is Some) && final(self)@ == old(self)@.activated(id as int, st),
    {
        if id >= self.overlays.len() || !self.overlays[id].live {
            return None;
        }
        let was = self.active[id].is_some();
        self.active.set(id, Some(st));
        Some(was)
    }

    /// Shows overlay `id` with state `st` if it is hidden, else hides it and
    /// drops its state. Returns whether it is shown now, or `None` if there is
    /// no such overlay.
    pub fn flip_overlay(&mut self, id: usize, st: S) -> (r: Option<bool>)
        requires
            old(self).wf(),
        ensures
            final(self).wf(),
            !(id < old(self)@.overlays.len() && old(self)@.overlays[id as int].live) ==> r is None && final(self)@ == old(self)@,
            id < old(self)@.overlays.len() && old(self)@.overlays[id as int].live && old(self)@.active[id as int] is None ==>
                r == Some(true) && final(self)@ == old(self)@.activated(id as int, st),
            id < old(self)@.overlays.len() && old(self)@.overlays[id as int].live && old(self)@.active[id as int] is Some ==>
                r == Some(false) && final(self)@ == (ManagerView { active: old(self)@.active.update(id as int, None), ..old(self)@ }),
    {
        if id >= self.overlays.len() || !self.overlays[id].live {
            return None;
        }
        if self.active[id].is_none() {
            self.active.set(id, Some(st));
            Some(true)
        } else {
            self.active.set(id, None);
            Some(false)
        }
    }
}

/// `n` with `k` copies of `"_2"` appended.
pub open spec fn suffixed(n: Seq<char>, k: nat) -> Seq<char>
    decreases k,
{
    if k == 0 { n } else { suffixed(n, (k - 1) as nat) + seq!['_', '2'] }
}

/// The length of the longest overlay name.
pub open spec fn max_name_len(o: Seq<InfoView>) -> nat
    decreases o.len(),
{
    if o.len() == 0 {
        0
    } else {
        let m = max_name_len(o.drop_last());
        if o.last().name.len() > m { o.last().name.len() } else { m }
    }
}

proof fn lemma_max_name_len(o: Seq<InfoView>, i: int)
    requires
        0 <= i < o.len(),
    ensures
        o[i].name.len() <= max_name_len(o),
    decreases o.len(),
{
    if i < o.len() - 1 {
        lemma_max_name_len(o.drop_last(), i);
    }
}

impl<S> ManagerView<S> {
    /// `d` is `n` with the fewest copies of `"_2"` appended that make it
    /// the name of no live overlay.
    pub open spec fn is_dedup_of(self, n: Seq<char>, d: Seq<char>) -> bool {
        exists|k: nat| d == suffixed(n, k) && self.lookup(d) is None
            && forall|j: nat| j < k ==> (#[trigger] self.lookup(suffixed(n, j))) is Some
    }

    /// Set `q` after an overlay described by `info` was added.
    pub open spec fn added_to_set(self, q: int, info: InfoView) -> SetView<S> {
        let s = self.sets[q];
        if info.global {
            SetView { overlays: s.overlays.push(None), ..s }
        } else {
            SetView {
                overlays: s.overlays.push(
                    if self.current_set != Some(q as usize) && s.inactive.contains_key(info.name) { Some(s.inactive[info.name]) } else { None }),
                inactive: s.inactive.remove(info.name),
                hidden: s.hidden,
            }
        }
    }

    /// An overlay described by `info` gets its state from the shown set.
    pub open spec fn added_from_shown(self, info: InfoView) -> bool {
        &&& !info.global
        &&& self.current_set is Some
        &&& self.sets[self.current_set.unwrap() as int].inactive.contains_key(info.name)
    }

    /// The manager after an overlay described by `info` was added: every set
    /// that kept a state under its name hands it over (the shown set makes
    /// it active); otherwise it is shown in state `spawn` if it shows on spawn.
    pub open spec fn added(self, info: InfoView, spawn: S) -> Self {
        ManagerView {
            overlays: self.overlays.push(info),
            active: self.active.push(
                if self.added_from_shown(info) { Some(self.sets[self.current_set.unwrap() as int].inactive[info.name]) }
                else if info.show_on_spawn { Some(spawn) }
                else { None }),
            sets: Seq::new(self.sets.len(), |q: int| self.added_to_set(q, info)),
            ..self
        }
    }
}

/// What adding an overlay did.
pub struct AddOutcome {
    pub id: usize,
    /// The name it got (made unique).
    pub name: String,
    /// It was shown with a state kept by the shown set (the caller re-anchors it).
    pub loaded: bool,
    /// It was shown with its spawn state.
    pub activated: bool,
}

impl<S> OverlayWindowManager<S> {
    /// Adds an overlay. A name that is taken gets `"_2"` appended until it is
    /// free.
    pub fn add(&mut self, name: String, global: bool, category: OverlayCategory, show_on_spawn: bool, spawn: S) -> (r: AddOutcome)
        requires
            old(self).wf(),
        ensures
            final(self).wf(),
            r.id == old(self)@.overlays.len(),
            old(self)@.is_dedup_of(name@, r.name@),
            final(self)@ == old(self)@.added(
                InfoView { name: r.name@, global, category, show_on_spawn, live: true }, spawn),
            r.loaded == old(self)@.added_from_shown(InfoView { name: r.name@, global, category, show_on_spawn, live: true }),
            r.activated == (!r.loaded && show_on_spawn),
    {
        let ghost v0 = self@;
        let ghost n0 = name@;
        let mut name = name;
        let ghost mut k: nat = 0;
        while self.lookup(name.as_str()).is_some()
            invariant
                self.wf(),
                self@ == v0,
                name@ == suffixed(n0, k),
                forall|j: nat| j < k ==> (#[trigger] v0.lookup(suffixed(n0, j))) is Some,
            decreases max_name_len(self@.overlays) + 2 - name@.len(),
        {
            proof {
                assert(v0.lookup(name@) is Some);
                lemma_lookup(v0, name@);
                let i = v0.lookup(name@).unwrap() as int;
                assert(v0.overlays[i].name == name@);
                lemma_max_name_len(v0.overlays, i);
                assert(name@.len() <= max_name_len(self@.overlays));
            }
            push_char(&mut name, '_');
            push_char(&mut name, '2');
            proof {
                assert(name@ =~= suffixed(n0, k + 1));
                k = k + 1;
            }
        }
        assert(v0.is_dedup_of(n0, name@));
        let ghost info = InfoView { name: name@, global, category, show_on_spawn, live: true };
        let oid = self.overlays.len();
        self.overlays.push(OverlayInfo { name: name.clone(), global, category, show_on_spawn, live: true });
        self.active.push(None);
        let mut shown = false;
        let nsets = self.sets.len();
        let mut q: usize = 0;
        while q < nsets
            invariant
                v0.wf(),
                v0 == old(self)@,
                old(self).sets@.len() == nsets,
                info == (InfoView { name: name@, global, category, show_on_spawn, live: true }),
                oid == v0.overlays.len(),
                nsets == v0.sets.len(),
                q <= nsets,
                self@.overlays == v0.overlays.push(info),
                self@.active.len() == oid + 1,
                forall|j: int| 0 <= j < oid ==> #[trigger] self@.active[j] == v0.active[j],
                shown == (v0.added_from_shown(info) && v0.current_set.unwrap() < q),
                shown ==> self@.active[oid as int] == Some(v0.sets[v0.current_set.unwrap() as int].inactive[info.name]),
                !shown ==> self@.active[oid as int] is None,
                self.sets@.len() == nsets,
                forall|p: int| 0 <= p < q ==> (#[trigger] self.sets@[p])@ == v0.added_to_set(p, info),
                forall|p: int| q <= p < nsets ==> #[trigger] self.sets@[p] == old(self).sets@[p],
                forall|p: int| 0 <= p < nsets ==> (#[trigger] self.sets@[p]).lists_unique(),
                self.global_set == old(self).global_set,
                self.current_set == old(self).current_set,
                self.restore_set == old(self).restore_set,
                self.keyboard_id == old(self).keyboard_id,
                self.watch_id == old(self).watch_id,
                self.edit_mode == old(self).edit_mode,
                self.initialized == old(self).initialized,
            decreases nsets - q,
        {
            let ghost sets_before = self.sets@;
            proof {
                assert(old(self).sets@[q as int]@ == v0.sets[q as int]);
            }
            self.sets[q].overlays.push(None);
            if !global {
                let st = named_remove(&mut self.sets[q].inactive_overlays, name.as_str());
                match st {
                    Some(st) => {
                        let is_current = match self.current_set {
                            Some(c) => c == q,
                            None => false,
                        };
                        if is_current {
                            self.active.set(oid, Some(st));
                            shown = true;
                        } else {
                            self.sets[q].overlays.set(oid, Some(st));
                        }
                    },
                    None => {},
                }
            }
            proof {
                assert(self.sets@[q as int].overlays@ =~= v0.added_to_set(q as int, info).overlays);
                assert(self.sets@[q as int]@ == v0.added_to_set(q as int, info));
                assert forall|p: int| 0 <= p < q implies (#[trigger] self.sets@[p])@ == v0.added_to_set(p, info) by {
                    assert(self.sets@[p] == sets_before[p]);
                }
                assert forall|p: int| 0 <= p < nsets implies (#[trigger] self.sets@[p]).lists_unique() by {
                    if p != q {
                        assert(self.sets@[p] == old(self).sets@[p] || p < q);
                    }
                }
            }
            q += 1;
        }
        let mut activated = false;
        if !shown && show_on_spawn {
            self.active.set(oid, Some(spawn));
            activated = true;
        }
        proof {
            let t = v0.added(info, spawn);
            assert(self@.sets =~= t.sets);
            assert(self@.active =~= t.active);
            assert(self@ == t);
            assert(t.wf()) by {
                lemma_lookup(v0, info.name);
                assert(t.overlays.len() == self.overlays@.len());
                assert(self.overlays.len() == self.overlays@.len());
                assert forall|i: int| 0 <= i < t.overlays.len() && !(#[trigger] t.overlays[i]).live implies t.active[i] is None by {
                    assert(i < oid);
                    assert(t.overlays[i] == v0.overlays[i]);
                }
                assert forall|p: int| 0 <= p < t.sets.len() implies (#[trigger] t.sets[p]).overlays.len() == t.overlays.len() by {
                    assert(v0.sets[p].overlays.len() == v0.overlays.len());
                }
                if let Some(c) = t.current_set {
                    assert forall|i: int| 0 <= i < t.overlays.len() implies (#[trigger] t.sets[c as int].overlays[i]) is None by {
                        if i < v0.overlays.len() {
                            assert(t.sets[c as int].overlays[i] == v0.sets[c as int].overlays[i]);
                        }
                    }
                }
                assert forall|i: int, j: int| 0 <= i < t.overlays.len() && 0 <= j < t.overlays.len()
                    && (#[trigger] t.overlays[i]).live && (#[trigger] t.overlays[j]).live
                    && t.overlays[i].name == t.overlays[j].name implies i == j by {
                    if i < oid && j == oid {
                        assert(v0.overlays[i].live && v0.overlays[i].name == info.name);
                    }
                    if j < oid && i == oid {
                        assert(v0.overlays[j].live && v0.overlays[j].name == info.name);
                    }
                }
            }
        }
        AddOutcome { id: oid, name, loaded: shown, activated }
    }
}

/// What was taken out with a removed overlay.
pub struct RemovedOverlay<S> {
    pub name: String,
    pub category: OverlayCategory,
    /// Its active state, if it was shown.
    pub state: Option<S>,
}

impl<S> ManagerView<S> {
    /// The manager after overlay `id` was removed.
    pub open spec fn removed(self, id: int) -> Self {
        ManagerView {
            overlays: self.overlays.update(id, InfoView { live: false, ..self.overlays[id] }),
            active: self.active.update(id, None),
            ..self
        }
    }

    /// Overlay `i` is a mirror that is not shown.
    pub open spec fn idle_mirror(self, i: int) -> bool {
        self.overlays[i].live && self.overlays[i].category == OverlayCategory::Mirror && self.active[i] is None
    }

    /// The manager after every idle mirror was removed.
    pub open spec fn mirrors_cleaned(self) -> Self {
        ManagerView {
            overlays: Seq::new(self.overlays.len(), |i: int|
                if self.idle_mirror(i) { InfoView { live: false, ..self.overlays[i] } } else { self.overlays[i] }),
            ..self
        }
    }
}

/// `v` lists, in increasing order, exactly the idle mirrors of `m` below `n`.
pub open spec fn lists_idle_mirrors<S>(v: Seq<usize>, m: ManagerView<S>, n: int) -> bool {
    &&& forall|a: int, b: int| 0 <= a < b < v.len() ==> v[a] < v[b]
    &&& forall|a: int| 0 <= a < v.len() ==> v[a] < n && m.idle_mirror(#[trigger] v[a] as int)
    &&& forall|i: int| 0 <= i < n && #[trigger] m.idle_mirror(i) ==> v.contains(i as usize)
}

impl<S> OverlayWindowManager<S> {
    /// Removes overlay `id`; its id is not given out again. Returns what it
    /// held, or `None` if there is no such overlay.
    pub fn remove(&mut self, id: usize) -> (r: Option<RemovedOverlay<S>>)
        requires
            old(self).wf(),
        ensures
            final(self).wf(),
            !(id < old(self)@.overlays.len() && old(self)@.overlays[id as int].live) ==> r is None && final(self)@ == old(self)@,
            id < old(self)@.overlays.len() && old(self)@.overlays[id as int].live ==> {
                &&& r is Some
                &&& final(self)@ == old(self)@.removed(id as int)
                &&& r.unwrap().name@ == old(self)@.overlays[id as int].name
                &&& r.unwrap().category == old(self)@.overlays[id as int].category
                &&& r.unwrap().state == old(self)@.active[id as int]
            },
    {
        if id >= self.overlays.len() || !self.overlays[id].live {
            return None;
        }
        let ghost v0 = self@;
        let state = self.active[id].take();
        let name = self.overlays[id].name.clone();
        let category = self.overlays[id].category;
        self.overlays[id].live = false;
        proof {
            let t = v0.removed(id as int);
            assert(self@.overlays =~= t.overlays);
            assert(self@.active =~= t.active);
            assert(self@ == t);
            assert forall|i: int, j: int| 0 <= i < t.overlays.len() && 0 <= j < t.overlays.len()
                && (#[trigger] t.overlays[i]).live && (#[trigger] t.overlays[j]).live
                && t.overlays[i].name == t.overlays[j].name implies i == j by {
                assert(t.overlays[i] == v0.overlays[i]);
                assert(t.overlays[j] == v0.overlays[j]);
            }
        }
        Some(RemovedOverlay { name, category, state })
    }

    /// Removes every mirror that is not shown. Returns their ids, in
    /// increasing order.
    pub fn cleanup_mirrors(&mut self) -> (r: Vec<usize>)
        requires
            old(self).wf(),
        ensures
            final(self).wf(),
            final(self)@ == old(self)@.mirrors_cleaned(),
            lists_idle_mirrors(r@, old(self)@, old(self)@.overlays.len() as int),
    {
        let ghost v0 = self@;
        let n = self.overlays.len();
        let mut removed: Vec<usize> = Vec::new();
        let mut i: usize = 0;
        while i < n
            invariant
                v0 == old(self)@,
                v0.wf(),
                n == v0.overlays.len(),
                i <= n,
                self.overlays@.len() == n,
                self.active == old(self).active,
                self.sets == old(self).sets,
                self.global_set == old(self).global_set,
                self.current_set == old(self).current_set,
                self.restore_set == old(self).restore_set,
                self.keyboard_id == old(self).keyboard_id,
                self.watch_id == old(self).watch_id,
                self.edit_mode == old(self).edit_mode,
                self.initialized == old(self).initialized,
                forall|j: int| 0 <= j < i ==> (#[trigger] self.overlays@[j])@ == v0.mirrors_cleaned().overlays[j],
                forall|j: int| i <= j < n ==> (#[trigger] self.overlays@[j])@ == v0.overlays[j],
                lists_idle_mirrors(removed@, v0, i as int),
            decreases n - i,
        {
            proof {
                assert(self.overlays@[i as int]@ == v0.overlays[i as int]);
                assert(self.active@[i as int] == v0.active[i as int]);
            }
            let idle = self.overlays[i].live && self.active[i].is_none() && match self.overlays[i].category {
                OverlayCategory::Mirror => true,
                _ => false,
            };
            let ghost ov = self.overlays@;
            if idle {
                self.overlays[i].live = false;
                let ghost before = removed@;
                removed.push(i);
                proof {
                    assert forall|j: int| 0 <= j < i + 1 && #[trigger] v0.idle_mirror(j) implies removed@.contains(j as usize) by {
                        if j < i {
                            assert(before.contains(j as usize));
                            let w = choose|w: int| 0 <= w < before.len() && before[w] == j as usize;
                            assert(removed@[w] == j as usize);
                        } else {
                            assert(removed@[before.len() as int] == i);
                        }
                    }
                }
            } else {
                proof {
                    assert forall|j: int| 0 <= j < i + 1 && #[trigger] v0.idle_mirror(j) implies removed@.contains(j as usize) by {
                        assert(j < i);
                    }
                }
            }
            proof {
                assert forall|j: int| 0 <= j < i + 1 implies (#[trigger] self.overlays@[j])@ == v0.mirrors_cleaned().overlays[j] by {
                    if j < i {
                        assert(self.overlays@[j] == ov[j]);
                    }
                }
                assert forall|j: int| i + 1 <= j < n implies (#[trigger] self.overlays@[j])@ == v0.overlays[j] by {
                    assert(self.overlays@[j] == ov[j]);
                }
            }
            i += 1;
        }
        proof {
            let t = v0.mirrors_cleaned();
            assert(self@.overlays =~= t.overlays);
            assert(self@ == t);
            assert forall|a: int, b: int| 0 <= a < t.overlays.len() && 0 <= b < t.overlays.len()
                && (#[trigger] t.overlays[a]).live && (#[trigger] t.overlays[b]).live
                && t.overlays[a].name == t.overlays[b].name implies a == b by {
                assert(v0.overlays[a].live && v0.overlays[b].live);
            }
        }
        removed
    }
}

proof fn lemma_named_view_push<S>(v: Seq<NamedState<S>>, e: NamedState<S>)
    requires
        names_unique(v.push(e)),
    ensures
        names_unique(v),
        named_view(v.push(e)) == named_view(v).insert(e.name@, e.state),
{
    let w = v.push(e);
    let n = v.len() as int;
    assert forall|a: int, b: int| 0 <= a < v.len() && 0 <= b < v.len() && #[trigger] v[a].name@ == #[trigger] v[b].name@ implies a == b by {
        assert(w[a] == v[a]);
        assert(w[b] == v[b]);
    }
    lemma_named_view_at(w, n);
    assert forall|key: Seq<char>| key != e.name@ implies
        (#[trigger] named_view(w).dom().contains(key) == named_view(v).dom().contains(key)) && (named_view(w).dom().contains(key) ==> named_view(w)[key] == named_view(v)[key]) by {
        if named_view(w).dom().contains(key) {
            let a = choose|a: int| 0 <= a < w.len() && #[trigger] w[a].name@ == key;
            assert(a < n);
            assert(w[a] == v[a]);
            lemma_named_view_at(w, a);
            lemma_named_view_at(v, a);
        }
        if named_view(v).dom().contains(key) {
            let a = choose|a: int| 0 <= a < v.len() && #[trigger] v[a].name@ == key;
            assert(w[a] == v[a]);
        }
    }
    assert(named_view(w) =~= named_view(v).insert(e.name@, e.state));
}

/// A window set as saved in the configuration: states by overlay name.
pub struct SavedWindowSet<S> {
    pub overlays: Vec<NamedState<S>>,
    pub hidden_overlays: Vec<NamedState<S>>,
}

/// The model of a [`SavedWindowSet`].
pub struct SavedSetView<S> {
    pub overlays: Map<Seq<char>, S>,
    pub hidden: Map<Seq<char>, S>,
}

impl<S> View for SavedWindowSet<S> {
    type V = SavedSetView<S>;

    open spec fn view(&self) -> SavedSetView<S> {
        SavedSetView { overlays: named_view(self.overlays@), hidden: named_view(self.hidden_overlays@) }
    }
}

impl<S> SavedWindowSet<S> {
    /// No name occurs twice in either list (as in the maps it was read from).
    pub open spec fn lists_unique(&self) -> bool {
        names_unique(self.overlays@) && names_unique(self.hidden_overlays@)
    }
}

impl<S> ManagerView<S> {
    /// The names of no live overlay.
    pub open spec fn untaken(self) -> Set<Seq<char>> {
        Set::new(|k: Seq<char>| self.lookup(k) is None)
    }

    /// The names of live overlays in the given shown state.
    pub open spec fn names_shown(self, shown: bool) -> Set<Seq<char>> {
        Set::new(|k: Seq<char>| self.lookup(k) is Some && (self.active[self.lookup(k).unwrap() as int] is Some) == shown)
    }

    /// A set rebuilt from a saved one: states of live overlays by id, the
    /// others kept by name until such an overlay is added.
    pub open spec fn restored_set(self, saved: SavedSetView<S>) -> SetView<S> {
        SetView {
            overlays: Seq::new(self.overlays.len(), |i: int|
                if self.overlays[i].live && saved.overlays.contains_key(self.overlays[i].name) { Some(saved.overlays[self.overlays[i].name]) } else { None }),
            inactive: saved.overlays.restrict(self.untaken()),
            hidden: saved.hidden,
        }
    }

    /// Overlay `i` is named in the saved global states `g`.
    pub open spec fn made_global(self, g: Map<Seq<char>, S>, i: int) -> bool {
        self.overlays[i].live && g.contains_key(self.overlays[i].name)
    }

    /// The manager with the global states `g` applied: the overlays they
    /// name become global; a shown one takes its saved state, a hidden one
    /// keeps it for when it is toggled on; states of unknown overlays wait.
    pub open spec fn globals_applied(self, g: Map<Seq<char>, S>) -> Self {
        ManagerView {
            overlays: Seq::new(self.overlays.len(), |i: int|
                if self.made_global(g, i) { InfoView { global: true, ..self.overlays[i] } } else { self.overlays[i] }),
            active: Seq::new(self.overlays.len(), |i: int|
                if self.made_global(g, i) && self.active[i] is Some { Some(g[self.overlays[i].name]) } else { self.active[i] }),
            global_set: SetView {
                overlays: self.global_set.overlays,
                inactive: self.global_set.inactive.union_prefer_right(g.restrict(self.untaken())),
                hidden: self.global_set.hidden.union_prefer_right(g.restrict(self.names_shown(false))),
            },
            ..self
        }
    }

    /// The manager after a saved layout was loaded: every set is hidden and
    /// replaced by the saved ones, the global states are applied, and the
    /// set that `show_hide` brings back is `last` (or the last one). Nothing
    /// happens when no set was saved.
    pub open spec fn layout_restored(self, saved: Seq<SavedSetView<S>>, g: Map<Seq<char>, S>, last: usize) -> Self {
        if saved.len() == 0 {
            self
        } else {
            let w = self.switched(None);
            let rebuilt = ManagerView {
                sets: Seq::new(saved.len(), |q: int| w.restored_set(saved[q])),
                restore_set: if last < saved.len() { last } else { (saved.len() - 1) as usize },
                ..w
            };
            rebuilt.globals_applied(g)
        }
    }
}

proof fn lemma_unique_take<S>(v: Seq<NamedState<S>>, j: int)
    requires
        names_unique(v),
        0 <= j < v.len(),
    ensures
        v.take(j + 1) == v.take(j).push(v[j]),
        names_unique(v.take(j + 1)),
        named_view(v.take(j + 1)) == named_view(v.take(j)).insert(v[j].name@, v[j].state),
        !named_view(v.take(j)).contains_key(v[j].name@),
{
    assert(v.take(j + 1) =~= v.take(j).push(v[j]));
    let t = v.take(j + 1);
    assert forall|a: int, b: int| 0 <= a < t.len() && 0 <= b < t.len() && #[trigger] t[a].name@ == #[trigger] t[b].name@ implies a == b by {
        assert(t[a] == v[a]);
        assert(t[b] == v[b]);
    }
    lemma_named_view_push(v.take(j), v[j]);
    if named_view(v.take(j)).contains_key(v[j].name@) {
        let a = choose|a: int| 0 <= a < v.take(j).len() && #[trigger] v.take(j)[a].name@ == v[j].name@;
        assert(v.take(j)[a] == v[a]);
    }
}

impl<S> OverlayWindowManager<S> {
    /// Builds a set from a saved one.
    fn rebuild_set(&self, sv: SavedWindowSet<S>) -> (ws: OverlayWindowSet<S>)
        requires
            self.wf(),
            sv.lists_unique(),
        ensures
            ws.lists_unique(),
            ws@ == self@.restored_set(sv@),
    {
        let ghost v = self@;
        let ghost sv_view = sv@;
        let n = self.overlays.len();
        let mut ws = OverlayWindowSet::empty(n);
        let SavedWindowSet { overlays: mut entries, hidden_overlays } = sv;
        let ghost orig = entries@;
        let ghost mut j: int = 0;
        proof {
            assert(orig.take(0) =~= Seq::<NamedState<S>>::empty());
            assert(named_view(orig.take(0)) =~= Map::<Seq<char>, S>::empty());
            assert(ws.overlays@ =~= Seq::new(n as nat, |i: int|
                if v.overlays[i].live && named_view(orig.take(0)).contains_key(v.overlays[i].name) { Some(named_view(orig.take(0))[v.overlays[i].name]) } else { None }));
            assert(named_view(ws.inactive_overlays@) =~= named_view(orig.take(0)).restrict(v.untaken()));
        }
        while entries.len() > 0
            invariant
                self.wf(),
                v == self@,
                n == v.overlays.len(),
                names_unique(orig),
                0 <= j <= orig.len(),
                entries@ == orig.skip(j),
                ws.lists_unique(),
                ws.overlays@ == Seq::new(n as nat, |i: int|
                    if v.overlays[i].live && named_view(orig.take(j)).contains_key(v.overlays[i].name) { Some(named_view(orig.take(j))[v.overlays[i].name]) } else { None }),
                named_view(ws.inactive_overlays@) == named_view(orig.take(j)).restrict(v.untaken()),
            decreases entries.len(),
        {
            proof {
                assert(orig.skip(j)[0] == orig[j]);
                lemma_unique_take(orig, j);
            }
            let ghost old_ws = ws.overlays@;
            let ghost old_in = named_view(ws.inactive_overlays@);
            let e = entries.remove(0);
            let ghost k = e.name@;
            let ghost p0 = named_view(orig.take(j));
            let ghost p1 = named_view(orig.take(j + 1));
            proof {
                assert(entries@ =~= orig.skip(j + 1));
                lemma_lookup(v, k);
            }
            match self.lookup(e.name.as_str()) {
                Some(id) => {
                    ws.overlays.set(id, Some(e.state));
                    proof {
                        assert forall|i: int| 0 <= i < n implies #[trigger] ws.overlays@[i] ==
                            (if v.overlays[i].live && p1.contains_key(v.overlays[i].name) { Some(p1[v.overlays[i].name]) } else { None }) by {
                            if i != id && v.overlays[i].live && v.overlays[i].name == k {
                                assert(v.overlays[id as int].live);
                            }
                        }
                        assert(!v.untaken().contains(k));
                        assert(p1.restrict(v.untaken()) =~= p0.restrict(v.untaken()));
                    }
                },
                None => {
                    named_set(&mut ws.inactive_overlays, e.name, e.state);
                    proof {
                        assert forall|i: int| 0 <= i < n implies #[trigger] ws.overlays@[i] ==
                            (if v.overlays[i].live && p1.contains_key(v.overlays[i].name) { Some(p1[v.overlays[i].name]) } else { None }) by {
                            if v.overlays[i].live {
                                assert(v.overlays[i].name != k);
                            }
                        }
                        assert(v.untaken().contains(k));
                        assert(p1.restrict(v.untaken()) =~= old_in.insert(k, e.state));
                    }
                },
            }
            proof {
                assert(ws.overlays@ =~= Seq::new(n as nat, |i: int|
                    if v.overlays[i].live && p1.contains_key(v.overlays[i].name) { Some(p1[v.overlays[i].name]) } else { None }));
                j = j + 1;
            }
        }
        proof {
            assert(orig.take(j) =~= orig);
        }
        ws.hidden_overlays = hidden_overlays;
        proof {
            assert(ws@.overlays =~= v.restored_set(sv_view).overlays);
        }
        ws
    }
}

/// `v` lists, once each, the overlays that the global states `g` give a new
/// active state (those the caller re-anchors).
pub open spec fn lists_reloaded<S>(v: Seq<usize>, m: ManagerView<S>, g: Map<Seq<char>, S>) -> bool {
    &&& v.no_duplicates()
    &&& forall|a: int| 0 <= a < v.len() ==> v[a] < m.overlays.len() && m.made_global(g, #[trigger] v[a] as int) && m.active[v[a] as int] is Some
    &&& forall|i: int| 0 <= i < m.overlays.len() && #[trigger] m.made_global(g, i) && m.active[i] is Some ==> v.contains(i as usize)
}

proof fn lemma_lookup_same<S>(a: ManagerView<S>, b: ManagerView<S>, k: Seq<char>)
    requires
        a.wf(),
        a.overlays.len() == b.overlays.len(),
        forall|i: int| 0 <= i < a.overlays.len() ==> (#[trigger] a.overlays[i]).live == b.overlays[i].live && a.overlays[i].name == b.overlays[i].name,
    ensures
        a.lookup(k) == b.lookup(k),
{
    lemma_lookup(a, k);
    lemma_lookup(b, k);
    if let Some(i) = a.lookup(k) {
        if let Some(j) = b.lookup(k) {
            assert(a.overlays[j as int].live);
        } else {
            assert(b.overlays[i as int].name == k);
        }
    } else if let Some(j) = b.lookup(k) {
        assert(a.overlays[j as int].name == k);
    }
}

impl<S> OverlayWindowManager<S> {
    /// Applies the saved global states. Returns the overlays that got a new
    /// active state.
    fn apply_globals(&mut self, global: Vec<NamedState<S>>) -> (r: Vec<usize>)
        requires
            old(self).wf(),
            names_unique(global@),
        ensures
            final(self).wf(),
            final(self)@ == old(self)@.globals_applied(named_view(global@)),
            lists_reloaded(r@, old(self)@, named_view(global@)),
    {
        let ghost b = self@;
        let ghost gorig = global@;
        let n = self.overlays.len();
        let mut global = global;
        let mut reset: Vec<usize> = Vec::new();
        let ghost mut j: int = 0;
        proof {
            assert(gorig.take(0) =~= Seq::<NamedState<S>>::empty());
            assert(named_view(gorig.take(0)) =~= Map::<Seq<char>, S>::empty());
            let t = b.globals_applied(named_view(gorig.take(0)));
            assert(t.overlays =~= b.overlays);
            assert(t.active =~= b.active);
            assert(t.global_set.inactive =~= b.global_set.inactive);
            assert(t.global_set.hidden =~= b.global_set.hidden);
            assert(self@ == t);
        }
        while global.len() > 0
            invariant
                b.wf(),
                b == old(self)@,
                n == b.overlays.len(),
                names_unique(gorig),
                0 <= j <= gorig.len(),
                global@ == gorig.skip(j),
                self.lists_ok(),
                self@ == b.globals_applied(named_view(gorig.take(j))),
                lists_reloaded(reset@, b, named_view(gorig.take(j))),
            decreases global.len(),
        {
            proof {
                assert(gorig.skip(j)[0] == gorig[j]);
                lemma_unique_take(gorig, j);
            }
            let ghost v1 = self@;
            let e = global.remove(0);
            let ghost k = e.name@;
            let ghost p0 = named_view(gorig.take(j));
            let ghost p1 = named_view(gorig.take(j + 1));
            let ghost t = b.globals_applied(p1);
            proof {
                assert(global@ =~= gorig.skip(j + 1));
                lemma_lookup(b, k);
                assert forall|i: int| 0 <= i < n implies (#[trigger] b.overlays[i]).live == v1.overlays[i].live && b.overlays[i].name == v1.overlays[i].name by {}
                lemma_lookup_same(b, v1, k);
            }
            match self.lookup(e.name.as_str()) {
                Some(oid) => {
                    proof {
                        assert(!b.made_global(p0, oid as int));
                        assert(v1.active[oid as int] == b.active[oid as int]);
                        assert(self.overlays@[oid as int]@ == v1.overlays[oid as int]);
                    }
                    self.overlays[oid].global = true;
                    if self.active[oid].is_none() {
                        named_set(&mut self.global_set.hidden_overlays, e.name, e.state);
                        proof {
                            assert(b.names_shown(false).contains(k));
                            assert(self@.global_set.hidden =~= t.global_set.hidden);
                        }
                    } else {
                        self.active.set(oid, Some(e.state));
                        let ghost before = reset@;
                        reset.push(oid);
                        proof {
                            assert(!b.names_shown(false).contains(k));
                            assert(t.global_set.hidden =~= v1.global_set.hidden);
                            assert(!before.contains(oid));
                            assert forall|i: int| 0 <= i < n && #[trigger] b.made_global(p1, i) && b.active[i] is Some implies reset@.contains(i as usize) by {
                                if i == oid {
                                    assert(reset@[before.len() as int] == oid);
                                } else {
                                    if b.overlays[i].name == k {
                                        assert(b.overlays[oid as int].live);
                                    }
                                    assert(b.made_global(p0, i));
                                    assert(before.contains(i as usize));
                                    let w = choose|w: int| 0 <= w < before.len() && before[w] == i as usize;
                                    assert(reset@[w] == i as usize);
                                }
                            }
                            assert forall|a: int| 0 <= a < reset@.len() implies reset@[a] < n && b.made_global(p1, #[trigger] reset@[a] as int) && b.active[reset@[a] as int] is Some by {
                                if a < before.len() {
                                    assert(reset@[a] == before[a]);
                                    assert(b.made_global(p0, before[a] as int));
                                }
                            }
                        }
                    }
                    proof {
                        assert(!b.untaken().contains(k));
                        assert(self@.global_set.inactive =~= t.global_set.inactive);
                        assert forall|i: int| 0 <= i < n implies #[trigger] self@.overlays[i] == t.overlays[i] by {
                            if i != oid && b.overlays[i].live && b.overlays[i].name == k {
                                assert(b.overlays[oid as int].live);
                            }
                        }
                        assert(self@.overlays =~= t.overlays);
                        assert forall|i: int| 0 <= i < n implies #[trigger] self@.active[i] == t.active[i] by {
                            if i != oid && b.overlays[i].live && b.overlays[i].name == k {
                                assert(b.overlays[oid as int].live);
                            }
                        }
                        assert(self@.active =~= t.active);
                        if b.active[oid as int] is None {
                            assert forall|a: int| 0 <= a < reset@.len() implies reset@[a] < n && b.made_global(p1, #[trigger] reset@[a] as int) && b.active[reset@[a] as int] is Some by {
                                assert(b.made_global(p0, reset@[a] as int));
                            }
                            assert forall|i: int| 0 <= i < n && #[trigger] b.made_global(p1, i) && b.active[i] is Some implies reset@.contains(i as usize) by {
                                if b.overlays[i].name == k {
                                    assert(i == oid);
                                }
                                assert(b.made_global(p0, i));
                            }
                        }
                    }
                },
                None => {
                    named_set(&mut self.global_set.inactive_overlays, e.name, e.state);
                    proof {
                        assert(b.untaken().contains(k));
                        assert(!b.names_shown(false).contains(k));
                        assert(self@.global_set.inactive =~= t.global_set.inactive);
                        assert(t.global_set.hidden =~= v1.global_set.hidden);
                        assert forall|i: int| 0 <= i < n implies #[trigger] b.made_global(p1, i) == b.made_global(p0, i) by {
                            if b.overlays[i].live {
                                assert(b.overlays[i].name != k);
                            }
                        }
                        assert(self@.overlays =~= t.overlays);
                        assert(self@.active =~= t.active);
                        assert forall|a: int| 0 <= a < reset@.len() implies reset@[a] < n && b.made_global(p1, #[trigger] reset@[a] as int) && b.active[reset@[a] as int] is Some by {
                            assert(b.made_global(p0, reset@[a] as int));
                        }
                        assert forall|i: int| 0 <= i < n && #[trigger] b.made_global(p1, i) && b.active[i] is Some implies reset@.contains(i as usize) by {
                            assert(b.made_global(p0, i));
                        }
                    }
                },
            }
            proof {
                assert(self@ == t);
                j = j + 1;
            }
        }
        proof {
            assert(gorig.take(j) =~= gorig);
            let t = self@;
            assert forall|i: int, q: int| 0 <= i < t.overlays.len() && 0 <= q < t.overlays.len()
                && (#[trigger] t.overlays[i]).live && (#[trigger] t.overlays[q]).live
                && t.overlays[i].name == t.overlays[q].name implies i == q by {
                assert(b.overlays[i].live && b.overlays[q].live);
            }
        }
        reset
    }
}

impl<S> OverlayWindowManager<S> {
    /// Loads a saved layout: hides every set, replaces the sets by the
    /// saved ones, applies the saved global states and makes `last_set` (or
    /// the last set) the one that `show_hide` brings back. Keeps everything
    /// when no set was saved. Returns the overlays that got a new active
    /// state, which the caller re-anchors.
    pub fn restore_layout(&mut self, saved: Vec<SavedWindowSet<S>>, global: Vec<NamedState<S>>, last_set: usize) -> (r: Vec<usize>)
        requires
            old(self).wf(),
            forall|q: int| 0 <= q < saved@.len() ==> (#[trigger] saved@[q]).lists_unique(),
            names_unique(global@),
        ensures
            final(self).wf(),
            final(self)@ == old(self)@.layout_restored(saved@.map_values(|s: SavedWindowSet<S>| s@), named_view(global@), last_set),
            saved@.len() == 0 ==> r@.len() == 0,
            saved@.len() > 0 ==> lists_reloaded(r@, old(self)@.switched(None), named_view(global@)),
    {
        if saved.len() == 0 {
            return Vec::new();
        }
        let ghost v0 = self@;
        let ghost sviews = saved@.map_values(|s: SavedWindowSet<S>| s@);
        self.switch_to_set(None, false);
        let ghost w = self@;
        let mut saved = saved;
        let ghost sorig = saved@;
        let mut sets: Vec<OverlayWindowSet<S>> = Vec::new();
        let ghost mut j: int = 0;
        while saved.len() > 0
            invariant
                self.wf(),
                self@ == w,
                0 <= j <= sorig.len(),
                saved@ == sorig.skip(j),
                forall|q: int| 0 <= q < sorig.len() ==> (#[trigger] sorig[q]).lists_unique(),
                sets@.len() == j,
                forall|q: int| 0 <= q < j ==> (#[trigger] sets@[q])@ == w.restored_set(sorig[q]@) && sets@[q].lists_unique(),
            decreases saved.len(),
        {
            proof {
                assert(sorig.skip(j)[0] == sorig[j]);
            }
            let sv = saved.remove(0);
            proof {
                assert(saved@ =~= sorig.skip(j + 1));
            }
            let ws = self.rebuild_set(sv);
            sets.push(ws);
            proof {
                j = j + 1;
            }
        }
        let count = sets.len();
        self.sets = sets;
        self.restore_set = if last_set < count { last_set } else { count - 1 };
        proof {
            let b = ManagerView {
                sets: Seq::new(sviews.len(), |q: int| w.restored_set(sviews[q])),
                restore_set: if last_set < sviews.len() { last_set } else { (sviews.len() - 1) as usize },
                ..w
            };
            assert(self@.sets =~= b.sets);
            assert(self@ == b);
            assert(b.wf()) by {
                assert forall|q: int| 0 <= q < b.sets.len() implies (#[trigger] b.sets[q]).overlays.len() == b.overlays.len() by {}
            }
        }
        let ghost b = self@;
        let ghost g = named_view(global@);
        let r = self.apply_globals(global);
        proof {
            assert(b.overlays == w.overlays && b.active == w.active);
            assert forall|a: int| 0 <= a < r@.len() implies r@[a] < w.overlays.len() && w.made_global(g, #[trigger] r@[a] as int) && w.active[r@[a] as int] is Some by {
                assert(b.made_global(g, r@[a] as int));
            }
            assert forall|i: int| 0 <= i < w.overlays.len() && #[trigger] w.made_global(g, i) && w.active[i] is Some implies r@.contains(i as usize) by {
                assert(b.made_global(g, i));
            }
        }
        r
    }
}

/// Why an overlay's state could not be read.
#[derive(Clone, Copy, PartialEq, Eq, Structural, Debug)]
pub enum OverlayLookupError {
    NotFound,
    NotVisible,
}

/// The message for a failed lookup of the overlay named `name`.
pub open spec fn lookup_error_message(e: OverlayLookupError, name: Seq<char>) -> Seq<char> {
    match e {
        OverlayLookupError::NotFound => "overlay '"@ + name + "' not found"@,
        OverlayLookupError::NotVisible => "overlay '"@ + name + "' is not visible"@,
    }
}

impl OverlayLookupError {
    /// The message for a failed lookup of the overlay named `name`.
    pub fn message(&self, name: &str) -> (m: String)
        ensures
            m@ == lookup_error_message(*self, name@),
    {
        let quoted = String::from_str("overlay '").concat(name);
        match self {
            OverlayLookupError::NotFound => quoted.concat("' not found"),
            OverlayLookupError::NotVisible => quoted.concat("' is not visible"),
        }
    }
}

impl<S> OverlayWindowManager<S> {
    /// The overlay named `name`, if it is shown.
    pub fn visible_overlay(&self, name: &str) -> (r: Result<usize, OverlayLookupError>)
        requires
            self.wf(),
        ensures
            match self@.lookup(name@) {
                None => r == Err::<usize, OverlayLookupError>(OverlayLookupError::NotFound),
                Some(i) => if self@.active[i as int] is Some { r == Ok::<usize, OverlayLookupError>(i) } else {
                    r == Err::<usize, OverlayLookupError>(OverlayLookupError::NotVisible)
                },
            },
    {
        match self.lookup(name) {
            None => Err(OverlayLookupError::NotFound),
            Some(i) => {
                proof {
                    lemma_lookup(self@, name@);
                }
                if self.active[i].is_some() {
                    Ok(i)
                } else {
                    Err(OverlayLookupError::NotVisible)
                }
            },
        }
    }
}

/// `actual` holds, under the same names, clones of the states of `expected`.
pub open spec fn clones_of<S: Clone>(expected: Map<Seq<char>, S>, actual: Map<Seq<char>, S>) -> bool {
    &&& actual.dom() == expected.dom()
    &&& forall|n: Seq<char>| #[trigger] expected.contains_key(n) ==> cloned(expected[n], actual[n])
}

impl<S> ManagerView<S> {
    /// Overlay `i`, among those below `upto`, exists and set `k` holds a state for it.
    pub open spec fn saved_by_id(self, k: int, i: int, upto: int) -> bool {
        0 <= i < upto && self.overlays[i].live && self.sets[k].overlays[i] is Some
    }

    /// The states set `k` holds for live overlays below `upto`, by name.
    pub open spec fn states_by_name(self, k: int, upto: int) -> Map<Seq<char>, S> {
        Map::new(
            |n: Seq<char>| exists|i: int| self.saved_by_id(k, i, upto) && #[trigger] self.overlays[i].name == n,
            |n: Seq<char>| self.sets[k].overlays[(choose|i: int| self.saved_by_id(k, i, upto) && #[trigger] self.overlays[i].name == n)].unwrap(),
        )
    }

    /// What set `k` saves: its states by overlay name, and the states it
    /// keeps for overlays that do not exist where no live overlay has the name.
    pub open spec fn saved_overlays(self, k: int) -> Map<Seq<char>, S> {
        self.sets[k].inactive.union_prefer_right(self.states_by_name(k, self.overlays.len() as int))
    }

    /// The watch's state, saved as the global set (when the watch exists and is shown).
    pub open spec fn saved_global(self) -> Map<Seq<char>, S> {
        match self.watch_id {
            Some(w) => if self.overlays[w as int].live && self.active[w as int] is Some {
                Map::empty().insert(self.overlays[w as int].name, self.active[w as int].unwrap())
            } else {
                Map::empty()
            },
            None => Map::empty(),
        }
    }
}

/// A layout as saved: the sets, the global states and the set to show first.
pub struct PersistedLayout<S> {
    pub sets: Vec<SavedWindowSet<S>>,
    pub global: Vec<NamedState<S>>,
    pub last_set: usize,
}

proof fn lemma_states_by_name_step<S>(v: ManagerView<S>, k: int, i: int)
    requires
        v.wf(),
        0 <= k < v.sets.len(),
        0 <= i < v.overlays.len(),
    ensures
        v.saved_by_id(k, i, i + 1) ==> v.states_by_name(k, i + 1) == v.states_by_name(k, i).insert(v.overlays[i].name, v.sets[k].overlays[i].unwrap()),
        v.saved_by_id(k, i, i + 1) ==> !v.states_by_name(k, i).contains_key(v.overlays[i].name),
        !v.saved_by_id(k, i, i + 1) ==> v.states_by_name(k, i + 1) == v.states_by_name(k, i),
{
    let a = v.states_by_name(k, i);
    let b = v.states_by_name(k, i + 1);
    if v.saved_by_id(k, i, i + 1) {
        let n0 = v.overlays[i].name;
        if a.contains_key(n0) {
            let j = choose|j: int| v.saved_by_id(k, j, i) && #[trigger] v.overlays[j].name == n0;
            assert(v.overlays[j].live && v.overlays[i].live);
        }
        assert forall|n: Seq<char>| #[trigger] b.contains_key(n) == a.insert(n0, v.sets[k].overlays[i].unwrap()).contains_key(n) by {
            if b.contains_key(n) && n != n0 {
                let j = choose|j: int| v.saved_by_id(k, j, i + 1) && #[trigger] v.overlays[j].name == n;
                assert(v.saved_by_id(k, j, i));
            }
            if a.contains_key(n) {
                let j = choose|j: int| v.saved_by_id(k, j, i) && #[trigger] v.overlays[j].name == n;
                assert(v.saved_by_id(k, j, i + 1));
            }
            if n == n0 {
                assert(v.saved_by_id(k, i, i + 1) && v.overlays[i].name == n0);
            }
        }
        assert forall|n: Seq<char>| #[trigger] b.contains_key(n) implies b[n] == a.insert(n0, v.sets[k].overlays[i].unwrap())[n] by {
            let j = choose|j: int| v.saved_by_id(k, j, i + 1) && #[trigger] v.overlays[j].name == n;
            if n == n0 {
                assert(v.overlays[j].live && v.overlays[i].live);
                assert(j == i);
            } else {
                assert(v.saved_by_id(k, j, i));
                let j2 = choose|j2: int| v.saved_by_id(k, j2, i) && #[trigger] v.overlays[j2].name == n;
                assert(v.overlays[j].live && v.overlays[j2].live);
                assert(j == j2);
            }
        }
        assert(b =~= a.insert(n0, v.sets[k].overlays[i].unwrap()));
    } else {
        assert forall|n: Seq<char>| #[trigger] b.contains_key(n) == a.contains_key(n) by {
            if b.contains_key(n) {
                let j = choose|j: int| v.saved_by_id(k, j, i + 1) && #[trigger] v.overlays[j].name == n;
                assert(j != i);
                assert(v.saved_by_id(k, j, i));
            }
            if a.contains_key(n) {
                let j = choose|j: int| v.saved_by_id(k, j, i) && #[trigger] v.overlays[j].name == n;
                assert(v.saved_by_id(k, j, i + 1));
            }
        }
        assert forall|n: Seq<char>| #[trigger] b.contains_key(n) implies b[n] == a[n] by {
            let j = choose|j: int| v.saved_by_id(k, j, i + 1) && #[trigger] v.overlays[j].name == n;
            let j2 = choose|j2: int| v.saved_by_id(k, j2, i) && #[trigger] v.overlays[j2].name == n;
            assert(v.saved_by_id(k, j, i));
            assert(v.overlays[j].live && v.overlays[j2].live);
        }
        assert(b =~= a);
    }
}

impl<S: Clone> OverlayWindowManager<S> {
    /// Saves set `k`.
    fn save_set(&self, k: usize) -> (r: SavedWindowSet<S>)
        requires
            self.wf(),
            k < self@.sets.len(),
        ensures
            r.lists_unique(),
            clones_of(self@.saved_overlays(k as int), r@.overlays),
            clones_of(self@.sets[k as int].hidden, r@.hidden),
    {
        let ghost v = self@;
        let n = self.overlays.len();
        let mut out: Vec<NamedState<S>> = Vec::new();
        let mut i: usize = 0;
        proof {
            assert(v.states_by_name(k as int, 0) =~= Map::<Seq<char>, S>::empty());
            assert(named_view(out@) =~= Map::<Seq<char>, S>::empty());
        }
        while i < n
            invariant
                self.wf(),
                v == self@,
                k < v.sets.len(),
                n == v.overlays.len(),
                i <= n,
                names_unique(out@),
                clones_of(v.states_by_name(k as int, i as int), named_view(out@)),
            decreases n - i,
        {
            proof {
                lemma_states_by_name_step(v, k as int, i as int);
                assert(v.overlays[i as int] == self.overlays@[i as int]@);
                assert(v.sets[k as int] == self.sets@[k as int]@);
            }
            if self.overlays[i].live {
                match &self.sets[k].overlays[i] {
                    Some(st) => {
                        let name = self.overlays[i].name.clone();
                        let copy = st.clone();
                        let ghost before = named_view(out@);
                        named_set(&mut out, name, copy);
                        proof {
                            let e = v.states_by_name(k as int, i + 1);
                            assert forall|m: Seq<char>| #[trigger] e.contains_key(m) implies cloned(e[m], named_view(out@)[m]) by {
                                if m != v.overlays[i as int].name {
                                    assert(v.states_by_name(k as int, i as int).contains_key(m));
                                }
                            }
                            assert(named_view(out@).dom() =~= e.dom());
                        }
                    },
                    None => {},
                }
            }
            i += 1;
        }
        let ghost by_id = v.states_by_name(k as int, n as int);
        let inactive = &self.sets[k].inactive_overlays;
        let ghost inorig = inactive@;
        proof {
            assert(v.sets[k as int] == self.sets@[k as int]@);
            assert(self.sets@[k as int].lists_unique());
            assert(inorig.take(0) =~= Seq::<NamedState<S>>::empty());
            assert(named_view(inorig.take(0)) =~= Map::<Seq<char>, S>::empty());
            assert(named_view(inorig.take(0)).union_prefer_right(by_id) =~= by_id);
        }
        let mut j: usize = 0;
        while j < inactive.len()
            invariant
                inorig == inactive@,
                names_unique(inorig),
                j <= inorig.len(),
                names_unique(out@),
                clones_of(named_view(inorig.take(j as int)).union_prefer_right(by_id), named_view(out@)),
                forall|m: Seq<char>| #[trigger] by_id.contains_key(m) ==> named_view(out@).contains_key(m),
            decreases inorig.len() - j,
        {
            proof {
                lemma_unique_take(inorig, j as int);
            }
            let e = &inactive[j];
            match find_named(&out, e.name.as_str()) {
                Some(_) => {
                    proof {
                        let m = e.name@;
                        let a = named_view(inorig.take(j as int)).union_prefer_right(by_id);
                        let b = named_view(inorig.take(j + 1)).union_prefer_right(by_id);
                        lemma_named_view_at(out@, 0);
                        assert(named_view(out@).contains_key(m)) by {
                            let q = choose|q: int| 0 <= q < out@.len() && out@[q].name@ == m;
                            assert(out@[q].name@ == m);
                        }
                        assert(a.contains_key(m));
                        assert(by_id.contains_key(m)) by {
                            if !by_id.contains_key(m) {
                                assert(!named_view(inorig.take(j as int)).contains_key(m));
                            }
                        }
                        assert(b =~= a);
                    }
                },
                None => {
                    let name = e.name.clone();
                    let copy = e.state.clone();
                    named_set(&mut out, name, copy);
                    proof {
                        let m = inorig[j as int].name@;
                        let a = named_view(inorig.take(j as int)).union_prefer_right(by_id);
                        let b = named_view(inorig.take(j + 1)).union_prefer_right(by_id);
                        assert(!a.contains_key(m));
                        assert(!by_id.contains_key(m));
                        assert(b =~= a.insert(m, inorig[j as int].state));
                        assert forall|x: Seq<char>| #[trigger] b.contains_key(x) implies cloned(b[x], named_view(out@)[x]) by {
                            if x != m {
                                assert(a.contains_key(x));
                            }
                        }
                        assert(named_view(out@).dom() =~= b.dom());
                    }
                },
            }
            j += 1;
        }
        proof {
            assert(inorig.take(inorig.len() as int) =~= inorig);
        }
        let hidden = &self.sets[k].hidden_overlays;
        let ghost horig = hidden@;
        let mut hout: Vec<NamedState<S>> = Vec::new();
        let mut h: usize = 0;
        proof {
            assert(horig.take(0) =~= Seq::<NamedState<S>>::empty());
            assert(named_view(horig.take(0)) =~= Map::<Seq<char>, S>::empty());
            assert(named_view(hout@) =~= Map::<Seq<char>, S>::empty());
        }
        while h < hidden.len()
            invariant
                horig == hidden@,
                names_unique(horig),
                h <= horig.len(),
                names_unique(hout@),
                clones_of(named_view(horig.take(h as int)), named_view(hout@)),
            decreases horig.len() - h,
        {
            proof {
                lemma_unique_take(horig, h as int);
            }
            let e = &hidden[h];
            let name = e.name.clone();
            let copy = e.state.clone();
            named_set(&mut hout, name, copy);
            proof {
                let m = horig[h as int].name@;
                let b = named_view(horig.take(h + 1));
                assert forall|x: Seq<char>| #[trigger] b.contains_key(x) implies cloned(b[x], named_view(hout@)[x]) by {
                    if x != m {
                        assert(named_view(horig.take(h as int)).contains_key(x));
                    }
                }
                assert(named_view(hout@).dom() =~= b.dom());
            }
            h += 1;
        }
        proof {
            assert(horig.take(horig.len() as int) =~= horig);
        }
        SavedWindowSet { overlays: out, hidden_overlays: hout }
    }

    /// Saves the watch's state as the global set.
    fn save_global(&self) -> (r: Vec<NamedState<S>>)
        requires
            self.wf(),
        ensures
            names_unique(r@),
            clones_of(self@.saved_global(), named_view(r@)),
    {
        let mut out: Vec<NamedState<S>> = Vec::new();
        proof {
            assert(named_view(out@) =~= Map::<Seq<char>, S>::empty());
        }
        if let Some(w) = self.watch_id {
            proof {
                assert(self@.overlays[w as int] == self.overlays@[w as int]@);
            }
            if self.overlays[w].live {
                match &self.active[w] {
                    Some(st) => {
                        let name = self.overlays[w].name.clone();
                        let copy = st.clone();
                        named_set(&mut out, name, copy);
                        proof {
                            assert(named_view(out@).dom() =~= self@.saved_global().dom());
                        }
                    },
                    None => {},
                }
            }
        }
        out
    }

    /// Saves the layout: every set's states by overlay name (the shown set
    /// is hidden for the moment, so that it holds its overlays' states),
    /// the watch's state, and the set that `show_hide` brings back. The
    /// manager is left as it was.
    pub fn persist_layout(&mut self) -> (r: PersistedLayout<S>)
        requires
            old(self).wf(),
        ensures
            final(self).wf(),
            final(self)@ == old(self)@,
            r.last_set == old(self)@.restore_set,
            r.sets@.len() == old(self)@.sets.len(),
            forall|k: int| 0 <= k < r.sets@.len() ==> {
                &&& (#[trigger] r.sets@[k]).lists_unique()
                &&& clones_of(old(self)@.switched(None).saved_overlays(k), r.sets@[k]@.overlays)
                &&& clones_of(old(self)@.switched(None).sets[k].hidden, r.sets@[k]@.hidden)
            },
            names_unique(r.global@),
            clones_of(old(self)@.switched(None).saved_global(), named_view(r.global@)),
    {
        let ghost v0 = self@;
        let last_set = self.restore_set;
        let restore_after = self.current_set.is_some();
        if restore_after {
            self.switch_to_set(None, true);
        }
        let ghost w = self@;
        let count = self.sets.len();
        let mut sets: Vec<SavedWindowSet<S>> = Vec::new();
        let mut k: usize = 0;
        while k < count
            invariant
                self.wf(),
                w == self@,
                w == v0.switched(None),
                count == w.sets.len(),
                k <= count,
                sets@.len() == k,
                forall|q: int| 0 <= q < k ==> {
                    &&& (#[trigger] sets@[q]).lists_unique()
                    &&& clones_of(w.saved_overlays(q), sets@[q]@.overlays)
                    &&& clones_of(w.sets[q].hidden, sets@[q]@.hidden)
                },
            decreases count - k,
        {
            let s = self.save_set(k);
            sets.push(s);
            k += 1;
        }
        let global = self.save_global();
        if restore_after {
            let r = self.restore_set;
            self.switch_to_set(Some(r), true);
            proof {
                law_show_hide_round_trip(v0);
            }
        }
        PersistedLayout { sets, global, last_set }
    }
}


impl<S> ManagerView<S> {
    /// No set holds a state for an overlay that was removed.
    pub open spec fn no_stale_states(self) -> bool {
        forall|q: int, i: int| 0 <= q < self.sets.len() && 0 <= i < self.overlays.len() && !(#[trigger] self.overlays[i]).live
            ==> (#[trigger] self.sets[q].overlays[i]) is None
    }

    /// The states a set keeps by name are for names of no live overlay.
    pub open spec fn keeps_only_unknown(self) -> bool {
        forall|q: int, k: Seq<char>| 0 <= q < self.sets.len() && #[trigger] self.sets[q].inactive.contains_key(k) ==> self.lookup(k) is None
    }

    /// The watch, where there is one, is global.
    pub open spec fn watch_global(self) -> bool {
        self.watch_id matches Some(x) ==> self.overlays[x as int].global
    }

    /// The sets as [`OverlayWindowManager::persist_layout`] saves them (up
    /// to the cloning of states).
    pub open spec fn persisted_sets(self) -> Seq<SavedSetView<S>> {
        let w = self.switched(None);
        Seq::new(w.sets.len(), |k: int| SavedSetView { overlays: w.saved_overlays(k), hidden: w.sets[k].hidden })
    }
}

proof fn lemma_restored_set_same<S>(w: ManagerView<S>, q: int)
    requires
        w.wf(),
        w.no_stale_states(),
        w.keeps_only_unknown(),
        0 <= q < w.sets.len(),
    ensures
        w.restored_set(SavedSetView { overlays: w.saved_overlays(q), hidden: w.sets[q].hidden }) == w.sets[q],
{
    let n = w.overlays.len() as int;
    let bn = w.states_by_name(q, n);
    let set = w.sets[q];
    let saved = SavedSetView { overlays: w.saved_overlays(q), hidden: set.hidden };
    let r = w.restored_set(saved);
    assert forall|i: int| 0 <= i < n && (#[trigger] w.overlays[i]).live implies
        (bn.contains_key(w.overlays[i].name) <==> set.overlays[i] is Some)
        && (set.overlays[i] is Some ==> bn[w.overlays[i].name] == set.overlays[i].unwrap())
        && !set.inactive.contains_key(w.overlays[i].name) by {
        let name = w.overlays[i].name;
        if set.overlays[i] is Some {
            assert(w.saved_by_id(q, i, n) && w.overlays[i].name == name);
            let j = choose|j: int| w.saved_by_id(q, j, n) && #[trigger] w.overlays[j].name == name;
            assert(w.overlays[j].live && w.overlays[i].live);
            assert(j == i);
        }
        if bn.contains_key(name) {
            let j = choose|j: int| w.saved_by_id(q, j, n) && #[trigger] w.overlays[j].name == name;
            assert(w.overlays[j].live && w.overlays[i].live);
            assert(j == i);
        }
        lemma_lookup(w, name);
    }
    assert forall|k: Seq<char>| #[trigger] bn.contains_key(k) implies w.lookup(k) is Some by {
        let j = choose|j: int| w.saved_by_id(q, j, n) && #[trigger] w.overlays[j].name == k;
        lemma_lookup(w, k);
        assert(w.overlays[j].live);
    }
    assert(r.overlays =~= set.overlays) by {
        assert forall|i: int| 0 <= i < n implies #[trigger] r.overlays[i] == set.overlays[i] by {
            if w.overlays[i].live {
                assert(set.inactive.contains_key(w.overlays[i].name) == false);
            } else {
                assert(set.overlays[i] is None);
            }
        }
    }
    assert(r.inactive =~= set.inactive) by {
        assert forall|k: Seq<char>| #[trigger] r.inactive.contains_key(k) <==> set.inactive.contains_key(k) by {
            if set.inactive.contains_key(k) {
                assert(w.untaken().contains(k));
            }
            if bn.contains_key(k) {
                assert(!w.untaken().contains(k));
            }
        }
        assert forall|k: Seq<char>| #[trigger] r.inactive.contains_key(k) implies r.inactive[k] == set.inactive[k] by {
            assert(w.untaken().contains(k));
            assert(!bn.contains_key(k));
        }
    }
}

/// Loading the layout that was just saved gives back the manager with
/// every set hidden (where no set holds a state for a removed overlay, the
/// states kept by name are for names of no live overlay, and the watch is
/// global).
pub proof fn law_persist_restore_round_trip<S>(v: ManagerView<S>)
    requires
        v.wf(),
        v.no_stale_states(),
        v.keeps_only_unknown(),
        v.watch_global(),
    ensures
        v.layout_restored(v.persisted_sets(), v.switched(None).saved_global(), v.restore_set) == v.switched(None),
{
    let w = v.switched(None);
    lemma_switched_wf(v, None);
    assert(w.overlays == v.overlays);
    assert(w.sets.len() == v.sets.len());
    assert(w.restore_set == v.restore_set);
    assert forall|q: int, i: int| 0 <= q < w.sets.len() && 0 <= i < w.overlays.len() && !(#[trigger] w.overlays[i]).live
        implies (#[trigger] w.sets[q].overlays[i]) is None by {
        assert(!v.overlays[i].live);
    }
    assert forall|q: int, k: Seq<char>| 0 <= q < w.sets.len() && #[trigger] w.sets[q].inactive.contains_key(k) implies w.lookup(k) is None by {
        assert(w.sets[q].inactive == v.sets[q].inactive);
        assert(v.sets[q].inactive.contains_key(k));
    }
    let saved = v.persisted_sets();
    let g = w.saved_global();
    let rebuilt = ManagerView {
        sets: Seq::new(saved.len(), |q: int| w.restored_set(saved[q])),
        restore_set: if v.restore_set < saved.len() { v.restore_set } else { (saved.len() - 1) as usize },
        ..w
    };
    assert(rebuilt.sets =~= w.sets) by {
        assert forall|q: int| 0 <= q < w.sets.len() implies #[trigger] rebuilt.sets[q] == w.sets[q] by {
            lemma_restored_set_same(w, q);
        }
    }
    assert(rebuilt == w);
    let a = w.globals_applied(g);
    assert forall|i: int| 0 <= i < w.overlays.len() && #[trigger] w.made_global(g, i) implies w.overlays[i].global && w.active[i] == Some(g[w.overlays[i].name]) by {
        let x = w.watch_id.unwrap() as int;
        assert(w.overlays[x].live && w.overlays[i].live);
        assert(i == x);
    }
    assert(a.overlays =~= w.overlays);
    assert(a.active =~= w.active) by {
        assert forall|i: int| 0 <= i < w.overlays.len() implies #[trigger] a.active[i] == w.active[i] by {
            if w.made_global(g, i) && w.active[i] is Some {}
        }
    }
    assert(g.restrict(w.untaken()) =~= Map::empty()) by {
        assert forall|k: Seq<char>| #[trigger] g.contains_key(k) implies !w.untaken().contains(k) by {
            let x = w.watch_id.unwrap() as int;
            lemma_lookup(w, k);
            assert(w.overlays[x].live);
        }
    }
    assert(g.restrict(w.names_shown(false)) =~= Map::empty()) by {
        assert forall|k: Seq<char>| #[trigger] g.contains_key(k) implies !w.names_shown(false).contains(k) by {
            let x = w.watch_id.unwrap() as int;
            lemma_lookup(w, k);
            let y = w.lookup(k).unwrap() as int;
            assert(w.overlays[x].live && w.overlays[y].live);
            assert(x == y);
        }
    }
    assert(a.global_set.inactive =~= w.global_set.inactive);
    assert(a.global_set.hidden =~= w.global_set.hidden);
    assert(a == w);
}

} // verus!
