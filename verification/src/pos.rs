//! How an overlay is positioned, and the keys of the edit panel's
//! positioning tabs.
use vstd::prelude::*;
use crate::text::str_eq;

verus! {

/// How an overlay is positioned. The follow modes also take a smoothing
/// factor, which the caller attaches.
#[derive(Clone, Copy, PartialEq, Eq, Structural, Debug)]
pub enum PositioningKind {
    Floating,
    Anchored,
    Static,
    FollowHead,
    FollowHandLeft,
    FollowHandRight,
}

/// The keys of the positioning tabs, in the order the tabs are shown.
pub open spec fn pos_names() -> Seq<Seq<char>> {
    seq!["static"@, "anchored"@, "floating"@, "hmd"@, "hand_l"@, "hand_r"@]
}

/// The tab key of a positioning.
pub open spec fn spec_tab_key(p: PositioningKind) -> Seq<char> {
    match p {
        PositioningKind::Static => "static"@,
        PositioningKind::Anchored => "anchored"@,
        PositioningKind::Floating => "floating"@,
        PositioningKind::FollowHead => "hmd"@,
        PositioningKind::FollowHandLeft => "hand_l"@,
        PositioningKind::FollowHandRight => "hand_r"@,
    }
}

/// The tab key of a positioning.
pub fn to_tab_key(p: PositioningKind) -> (k: &'static str)
    ensures
        k@ == spec_tab_key(p),
{
    match p {
        PositioningKind::Static => "static",
        PositioningKind::Anchored => "anchored",
        PositioningKind::Floating => "floating",
        PositioningKind::FollowHead => "hmd",
        PositioningKind::FollowHandLeft => "hand_l",
        PositioningKind::FollowHandRight => "hand_r",
    }
}

/// What a positioning tab selects: the positioning, and whether its
/// smoothing control is shown (follow modes start with a factor of 1).
#[derive(Clone, Copy, PartialEq, Eq, Structural, Debug)]
pub struct PosTabState {
    pub pos: PositioningKind,
    pub has_lerp: bool,
}

/// Whether the positioning follows the head or a hand.
pub open spec fn is_follow(p: PositioningKind) -> bool {
    p == PositioningKind::FollowHead || p == PositioningKind::FollowHandLeft || p == PositioningKind::FollowHandRight
}

/// The state a tab key selects.
pub open spec fn spec_from_tab_key(key: Seq<char>) -> PosTabState {
    if key == "static"@ {
        PosTabState { pos: PositioningKind::Static, has_lerp: false }
    } else if key == "anchored"@ {
        PosTabState { pos: PositioningKind::Anchored, has_lerp: false }
    } else if key == "floating"@ {
        PosTabState { pos: PositioningKind::Floating, has_lerp: false }
    } else if key == "hmd"@ {
        PosTabState { pos: PositioningKind::FollowHead, has_lerp: true }
    } else if key == "hand_l"@ {
        PosTabState { pos: PositioningKind::FollowHandLeft, has_lerp: true }
    } else {
        PosTabState { pos: PositioningKind::FollowHandRight, has_lerp: true }
    }
}

/// The state a tab key selects. Only the six tab keys are handed in.
pub fn from_tab_key(key: &str) -> (s: PosTabState)
    requires
        pos_names().contains(key@),
    ensures
        s == spec_from_tab_key(key@),
{
    proof {
        let i = choose|i: int| 0 <= i < pos_names().len() && pos_names()[i] == key@;
        assert(i == 0 || i == 1 || i == 2 || i == 3 || i == 4 || i == 5);
    }
    if str_eq(key, "static") {
        PosTabState { pos: PositioningKind::Static, has_lerp: false }
    } else if str_eq(key, "anchored") {
        PosTabState { pos: PositioningKind::Anchored, has_lerp: false }
    } else if str_eq(key, "floating") {
        PosTabState { pos: PositioningKind::Floating, has_lerp: false }
    } else if str_eq(key, "hmd") {
        PosTabState { pos: PositioningKind::FollowHead, has_lerp: true }
    } else if str_eq(key, "hand_l") {
        PosTabState { pos: PositioningKind::FollowHandLeft, has_lerp: true }
    } else {
        PosTabState { pos: PositioningKind::FollowHandRight, has_lerp: true }
    }
}

/// Every positioning has a tab, and the tab selects it again; its smoothing
/// control is shown exactly for the follow modes.
pub proof fn law_tab_key_round_trip(p: PositioningKind)
    ensures
        pos_names().contains(spec_tab_key(p)),
        spec_from_tab_key(spec_tab_key(p)).pos == p,
        spec_from_tab_key(spec_tab_key(p)).has_lerp == is_follow(p),
{
    reveal_strlit("static");
    reveal_strlit("anchored");
    reveal_strlit("floating");
    reveal_strlit("hmd");
    reveal_strlit("hand_l");
    reveal_strlit("hand_r");
    assert("static"@.len() != "anchored"@.len());
    assert("static"@.len() != "floating"@.len());
    assert("static"@.len() != "hmd"@.len());
    assert("static"@[0] != "hand_l"@[0]);
    assert("static"@[0] != "hand_r"@[0]);
    assert("anchored"@[0] != "floating"@[0]);
    assert("anchored"@.len() != "hmd"@.len());
    assert("anchored"@.len() != "hand_l"@.len());
    assert("anchored"@.len() != "hand_r"@.len());
    assert("floating"@.len() != "hmd"@.len());
    assert("floating"@.len() != "hand_l"@.len());
    assert("floating"@.len() != "hand_r"@.len());
    assert("hmd"@.len() != "hand_l"@.len());
    assert("hmd"@.len() != "hand_r"@.len());
    assert("hand_l"@[5] != "hand_r"@[5]);
    match p {
        PositioningKind::Static => {
            assert(spec_tab_key(p) == "static"@);
            assert(pos_names()[0] == spec_tab_key(p));
        },
        PositioningKind::Anchored => {
            assert(pos_names()[1] == spec_tab_key(p));
        },
        PositioningKind::Floating => {
            assert(pos_names()[2] == spec_tab_key(p));
        },
        PositioningKind::FollowHead => {
            assert(pos_names()[3] == spec_tab_key(p));
        },
        PositioningKind::FollowHandLeft => {
            assert(pos_names()[4] == spec_tab_key(p));
        },
        PositioningKind::FollowHandRight => {
            assert(pos_names()[5] == spec_tab_key(p));
        },
    }
}

/// Each tab's key names the positioning it selects.
pub proof fn law_tab_round_trip(i: int)
    requires
        0 <= i < 6,
    ensures
        spec_tab_key(spec_from_tab_key(pos_names()[i]).pos) == pos_names()[i],
{
    reveal_strlit("static");
    reveal_strlit("anchored");
    reveal_strlit("floating");
    reveal_strlit("hmd");
    reveal_strlit("hand_l");
    reveal_strlit("hand_r");
    assert("static"@.len() != "anchored"@.len());
    assert("static"@.len() != "floating"@.len());
    assert("static"@.len() != "hmd"@.len());
    assert("static"@[0] != "hand_l"@[0]);
    assert("static"@[0] != "hand_r"@[0]);
    assert("anchored"@[0] != "floating"@[0]);
    assert("anchored"@.len() != "hmd"@.len());
    assert("anchored"@.len() != "hand_l"@.len());
    assert("anchored"@.len() != "hand_r"@.len());
    assert("floating"@.len() != "hmd"@.len());
    assert("floating"@.len() != "hand_l"@.len());
    assert("floating"@.len() != "hand_r"@.len());
    assert("hmd"@.len() != "hand_l"@.len());
    assert("hmd"@.len() != "hand_r"@.len());
    assert("hand_l"@[5] != "hand_r"@[5]);
}

} // verus!
