//! Serving the clipboard: which formats the text is offered in, and how an
//! X11 selection request is answered.
use vstd::prelude::*;
use crate::text::str_eq;

verus! {

broadcast use vstd::string::group_string_axioms;

/// The X11 atom that stands for no atom.
pub const ATOM_NONE: u32 = 0;

/// The predefined X11 atom `STRING`.
pub const ATOM_STRING: u32 = 31;

/// The atoms the clipboard owner interned.
#[derive(Clone, Copy, PartialEq, Eq, Structural, Debug)]
pub struct ClipboardAtoms {
    pub clipboard: u32,
    pub utf8_string: u32,
    pub targets: u32,
    pub text: u32,
    pub text_plain: u32,
    pub text_plain_utf8: u32,
}

/// Every byte is ASCII.
pub open spec fn is_ascii_bytes(b: Seq<u8>) -> bool {
    forall|i: int| 0 <= i < b.len() ==> #[trigger] b[i] < 128
}

fn bytes_are_ascii(b: &Vec<u8>) -> (r: bool)
    ensures
        r == is_ascii_bytes(b@),
{
    let mut i: usize = 0;
    while i < b.len()
        invariant
            i <= b.len(),
            forall|j: int| 0 <= j < i ==> #[trigger] b@[j] < 128,
        decreases b.len() - i,
    {
        if b[i] >= 128 {
            return false;
        }
        i += 1;
    }
    true
}

/// The formats offered for `content`: the target list and the UTF-8 text
/// formats, and the legacy `TEXT` and `STRING` only for ASCII content.
pub open spec fn spec_supported_targets(a: ClipboardAtoms, content: Seq<u8>) -> Seq<u32> {
    let base = seq![a.targets, a.utf8_string, a.text_plain_utf8, a.text_plain];
    if is_ascii_bytes(content) { base + seq![a.text, ATOM_STRING] } else { base }
}

/// The type text is written with when `target` is asked for, if it is a
/// text format that can be served.
pub open spec fn spec_text_type(a: ClipboardAtoms, content: Seq<u8>, target: u32) -> Option<u32> {
    if target == a.utf8_string || target == a.text_plain_utf8 || target == a.text_plain
        || (is_ascii_bytes(content) && (target == a.text || target == ATOM_STRING)) {
        Some(target)
    } else {
        None
    }
}

/// Every format offered for the content, but the target list itself, is
/// served with its own atom as type, and only offered formats are served;
/// the UTF-8 formats are offered and served whatever the content.
pub proof fn law_offered_formats_are_served(a: ClipboardAtoms, content: Seq<u8>, target: u32)
    ensures
        spec_supported_targets(a, content).contains(target) && target != a.targets
            ==> spec_text_type(a, content, target) == Some(target),
        spec_text_type(a, content, target) is Some ==> spec_supported_targets(a, content).contains(target)
            && spec_text_type(a, content, target) == Some(target),
        spec_supported_targets(a, content).contains(a.utf8_string),
        spec_supported_targets(a, content).contains(a.text_plain_utf8),
        spec_supported_targets(a, content).contains(a.text_plain),
        spec_text_type(a, content, a.utf8_string) == Some(a.utf8_string),
        spec_text_type(a, content, a.text_plain_utf8) == Some(a.text_plain_utf8),
        spec_text_type(a, content, a.text_plain) == Some(a.text_plain),
{
    let t = spec_supported_targets(a, content);
    let base = seq![a.targets, a.utf8_string, a.text_plain_utf8, a.text_plain];
    assert(t[1] == a.utf8_string && t[2] == a.text_plain_utf8 && t[3] == a.text_plain);
    if t.contains(target) && target != a.targets {
        let i = choose|i: int| 0 <= i < t.len() && t[i] == target;
        if is_ascii_bytes(content) {
            assert(t == base + seq![a.text, ATOM_STRING]);
        }
        assert(i == 1 || i == 2 || i == 3 || i == 4 || i == 5);
    }
    if spec_text_type(a, content, target) is Some {
        if target == a.utf8_string {
            assert(t[1] == target);
        } else if target == a.text_plain_utf8 {
            assert(t[2] == target);
        } else if target == a.text_plain {
            assert(t[3] == target);
        } else if target == a.text {
            assert(t[4] == target);
        } else {
            assert(t[5] == target);
        }
    }
}

/// How to answer a selection request.
#[derive(Clone, Copy, PartialEq, Eq, Structural, Debug)]
pub enum SelectionReply {
    /// Write the target list into `property` of the requestor.
    WriteTargets { property: u32 },
    /// Write the text into `property`, with type `type_atom`.
    WriteText { property: u32, type_atom: u32 },
    /// Write nothing; tell the requestor that no property was set.
    Refuse,
}

/// The owner side of the X11 clipboard.
pub struct ClipboardOwner {
    pub atoms: ClipboardAtoms,
    pub content: Vec<u8>,
    pub owns_clipboard: bool,
}

impl ClipboardOwner {
    /// An owner that holds nothing and does not own the clipboard yet.
    pub fn new(atoms: ClipboardAtoms) -> (o: Self)
        ensures
            o.atoms == atoms,
            o.content@.len() == 0,
            !o.owns_clipboard,
    {
        ClipboardOwner { atoms, content: Vec::new(), owns_clipboard: false }
    }

    /// Holds `content` and takes the clipboard (the caller announces it).
    pub fn set_content(&mut self, content: Vec<u8>)
        ensures
            final(self).content == content,
            final(self).owns_clipboard,
            final(self).atoms == old(self).atoms,
    {
        self.content = content;
        self.owns_clipboard = true;
    }

    /// Gives up the clipboard on shutdown. Returns whether it was owned, in
    /// which case the caller clears the selection owner.
    pub fn release_clipboard_if_owned(&mut self) -> (release: bool)
        ensures
            release == old(self).owns_clipboard,
            !final(self).owns_clipboard,
            final(self).content == old(self).content,
            final(self).atoms == old(self).atoms,
    {
        let owned = self.owns_clipboard;
        self.owns_clipboard = false;
        owned
    }

    /// Another client took `selection`.
    pub fn selection_cleared(&mut self, selection: u32)
        ensures
            final(self).owns_clipboard == (old(self).owns_clipboard && selection != old(self).atoms.clipboard),
            final(self).content == old(self).content,
            final(self).atoms == old(self).atoms,
    {
        if selection == self.atoms.clipboard {
            self.owns_clipboard = false;
        }
    }

    /// The formats the content is offered in.
    pub fn supported_targets(&self) -> (t: Vec<u32>)
        ensures
            t@ == spec_supported_targets(self.atoms, self.content@),
    {
        let mut t: Vec<u32> = Vec::new();
        t.push(self.atoms.targets);
        t.push(self.atoms.utf8_string);
        t.push(self.atoms.text_plain_utf8);
        t.push(self.atoms.text_plain);
        if bytes_are_ascii(&self.content) {
            t.push(self.atoms.text);
            t.push(ATOM_STRING);
        }
        assert(t@ =~= spec_supported_targets(self.atoms, self.content@));
        t
    }

    /// The type the text is written with for `target`, if it is served.
    pub fn type_for_text_target(&self, target: u32) -> (r: Option<u32>)
        ensures
            // the UTF-8 formats are served for any content, each with its own atom
            target == self.atoms.utf8_string || target == self.atoms.text_plain_utf8
                || target == self.atoms.text_plain ==> r == Some(target),
            // TEXT and STRING are served for ASCII content
            is_ascii_bytes(self.content@) && (target == self.atoms.text || target == ATOM_STRING) ==> r == Some(target),
            r is Some ==> r == Some(target),
            r == spec_text_type(self.atoms, self.content@, target),
    {
        let a = self.atoms;
        if target == a.utf8_string || target == a.text_plain_utf8 || target == a.text_plain {
            Some(target)
        } else if (target == a.text || target == ATOM_STRING) && bytes_are_ascii(&self.content) {
            Some(target)
        } else {
            None
        }
    }

    /// How to answer a request for `selection` in format `target`, to be
    /// stored in `property` (`ATOM_NONE` from old clients: the target's
    /// name is used).
    pub fn plan_selection_reply(&self, selection: u32, target: u32, property: u32) -> (r: SelectionReply)
        ensures
            !self.owns_clipboard || selection != self.atoms.clipboard ==> r == SelectionReply::Refuse,
            // a UTF-8 text request to the owner is answered with the text
            self.owns_clipboard && selection == self.atoms.clipboard && target != self.atoms.targets
                && (target == self.atoms.utf8_string || target == self.atoms.text_plain_utf8 || target == self.atoms.text_plain)
                ==> r == (SelectionReply::WriteText {
                    property: if property == ATOM_NONE { target } else { property },
                    type_atom: target,
                }),
            self.owns_clipboard && selection == self.atoms.clipboard ==> {
                let p = if property == ATOM_NONE { target } else { property };
                if target == self.atoms.targets {
                    r == (SelectionReply::WriteTargets { property: p })
                } else {
                    match spec_text_type(self.atoms, self.content@, target) {
                        Some(t) => r == (SelectionReply::WriteText { property: p, type_atom: t }),
                        None => r == SelectionReply::Refuse,
                    }
                }
            },
    {
        if !self.owns_clipboard || selection != self.atoms.clipboard {
            return SelectionReply::Refuse;
        }
        let p = if property == ATOM_NONE { target } else { property };
        if target == self.atoms.targets {
            SelectionReply::WriteTargets { property: p }
        } else {
            match self.type_for_text_target(target) {
                Some(t) => SelectionReply::WriteText { property: p, type_atom: t },
                None => SelectionReply::Refuse,
            }
        }
    }
}

/// The property reported to the requestor once the reply was written:
/// the property if writing it worked, else none.
pub fn notified_property(reply: SelectionReply, written: bool) -> (p: u32)
    ensures
        p == match reply {
            SelectionReply::WriteTargets { property } => if written { property } else { ATOM_NONE },
            SelectionReply::WriteText { property, .. } => if written { property } else { ATOM_NONE },
            SelectionReply::Refuse => ATOM_NONE,
        },
{
    match reply {
        SelectionReply::WriteTargets { property } => if written { property } else { ATOM_NONE },
        SelectionReply::WriteText { property, .. } => if written { property } else { ATOM_NONE },
        SelectionReply::Refuse => ATOM_NONE,
    }
}

/// The MIME types clipboard text is offered as on Wayland.
pub open spec fn text_mime_types() -> Seq<Seq<char>> {
    seq![
        "text/plain;charset=utf-8"@,
        "text/plain;charset=UTF-8"@,
        "text/plain"@,
        "UTF8_STRING"@,
        "TEXT"@,
        "STRING"@,
    ]
}

/// Whether a Wayland client asks for the text in a type it is offered as.
pub fn is_text_mime_type(mime: &str) -> (r: bool)
    ensures
        r == text_mime_types().contains(mime@),
{
    let r = str_eq(mime, "text/plain;charset=utf-8") || str_eq(mime, "text/plain;charset=UTF-8")
        || str_eq(mime, "text/plain") || str_eq(mime, "UTF8_STRING") || str_eq(mime, "TEXT")
        || str_eq(mime, "STRING");
    proof {
        if r {
            if mime@ == "text/plain;charset=utf-8"@ {
                assert(text_mime_types()[0] == mime@);
            } else if mime@ == "text/plain;charset=UTF-8"@ {
                assert(text_mime_types()[1] == mime@);
            } else if mime@ == "text/plain"@ {
                assert(text_mime_types()[2] == mime@);
            } else if mime@ == "UTF8_STRING"@ {
                assert(text_mime_types()[3] == mime@);
            } else if mime@ == "TEXT"@ {
                assert(text_mime_types()[4] == mime@);
            } else {
                assert(text_mime_types()[5] == mime@);
            }
        } else if text_mime_types().contains(mime@) {
            let i = choose|i: int| 0 <= i < 6 && text_mime_types()[i] == mime@;
            assert(i == 0 || i == 1 || i == 2 || i == 3 || i == 4 || i == 5);
        }
    }
    r
}

} // verus!
