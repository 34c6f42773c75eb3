//! Reading keyboard layout names: the layout an input method reports
//! (`keyboard-<layout>[-<variant>]`) and the names used to switch keymaps
//! (`<layout>[(<variant>)]`).
use vstd::prelude::*;
use vstd::string::*;
use crate::text::{chars_of, string_from_chars, str_eq, is_prefix, starts_with};

verus! {

broadcast use vstd::string::group_string_axioms;

/// Input methods that stand for the system layout rather than a keyboard layout.
pub open spec fn system_layout_aliases() -> Seq<Seq<char>> {
    seq!["mozc"@, "pinyin"@, "hangul"@, "sayura"@, "unikey"@]
}

/// The first position of `c` in `s`, or its length.
pub open spec fn first_pos(s: Seq<char>, c: char) -> int {
    if exists|i: int| 0 <= i < s.len() && s[i] == c {
        choose|i: int| 0 <= i < s.len() && s[i] == c && forall|j: int| 0 <= j < i ==> s[j] != c
    } else {
        s.len() as int
    }
}

/// `s` does not hold `c`.
pub open spec fn lacks(s: Seq<char>, c: char) -> bool {
    forall|i: int| 0 <= i < s.len() ==> #[trigger] s[i] != c
}

proof fn lemma_first_pos(s: Seq<char>, c: char, k: int)
    requires
        0 <= k <= s.len(),
        k < s.len() ==> s[k] == c,
        forall|j: int| 0 <= j < k ==> s[j] != c,
    ensures
        first_pos(s, c) == k,
{
    if k < s.len() {
        assert(exists|i: int| 0 <= i < s.len() && s[i] == c && forall|j: int| 0 <= j < i ==> s[j] != c) by {
            assert(s[k] == c && forall|j: int| 0 <= j < k ==> s[j] != c);
        }
        let i = choose|i: int| 0 <= i < s.len() && s[i] == c && forall|j: int| 0 <= j < i ==> s[j] != c;
        if i < k {
            assert(s[i] != c);
        } else if i > k {
            assert(s[k] != c);
        }
    } else {
        if exists|i: int| 0 <= i < s.len() && s[i] == c {
            let i = choose|i: int| 0 <= i < s.len() && s[i] == c;
            assert(s[i] != c);
        }
    }
}

fn find_from(v: &Vec<char>, from: usize, c: char) -> (r: usize)
    requires
        from <= v.len(),
    ensures
        from <= r <= v.len(),
        forall|j: int| from <= j < r ==> v@[j] != c,
        r < v.len() ==> v@[r as int] == c,
{
    let mut r = from;
    while r < v.len() && v[r] != c
        invariant
            from <= r <= v.len(),
            forall|j: int| from <= j < r ==> v@[j] != c,
        decreases v.len() - r,
    {
        r += 1;
    }
    r
}

/// The layout and variant an input method's layout name selects, as the
/// pattern `^keyboard-([^-]+)(?:-([^-]+))?$` reads it (no variant: empty).
pub open spec fn spec_fcitx_layout(s: Seq<char>) -> Option<(Seq<char>, Seq<char>)> {
    if is_prefix("keyboard-"@, s) {
        let r = s.skip(9);
        let k = first_pos(r, '-');
        if k == r.len() {
            if r.len() > 0 { Some((r, Seq::<char>::empty())) } else { None }
        } else if k > 0 && k + 1 < r.len() && lacks(r.skip(k + 1), '-') {
            Some((r.take(k), r.skip(k + 1)))
        } else {
            None
        }
    } else {
        None
    }
}

/// What an input method's layout name stands for.
pub enum FcitxLayout {
    /// A keyboard layout and variant (the variant may be empty).
    Layout { layout: String, variant: String },
    /// An input method that uses the system layout.
    Ime,
    /// Not understood; the system layout is used.
    Unknown,
}

/// The layout an input method's layout name selects.
pub fn classify_fcitx_layout(name: &str) -> (r: FcitxLayout)
    ensures
        match spec_fcitx_layout(name@) {
            Some((l, v)) => r matches FcitxLayout::Layout { layout, variant } && layout@ == l && variant@ == v,
            None => if system_layout_aliases().contains(name@) { r is Ime } else { r is Unknown },
        },
{
    let v = chars_of(name);
    let ghost s = v@;
    if starts_with(name, "keyboard-") {
        proof {
            reveal_strlit("keyboard-");
        }
        let ghost r = s.skip(9);
        let k = find_from(&v, 9, '-');
        proof {
            assert forall|j: int| 0 <= j < k - 9 implies r[j] != '-' by {
                assert(r[j] == s[9 + j]);
            }
            if k < v.len() {
                assert(r[k - 9] == s[k as int]);
            }
            lemma_first_pos(r, '-', k - 9);
        }
        if k == v.len() {
            if k > 9 {
                proof {
                    assert(s.subrange(9, k as int) =~= r);
                }
                return FcitxLayout::Layout { layout: span(&v, 9, k), variant: String::new() };
            }
        } else if k > 9 && k + 1 < v.len() {
            let k2 = find_from(&v, k + 1, '-');
            proof {
                assert(r.skip(k - 9 + 1) =~= s.skip(k + 1));
                if k2 < v.len() {
                    assert(s.skip(k + 1)[k2 - k - 1] == s[k2 as int]);
                } else {
                    assert forall|i: int| 0 <= i < s.skip(k + 1).len() implies #[trigger] s.skip(k + 1)[i] != '-' by {
                        assert(s.skip(k + 1)[i] == s[k + 1 + i]);
                    }
                }
            }
            if k2 == v.len() {
                proof {
                    assert(s.subrange(9, k as int) =~= r.take(k - 9));
                    assert(s.subrange(k + 1, v.len() as int) =~= r.skip(k - 9 + 1));
                }
                return FcitxLayout::Layout { layout: span(&v, 9, k), variant: span(&v, k + 1, v.len()) };
            }
        }
    }
    if is_system_alias(name) { FcitxLayout::Ime } else { FcitxLayout::Unknown }
}

fn span(v: &Vec<char>, from: usize, to: usize) -> (s: String)
    requires
        from <= to <= v.len(),
    ensures
        s@ == v@.subrange(from as int, to as int),
{
    let mut w: Vec<char> = Vec::new();
    let mut i = from;
    while i < to
        invariant
            from <= i <= to <= v.len(),
            w@ == v@.subrange(from as int, i as int),
        decreases to - i,
    {
        w.push(v[i]);
        assert(w@ =~= v@.subrange(from as int, i + 1));
        i += 1;
    }
    string_from_chars(&w)
}

/// Whether `name` is one of the input methods that use the system layout.
pub fn is_system_alias(name: &str) -> (r: bool)
    ensures
        r == system_layout_aliases().contains(name@),
{
    let r = str_eq(name, "mozc") || str_eq(name, "pinyin") || str_eq(name, "hangul")
        || str_eq(name, "sayura") || str_eq(name, "unikey");
    proof {
        let a = system_layout_aliases();
        if r {
            if name@ == "mozc"@ {
                assert(a[0] == name@);
            } else if name@ == "pinyin"@ {
                assert(a[1] == name@);
            } else if name@ == "hangul"@ {
                assert(a[2] == name@);
            } else if name@ == "sayura"@ {
                assert(a[3] == name@);
            } else {
                assert(a[4] == name@);
            }
        } else if a.contains(name@) {
            let i = choose|i: int| 0 <= i < 5 && a[i] == name@;
            assert(i == 0 || i == 1 || i == 2 || i == 3 || i == 4);
        }
    }
    r
}

/// An ASCII letter.
pub open spec fn is_alpha(c: char) -> bool {
    ('a' <= c && c <= 'z') || ('A' <= c && c <= 'Z')
}

/// An ASCII letter or digit.
pub open spec fn is_alnum(c: char) -> bool {
    is_alpha(c) || ('0' <= c && c <= '9')
}

/// The length of the longest prefix of `s` made of letters and digits.
pub open spec fn alnum_run(s: Seq<char>) -> int {
    if exists|i: int| 0 <= i < s.len() && !is_alnum(s[i]) {
        choose|i: int| 0 <= i < s.len() && !is_alnum(s[i]) && forall|j: int| 0 <= j < i ==> is_alnum(s[j])
    } else {
        s.len() as int
    }
}

/// The layout and variant a keymap name selects, as the pattern
/// `^([a-zA-Z][a-zA-Z0-9]*)(?:\(([^)]+)\))?$` reads it (no variant: empty).
pub open spec fn spec_keymap_name(s: Seq<char>) -> Option<(Seq<char>, Seq<char>)> {
    let n = alnum_run(s);
    if s.len() == 0 || !is_alpha(s[0]) {
        None
    } else if n == s.len() {
        Some((s, Seq::<char>::empty()))
    } else {
        let rest = s.skip(n);
        if rest.len() >= 3 && rest[0] == '(' && rest.last() == ')' && lacks(rest.subrange(1, rest.len() - 1), ')') {
            Some((s.take(n), rest.subrange(1, rest.len() - 1)))
        } else {
            None
        }
    }
}

/// The message for a keymap name that is not understood.
pub open spec fn keymap_name_error(name: Seq<char>) -> Seq<char> {
    "invalid layout name for keymap switch: "@ + name
}

/// Reads a keymap name such as `us` or `de(nodeadkeys)`.
pub fn parse_keymap_name(name: &str) -> (r: Result<(String, String), String>)
    ensures
        match spec_keymap_name(name@) {
            Some((l, v)) => r matches Ok((layout, variant)) && layout@ == l && variant@ == v,
            None => r matches Err(m) && m@ == keymap_name_error(name@),
        },
{
    let v = chars_of(name);
    let ghost s = v@;
    let err = String::from_str("invalid layout name for keymap switch: ").concat(name);
    if v.len() == 0 || !(('a' <= v[0] && v[0] <= 'z') || ('A' <= v[0] && v[0] <= 'Z')) {
        return Err(err);
    }
    let mut n: usize = 0;
    while n < v.len() && (('a' <= v[n] && v[n] <= 'z') || ('A' <= v[n] && v[n] <= 'Z') || ('0' <= v[n] && v[n] <= '9'))
        invariant
            n <= v.len(),
            forall|j: int| 0 <= j < n ==> is_alnum(#[trigger] v@[j]),
        decreases v.len() - n,
    {
        n += 1;
    }
    proof {
        if n < v.len() {
            assert(exists|i: int| 0 <= i < s.len() && !is_alnum(s[i]) && forall|j: int| 0 <= j < i ==> is_alnum(s[j])) by {
                assert(!is_alnum(s[n as int]));
            }
            let i = choose|i: int| 0 <= i < s.len() && !is_alnum(s[i]) && forall|j: int| 0 <= j < i ==> is_alnum(s[j]);
            if i < n {
                assert(is_alnum(s[i]));
            } else if i > n {
                assert(is_alnum(s[n as int]));
            }
        } else {
            if exists|i: int| 0 <= i < s.len() && !is_alnum(s[i]) {
                let i = choose|i: int| 0 <= i < s.len() && !is_alnum(s[i]);
                assert(is_alnum(s[i]));
            }
        }
        assert(alnum_run(s) == n);
    }
    if n == v.len() {
        proof {
            assert(s.subrange(0, n as int) =~= s);
        }
        return Ok((span(&v, 0, n), String::new()));
    }
    let len = v.len();
    if len - n >= 3 && v[n] == '(' && v[len - 1] == ')' {
        let close = find_from(&v, n + 1, ')');
        let ghost rest = s.skip(n as int);
        proof {
            assert(rest[0] == s[n as int]);
            assert(rest.last() == s[len - 1]);
            assert(rest.subrange(1, rest.len() - 1) =~= s.subrange(n + 1, len - 1));
        }
        if close == len - 1 {
            proof {
                assert forall|i: int| 0 <= i < rest.subrange(1, rest.len() - 1).len() implies #[trigger] rest.subrange(1, rest.len() - 1)[i] != ')' by {
                    assert(rest.subrange(1, rest.len() - 1)[i] == s[n + 1 + i]);
                }
                assert(s.take(n as int) =~= s.subrange(0, n as int));
            }
            return Ok((span(&v, 0, n), span(&v, n + 1, len - 1)));
        }
        proof {
            assert(rest.subrange(1, rest.len() - 1)[close - n - 1] == s[close as int]);
        }
    }
    Err(err)
}

} // verus!
