//! Names of overlays created on demand: `P-<n>` for passthrough views and
//! `M-<n>` for mirrors, numbered from 1 in creation order.
use vstd::prelude::*;
use vstd::string::*;
use crate::text::{push_decimal, decimal, digit_char};
use crate::ctl::{digits_value, digit_value};

verus! {

broadcast use vstd::string::group_string_axioms;

/// The next number to give out (the counter wraps around like an atomic
/// `fetch_add`).
pub struct OverlayNameCounter {
    pub next: usize,
}

impl OverlayNameCounter {
    /// A counter that starts at 1.
    pub fn new() -> (c: Self)
        ensures
            c.next == 1,
    {
        OverlayNameCounter { next: 1 }
    }
}

/// `<prefix><n>`.
pub open spec fn numbered_name(prefix: Seq<char>, n: usize) -> Seq<char> {
    prefix + decimal(n as nat)
}

/// The counter after it gave out a number.
pub open spec fn advanced(n: usize) -> usize {
    if n == usize::MAX { 0 } else { (n + 1) as usize }
}

fn take_number(counter: &mut OverlayNameCounter) -> (n: usize)
    ensures
        n == old(counter).next,
        final(counter).next == advanced(old(counter).next),
{
    let n = counter.next;
    counter.next = counter.next.wrapping_add(1);
    n
}

/// A fresh name for a passthrough view: `P-<n>`.
pub fn new_passtrhu_name(counter: &mut OverlayNameCounter) -> (s: String)
    ensures
        s@ == numbered_name("P-"@, old(counter).next),
        final(counter).next == advanced(old(counter).next),
{
    let n = take_number(counter);
    let mut s = String::from_str("P-");
    push_decimal(&mut s, n as u64);
    s
}

/// A fresh name for a mirror: `M-<n>`.
pub fn new_mirror_name(counter: &mut OverlayNameCounter) -> (s: String)
    ensures
        s@ == numbered_name("M-"@, old(counter).next),
        final(counter).next == advanced(old(counter).next),
{
    let n = take_number(counter);
    let mut s = String::from_str("M-");
    push_decimal(&mut s, n as u64);
    s
}

proof fn lemma_decimal_value(n: nat)
    ensures
        digits_value(decimal(n)) == n,
    decreases n,
{
    let d = n % 10;
    assert(digit_value(digit_char(d)) == d) by {
        assert(d < 10);
    }
    if n >= 10 {
        lemma_decimal_value(n / 10);
        let s = decimal(n);
        assert(s.drop_last() == decimal(n / 10));
        assert(s.last() == digit_char(d));
        assert((n / 10) * 10 + n % 10 == n) by (nonlinear_arith);
        assert(digits_value(s) == digits_value(s.drop_last()) * 10 + digit_value(s.last()));
    } else {
        let s = decimal(n);
        assert(s.drop_last() =~= Seq::<char>::empty());
        assert(n % 10 == n);
        assert(digits_value(s) == digits_value(s.drop_last()) * 10 + digit_value(s.last()));
    }
}

/// Two numbers give two different names: a counter that has not wrapped
/// around never repeats a name.
pub proof fn law_numbered_names_distinct(prefix: Seq<char>, a: usize, b: usize)
    requires
        a != b,
    ensures
        numbered_name(prefix, a) != numbered_name(prefix, b),
{
    lemma_decimal_value(a as nat);
    lemma_decimal_value(b as nat);
    if numbered_name(prefix, a) == numbered_name(prefix, b) {
        assert(numbered_name(prefix, a).skip(prefix.len() as int) =~= decimal(a as nat));
        assert(numbered_name(prefix, b).skip(prefix.len() as int) =~= decimal(b as nat));
    }
}

} // verus!
