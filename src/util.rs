//! Small helpers for the renderer and the configuration.
use vstd::prelude::*;
use vstd::string::*;

use crate::text::push_char;
use vstd::std_specs::cmp::PartialEqSpec;

verus! {

/// `n` dots.
pub open spec fn dots(n: nat) -> Seq<char> {
    Seq::new(n, |i: int| '.')
}

/// What fits of `s` in `n` characters, keeping its end: `s` itself when it
/// fits, else its last `n - 3` characters behind three dots (only dots when
/// `n < 3`).
pub open spec fn truncated(s: Seq<char>, n: nat) -> Seq<char> {
    if s.len() <= n {
        s
    } else if n < 3 {
        dots(n)
    } else {
        dots(3) + s.subrange(s.len() - (n - 3), s.len() as int)
    }
}

/// Shortens `s` to at most `n` characters, keeping its end and marking the
/// cut with dots.
pub fn truncate_from_end(s: &str, n: usize) -> (r: String)
    ensures
        r@ == truncated(s@, n as nat),
{
    let len = s.unicode_len();
    if len <= n {
        String::from_str(s)
    } else if n < 3 {
        let mut r = String::new();
        let mut i: usize = 0;
        while i < n
            invariant
                i <= n,
                r@ == dots(i as nat),
            decreases n - i,
        {
            push_char(&mut r, '.');
            i = i + 1;
            assert(r@ =~= dots(i as nat));
        }
        r
    } else {
        let mut r = String::new();
        push_char(&mut r, '.');
        push_char(&mut r, '.');
        push_char(&mut r, '.');
        assert(r@ =~= dots(3));
        r.append(s.substring_char(len - (n - 3), len));
        r
    }
}

/// Whether `t` equals the default value of its type.
pub fn is_default<T: Default + PartialEq>(t: &T) -> (r: bool)
    ensures
        T::obeys_eq_spec() ==> exists|d: T| #[trigger] call_ensures(T::default, (), d) && r == t.eq_spec(&d),
{
    let d = T::default();
    *t == d
}

} // verus!
