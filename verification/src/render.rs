//! Styling of typed characters for terminal feedback.
//!
//! A correctly typed character is wrapped in a green color-escape pair, a
//! mistyped one in a red pair, and an untouched one is shown bare.  The
//! reset glyph for a slot cleared by backspace is sourced from a fixed
//! fallback index of the string, a quirk that is preserved deliberately.

use vstd::prelude::*;
use vstd::string::StrSliceExecFns;
use vstd::string::StringExecFns;

verus! {

/// The escape sequence that switches the terminal to green foreground.
pub open spec fn green_prefix() -> Seq<char> {
    seq!['\u{1b}', '[', '3', '2', 'm']
}

/// The escape sequence that switches the terminal to red foreground.
pub open spec fn red_prefix() -> Seq<char> {
    seq!['\u{1b}', '[', '3', '1', 'm']
}

/// The escape sequence that resets the terminal style.
pub open spec fn style_reset() -> Seq<char> {
    seq!['\u{1b}', '[', '0', 'm']
}

/// `s` wrapped in the green color-escape pair.
pub open spec fn green_of(s: Seq<char>) -> Seq<char> {
    green_prefix() + s + style_reset()
}

/// `s` wrapped in the red color-escape pair.
pub open spec fn red_of(s: Seq<char>) -> Seq<char> {
    red_prefix() + s + style_reset()
}

/// The plain glyph a string falls back to when it is reset: the character at
/// the fixed fallback index 5 where the string is long enough to have one,
/// the whole string otherwise.
pub open spec fn default_of(s: Seq<char>) -> Seq<char> {
    if s.len() > 5 {
        seq![s[5]]
    } else {
        s
    }
}

/// `x` wrapped in the green color-escape pair.
pub fn green_str(x: &str) -> (r: String)
    ensures
        r@ == green_of(x@),
{
    let mut r = String::new();
    r.append("\u{001b}[32m");
    r.append(x);
    r.append("\u{001b}[0m");
    proof {
        reveal_strlit("\u{001b}[32m");
        reveal_strlit("\u{001b}[0m");
        assert(r@ =~= green_of(x@));
    }
    r
}

/// `x` wrapped in the red color-escape pair.
pub fn red_str(x: &str) -> (r: String)
    ensures
        r@ == red_of(x@),
{
    let mut r = String::new();
    r.append("\u{001b}[31m");
    r.append(x);
    r.append("\u{001b}[0m");
    proof {
        reveal_strlit("\u{001b}[31m");
        reveal_strlit("\u{001b}[0m");
        assert(r@ =~= red_of(x@));
    }
    r
}

/// The unstyled fallback glyph for `x`: the character at index 5 where `x`
/// has more than five characters, a copy of `x` otherwise.
pub fn default_str(x: &str) -> (r: String)
    ensures
        r@ == default_of(x@),
{
    if x.unicode_len() > 5 {
        let c = x.get_char(5);
        let mut r = String::new();
        r.push(c);
        proof {
            assert(r@ =~= seq![x@[5]]);
        }
        r
    } else {
        x.to_owned()
    }
}

} // verus!
