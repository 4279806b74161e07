//! ANSI colouring of terminal messages.
use vstd::prelude::*;
use crate::strs::join_all;

verus! {

pub open spec fn reset_code() -> Seq<char> {
    seq!['\x1b', '[', '0', 'm']
}

pub open spec fn bold_red_code() -> Seq<char> {
    seq!['\x1b', '[', '1', ';', '3', '1', 'm']
}

pub open spec fn red_code() -> Seq<char> {
    seq!['\x1b', '[', '3', '1', 'm']
}

pub open spec fn green_code() -> Seq<char> {
    seq!['\x1b', '[', '3', '2', 'm']
}

/// Bright white on a red background.
pub open spec fn red_bg_code() -> Seq<char> {
    seq!['\x1b', '[', '9', '7', ';', '4', '1', 'm']
}

/// Bright white on a green background.
pub open spec fn green_bg_code() -> Seq<char> {
    seq!['\x1b', '[', '9', '7', ';', '4', '2', 'm']
}

/// `error: s`, with `error` in bold red.
pub open spec fn error_spec(s: Seq<char>) -> Seq<char> {
    bold_red_code() + "error"@ + reset_code() + ": "@ + s
}

/// A line in `fg` with its middle part highlighted by `bg`.
pub open spec fn diff_text(fg: Seq<char>, bg: Seq<char>, prefix: Seq<char>, mid: Seq<char>, suffix: Seq<char>) -> Seq<char> {
    fg + prefix + bg + mid + reset_code() + fg + suffix + reset_code()
}

fn reset() -> (r: &'static str)
    ensures
        r@ == reset_code(),
{
    let r = "\x1b[0m";
    proof {
        reveal_strlit("\x1b[0m");
    }
    assert(r@ =~= reset_code());
    r
}

fn wrap(color: &str, s: &str) -> (r: String)
    ensures
        r@ == color@ + s@ + reset_code(),
{
    let r = join_all(vec![color, s, reset()]);
    proof {
        reveal_with_fuel(crate::strs::concat_all, 4);
    }
    assert(r@ =~= color@ + s@ + reset_code());
    r
}

fn wrap_diff(fg: &str, bg: &str, prefix: &str, mid: &str, suffix: &str) -> (r: String)
    ensures
        r@ == fg@ + prefix@ + bg@ + mid@ + reset_code() + fg@ + suffix@ + reset_code(),
{
    let z = reset();
    let r = join_all(vec![fg, prefix, bg, mid, z, fg, suffix, z]);
    proof {
        reveal_with_fuel(crate::strs::concat_all, 9);
    }
    assert(r@ =~= fg@ + prefix@ + bg@ + mid@ + reset_code() + fg@ + suffix@ + reset_code());
    r
}

/// `error: s`, with `error` in bold red.
pub fn error(s: &str) -> (r: String)
    ensures
        r@ == error_spec(s@),
{
    let r = join_all(vec!["\x1b[1;31m", "error", reset(), ": ", s]);
    proof {
        reveal_strlit("\x1b[1;31m");
        reveal_strlit("error");
        reveal_strlit(": ");
        reveal_with_fuel(crate::strs::concat_all, 6);
    }
    assert(r@ =~= error_spec(s@));
    r
}

/// `s` in red.
pub fn red(s: &str) -> (r: String)
    ensures
        r@ == red_code() + s@ + reset_code(),
{
    let c = "\x1b[31m";
    proof {
        reveal_strlit("\x1b[31m");
    }
    assert(c@ =~= red_code());
    wrap(c, s)
}

/// `s` in green.
pub fn green(s: &str) -> (r: String)
    ensures
        r@ == green_code() + s@ + reset_code(),
{
    let c = "\x1b[32m";
    proof {
        reveal_strlit("\x1b[32m");
    }
    assert(c@ =~= green_code());
    wrap(c, s)
}

/// Red line with background highlight on the changed portion.
pub fn red_diff(prefix: &str, mid: &str, suffix: &str) -> (r: String)
    ensures
        r@ == diff_text(red_code(), red_bg_code(), prefix@, mid@, suffix@),
{
    let fg = "\x1b[31m";
    let bg = "\x1b[97;41m";
    proof {
        reveal_strlit("\x1b[31m");
        reveal_strlit("\x1b[97;41m");
    }
    assert(fg@ =~= red_code());
    assert(bg@ =~= red_bg_code());
    wrap_diff(fg, bg, prefix, mid, suffix)
}

/// Green line with background highlight on the changed portion.
pub fn green_diff(prefix: &str, mid: &str, suffix: &str) -> (r: String)
    ensures
        r@ == diff_text(green_code(), green_bg_code(), prefix@, mid@, suffix@),
{
    let fg = "\x1b[32m";
    let bg = "\x1b[97;42m";
    proof {
        reveal_strlit("\x1b[32m");
        reveal_strlit("\x1b[97;42m");
    }
    assert(fg@ =~= green_code());
    assert(bg@ =~= green_bg_code());
    wrap_diff(fg, bg, prefix, mid, suffix)
}

} // verus!
