//! Command-line arguments: flags, positional arguments and the release mode.
use vstd::prelude::*;
use crate::strs::{is_prefix, str_eq, str_starts_with, views};


verus! {

/// An argument that starts with `-` is a flag.
pub open spec fn is_flag(a: Seq<char>) -> bool {
    a.len() > 0 && a[0] == '-'
}

/// The arguments of `s` that are flags (`flags`) or not (`!flags`), in order.
pub open spec fn args_where(s: Seq<Seq<char>>, flags: bool) -> Seq<Seq<char>>
    decreases s.len(),
{
    if s.len() == 0 {
        Seq::empty()
    } else if is_flag(s.last()) == flags {
        args_where(s.drop_last(), flags).push(s.last())
    } else {
        args_where(s.drop_last(), flags)
    }
}

/// Splits the arguments after the program name into flags and positional arguments.
pub fn split_args(args: &Vec<String>) -> (r: (Vec<String>, Vec<String>))
    requires
        args@.len() >= 1,
    ensures
        views(r.0@) == args_where(views(args@).subrange(1, args@.len() as int), true),
        views(r.1@) == args_where(views(args@).subrange(1, args@.len() as int), false),
{
    let mut flags: Vec<String> = Vec::new();
    let mut positional: Vec<String> = Vec::new();
    let mut i: usize = 1;
    while i < args.len()
        invariant
            1 <= i <= args@.len(),
            views(flags@) == args_where(views(args@).subrange(1, i as int), true),
            views(positional@) == args_where(views(args@).subrange(1, i as int), false),
        decreases args@.len() - i,
    {
        let a = args[i].as_str();
        let f = str_starts_with(a, "-");
        proof {
            reveal_strlit("-");
            let s = views(args@).subrange(1, i + 1);
            assert(s.drop_last() =~= views(args@).subrange(1, i as int));
            assert(s.last() == a@);
            if a@.len() > 0 {
                assert(a@.subrange(0, 1)[0] == a@[0]);
                if a@[0] == '-' {
                    assert(a@.subrange(0, 1) =~= "-"@);
                }
            }
            if f {
                assert("-"@[0] == '-');
            }
            assert(f == is_flag(a@));
        }
        let ghost fv = flags@;
        let ghost pv = positional@;
        if f {
            flags.push(args[i].clone());
            assert(views(flags@) =~= views(fv).push(a@));
        } else {
            positional.push(args[i].clone());
            assert(views(positional@) =~= views(pv).push(a@));
        }
        i += 1;
    }
    (flags, positional)
}

/// The Zig optimisation mode that `--release=<val>` names.
pub open spec fn release_mode(val: Seq<char>) -> Option<Seq<char>> {
    if val == "safe"@ {
        Some("ReleaseSafe"@)
    } else if val == "fast"@ {
        Some("ReleaseFast"@)
    } else if val == "small"@ {
        Some("ReleaseSmall"@)
    } else {
        None
    }
}

/// The optimisation mode that the first release flag of `flags` asks for:
/// `--release` is `ReleaseSmall`; `--release=<val>` is the mode `val` names,
/// or the error `val` when it names none.
pub open spec fn opt_level_spec(flags: Seq<Seq<char>>) -> Result<Option<Seq<char>>, Seq<char>>
    decreases flags.len(),
{
    if flags.len() == 0 {
        Ok(None)
    } else if flags[0] == "--release"@ {
        Ok(Some("ReleaseSmall"@))
    } else if is_prefix("--release="@, flags[0]) {
        let val = flags[0].subrange(10, flags[0].len() as int);
        match release_mode(val) {
            Some(m) => Ok(Some(m)),
            None => Err(val),
        }
    } else {
        opt_level_spec(flags.subrange(1, flags.len() as int))
    }
}

/// The optimisation mode that the flags ask for; `Err` holds an unknown
/// `--release=` value.
pub fn opt_level(flags: &Vec<String>) -> (r: Result<Option<&'static str>, String>)
    ensures
        opt_level_spec(views(flags@)) == match r {
            Ok(Some(m)) => Ok(Some(m@)),
            Ok(None) => Ok(None),
            Err(v) => Err(v@),
        },
{
    let mut i: usize = 0;
    assert(views(flags@).subrange(0, flags@.len() as int) =~= views(flags@));
    while i < flags.len()
        invariant
            i <= flags@.len(),
            opt_level_spec(views(flags@).subrange(i as int, flags@.len() as int)) == opt_level_spec(views(flags@)),
        decreases flags@.len() - i,
    {
        proof {
            reveal_strlit("--release");
            reveal_strlit("--release=");
            reveal_strlit("safe");
            reveal_strlit("fast");
            reveal_strlit("small");
            reveal_strlit("ReleaseSafe");
            reveal_strlit("ReleaseFast");
            reveal_strlit("ReleaseSmall");
        }
        let f = flags[i].as_str();
        let ghost rest = views(flags@).subrange(i as int, flags@.len() as int);
        assert(rest[0] == f@);
        if str_eq(f, "--release") {
            return Ok(Some("ReleaseSmall"));
        }
        if str_starts_with(f, "--release=") {
            let v = crate::strs::chars_of(f);
            let mut val = String::new();
            let mut k: usize = 10;
            while k < v.len()
                invariant
                    10 <= k <= v@.len(),
                    v@ == f@,
                    val@ == f@.subrange(10, k as int),
                decreases v@.len() - k,
            {
                crate::strs::push_char(&mut val, v[k]);
                k += 1;
                assert(val@ =~= f@.subrange(10, k as int));
            }
            if str_eq(val.as_str(), "safe") {
                return Ok(Some("ReleaseSafe"));
            } else if str_eq(val.as_str(), "fast") {
                return Ok(Some("ReleaseFast"));
            } else if str_eq(val.as_str(), "small") {
                return Ok(Some("ReleaseSmall"));
            } else {
                return Err(val);
            }
        }
        assert(rest.subrange(1, rest.len() as int) =~= views(flags@).subrange(i + 1, flags@.len() as int));
        i += 1;
    }
    Ok(None)
}

} // verus!
