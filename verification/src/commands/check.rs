//! The `check` command's report: diagnostics, format differences and the summary.
use vstd::prelude::*;
use vstd::string::StringSliceAdditionalSpecFns;
use super::{format_error, line_end, span_ok};
use crate::colors::{diff_text, error_spec, green_bg_code, green_code, red_bg_code, red_code, reset_code};
use crate::fmt::{format_spec, gap_end, has_blank_line};
use crate::grammar::{g_parse, tops_v};
use crate::lexer::{fits, lex_ok, spec_tokenize, Span};
use crate::parser::Program;
use crate::strs::{
    chars_of, int_dec, join_all, lemma_ws_end_pos, push_char, push_str, str_eq, trim_end,
    unicode_whitespace, usize_to_string, views, ws_end,
};
use crate::typechecker::modules_ok;
use crate::typing::{check_spec, mods_v};

verus! {

// -------------------------------------------------------------------------
// Summary

/// `""` for one, `"s"` otherwise.
pub open spec fn plural_spec(n: int) -> Seq<char> {
    if n == 1 { Seq::empty() } else { seq!['s'] }
}

/// `""` for one, `"s"` otherwise.
pub fn plural(n: usize) -> (r: &'static str)
    ensures
        r@ == plural_spec(n as int),
{
    proof {
        reveal_strlit("");
        reveal_strlit("s");
    }
    if n == 1 { "" } else { "s" }
}

/// The summary line for files that are not formatted.
pub open spec fn not_formatted_line(total: int, not_formatted: int) -> Seq<char> {
    error_spec("Found "@ + int_dec(not_formatted) + " not formatted file"@ + plural_spec(not_formatted)
        + " in "@ + int_dec(total) + " file"@ + plural_spec(total))
}

/// The summary line when every file passed.
pub open spec fn checked_line(total: int) -> Seq<char> {
    "Checked "@ + int_dec(total) + " file"@ + plural_spec(total)
}

/// The summary of a check: the line to print, if any, and whether the
/// command fails (it does when a file has type errors or is not formatted).
pub fn summary(total: usize, type_errors: usize, not_formatted: usize) -> (r: (Option<String>, bool))
    ensures
        r.1 == (not_formatted > 0 || type_errors > 0),
        not_formatted > 0 ==> (r.0 matches Some(m) && m@ == not_formatted_line(total as int, not_formatted as int)),
        not_formatted == 0 && type_errors == 0 ==> (r.0 matches Some(m) && m@ == checked_line(total as int)),
        not_formatted == 0 && type_errors > 0 ==> r.0 is None,
{
    proof {
        reveal_strlit("Found ");
        reveal_strlit(" not formatted file");
        reveal_strlit(" in ");
        reveal_strlit(" file");
        reveal_strlit("Checked ");
        reveal_with_fuel(crate::strs::concat_all, 9);
    }
    if not_formatted > 0 {
        let nf = usize_to_string(not_formatted);
        let t = usize_to_string(total);
        let text = join_all(vec!["Found ", nf.as_str(), " not formatted file", plural(not_formatted), " in ",
            t.as_str(), " file", plural(total)]);
        let m = crate::colors::error(text.as_str());
        assert(text@ =~= "Found "@ + int_dec(not_formatted as int) + " not formatted file"@
            + plural_spec(not_formatted as int) + " in "@ + int_dec(total as int) + " file"@
            + plural_spec(total as int));
        (Some(m), true)
    } else if type_errors == 0 {
        let t = usize_to_string(total);
        let m = join_all(vec!["Checked ", t.as_str(), " file", plural(total)]);
        assert(m@ =~= checked_line(total as int));
        (Some(m), false)
    } else {
        (None, true)
    }
}

// -------------------------------------------------------------------------
// Lines

/// `l` without a final carriage return.
pub open spec fn strip_cr(l: Seq<char>) -> Seq<char> {
    if l.len() > 0 && l.last() == '\r' {
        l.drop_last()
    } else {
        l
    }
}

/// The lines of `s[i..]` as `str::lines` gives them: split at `\n`, with a
/// `\r` before the `\n` dropped, and no empty line after a final `\n`.
pub open spec fn lines_from(s: Seq<char>, i: int) -> Seq<Seq<char>>
    decreases s.len() - i,
{
    if i < 0 || i >= s.len() {
        Seq::empty()
    } else {
        let e = line_end(s, i);
        if e >= s.len() {
            seq![s.subrange(i, s.len() as int)]
        } else {
            proof {
                super::lemma_line_end(s, i);
            }
            seq![strip_cr(s.subrange(i, e))] + lines_from(s, e + 1)
        }
    }
}

/// `s.lines()`, each as an owned string.
pub fn split_lines(s: &str) -> (r: Vec<String>)
    ensures
        views(r@) == lines_from(s@, 0),
{
    let v = chars_of(s);
    let ghost t = s@;
    let mut out: Vec<String> = Vec::new();
    let mut i: usize = 0;
    assert(views(out@) =~= Seq::<Seq<char>>::empty());
    while i < v.len()
        invariant
            i <= v@.len(),
            v@ == t,
            t == s@,
            views(out@) + lines_from(t, i as int) == lines_from(t, 0),
        decreases v@.len() - i,
    {
        let mut e = i;
        while e < v.len() && v[e] != '\n'
            invariant
                i <= e <= v@.len(),
                v@ == t,
                line_end(t, e as int) == line_end(t, i as int),
            decreases v@.len() - e,
        {
            e += 1;
        }
        let mut end = e;
        if e < v.len() && e > i && v[e - 1] == '\r' {
            end = e - 1;
        }
        let mut line = String::new();
        let mut k = i;
        while k < end
            invariant
                i <= k <= end,
                end <= v@.len(),
                v@ == t,
                line@ == t.subrange(i as int, k as int),
            decreases end - k,
        {
            push_char(&mut line, v[k]);
            k += 1;
            assert(line@ =~= t.subrange(i as int, k as int));
        }
        let ghost before = out@;
        out.push(line);
        proof {
            assert(views(out@) =~= views(before).push(out@.last()@));
            if e < v.len() {
                assert(line@ =~= strip_cr(t.subrange(i as int, e as int)));
                assert(lines_from(t, i as int) =~= seq![line@] + lines_from(t, e + 1));
            } else {
                assert(lines_from(t, i as int) =~= seq![line@]);
            }
        }
        if e < v.len() {
            i = e + 1;
        } else {
            i = e;
        }
        proof {
            if i >= v@.len() {
                assert(lines_from(t, i as int) =~= Seq::<Seq<char>>::empty());
            }
        }
        assert(views(out@) + lines_from(t, i as int) =~= lines_from(t, 0));
    }
    assert(views(out@) + lines_from(t, i as int) =~= views(out@));
    out
}

// -------------------------------------------------------------------------
// Differences

/// Length of the common prefix of `a[i..]` and `b[i..]`, plus `i`.
pub open spec fn common_prefix(a: Seq<char>, b: Seq<char>, i: int) -> int
    decreases a.len() - i,
{
    if 0 <= i < a.len() && i < b.len() && a[i] == b[i] {
        common_prefix(a, b, i + 1)
    } else {
        i
    }
}

/// Length of the common suffix of `a[p..]` and `b[p..]`, counting from `k`.
pub open spec fn common_suffix(a: Seq<char>, b: Seq<char>, p: int, k: int) -> int
    decreases a.len() - k,
{
    if 0 <= k && 0 <= p && p + k < a.len() && p + k < b.len() && a[a.len() - 1 - k] == b[b.len() - 1 - k] {
        common_suffix(a, b, p, k + 1)
    } else {
        k
    }
}

proof fn lemma_common_prefix(a: Seq<char>, b: Seq<char>, i: int)
    requires
        0 <= i <= a.len(),
        i <= b.len(),
        forall|j: int| 0 <= j < i ==> a[j] == b[j],
    ensures
        i <= common_prefix(a, b, i) <= a.len(),
        common_prefix(a, b, i) <= b.len(),
        forall|j: int| 0 <= j < common_prefix(a, b, i) ==> a[j] == b[j],
    decreases a.len() - i,
{
    if i < a.len() && i < b.len() && a[i] == b[i] {
        lemma_common_prefix(a, b, i + 1);
    }
}

/// `a` and `b` agree `j` places from their ends.
pub open spec fn same_from_end(a: Seq<char>, b: Seq<char>, j: int) -> bool {
    a[a.len() - 1 - j] == b[b.len() - 1 - j]
}

proof fn lemma_common_suffix(a: Seq<char>, b: Seq<char>, p: int, k: int)
    requires
        0 <= p,
        0 <= k,
        p + k <= a.len(),
        p + k <= b.len(),
        forall|j: int| 0 <= j < k ==> #[trigger] same_from_end(a, b, j),
    ensures
        k <= common_suffix(a, b, p, k),
        p + common_suffix(a, b, p, k) <= a.len(),
        p + common_suffix(a, b, p, k) <= b.len(),
        forall|j: int| 0 <= j < common_suffix(a, b, p, k) ==> #[trigger] same_from_end(a, b, j),
    decreases a.len() - k,
{
    if p + k < a.len() && p + k < b.len() && a[a.len() - 1 - k] == b[b.len() - 1 - k] {
        lemma_common_suffix(a, b, p, k + 1);
    }
}

/// Where the changed middle of `a` against `b` starts, and where it ends in `a` and in `b`.
pub open spec fn diff_bounds(a: Seq<char>, b: Seq<char>) -> (int, int, int) {
    let p = common_prefix(a, b, 0);
    let s = common_suffix(a, b, p, 0);
    (p, a.len() - s, b.len() - s)
}

/// The two lines of a difference are equal outside their highlighted middles,
/// and each line is its prefix, middle and suffix in turn.
pub proof fn lemma_diff_parts(a: Seq<char>, b: Seq<char>)
    ensures
        0 <= diff_bounds(a, b).0 <= diff_bounds(a, b).1 <= a.len(),
        diff_bounds(a, b).0 <= diff_bounds(a, b).2 <= b.len(),
        a.subrange(0, diff_bounds(a, b).0) == b.subrange(0, diff_bounds(a, b).0),
        a.subrange(diff_bounds(a, b).1, a.len() as int) == b.subrange(diff_bounds(a, b).2, b.len() as int),
        a == a.subrange(0, diff_bounds(a, b).0) + a.subrange(diff_bounds(a, b).0, diff_bounds(a, b).1)
            + a.subrange(diff_bounds(a, b).1, a.len() as int),
{
    lemma_common_prefix(a, b, 0);
    let p = common_prefix(a, b, 0);
    lemma_common_suffix(a, b, p, 0);
    let (p, ea, eb) = diff_bounds(a, b);
    assert(a.subrange(0, p) =~= b.subrange(0, p));
    assert(a.subrange(ea, a.len() as int) =~= b.subrange(eb, b.len() as int)) by {
        let s = common_suffix(a, b, p, 0);
        assert forall|j: int| 0 <= j < s implies a.subrange(ea, a.len() as int)[j] == b.subrange(eb, b.len() as int)[j] by {
            assert(same_from_end(a, b, s - 1 - j));
        }
    }
    assert(a =~= a.subrange(0, p) + a.subrange(p, ea) + a.subrange(ea, a.len() as int));
}

/// The old line in red and the new line in green, each with the part that
/// differs from the other highlighted.
pub fn diff_highlight(a: &str, b: &str) -> (r: (String, String))
    ensures
        ({
            let (p, ea, eb) = diff_bounds(a@, b@);
            &&& r.0@ == diff_text(red_code(), red_bg_code(), a@.subrange(0, p), a@.subrange(p, ea),
                a@.subrange(ea, a@.len() as int))
            &&& r.1@ == diff_text(green_code(), green_bg_code(), b@.subrange(0, p), b@.subrange(p, eb),
                b@.subrange(eb, b@.len() as int))
        }),
{
    let ac = chars_of(a);
    let bc = chars_of(b);
    proof {
        lemma_common_prefix(a@, b@, 0);
    }
    let mut prefix: usize = 0;
    while prefix < ac.len() && prefix < bc.len() && ac[prefix] == bc[prefix]
        invariant
            prefix <= ac@.len(),
            prefix <= bc@.len(),
            ac@ == a@,
            bc@ == b@,
            common_prefix(a@, b@, prefix as int) == common_prefix(a@, b@, 0),
        decreases ac@.len() - prefix,
    {
        prefix += 1;
    }
    let mut suffix: usize = 0;
    while suffix < ac.len() - prefix && suffix < bc.len() - prefix
        && ac[ac.len() - 1 - suffix] == bc[bc.len() - 1 - suffix]
        invariant
            prefix <= ac@.len(),
            prefix <= bc@.len(),
            prefix + suffix <= ac@.len(),
            prefix + suffix <= bc@.len(),
            ac@ == a@,
            bc@ == b@,
            prefix == common_prefix(a@, b@, 0),
            common_suffix(a@, b@, prefix as int, suffix as int) == common_suffix(a@, b@, prefix as int, 0),
        decreases ac@.len() - suffix,
    {
        suffix += 1;
    }
    let a_end = ac.len() - suffix;
    let b_end = bc.len() - suffix;
    let ap = slice_string(&ac, 0, prefix);
    let am = slice_string(&ac, prefix, a_end);
    let as_ = slice_string(&ac, a_end, ac.len());
    let bp = slice_string(&bc, 0, prefix);
    let bm = slice_string(&bc, prefix, b_end);
    let bs = slice_string(&bc, b_end, bc.len());
    (
        crate::colors::red_diff(ap.as_str(), am.as_str(), as_.as_str()),
        crate::colors::green_diff(bp.as_str(), bm.as_str(), bs.as_str()),
    )
}

/// The characters `v[i..j]` as a string.
fn slice_string(v: &Vec<char>, i: usize, j: usize) -> (r: String)
    requires
        i <= j <= v@.len(),
    ensures
        r@ == v@.subrange(i as int, j as int),
{
    let mut r = String::new();
    let mut k = i;
    while k < j
        invariant
            i <= k <= j,
            j <= v@.len(),
            r@ == v@.subrange(i as int, k as int),
        decreases j - k,
    {
        push_char(&mut r, v[k]);
        k += 1;
        assert(r@ =~= v@.subrange(i as int, k as int));
    }
    r
}

/// Line `i` of `ls`, or empty past the end.
pub open spec fn line_at(ls: Seq<Seq<char>>, i: int) -> Seq<char> {
    if 0 <= i < ls.len() { ls[i] } else { Seq::empty() }
}

/// One pair of differing lines, numbered `n`: the old one in red and the
/// new one in green, their differing middles highlighted.
pub open spec fn diff_pair(x: Seq<char>, y: Seq<char>, n: int) -> Seq<char> {
    let (p, ea, eb) = diff_bounds(x, y);
    red_code() + (int_dec(n) + " | -"@) + reset_code()
        + diff_text(red_code(), red_bg_code(), x.subrange(0, p), x.subrange(p, ea), x.subrange(ea, x.len() as int)) + "\n"@
        + green_code() + (int_dec(n) + " | +"@) + reset_code()
        + diff_text(green_code(), green_bg_code(), y.subrange(0, p), y.subrange(p, eb), y.subrange(eb, y.len() as int)) + "\n"@
}

/// The pairs of differing lines from line index `i` on, `shown` pairs having
/// been shown before: eight pairs at most, then `...`.
pub open spec fn diff_pairs(a: Seq<Seq<char>>, b: Seq<Seq<char>>, i: int, shown: int) -> Seq<char>
    decreases (if a.len() > b.len() { a.len() as int } else { b.len() as int }) - i,
{
    let n = if a.len() > b.len() { a.len() as int } else { b.len() as int };
    if i < 0 || i >= n {
        Seq::empty()
    } else if line_at(a, i) != line_at(b, i) {
        let block = diff_pair(line_at(a, i), line_at(b, i), i + 1);
        if shown + 1 >= 8 { block + "...\n"@ } else { block + diff_pairs(a, b, i + 1, shown + 1) }
    } else {
        diff_pairs(a, b, i + 1, shown)
    }
}

/// The difference that formatting makes: the differing line pairs with
/// trailing whitespace removed, or, when only a final newline differs, an
/// added empty line after the last.
pub open spec fn fmt_diff_spec(source: Seq<char>, formatted: Seq<char>) -> Seq<char> {
    let a = lines_from(source, 0);
    let out = diff_pairs(a, lines_from(formatted, 0), 0, 0);
    if out.len() == 0 && source != formatted {
        green_code() + (int_dec(if a.len() < usize::MAX { a.len() + 1int } else { a.len() as int }) + " | +"@) + reset_code()
    } else {
        out.subrange(0, ws_end(out, out.len() as int))
    }
}

/// The lines of `source` that formatting changes, old and new, each pair
/// numbered; at most eight pairs, then `...`. When only a final newline
/// differs, an added empty line is shown. Empty exactly when the source is
/// already formatted.
#[verifier::rlimit(40)]
pub fn fmt_diff(source: &str, formatted: &str) -> (r: String)
    ensures
        r@.len() == 0 <==> source@ == formatted@,
        r@ == fmt_diff_spec(source@, formatted@),
{
    let src_lines = split_lines(source);
    let fmt_lines = split_lines(formatted);
    let ghost la = views(src_lines@);
    let ghost lb = views(fmt_lines@);
    let ghost goal = diff_pairs(la, lb, 0, 0);
    let mut out = String::new();
    let max_len = if src_lines.len() > fmt_lines.len() { src_lines.len() } else { fmt_lines.len() };
    let mut shown: usize = 0;
    let mut wrote = false;
    let mut i: usize = 0;
    while i < max_len
        invariant_except_break
            out@ + diff_pairs(la, lb, i as int, shown as int) == goal,
        invariant
            i <= max_len,
            wrote == (out@.len() > 0),
            max_len == if src_lines@.len() > fmt_lines@.len() { src_lines@.len() } else { fmt_lines@.len() },
            source@ == formatted@ ==> views(src_lines@) == views(fmt_lines@),
            source@ == formatted@ ==> out@.len() == 0,
            out@.len() > 0 ==> out@[0] == '\x1b',
            shown <= i,
            la == views(src_lines@),
            lb == views(fmt_lines@),
        ensures
            out@ == goal,
            wrote == (out@.len() > 0),
            source@ == formatted@ ==> out@.len() == 0,
            out@.len() > 0 ==> out@[0] == '\x1b',
        decreases max_len - i,
    {
        let idx = i;
        i += 1;
        proof {
            reveal_strlit("");
        }
        let a: &str = if idx < src_lines.len() { src_lines[idx].as_str() } else { "" };
        let b: &str = if idx < fmt_lines.len() { fmt_lines[idx].as_str() } else { "" };
        proof {
            if source@ == formatted@ && idx < src_lines@.len() {
                assert(views(src_lines@)[idx as int] == src_lines@[idx as int]@);
                assert(views(fmt_lines@)[idx as int] == fmt_lines@[idx as int]@);
            }
        }
        proof {
            assert(a@ == line_at(la, idx as int));
            assert(b@ == line_at(lb, idx as int));
        }
        if !str_eq(a, b) {
            let block = diff_block(a, b, i);
            let ghost pre = out@;
            push_str(&mut out, block.as_str());
            proof {
                if pre.len() > 0 {
                    assert(out@[0] == pre[0]);
                } else {
                    assert(out@[0] == block@[0]);
                }
            }
            wrote = true;
            shown += 1;
            if shown >= 8 {
                let ghost mid = out@;
                push_str(&mut out, "...\n");
                proof {
                    reveal_strlit("...\n");
                    assert(out@ =~= pre + (block@ + "...\n"@));
                    assert(out@[0] == mid[0]);
                }
                break;
            }
            assert(out@ + diff_pairs(la, lb, i as int, shown as int) =~= pre + (block@
                + diff_pairs(la, lb, i as int, shown as int)));
        }
    }
    if !wrote && !str_eq(source, formatted) {
        // only a final newline differs: show an added empty line
        let n = src_lines.len();
        let ln = usize_to_string(if n < usize::MAX { n + 1 } else { n });
        let lb = cat_num(ln.as_str(), " | +");
        let g = crate::colors::green(lb.as_str());
        proof {
            assert(g@.len() > 0);
        }
        g
    } else {
        let t = trim_end(out.as_str());
        proof {
            if out@.len() > 0 {
                assert(out@[0] as u32 == 0x1b);
                assert(!unicode_whitespace(out@[0]));
                lemma_ws_end_pos(out@, out@.len() as int);
                assert(t@.len() > 0);
            }
        }
        t
    }
}

/// One pair of differing lines as `diff_pair` gives it.
fn diff_block(a: &str, b: &str, n: usize) -> (r: String)
    ensures
        r@ == diff_pair(a@, b@, n as int),
        r@.len() > 0,
        r@[0] == '\x1b',
{
    let (hl_a, hl_b) = diff_highlight(a, b);
    let ln = usize_to_string(n);
    let tag_a = cat_num(ln.as_str(), " | -");
    let red = crate::colors::red(tag_a.as_str());
    let tag_b = cat_num(ln.as_str(), " | +");
    let green = crate::colors::green(tag_b.as_str());
    let mut out = String::new();
    push_str(&mut out, red.as_str());
    push_str(&mut out, hl_a.as_str());
    push_char(&mut out, '\n');
    push_str(&mut out, green.as_str());
    push_str(&mut out, hl_b.as_str());
    push_char(&mut out, '\n');
    proof {
        reveal_strlit("\n");
        assert(out@ =~= diff_pair(a@, b@, n as int));
        assert(out@[0] == red_code()[0]);
    }
    out
}

/// `n` followed by `tail`.
fn cat_num(n: &str, tail: &str) -> (r: String)
    ensures
        r@ == n@ + tail@,
{
    crate::strs::cat2(n, tail)
}

// -------------------------------------------------------------------------
// Checking a source file

/// A diagnostic as the report shows it: located in `source` when its span
/// can be, else the bare error line.
pub open spec fn report_spec(message: Seq<char>, span: Option<Span>, source: Seq<char>, path: Seq<char>) -> Seq<char> {
    match span {
        Some(sp) => if span_ok_spec(sp, source) {
            super::error_text(message, sp, source, path)
        } else {
            error_spec(message)
        },
        None => error_spec(message),
    }
}

/// The reports of the parse errors, in order.
pub open spec fn parse_reports(es: Seq<(Seq<char>, Span)>, source: Seq<char>, path: Seq<char>) -> Seq<Seq<char>> {
    es.map_values(|e: (Seq<char>, Span)| report_spec(e.0, Some(e.1), source, path))
}

/// The reports of the type errors, in order.
pub open spec fn check_reports(es: Seq<(Option<Span>, Seq<char>)>, source: Seq<char>, path: Seq<char>) -> Seq<Seq<char>> {
    es.map_values(|e: (Option<Span>, Seq<char>)| report_spec(e.1, e.0, source, path))
}

/// For each gap between top-level items, whether the source has a blank line there.
pub open spec fn blanks_spec(bytes: Seq<u8>, gaps: Seq<Span>) -> Seq<bool> {
    Seq::new(gaps.len(), |g: int| has_blank_line(bytes, gaps[g].0 as int, gap_end(gaps[g], bytes.len() as int)))
}

/// An error message, located at `span` when the span can be located in `source`.
fn report_error(message: &str, span: Option<Span>, source: &str, path: &str) -> (r: String)
    ensures
        r@ == report_spec(message@, span, source@, path@),
{
    match span {
        Some(sp) => {
            if span_ok(sp, source) {
                format_error(message, sp, source, path)
            } else {
                crate::colors::error(message)
            }
        },
        None => crate::colors::error(message),
    }
}

/// The start of `span` is a character boundary of `source` below the largest `usize`.
pub open spec fn span_ok_spec(span: Span, source: Seq<char>) -> bool {
    super::char_boundary(source, span.0 as int) && span.0 < usize::MAX
}

/// What checking `source` (the file at `path`) reports: the parsed program;
/// the diagnostics, parse errors first, each located in the source where its
/// span can be; when the source parses but is not formatted, the difference
/// (without `fix`) or the formatted text to write (with `fix`).
pub open spec fn reported(
    source: &str,
    path: &str,
    modules: Seq<(String, String)>,
    fix: bool,
    r: (Program, Vec<String>, Option<String>, Option<String>),
) -> bool {
    let parsed = g_parse(spec_tokenize(source@));
    let formatted = format_spec(r.0@, blanks_spec(source.spec_bytes(), parsed.1));
    let changed = parsed.2.errs.len() == 0 && formatted != source@;
    &&& tops_v(r.0@) == parsed.0
    &&& views(r.1@) == parse_reports(parsed.2.errs, source@, path@)
        + check_reports(check_spec(mods_v(modules), r.0@), source@, path@)
    &&& (r.2 is Some <==> changed && !fix)
    &&& (r.2 matches Some(d) ==> d@ == fmt_diff_spec(source@, formatted))
    &&& (r.3 is Some <==> changed && fix)
    &&& (r.3 matches Some(f) ==> f@ == formatted)
}

/// Parses, type-checks and format-checks `source` (the file at `path`).
/// Returns the program; the diagnostics, parse errors first, each as a
/// message located in the source where its span can be; when `fix` is off
/// and the source parses but is not formatted, the difference; and when
/// `fix` is on and the source parses but is not formatted, the formatted
/// text that the file should be given. `modules` holds the sources of the
/// local modules that the program imports.
#[verifier::rlimit(30)]
pub fn check_and_report(source: &str, path: &str, modules: Vec<(String, String)>, fix: bool)
    -> (r: (Program, Vec<String>, Option<String>, Option<String>))
    requires
        fits(source@),
        lex_ok(source@),
        modules_ok(modules@),
    ensures
        reported(source, path, modules@, fix, r),
{
    let tokens = crate::lexer::tokenize(source);
    let (ast, parse_errors, gaps) = crate::parser::parse(tokens);
    let ghost pe = crate::grammar::errs_v(parse_errors@);
    let ghost preps = parse_reports(pe, source@, path@);
    let mut type_errors: Vec<String> = Vec::new();
    let mut i: usize = 0;
    while i < parse_errors.len()
        invariant
            i <= parse_errors@.len(),
            pe == crate::grammar::errs_v(parse_errors@),
            preps == parse_reports(pe, source@, path@),
            type_errors@.len() == i,
            forall|j: int| 0 <= j < i ==> #[trigger] type_errors@[j]@ == preps[j],
        decreases parse_errors@.len() - i,
    {
        let e = &parse_errors[i];
        type_errors.push(report_error(e.message.as_str(), Some(e.span), source, path));
        i += 1;
    }
    let zy_errors = crate::typechecker::check_with_diagnostics(&ast, modules);
    let ghost creps = check_reports(crate::typing::zerrs_v(zy_errors@), source@, path@);
    let ghost np = parse_errors@.len();
    let mut i: usize = 0;
    while i < zy_errors.len()
        invariant
            i <= zy_errors@.len(),
            np == preps.len(),
            creps == check_reports(crate::typing::zerrs_v(zy_errors@), source@, path@),
            type_errors@.len() == np + i,
            forall|j: int| 0 <= j < np ==> #[trigger] type_errors@[j]@ == preps[j],
            forall|j: int| 0 <= j < i ==> #[trigger] type_errors@[np + j]@ == creps[j],
        decreases zy_errors@.len() - i,
    {
        let e = &zy_errors[i];
        let ghost before = type_errors@;
        type_errors.push(report_error(e.message.as_str(), e.span, source, path));
        proof {
            assert(type_errors@[np + i as int]@ == creps[i as int]);
            assert forall|j: int| 0 <= j < np implies #[trigger] type_errors@[j]@ == preps[j] by {
                assert(type_errors@[j] == before[j]);
            }
            assert forall|j: int| 0 <= j < i + 1 implies #[trigger] type_errors@[np + j]@ == creps[j] by {
                if j < i {
                    assert(type_errors@[np + j] == before[np + j]);
                }
            }
        }
        i += 1;
    }
    proof {
        assert(views(type_errors@) =~= preps + creps) by {
            assert forall|j: int| 0 <= j < type_errors@.len() implies views(type_errors@)[j] == (preps + creps)[j] by {
                if j >= np {
                    assert(type_errors@[np + (j - np)]@ == creps[j - np]);
                }
            }
        }
    }
    let mut diff: Option<String> = None;
    let mut write: Option<String> = None;
    if parse_errors.len() == 0 {
        let blanks = crate::fmt::blank_lines(source, &gaps);
        proof {
            assert(blanks@ =~= blanks_spec(source.spec_bytes(), gaps@));
        }
        let formatted = crate::fmt::format_program(&ast, &blanks);
        if !str_eq(formatted.as_str(), source) {
            if fix {
                write = Some(formatted);
            } else {
                diff = Some(fmt_diff(source, formatted.as_str()));
            }
        }
    }
    (ast, type_errors, diff, write)
}

/// `check_and_report`, after testing that `source` and every module source
/// can be tokenized (an integer literal out of `i64` range stops the
/// tokenizer): `None` exactly when one of them cannot.
pub fn try_check_and_report(source: &str, path: &str, modules: Vec<(String, String)>, fix: bool)
    -> (r: Option<(Program, Vec<String>, Option<String>, Option<String>)>)
    requires
        fits(source@),
        forall|i: int| 0 <= i < modules@.len() ==> fits((#[trigger] modules@[i]).1@),
    ensures
        r is Some <==> lex_ok(source@) && modules_ok(modules@),
        r matches Some(x) ==> reported(source, path, modules@, fix, x),
{
    if crate::lexer::try_tokenize(source).is_none() {
        return None;
    }
    let mut i: usize = 0;
    while i < modules.len()
        invariant
            i <= modules@.len(),
            forall|j: int| 0 <= j < modules@.len() ==> fits((#[trigger] modules@[j]).1@),
            forall|j: int| 0 <= j < i ==> lex_ok((#[trigger] modules@[j]).1@),
        decreases modules@.len() - i,
    {
        if crate::lexer::try_tokenize(modules[i].1.as_str()).is_none() {
            return None;
        }
        i += 1;
    }
    Some(check_and_report(source, path, modules, fix))
}

} // verus!
