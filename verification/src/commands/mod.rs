//! The computing parts of the command-line commands: error locations and
//! messages, module paths, and the `check` report.
use vstd::prelude::*;
use crate::colors::error_spec;
use crate::lexer::Span;
use crate::parser::{ExprKind, Program, TopLevel};
use crate::strs::{
    byte_off, char_width, chars_of, int_dec, is_prefix, is_suffix, join_all, lemma_byte_off_ge_index,
    lemma_byte_off_mono, lemma_byte_off_strict, push_char, push_str, replace_all, replace_spec,
    str_ends_with, str_starts_with, usize_to_string, utf8_width,
};

pub mod check;

verus! {

// -------------------------------------------------------------------------
// Paths

/// The directory of generated Zig files.
pub open spec fn cache_dir() -> Seq<char> {
    "zyre-cache"@
}

/// A canonical path without the Windows verbatim prefix `\\?\`.
pub open spec fn strip_verbatim(s: Seq<char>) -> Seq<char> {
    if is_prefix(seq!['\\', '\\', '?', '\\'], s) {
        s.subrange(4, s.len() as int)
    } else {
        s
    }
}

/// The display form of a canonical path: the path without the Windows
/// verbatim prefix `\\?\`. Resolving the path itself is the caller's part.
pub fn full_path(canonical: &str) -> (r: String)
    ensures
        r@ == strip_verbatim(canonical@),
{
    let v = chars_of(canonical);
    let pre = v.len() >= 4 && v[0] == '\\' && v[1] == '\\' && v[2] == '?' && v[3] == '\\';
    let start: usize = if pre { 4 } else { 0 };
    proof {
        let p = seq!['\\', '\\', '?', '\\'];
        if v@.len() >= 4 {
            if pre {
                assert(v@.subrange(0, 4) =~= p);
            } else {
                assert(v@.subrange(0, 4) != p) by {
                    if v@.subrange(0, 4) == p {
                        assert(v@[0] == v@.subrange(0, 4)[0]);
                        assert(v@[1] == v@.subrange(0, 4)[1]);
                        assert(v@[2] == v@.subrange(0, 4)[2]);
                        assert(v@[3] == v@.subrange(0, 4)[3]);
                    }
                }
            }
        }
    }
    let mut r = String::new();
    let mut i = start;
    while i < v.len()
        invariant
            start <= i <= v@.len(),
            v@ == canonical@,
            r@ == canonical@.subrange(start as int, i as int),
        decreases v@.len() - i,
    {
        push_char(&mut r, v[i]);
        i += 1;
        assert(r@ =~= canonical@.subrange(start as int, i as int));
    }
    if start == 0 {
        assert(r@ =~= canonical@);
    }
    r
}

/// `s` with every leading `./` removed (`trim_start_matches("./")`).
pub open spec fn strip_dot_slash(s: Seq<char>) -> Seq<char>
    decreases s.len(),
{
    if s.len() >= 2 && s[0] == '.' && s[1] == '/' {
        strip_dot_slash(s.subrange(2, s.len() as int))
    } else {
        s
    }
}

/// `s.trim_start_matches("./")`.
pub fn trim_dot_slash(s: &str) -> (r: String)
    ensures
        r@ == strip_dot_slash(s@),
{
    let v = chars_of(s);
    let mut i: usize = 0;
    assert(s@.subrange(0, s@.len() as int) =~= s@);
    while v.len() - i >= 2 && v[i] == '.' && v[i + 1] == '/'
        invariant
            i <= v@.len(),
            v@ == s@,
            strip_dot_slash(s@.subrange(i as int, s@.len() as int)) == strip_dot_slash(s@),
        decreases v@.len() - i,
    {
        proof {
            let t = s@.subrange(i as int, s@.len() as int);
            assert(t.subrange(2, t.len() as int) =~= s@.subrange(i + 2, s@.len() as int));
        }
        i += 2;
    }
    let start = i;
    let mut r = String::new();
    while i < v.len()
        invariant
            start <= i <= v@.len(),
            v@ == s@,
            r@ == s@.subrange(start as int, i as int),
        decreases v@.len() - i,
    {
        push_char(&mut r, v[i]);
        i += 1;
        assert(r@ =~= s@.subrange(start as int, i as int));
    }
    proof {
        let t = s@.subrange(start as int, s@.len() as int);
        assert(!(t.len() >= 2 && t[0] == '.' && t[1] == '/'));
        assert(r@ =~= t);
    }
    r
}

/// The `.zy` module paths that the program's top-level consts import, in order.
pub open spec fn zy_import_paths(p: Seq<TopLevel>) -> Seq<Seq<char>>
    decreases p.len(),
{
    if p.len() == 0 {
        Seq::empty()
    } else {
        let rest = zy_import_paths(p.drop_last());
        match p.last() {
            TopLevel::ConstDecl { value, .. } => match value.kind {
                ExprKind::Import(path) => if is_suffix(".zy"@, path@) {
                    rest.push(path@)
                } else {
                    rest
                },
                _ => rest,
            },
            _ => rest,
        }
    }
}

/// The cache path of the Zig file generated for the module at `rel`.
pub open spec fn zig_cache_path(rel: Seq<char>) -> Seq<char> {
    cache_dir() + "/"@ + replace_spec(rel, ".zy"@, ".zig"@)
}

/// The `.zy` modules that the program imports: each import path as written,
/// and as a path relative to the importing file (with leading `./` removed).
pub fn zy_imports(program: &Program) -> (r: Vec<(String, String)>)
    ensures
        r@.len() == zy_import_paths(program@).len(),
        forall|i: int| 0 <= i < r@.len() ==> (#[trigger] r@[i]).0@ == zy_import_paths(program@)[i]
            && r@[i].1@ == strip_dot_slash(zy_import_paths(program@)[i]),
{
    let mut out: Vec<(String, String)> = Vec::new();
    let mut i: usize = 0;
    while i < program.len()
        invariant
            i <= program@.len(),
            out@.len() == zy_import_paths(program@.subrange(0, i as int)).len(),
            forall|j: int| 0 <= j < out@.len() ==> (#[trigger] out@[j]).0@ == zy_import_paths(
                program@.subrange(0, i as int))[j] && out@[j].1@ == strip_dot_slash(
                zy_import_paths(program@.subrange(0, i as int))[j]),
        decreases program@.len() - i,
    {
        proof {
            assert(program@.subrange(0, i + 1).drop_last() =~= program@.subrange(0, i as int));
            assert(program@.subrange(0, i + 1).last() == program@[i as int]);
        }
        if let TopLevel::ConstDecl { value, .. } = &program[i] {
            if let ExprKind::Import(path) = &value.kind {
                if str_ends_with(path.as_str(), ".zy") {
                    out.push((path.clone(), trim_dot_slash(path.as_str())));
                }
            }
        }
        i += 1;
    }
    assert(program@.subrange(0, program@.len() as int) =~= program@);
    out
}

/// The output path, under `dir`, of the TypeScript file generated for the
/// module at `rel` (`.zy` replaced by `.ts`).
pub open spec fn ts_module_rel(rel: Seq<char>) -> Seq<char> {
    replace_spec(rel, ".zy"@, ".ts"@)
}

/// `rel.replace(".zy", ".ts")`: a module's TypeScript path relative to the output directory.
pub fn ts_rel_path(rel: &str) -> (r: String)
    ensures
        r@ == ts_module_rel(rel@),
{
    proof {
        reveal_strlit(".zy");
    }
    replace_all(rel, ".zy", ".ts")
}

/// `zyre-cache/<stem>.zig`: where the Zig file of the program `stem` goes.
pub fn zig_out_path(stem: &str) -> (r: String)
    ensures
        r@ == cache_dir() + "/"@ + stem@ + ".zig"@,
{
    let r = join_all(vec!["zyre-cache/", stem, ".zig"]);
    proof {
        reveal_strlit("zyre-cache/");
        reveal_strlit("zyre-cache");
        reveal_strlit("/");
        reveal_with_fuel(crate::strs::concat_all, 4);
    }
    assert(r@ =~= cache_dir() + "/"@ + stem@ + ".zig"@);
    r
}

/// `zyre-out/<stem>.ts`: where the TypeScript file of the program `stem` goes.
pub fn ts_out_path(stem: &str) -> (r: String)
    ensures
        r@ == "zyre-out/"@ + stem@ + ".ts"@,
{
    let r = join_all(vec!["zyre-out/", stem, ".ts"]);
    proof {
        reveal_with_fuel(crate::strs::concat_all, 4);
    }
    r
}

/// `rel` names a path relative to the directory it is joined to, on every
/// platform: it starts with no separator and holds no drive colon.
pub open spec fn relative_on_all(rel: Seq<char>) -> bool {
    &&& !(rel.len() > 0 && (rel[0] == '/' || rel[0] == '\\'))
    &&& forall|i: int| 0 <= i < rel.len() ==> rel[i] != ':'
}

/// `dir` is not a Windows verbatim path (`\\?\...`), after which joining
/// rewrites `.` and `..` components.
pub open spec fn not_verbatim(dir: Seq<char>) -> bool {
    !is_prefix(seq!['\\', '\\', '?', '\\'], dir)
}

/// `r` is `dir` and `rel` joined with at most one separator between them:
/// `/`, or `\\` on platforms that use it.
pub open spec fn joined(dir: Seq<char>, rel: Seq<char>, r: Seq<char>) -> bool {
    ||| r == dir + rel
    ||| r == dir + seq!['/'] + rel
    ||| r == dir + seq!['\\'] + rel
}

/// `Path::new(dir).join(rel)` as a string (`to_string_lossy`, which keeps
/// text that came from strings). Trusted: unless `dir` is a verbatim path,
/// the result ends with `rel`; when `rel` is relative it is `dir`, then the
/// platform's separator unless `dir` is empty or already ends in one (or is
/// a bare drive), then `rel`. Which separator, and whether one is added, is
/// left to the platform.
#[verifier::external_body]
fn path_join(dir: &str, rel: &str) -> (r: String)
    ensures
        not_verbatim(dir@) ==> is_suffix(rel@, r@),
        not_verbatim(dir@) && relative_on_all(rel@) ==> joined(dir@, rel@, r@),
{
    std::path::Path::new(dir).join(rel).to_string_lossy().into_owned()
}

/// For each `.zy` module that the program imports: the module's source path
/// (its import path without a leading `./`, joined to `source_dir`) and the
/// cache path of its generated Zig file.
pub fn collect_zy_imports(program: &Program, source_dir: &str) -> (r: Vec<(String, String)>)
    ensures
        r@.len() == zy_import_paths(program@).len(),
        forall|i: int| 0 <= i < r@.len() ==> (#[trigger] r@[i]).1@ == zig_cache_path(
            strip_dot_slash(zy_import_paths(program@)[i])),
        forall|i: int| 0 <= i < r@.len() && not_verbatim(source_dir@)
            ==> is_suffix(strip_dot_slash(zy_import_paths(program@)[i]), (#[trigger] r@[i]).0@),
        forall|i: int| 0 <= i < r@.len() && not_verbatim(source_dir@)
            && relative_on_all(strip_dot_slash(zy_import_paths(program@)[i]))
            ==> joined(source_dir@, strip_dot_slash(zy_import_paths(program@)[i]), (#[trigger] r@[i]).0@),
{
    let rels = zy_imports(program);
    let mut out: Vec<(String, String)> = Vec::new();
    let mut i: usize = 0;
    while i < rels.len()
        invariant
            i <= rels@.len(),
            rels@.len() == zy_import_paths(program@).len(),
            forall|j: int| 0 <= j < rels@.len() ==> (#[trigger] rels@[j]).1@ == strip_dot_slash(zy_import_paths(program@)[j]),
            out@.len() == i,
            forall|j: int| 0 <= j < i ==> (#[trigger] out@[j]).1@ == zig_cache_path(rels@[j].1@),
            forall|j: int| 0 <= j < i && not_verbatim(source_dir@) ==> is_suffix(rels@[j].1@, (#[trigger] out@[j]).0@),
            forall|j: int| 0 <= j < i && not_verbatim(source_dir@) && relative_on_all(rels@[j].1@)
                ==> joined(source_dir@, rels@[j].1@, (#[trigger] out@[j]).0@),
        decreases rels@.len() - i,
    {
        let rel = rels[i].1.as_str();
        let source = path_join(source_dir, rel);
        proof {
            reveal_strlit(".zy");
            reveal_strlit("zyre-cache/");
            reveal_strlit("zyre-cache");
            reveal_strlit("/");
        }
        let zig = replace_all(rel, ".zy", ".zig");
        let cache = crate::strs::cat2("zyre-cache/", zig.as_str());
        assert(cache@ =~= zig_cache_path(rel@));
        out.push((source, cache));
        i += 1;
    }
    out
}

// -------------------------------------------------------------------------
// Error locations

/// Byte offset `b` starts a character of `s` (or is its end).
pub open spec fn char_boundary(s: Seq<char>, b: int) -> bool {
    exists|ci: int| 0 <= ci <= s.len() && byte_off(s, ci) == b
}

/// Number of newlines in `s[..i]`.
pub open spec fn count_newlines(s: Seq<char>, i: int) -> nat
    decreases i,
{
    if i <= 0 {
        0
    } else {
        count_newlines(s, i - 1) + if s[i - 1] == '\n' { 1nat } else { 0nat }
    }
}

/// Start of the line holding position `i`: just after the last newline before it.
pub open spec fn line_start(s: Seq<char>, i: int) -> int
    decreases i,
{
    if i <= 0 {
        0
    } else if s[i - 1] == '\n' {
        i
    } else {
        line_start(s, i - 1)
    }
}

/// End of the line holding position `i`: the first newline at or after it, or the end.
pub open spec fn line_end(s: Seq<char>, i: int) -> int
    decreases s.len() - i,
{
    if i >= s.len() {
        s.len() as int
    } else if s[i] == '\n' {
        i
    } else {
        line_end(s, i + 1)
    }
}

/// `n` copies of `c`.
pub open spec fn repeat_char(c: char, n: nat) -> Seq<char> {
    Seq::new(n, |_i: int| c)
}

/// Width of the caret mark under a span: the span's length, at least one.
pub open spec fn caret_len(span: Span) -> int {
    if span.1 > span.0 { span.1 - span.0 } else { 1 }
}

/// The caret line under a span that starts in column `col`.
pub open spec fn caret_line(col: int, span: Span) -> Seq<char> {
    repeat_char(' ', (col - 1) as nat) + seq!['^'] + repeat_char('~', (caret_len(span) - 1) as nat)
}

/// The character index at byte offset `b` (see `char_boundary`).
pub open spec fn span_char(s: Seq<char>, b: int) -> int {
    choose|ci: int| 0 <= ci <= s.len() && byte_off(s, ci) == b
}

/// Line number (from 1) of the start of `span`.
pub open spec fn loc_line(s: Seq<char>, span: Span) -> int {
    count_newlines(s, span_char(s, span.0 as int)) + 1int
}

/// Column (from 1, in bytes) of the start of `span`.
pub open spec fn loc_col(s: Seq<char>, span: Span) -> int {
    span.0 - byte_off(s, line_start(s, span_char(s, span.0 as int))) + 1
}

/// The text of the line that holds the start of `span`.
pub open spec fn loc_text(s: Seq<char>, span: Span) -> Seq<char> {
    let ci = span_char(s, span.0 as int);
    s.subrange(line_start(s, ci), line_end(s, ci))
}

pub proof fn lemma_line_end(s: Seq<char>, i: int)
    requires
        0 <= i <= s.len(),
    ensures
        i <= line_end(s, i) <= s.len(),
        forall|k: int| i <= k < line_end(s, i) ==> s[k] != '\n',
    decreases s.len() - i,
{
    if i < s.len() && s[i] != '\n' {
        lemma_line_end(s, i + 1);
    }
}

proof fn lemma_count_newlines(s: Seq<char>, i: int)
    requires
        0 <= i <= s.len(),
    ensures
        count_newlines(s, i) <= i,
    decreases i,
{
    if i > 0 {
        lemma_count_newlines(s, i - 1);
    }
}

/// `n` copies of `c`, as a string.
fn repeat_string(c: char, n: usize) -> (r: String)
    ensures
        r@ == repeat_char(c, n as nat),
{
    let mut r = String::new();
    let mut i: usize = 0;
    while i < n
        invariant
            i <= n,
            r@ == repeat_char(c, i as nat),
        decreases n - i,
    {
        push_char(&mut r, c);
        i += 1;
        assert(r@ =~= repeat_char(c, i as nat));
    }
    r
}

/// Line and column (both from 1, the column in bytes) of the start of `span`,
/// the text of that line, and a caret line that marks the span under it.
pub fn locate(span: Span, source: &str) -> (r: (usize, usize, String, String))
    requires
        char_boundary(source@, span.0 as int),
        span.0 < usize::MAX,
    ensures
        r.0 == loc_line(source@, span),
        r.1 == loc_col(source@, span),
        r.2@ == loc_text(source@, span),
        r.3@ == caret_line(loc_col(source@, span), span),
{
    let v = chars_of(source);
    let ghost s = source@;
    let ghost ci0 = span_char(s, span.0 as int);
    assert(v@.len() == v.len());
    // the character at the span's start
    let mut i: usize = 0;
    let mut off: usize = 0;
    while off < span.0
        invariant
            v@ == s,
            s.len() <= usize::MAX,
            0 <= ci0 <= s.len(),
            byte_off(s, ci0) == span.0,
            i <= ci0,
            off as int == byte_off(s, i as int),
        decreases ci0 - i,
    {
        proof {
            if i == ci0 {
                assert(false);
            }
            lemma_byte_off_mono(s, i + 1, ci0);
        }
        off = off + char_width(v[i]);
        i += 1;
    }
    proof {
        if i < ci0 {
            lemma_byte_off_strict(s, i as int, ci0);
        }
        lemma_byte_off_ge_index(s, i as int);
    }
    let ci = i;
    // line number
    let mut line: usize = 1;
    let mut k: usize = 0;
    while k < ci
        invariant
            k <= ci,
            ci <= s.len(),
            v@ == s,
            ci <= span.0,
            span.0 < usize::MAX,
            line == count_newlines(s, k as int) + 1,
        decreases ci - k,
    {
        proof {
            lemma_count_newlines(s, k as int);
        }
        if v[k] == '\n' {
            line += 1;
        }
        k += 1;
    }
    // start of the line
    let mut ls = ci;
    while ls > 0 && v[ls - 1] != '\n'
        invariant
            ls <= ci,
            ci <= s.len(),
            v@ == s,
            line_start(s, ls as int) == line_start(s, ci as int),
        decreases ls,
    {
        ls -= 1;
    }
    // byte offset of the line start
    let mut lsb: usize = 0;
    let mut k: usize = 0;
    proof {
        lemma_byte_off_mono(s, ls as int, ci as int);
    }
    while k < ls
        invariant
            k <= ls,
            ls <= ci,
            ci <= s.len(),
            v@ == s,
            byte_off(s, ls as int) <= span.0,
            lsb as int == byte_off(s, k as int),
        decreases ls - k,
    {
        proof {
            lemma_byte_off_mono(s, k + 1, ls as int);
        }
        lsb = lsb + char_width(v[k]);
        k += 1;
    }
    let col = span.0 - lsb + 1;
    // end of the line
    let mut le = ci;
    while le < v.len() && v[le] != '\n'
        invariant
            ci <= le <= s.len(),
            v@ == s,
            line_end(s, le as int) == line_end(s, ci as int),
        decreases s.len() - le,
    {
        le += 1;
    }
    let mut text = String::new();
    let mut k = ls;
    while k < le
        invariant
            ls <= k <= le,
            le <= s.len(),
            v@ == s,
            text@ == s.subrange(ls as int, k as int),
        decreases le - k,
    {
        push_char(&mut text, v[k]);
        k += 1;
        assert(text@ =~= s.subrange(ls as int, k as int));
    }
    let len: usize = if span.1 > span.0 { span.1 - span.0 } else { 1 };
    let spaces = repeat_string(' ', col - 1);
    let tildes = repeat_string('~', len - 1);
    let mut caret = spaces;
    push_char(&mut caret, '^');
    push_str(&mut caret, tildes.as_str());
    assert(caret@ =~= caret_line(col as int, span));
    (line, col, text, caret)
}

/// The text of an error at `span` of the file at `path`:
/// `path:line:col: error: message`, then the line and the caret line, each indented.
pub open spec fn error_text(message: Seq<char>, span: Span, source: Seq<char>, path: Seq<char>) -> Seq<char> {
    path + ":"@ + int_dec(loc_line(source, span)) + ":"@ + int_dec(loc_col(source, span)) + ": "@
        + error_spec(message) + "\n    "@ + loc_text(source, span)
        + "\n    "@ + caret_line(loc_col(source, span), span)
}

/// An error message with the file position of `span` and the marked source line.
pub fn format_error(message: &str, span: Span, source: &str, path: &str) -> (r: String)
    requires
        char_boundary(source@, span.0 as int),
        span.0 < usize::MAX,
    ensures
        r@ == error_text(message@, span, source@, path@),
{
    let (line, col, source_line, caret) = locate(span, source);
    let l = usize_to_string(line);
    let c = usize_to_string(col);
    let e = crate::colors::error(message);
    let r = join_all(vec![path, ":", l.as_str(), ":", c.as_str(), ": ", e.as_str(), "\n    ",
        source_line.as_str(), "\n    ", caret.as_str()]);
    proof {
        reveal_strlit(":");
        reveal_strlit(": ");
        reveal_strlit("\n    ");
        reveal_with_fuel(crate::strs::concat_all, 12);
    }
    assert(r@ =~= error_text(message@, span, source@, path@));
    r
}

/// Whether `span` can be located in `source`: its start is a character
/// boundary of `source` (and below the largest `usize`).
pub fn span_ok(span: Span, source: &str) -> (r: bool)
    ensures
        r == (char_boundary(source@, span.0 as int) && span.0 < usize::MAX),
{
    if span.0 == usize::MAX {
        return false;
    }
    let v = chars_of(source);
    let ghost s = source@;
    let mut i: usize = 0;
    let mut off: usize = 0;
    while i < v.len() && off < span.0
        invariant
            v@ == s,
            s == source@,
            span.0 < usize::MAX,
            i <= s.len(),
            off as int == byte_off(s, i as int),
            off <= span.0,
            forall|cj: int| 0 <= cj < i ==> byte_off(s, cj) < span.0,
        decreases s.len() - i,
    {
        let w = char_width(v[i]);
        if w > span.0 - off {
            // the span starts inside this character
            proof {
                assert(byte_off(s, i + 1) == off + w);
                assert forall|cj: int| 0 <= cj <= s.len() implies byte_off(s, cj) != span.0 by {
                    if cj > i {
                        lemma_byte_off_mono(s, i + 1, cj);
                    }
                }
            }
            return false;
        }
        off = off + w;
        i += 1;
    }
    if off == span.0 {
        true
    } else {
        proof {
            assert forall|cj: int| 0 <= cj <= s.len() implies byte_off(s, cj) != span.0 by {
                if cj > i {
                    lemma_byte_off_mono(s, i as int, cj);
                }
            }
        }
        false
    }
}

} // verus!
