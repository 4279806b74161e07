use lib::cli::{opt_level, split_args};
use lib::codegen::ts::{std_call_text, ts_binop, TsBackend};
use lib::codegen::Backend;
use lib::colors::{error, green, green_diff, red, red_diff};
use lib::commands::check::{
    check_and_report, diff_highlight, fmt_diff, plural, split_lines, summary, try_check_and_report,
};
use lib::commands::{
    collect_zy_imports, format_error, full_path, locate, span_ok, trim_dot_slash, ts_out_path,
    ts_rel_path, zig_out_path, zy_imports,
};
use lib::fmt::{blank_lines, format_program};
use lib::lexer::{tokenize, try_tokenize, Token};
use lib::parser::{parse, BinOp, Parser, Program};
use lib::strs::{escape_str, replace_all, trim_end, trim_start};
use lib::typechecker::{check, check_with_diagnostics, Ty, TypeChecker};

fn program(src: &str) -> Program {
    let (ast, errors, _) = parse(tokenize(src));
    assert!(errors.is_empty(), "parse errors: {:?}", errors);
    ast
}

fn ts(src: &str) -> String {
    TsBackend::new().generate(&program(src))
}

fn fmt(src: &str) -> String {
    let (ast, _, gaps) = parse(tokenize(src));
    let blanks = blank_lines(src, &gaps);
    format_program(&ast, &blanks)
}

fn strings(v: &[&str]) -> Vec<String> {
    v.iter().map(|s| s.to_string()).collect()
}

// --- colours ---

#[test]
fn test_colors_exact() {
    assert_eq!(error("boom"), "\x1b[1;31merror\x1b[0m: boom");
    assert_eq!(red("x"), "\x1b[31mx\x1b[0m");
    assert_eq!(green("x"), "\x1b[32mx\x1b[0m");
    assert_eq!(red_diff("a", "b", "c"), "\x1b[31ma\x1b[97;41mb\x1b[0m\x1b[31mc\x1b[0m");
    assert_eq!(green_diff("a", "b", "c"), "\x1b[32ma\x1b[97;42mb\x1b[0m\x1b[32mc\x1b[0m");
}

// --- error locations ---

#[test]
fn test_locate_second_line() {
    let (line, col, text, caret) = locate((4, 7), "ab\ncdef\n");
    assert_eq!((line, col), (2, 2));
    assert_eq!(text, "cdef");
    assert_eq!(caret, " ^~~");
}

#[test]
fn test_locate_empty_span_and_multibyte() {
    let (line, col, text, caret) = locate((3, 3), "é\nx");
    assert_eq!((line, col), (2, 1));
    assert_eq!(text, "x");
    assert_eq!(caret, "^");
    // the column counts bytes
    let (line, col, text, _) = locate((2, 3), "éx");
    assert_eq!((line, col), (1, 3));
    assert_eq!(text, "éx");
}

#[test]
fn test_format_error_exact() {
    let out = format_error("bad", (4, 7), "ab\ncdef\n", "f.zy");
    assert_eq!(out, "f.zy:2:2: \x1b[1;31merror\x1b[0m: bad\n    cdef\n     ^~~");
}

#[test]
fn test_span_ok() {
    assert!(span_ok((0, 1), "é"));
    assert!(!span_ok((1, 2), "é"));
    assert!(span_ok((2, 2), "é"));
    assert!(!span_ok((3, 3), "é"));
    assert!(!span_ok((usize::MAX, usize::MAX), "é"));
}

// --- paths ---

#[test]
fn test_full_path_strips_verbatim_prefix() {
    assert_eq!(full_path("\\\\?\\C:\\src\\a.zy"), "C:\\src\\a.zy");
    assert_eq!(full_path("/home/a.zy"), "/home/a.zy");
    assert_eq!(full_path("\\\\?"), "\\\\?");
}

#[test]
fn test_trim_dot_slash() {
    assert_eq!(trim_dot_slash("././m.zy"), "m.zy");
    assert_eq!(trim_dot_slash("../m.zy"), "../m.zy");
    assert_eq!(trim_dot_slash("./"), "");
}

#[test]
fn test_module_paths() {
    let p = program("const m = import(\"./lib/m.zy\")\nconst std = import(\"std\")\nconst n = import(\"n.zy\")\n");
    let imports = zy_imports(&p);
    assert_eq!(
        imports,
        vec![
            ("./lib/m.zy".to_string(), "lib/m.zy".to_string()),
            ("n.zy".to_string(), "n.zy".to_string())
        ]
    );
    let pairs = collect_zy_imports(&p, "src");
    assert_eq!(pairs.len(), 2);
    assert_eq!(pairs[0].1, "zyre-cache/lib/m.zig");
    assert_eq!(pairs[1].1, "zyre-cache/n.zig");
    assert!(pairs[0].0.ends_with("lib/m.zy"));
    let sep = std::path::MAIN_SEPARATOR;
    assert_eq!(pairs[0].0, format!("src{}lib/m.zy", sep));
    assert_eq!(pairs[1].0, format!("src{}n.zy", sep));
    let math = program("const std = import(\"std\")\nconst math = import(\"./modules/math.zy\")\n");
    let pairs = collect_zy_imports(&math, "src");
    assert_eq!(
        pairs,
        vec![(format!("src{}modules/math.zy", sep), "zyre-cache/modules/math.zig".to_string())]
    );
    assert_eq!(ts_rel_path("a.zy/b.zy"), "a.ts/b.ts");
    assert_eq!(zig_out_path("main"), "zyre-cache/main.zig");
    assert_eq!(ts_out_path("main"), "zyre-out/main.ts");
}

// --- the check report ---

#[test]
fn test_plural_and_summary() {
    assert_eq!(plural(1), "");
    assert_eq!(plural(0), "s");
    assert_eq!(plural(2), "s");
    assert_eq!(
        summary(3, 0, 1),
        (Some(error("Found 1 not formatted file in 3 files")), true)
    );
    assert_eq!(
        summary(1, 2, 2),
        (Some(error("Found 2 not formatted files in 1 file")), true)
    );
    assert_eq!(summary(1, 0, 0), (Some("Checked 1 file".to_string()), false));
    assert_eq!(summary(4, 0, 0), (Some("Checked 4 files".to_string()), false));
    assert_eq!(summary(2, 5, 0), (None, true));
}

#[test]
fn test_split_lines_like_str_lines() {
    let cases = ["a\r\nb\n\nc", "x\r", "", "\n", "a\n", "a\n\n", "\r\n\r\n"];
    for c in cases {
        let expected: Vec<String> = c.lines().map(|l| l.to_string()).collect();
        assert_eq!(split_lines(c), expected, "input {:?}", c);
    }
}

#[test]
fn test_diff_highlight_parts() {
    let (a, b) = diff_highlight("abcd", "abXd");
    assert_eq!(a, red_diff("ab", "c", "d"));
    assert_eq!(b, green_diff("ab", "X", "d"));
    let (a, b) = diff_highlight("same", "same");
    assert_eq!(a, red_diff("same", "", ""));
    assert_eq!(b, green_diff("same", "", ""));
    let (a, b) = diff_highlight("aa", "aaa");
    assert_eq!(a, red_diff("aa", "", ""));
    assert_eq!(b, green_diff("aa", "a", ""));
}

#[test]
fn test_fmt_diff_empty_iff_formatted() {
    assert_eq!(fmt_diff("a\n", "a\n"), "");
    assert_eq!(fmt_diff("", ""), "");
    assert!(!fmt_diff("a", "a\n").is_empty());
    assert!(!fmt_diff("a\n", "b\n").is_empty());
}

#[test]
fn test_fmt_diff_exact() {
    let out = fmt_diff("x = 1\n", "x = 2\n");
    let expected = format!(
        "{}{}\n{}{}",
        red("1 | -"),
        red_diff("x = ", "1", ""),
        green("1 | +"),
        green_diff("x = ", "2", "")
    );
    assert_eq!(out, expected);
    // only the final newline differs
    assert_eq!(fmt_diff("a", "a\n"), green("2 | +"));
}

#[test]
fn test_fmt_diff_stops_after_eight() {
    let src: String = (0..10).map(|i| format!("a{}\n", i)).collect();
    let formatted: String = (0..10).map(|i| format!("b{}\n", i)).collect();
    let out = fmt_diff(&src, &formatted);
    assert!(out.ends_with("..."), "got {:?}", out);
    assert!(out.contains("8 | -"));
    assert!(!out.contains("9 | -"));
}

#[test]
fn test_check_and_report_format_and_fix() {
    let src = "const   x = 1\n";
    let (_, errors, diff, write) = check_and_report(src, "f.zy", vec![], false);
    assert!(errors.is_empty(), "{:?}", errors);
    assert!(diff.is_some());
    assert!(write.is_none());
    let (_, _, diff, write) = check_and_report(src, "f.zy", vec![], true);
    assert!(diff.is_none());
    assert_eq!(write, Some("const x = 1\n".to_string()));
    let (_, errors, diff, write) = check_and_report("const x = 1\n", "f.zy", vec![], false);
    assert!(errors.is_empty());
    assert!(diff.is_none() && write.is_none());
}

#[test]
fn test_check_and_report_parse_error_first_and_no_diff() {
    // a parse error: reported first, located, and no format check is made
    let src = "const = 1\nconst   y = 2\n";
    let (_, errors, diff, write) = check_and_report(src, "f.zy", vec![], false);
    assert!(!errors.is_empty());
    assert!(errors[0].starts_with("f.zy:1:"), "{:?}", errors);
    assert!(errors[0].contains("Expected identifier, got `=`"), "{:?}", errors);
    assert!(diff.is_none() && write.is_none());
    // the difference shown is fmt_diff against the formatted text
    let src = "const   x = 1\n";
    let (_, _, diff, _) = check_and_report(src, "f.zy", vec![], false);
    assert_eq!(diff, Some(fmt_diff(src, "const x = 1\n")));
}

#[test]
fn test_check_messages_match_diagnostics() {
    let src = "fn main(): void {\n    const x: i32 = \"a\"\n    let y = z\n}\n";
    let p = program(src);
    let messages = check(&p, vec![]);
    let diagnostics: Vec<String> = check_with_diagnostics(&p, vec![]).into_iter().map(|d| d.message).collect();
    assert!(messages.len() >= 2, "{:?}", messages);
    assert_eq!(messages, diagnostics);
}

#[test]
fn test_try_check_and_report_tests_tokenizing() {
    let big = "const x = 99999999999999999999\n";
    assert!(try_check_and_report(big, "f.zy", vec![], false).is_none());
    let modules = vec![("./m.zy".to_string(), big.to_string())];
    assert!(try_check_and_report("const y = 1\n", "f.zy", modules, false).is_none());
    let (_, errors, diff, write) = try_check_and_report("const   y = 1\n", "f.zy", vec![], true).unwrap();
    assert!(errors.is_empty() && diff.is_none());
    assert_eq!(write, Some("const y = 1\n".to_string()));
}

#[test]
fn test_check_and_report_located_error() {
    let src = "fn main(): void {\n    const x: i32 = \"a\"\n}\n";
    let (_, errors, _, _) = check_and_report(src, "f.zy", vec![], false);
    assert!(errors.iter().any(|e| e.starts_with("f.zy:") && e.contains("Type mismatch")), "{:?}", errors);
}

#[test]
fn test_check_and_report_module_exports() {
    let src = "const m = import(\"./m.zy\")\nconst r = m.add(1, 2)\n";
    let module = "export fn add(a: i32, b: i32): i32 {\n    return a + b\n}\n";
    let (_, errors, _, _) = check_and_report(src, "f.zy", vec![("./m.zy".to_string(), module.to_string())], false);
    assert!(errors.is_empty(), "{:?}", errors);
}

// --- command line ---

#[test]
fn test_split_args() {
    let (flags, positional) = split_args(&strings(&["zyre", "check", "--fix", "a.zy"]));
    assert_eq!(flags, strings(&["--fix"]));
    assert_eq!(positional, strings(&["check", "a.zy"]));
    let (flags, positional) = split_args(&strings(&["zyre"]));
    assert!(flags.is_empty() && positional.is_empty());
}

#[test]
fn test_opt_level() {
    assert_eq!(opt_level(&strings(&["--release"])), Ok(Some("ReleaseSmall")));
    assert_eq!(opt_level(&strings(&["--fix", "--release=fast"])), Ok(Some("ReleaseFast")));
    assert_eq!(opt_level(&strings(&["--release=safe"])), Ok(Some("ReleaseSafe")));
    assert_eq!(opt_level(&strings(&["--release=small"])), Ok(Some("ReleaseSmall")));
    assert_eq!(opt_level(&strings(&["--release=bogus", "--release"])), Err("bogus".to_string()));
    assert_eq!(opt_level(&strings(&["--fix"])), Ok(None));
    assert_eq!(opt_level(&strings(&[])), Ok(None));
}

// --- strings ---

#[test]
fn test_string_helpers() {
    assert_eq!(replace_all("a.zy.zy", ".zy", ".ts"), "a.ts.ts");
    assert_eq!(replace_all("aaa", "aa", "b"), "ba");
    assert_eq!(replace_all("", "x", "y"), "");
    assert_eq!(trim_start(" \t\u{3000}x y "), "x y ");
    assert_eq!(trim_end(" x y \n\u{2028}"), " x y");
    assert_eq!(escape_str("a\"b\\c"), "a\\\"b\\\\c");
}

#[test]
fn test_blank_lines() {
    let src = "a\n \t\n b\nc";
    assert_eq!(blank_lines(src, &vec![(0, 7), (0, 3), (5, 100), (9, 2)]), vec![true, false, false, false]);
    assert_eq!(blank_lines("x\n\ny", &vec![(1, 3)]), vec![true]);
    assert_eq!(blank_lines("x\n\r\ny", &vec![(1, 4)]), vec![true]);
}

// --- laws, on concrete values ---

#[test]
fn test_tokenize_ends_with_eof() {
    for src in ["", "x", "const x = 1\n", "// only a comment"] {
        let toks = tokenize(src);
        assert!(matches!(toks.last(), Some((Token::EOF, _))), "{:?}", src);
    }
    assert!(try_tokenize("const x = 99999999999999999999").is_none());
}

#[test]
fn test_ty_same_reflexive() {
    let tys = vec![
        Ty::I32,
        Ty::Array(Box::new(Ty::String), 3),
        Ty::Optional(Box::new(Ty::Struct("P".to_string()))),
        Ty::Fn { params: vec![Ty::Bool], ret: Box::new(Ty::Void) },
    ];
    for t in &tys {
        assert!(t.same(t));
        assert!(t.is_assignable_from(t));
    }
    assert_eq!(Ty::Array(Box::new(Ty::I32), 4).display(), "i32[4]");
    assert_eq!(Ty::Module("std".to_string()).display(), "module(std)");
}

#[test]
fn test_fmt_output_is_formatted() {
    let src = "fn   main(): void { const x = 1 }";
    let once = fmt(src);
    assert_eq!(fmt_diff(&once, &fmt(&once)), "");
}

// --- TypeScript back end ---

#[test]
fn test_ts_std_call() {
    let out = ts("const std = import(\"std\")\nstd.debug.print(\"hi\")\n");
    assert_eq!(
        out,
        "import * as __zyre_std_debug from \"./zyre_std_debug.ts\";\n\n__zyre_std_debug.print(\"hi\");\n"
    );
}

#[test]
fn test_ts_alias_and_unknown_namespace() {
    let out = ts("const std = import(\"std\")\nconst fs = std.fs\nfs.readTextFile(\"a\")\nstd.mem.copy(1)\n");
    assert!(out.contains("import * as __zyre_std_fs from \"./zyre_std_fs.ts\";\n"), "{}", out);
    assert!(out.contains("__zyre_std_fs.readTextFile(\"a\");\n"), "{}", out);
    assert!(out.contains("/* std.mem.copy */ copy(1);\n"), "{}", out);
    assert!(!out.contains("const fs"), "{}", out);
}

#[test]
fn test_ts_declarations() {
    assert_eq!(
        ts("const Point = struct { x: i32, y: f64 }"),
        "interface Point {\n  x: number;\n  y: number;\n}\n\n"
    );
    assert_eq!(ts("const Dir = enum { N, S }"), "const enum Dir {\n  N,\n  S,\n}\n\n");
    assert_eq!(
        ts("export fn add(a: i32, b: i32): i32 { return a + b }"),
        "export function add(a: number, b: number): number {\n  return (a + b);\n}\n"
    );
    assert_eq!(ts("const m = import(\"./m.zy\")"), "import * as m from \"./m.ts\";\n\n");
}

#[test]
fn test_ts_expressions() {
    assert_eq!(ts("const f = 3.0"), "const f = 3.0;\n");
    assert_eq!(ts("const f = 2.50"), "const f = 2.5;\n");
    assert_eq!(ts("const s = \"a\\b\""), "const s = \"a\\\\b\";\n");
    assert_eq!(ts("const x = !true"), "const x = (!true);\n");
    assert_eq!(ts("const x = if a then 1 else 2"), "const x = (a ? 1 : 2);\n");
    assert_eq!(ts("const x = a[0]"), "const x = a[0];\n");
    assert_eq!(ts("const x = [1, 2]"), "const x = [1, 2];\n");
    assert_eq!(ts_binop(BinOp::Eq), "===");
    assert_eq!(ts_binop(BinOp::Mod), "%");
    assert_eq!(std_call_text("debug", "print", "1"), "__zyre_std_debug.print(1)");
    assert_eq!(std_call_text("mem", "copy", ""), "/* std.mem.copy */ copy()");
}

#[test]
fn test_ts_statements() {
    let out = ts("fn f(x: i32): void {\n    if x > 0 {\n        return\n    } else {\n        while true {\n            break\n        }\n    }\n}\n");
    assert_eq!(
        out,
        "function f(x: number): void {\n  if ((x > 0)) {\n    return;\n  } else {\n    while (true) {\n      break;\n    }\n  }\n}\n"
    );
}

// --- Zig back end: whole modules ---

fn zig(src: &str) -> String {
    let mut b = lib::codegen::zig::ZigBackend::new();
    b.generate(&program(src))
}

#[test]
fn test_zig_empty_program() {
    assert_eq!(zig(""), "");
}

#[test]
fn test_zig_struct_and_enum() {
    assert_eq!(
        zig("export const P = struct { x: i32, s: string }\nconst D = enum { N, S }"),
        "pub const P = struct {\n    x: i32,\n    s: []const u8,\n};\n\nconst D = enum {\n    N,\n    S,\n};\n\n"
    );
}

#[test]
fn test_zig_hoisted_dependencies() {
    let out = zig("const a = 2\nconst b = 3\nconst d = 4\nexport const c = a * b\n");
    assert!(out.starts_with("const std = @import(\"std\");\n"), "{}", out);
    assert!(out.contains("\nconst a = 2;\nconst b = 3;\npub const c = (a * b);\n\n"), "{}", out);
    assert!(out.contains("pub fn main() !void {\n"), "{}", out);
    assert!(out.ends_with("    _ = __zyre_allocator;\n\n    const d = 4;\n}\n"), "{}", out);
}

#[test]
fn test_zig_hoisted_dependencies_in_any_expression() {
    let out = zig("const a = 2\nconst b = 3\nconst k = 0\nconst d = 4\nexport const c = [a, b]\nexport const e = c[k]\n");
    let main_at = out.find("pub fn main()").expect("main");
    for name in ["const a = 2;", "const b = 3;", "const k = 0;"] {
        let at = out.find(name).unwrap_or_else(|| panic!("{} missing in {}", name, out));
        assert!(at < main_at, "{} not hoisted in {}", name, out);
    }
    assert!(out.find("const d = 4;").unwrap() > main_at, "{}", out);
}

#[test]
fn test_zig_allocator_through_array_and_index() {
    let out = zig("const std = import(\"std\")\nfn load(): !string {\n    return std.fs.readTextFile(\"a\")\n}\nfn pick(): i32 {\n    const xs = [load()]\n    return 0\n}\nfn at(): i32 {\n    const ys = [1, 2]\n    return ys[pick()]\n}\n");
    assert!(out.contains("fn pick(__zyre_allocator: std.mem.Allocator) i32 {"), "{}", out);
    assert!(out.contains("fn at(__zyre_allocator: std.mem.Allocator) i32 {"), "{}", out);
}

#[test]
fn test_backends_reused_keep_their_state() {
    let mut b = TsBackend::new();
    b.generate(&program("const m = import(\"./m.zy\")\n"));
    let second = b.generate(&program("const x = 1\n"));
    assert_eq!(second, "import * as m from \"./m.ts\";\n\nconst x = 1;\n");
}

#[test]
fn test_zig_allocator_transitive() {
    let out = zig("const std = import(\"std\")\nfn load(): !string {\n    return std.fs.readTextFile(\"a\")\n}\nfn wrap(): !string {\n    return load()\n}\nfn plain(): i32 {\n    return 1\n}\n");
    assert!(out.contains("fn load(__zyre_allocator: std.mem.Allocator) ![]const u8 {"), "{}", out);
    assert!(out.contains("fn wrap(__zyre_allocator: std.mem.Allocator) ![]const u8 {"), "{}", out);
    assert!(out.contains("return load(__zyre_allocator);"), "{}", out);
    assert!(out.contains("fn plain() i32 {"), "{}", out);
}

#[test]
fn test_zig_top_level_code_uses_allocator() {
    let out = zig("const std = import(\"std\")\nconst t = std.fs.readTextFile(\"a\")\n");
    assert!(out.contains("    const __zyre_allocator = __zyre_arena.allocator();\n\n"), "{}", out);
    assert!(!out.contains("_ = __zyre_allocator;"), "{}", out);
}

// --- Parser errors ---

fn parse_messages(src: &str) -> Vec<String> {
    let (_, errors, _) = parse(tokenize(src));
    errors.iter().map(|e| e.message.clone()).collect()
}

#[test]
fn test_parse_error_messages() {
    assert_eq!(parse_messages("const = 1"), vec!["Expected identifier, got `=`".to_string()]);
    assert_eq!(parse_messages("let x = )"), vec!["Unexpected token: `)`".to_string()]);
    assert_eq!(
        parse_messages("x.("),
        vec![
            "Expected identifier, got `(`".to_string(),
            "Unexpected token: end of file".to_string(),
            "Expected `)`, got end of file".to_string(),
        ]
    );
    assert_eq!(parse_messages("fn f(): T[] {}"), vec!["Expected array size, got `]`".to_string()]);
    assert_eq!(parse_messages("const m = import(1)"), vec!["Expected string in import(), got `Int(1)`".to_string()]);
}

#[test]
fn test_error_getters_start_empty() {
    assert!(TypeChecker::new(vec![]).errors().is_empty());
    let p = Parser::new(tokenize("const x = 1\n"));
    assert!(p.errors().is_empty());
    assert_eq!(p.errors().len(), p.errors.len());
}
