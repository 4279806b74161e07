use lib::lexer::tokenize;
use lib::parser::parse;
use lib::typechecker::check;

fn run(src: &str) -> Vec<String> {
    let tokens = tokenize(src);
    let (ast, _, _) = parse(tokens);
    check(&ast, vec![])
}

fn ok(src: &str) {
    let errors = run(src);
    assert!(errors.is_empty(), "Expected no errors, got: {:?}", errors);
}

fn err(src: &str, expected: &str) {
    let errors = run(src);
    assert!(
        errors.iter().any(|e| e.contains(expected)),
        "Expected error containing '{}', got: {:?}",
        expected,
        errors
    );
}

#[test]
fn test_fs_read_file() {
    ok(r#"
        const std = import("std");
        fn main(): void {
            const data = std.fs.readTextFile("test.txt") catch err {
                return;
            };
            std.debug.print(data);
        }
    "#);
}

#[test]
fn test_fs_read_file_propagate() {
    ok(r#"
        const std = import("std");
        fn readContent(): !string {
            const data = std.fs.readTextFile("test.txt")?;
            return data;
        }
        fn main(): void {}
    "#);
}

#[test]
fn test_fs_read_file_arg_count() {
    err(
        r#"
        const std = import("std");
        fn main(): void {
            const data = std.fs.readTextFile("a", "b") catch err {
                return;
            };
        }
    "#,
        "std.fs.readTextFile expects 1 argument",
    );
}

#[test]
fn test_parse_alloc_propagate() {
    ok(r#"
        const std = import("std");
        fn readContent(): !string {
            const data = std.fs.readTextFile("test.txt")?;
            return data;
        }
        fn main(): void {
            const data = readContent() catch err { return; };
            std.debug.print(data);
        }
    "#);
}
