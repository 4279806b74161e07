# zyre, verified

A compiler front end for the small language Zyre (`.zy` files), written in
Verus: the tokenizer, parser, type checker, formatter and the Zig and
TypeScript code generators are executable Rust whose behaviour is stated as
contracts over mathematical models and proved.

## Layout

- `src/` — the verified library (crate `lib`).
  - `strs` — string helpers over `Seq<char>` views, and the few std calls the
    library trusts.
  - `lexer` — tokens with automatic `;` insertion; `spec_tokenize` is its model.
  - `grammar` — the parser's grammar as spec functions over token views;
    `parser` implements it (`g_parse`).
  - `typing`, `typechecker` — the type rules (`check_spec`) and the checker.
  - `fmt` — the formatter (`format_spec`) and blank-line detection.
  - `codegen::ts`, `codegen::zig` — the back ends (`ts_program`, `zig_program`),
    with the Zig hoisting and allocator analyses in `codegen::zig::program`.
  - `commands` — error locations, module paths, and the `check` report
    (`check_and_report`, `fmt_diff`, `summary`).
  - `cli` — argument splitting and the optimisation-level flag.
- `tests/` — tests run against the compiled library.
- `app/` — the command-line program: file and process I/O around the library.

## Running

The program reads the runtime support files (`zyre_runtime.zig`,
`zyre_std_*.zig`, `zyre_std_*.ts`) from the directory named by
`ZYRE_RUNTIME_DIR`, or from a `runtime` directory beside the executable.
