//! The Zig text of expressions, statements and functions, as specifications.
//!
//! Generating an expression reads the aliases and the allocating functions
//! of the back end, and reads and changes the set of error variables bound by
//! the enclosing `catch` blocks; so each text comes with the set after it.
use vstd::prelude::*;
use super::{spec_gen_type, spec_indent, ZigBackend};
use crate::parser::{BinOp, Expr, ExprKind, FnDecl, Stmt, StmtKind, SwitchArm, SwitchBody, SwitchPattern, TypeExpr, UnOp};
use crate::strs::{float_plain, int_dec, join_spec};
use crate::symtab::{al_view, ia_view};
use crate::fmt::{bin_expr, spec_binop_str};
use crate::lexer::{keyword, Span, SpecTok, Token};

verus! {

/// What the back end's code generation reads besides the error variables.
pub struct ZCtx {
    /// `const a = import("m")` (and `const b = a`): alias -> module
    pub ia: Map<Seq<char>, Seq<char>>,
    /// `const a = m.ns` (and `const b = a`): alias -> (module, namespace)
    pub al: Map<Seq<char>, (Seq<char>, Seq<char>)>,
    /// The functions that take an allocator.
    pub alloc: Set<Seq<char>>,
}

/// Generating code left the aliases, the allocating functions and the imports as they were.
pub open spec fn z_keeps(a: ZigBackend, b: ZigBackend) -> bool {
    a.ctx() == b.ctx() && a.imports == b.imports
}

impl ZigBackend {
    /// The back end's aliases and allocating functions.
    pub open spec fn ctx(&self) -> ZCtx {
        ZCtx { ia: ia_view(self.import_aliases), al: al_view(self.aliases), alloc: self.allocating_fns.names() }
    }
}

/// The module a name stands for through the import aliases.
pub open spec fn z_resolve(c: ZCtx, name: Seq<char>) -> Seq<char> {
    if c.ia.contains_key(name) { c.ia[name] } else { name }
}

/// What an alias `const a = m.ns` stands for.
pub open spec fn z_alias(c: ZCtx, name: Seq<char>) -> Option<(Seq<char>, Seq<char>)> {
    if c.al.contains_key(name) { Some(c.al[name]) } else { None }
}

/// The Zig spelling of a binary operator.
pub open spec fn z_binop(op: BinOp) -> Seq<char> {
    match op {
        BinOp::Add => "+"@,
        BinOp::Sub => "-"@,
        BinOp::Mul => "*"@,
        BinOp::Div => "/"@,
        BinOp::Mod => "%"@,
        BinOp::Eq => "=="@,
        BinOp::NotEq => "!="@,
        BinOp::Lt => "<"@,
        BinOp::Gt => ">"@,
        BinOp::LtEq => "<="@,
        BinOp::GtEq => ">="@,
        BinOp::And => "and"@,
        BinOp::Or => "or"@,
    }
}

/// Law: Zig spells every binary operator as Zyre source does, except `%`
/// (emitted as `@rem`). In particular Zyre's `and` and `or` become Zig's
/// boolean operators `and` and `or`: the words that the Zyre lexer itself
/// reads as the `and` and `or` tokens.
pub proof fn lemma_zig_operators(op: BinOp)
    ensures
        !(op is Mod) ==> z_binop(op) == spec_binop_str(op),
        z_binop(BinOp::And) == "and"@,
        z_binop(BinOp::Or) == "or"@,
        keyword(z_binop(BinOp::And)) == SpecTok::Other(Token::And),
        keyword(z_binop(BinOp::Or)) == SpecTok::Other(Token::Or),
{
    reveal_strlit("and");
    reveal_strlit("or");
    crate::lexer::lemma_logical_keywords();
}

/// Law: the Zig text of `lhs and rhs` is `(lhs and rhs)`, and of `lhs or rhs`
/// is `(lhs or rhs)`, each operand in its own Zig text.
pub proof fn lemma_zig_logical_text(c: ZCtx, st: Set<Seq<char>>, op: BinOp, lhs: Expr, rhs: Expr, span: Span)
    requires
        op is And || op is Or,
    ensures
        ({
            let l = zx(c, st, lhs);
            let r = zx(c, l.1, rhs);
            zx(c, st, bin_expr(op, lhs, rhs, span)).0
                == "("@ + l.0 + (if op is And { " and "@ } else { " or "@ }) + r.0 + ")"@
        }),
{
    reveal_strlit("and");
    reveal_strlit("or");
    reveal_strlit(" and ");
    reveal_strlit(" or ");
    reveal_strlit(" ");
    let l = zx(c, st, lhs);
    let r = zx(c, l.1, rhs);
    assert(zx(c, st, bin_expr(op, lhs, rhs, span)).0 =~= "("@ + l.0 + (if op is And { " and "@ } else { " or "@ }) + r.0 + ")"@);
}

/// A literal float's text.
pub open spec fn z_float(f: Seq<char>) -> Seq<char> {
    if f.len() > 0 && f[0] != '.' { float_plain(f) } else { f }
}

/// A switch pattern's text.
pub open spec fn z_pattern(p: SwitchPattern) -> Seq<char> {
    match p {
        SwitchPattern::Ident(s) => "."@ + s@,
        SwitchPattern::Int(n) => int_dec(n as int),
        SwitchPattern::Bool(b) => if b { "true"@ } else { "false"@ },
        SwitchPattern::Else => "else"@,
    }
}

/// `std.f(args)`, given the arguments' texts and the set after them.
pub open spec fn z_std_call(f: Seq<char>, all: (Seq<Seq<char>>, Set<Seq<char>>)) -> (Seq<char>, Set<Seq<char>>) {
    ("std."@ + f + "("@ + join_spec(all.0, ", "@) + ")"@, all.1)
}

/// `std.debug.print` of the first argument: an error variable bound by an
/// enclosing `catch` is printed by its name.
pub open spec fn z_print_call(st: Set<Seq<char>>, args: Seq<Expr>, first: (Seq<char>, Set<Seq<char>>)) -> (Seq<char>, Set<Seq<char>>) {
    if args.len() > 0 {
        match args[0].kind {
            ExprKind::Var(name) => if st.contains(name@) {
                ("__zyre_std_debug.print("@ + ("@errorName("@ + name@ + ")"@) + ")"@, st)
            } else {
                ("__zyre_std_debug.print("@ + first.0 + ")"@, first.1)
            },
            _ => ("__zyre_std_debug.print("@ + first.0 + ")"@, first.1),
        }
    } else {
        ("__zyre_std_debug.print(\"\")"@, st)
    }
}

/// A call of `f` in the std namespace `ns`.
pub open spec fn z_ns_call(
    st: Set<Seq<char>>,
    ns: Seq<char>,
    f: Seq<char>,
    args: Seq<Expr>,
    all: (Seq<Seq<char>>, Set<Seq<char>>),
    first: (Seq<char>, Set<Seq<char>>),
) -> (Seq<char>, Set<Seq<char>>) {
    let joined = join_spec(all.0, ", "@);
    if ns == "debug"@ {
        if f == "print"@ {
            z_print_call(st, args, first)
        } else {
            ("std.debug."@ + f + "("@ + joined + ")"@, all.1)
        }
    } else if ns == "fs"@ {
        if f == "readTextFile"@ {
            if args.len() > 0 {
                ("std.fs.cwd().readFileAlloc(__zyre_allocator, "@ + first.0 + ", std.math.maxInt(usize))"@, first.1)
            } else {
                ("std.fs.cwd().readFileAlloc(__zyre_allocator, \"\", std.math.maxInt(usize))"@, st)
            }
        } else {
            ("std.fs."@ + f + "("@ + joined + ")"@, all.1)
        }
    } else {
        ("std."@ + ns + "."@ + f + "("@ + joined + ")"@, all.1)
    }
}

/// The Zig text of an expression, with the error variables `st` in scope,
/// and the set of error variables after it.
pub open spec fn zx(c: ZCtx, st: Set<Seq<char>>, e: Expr) -> (Seq<char>, Set<Seq<char>>)
    decreases e,
{
    match e.kind {
        ExprKind::Var(name) => (name@, st),
        ExprKind::Str(s) => ("\""@ + s@ + "\""@, st),
        ExprKind::Int(n) => (int_dec(n as int), st),
        ExprKind::Float(f) => (z_float(f@), st),
        ExprKind::Bool(b) => (if b { "true"@ } else { "false"@ }, st),
        ExprKind::Import(m) => ("@import(\""@ + m@ + "\")"@, st),
        ExprKind::MemberAccess { obj, prop } => {
            let o = zx(c, st, *obj);
            (o.0 + "."@ + prop@, o.1)
        },
        ExprKind::Call { callee, args } => {
            let all = zxs(c, st, args@);
            let first = if args@.len() > 0 { zx(c, st, args@[0]) } else { (Seq::empty(), st) };
            let is_main = match callee.kind {
                ExprKind::Var(n) => n@ == "main"@,
                _ => false,
            };
            let cal = if is_main { ("__zyre_fn_main"@, st) } else { zx(c, st, *callee) };
            let rest = zxs(c, cal.1, args@);
            let alloc = match callee.kind {
                ExprKind::Var(n) => c.alloc.contains(n@),
                _ => false,
            };
            let ts = if alloc { seq!["__zyre_allocator"@] + rest.0 } else { rest.0 };
            let plain = (cal.0 + "("@ + join_spec(ts, ", "@) + ")"@, rest.1);
            match callee.kind {
                ExprKind::MemberAccess { obj, prop } => {
                    let by_alias = match obj.kind {
                        ExprKind::Var(alias) => match z_alias(c, alias@) {
                            Some(p) => if p.0 == "std"@ && p.1 != Seq::<char>::empty() {
                                z_ns_call(st, p.1, prop@, args@, all, first)
                            } else {
                                plain
                            },
                            None => plain,
                        },
                        _ => plain,
                    };
                    match obj.kind {
                        ExprKind::Var(module) => if z_resolve(c, module@) == "std"@ {
                            z_std_call(prop@, all)
                        } else {
                            by_alias
                        },
                        ExprKind::MemberAccess { obj: inner, prop: ns } => match inner.kind {
                            ExprKind::Var(module) => if z_resolve(c, module@) == "std"@ {
                                z_ns_call(st, ns@, prop@, args@, all, first)
                            } else {
                                by_alias
                            },
                            _ => by_alias,
                        },
                        _ => by_alias,
                    }
                },
                ExprKind::Var(name) => match z_alias(c, name@) {
                    Some(p) => if p.0 == "std"@ { z_std_call(p.1, all) } else { plain },
                    None => plain,
                },
                _ => plain,
            }
        },
        ExprKind::BinOp { op, lhs, rhs } => {
            let l = zx(c, st, *lhs);
            let r = zx(c, l.1, *rhs);
            match op {
                BinOp::Mod => ("@rem("@ + l.0 + ", "@ + r.0 + ")"@, r.1),
                _ => ("("@ + l.0 + " "@ + z_binop(op) + " "@ + r.0 + ")"@, r.1),
            }
        },
        ExprKind::UnOp { op, expr } => {
            let x = zx(c, st, *expr);
            ("("@ + (match op { UnOp::Neg => "-"@, UnOp::Not => "!"@ }) + x.0 + ")"@, x.1)
        },
        ExprKind::ArrayLiteral(elems) => {
            let all = zxs(c, st, elems@);
            (".{"@ + join_spec(all.0, ", "@) + "}"@, all.1)
        },
        ExprKind::Index { obj, idx } => {
            let o = zx(c, st, *obj);
            let i = zx(c, o.1, *idx);
            (o.0 + "["@ + i.0 + "]"@, i.1)
        },
        ExprKind::Propagate(x) => {
            let t = zx(c, st, *x);
            ("(try "@ + t.0 + ")"@, t.1)
        },
        ExprKind::Catch { expr, err_name, body } => {
            let uses = exists|i: int| 0 <= i < body@.len() && super::spec_stmt_refs(#[trigger] body@[i], err_name@);
            let st1 = if uses { st.insert(err_name@) } else { st };
            let capture = if uses { " |"@ + err_name@ + "|"@ } else { Seq::empty() };
            let x = zx(c, st1, *expr);
            let b = zss(c, x.1, body@, 1);
            let st2 = if uses { b.1.remove(err_name@) } else { b.1 };
            (x.0 + " catch"@ + capture + " {\n"@ + b.0 + "}"@, st2)
        },
        ExprKind::Switch { expr, arms } => {
            let x = zx(c, st, *expr);
            let a = zarms(c, x.1, arms@);
            ("switch ("@ + x.0 + ") {\n"@ + a.0 + "}"@, a.1)
        },
        ExprKind::If { cond, then_, else_ } => {
            let x = zx(c, st, *cond);
            let t = zx(c, x.1, *then_);
            let f = zx(c, t.1, *else_);
            ("if ("@ + x.0 + ") "@ + t.0 + " else "@ + f.0, f.1)
        },
    }
}

/// The texts of a list of expressions, generated in order.
pub open spec fn zxs(c: ZCtx, st: Set<Seq<char>>, es: Seq<Expr>) -> (Seq<Seq<char>>, Set<Seq<char>>)
    decreases es,
{
    if es.len() == 0 {
        (Seq::empty(), st)
    } else {
        let p = zxs(c, st, es.subrange(0, es.len() - 1));
        let x = zx(c, p.1, es[es.len() - 1]);
        (p.0.push(x.0), x.1)
    }
}

/// One switch arm.
pub open spec fn zarm(c: ZCtx, st: Set<Seq<char>>, arm: SwitchArm) -> (Seq<char>, Set<Seq<char>>)
    decreases arm,
{
    match arm.body {
        SwitchBody::Expr(x) => {
            let t = zx(c, st, x);
            ("    "@ + z_pattern(arm.pattern) + (" => "@ + t.0 + ",\n"@), t.1)
        },
        SwitchBody::Block(stmts) => {
            let b = zss(c, st, stmts@, 2);
            ("    "@ + z_pattern(arm.pattern) + (" => {\n"@ + b.0 + "    },\n"@), b.1)
        },
    }
}

/// Switch arms, in order.
pub open spec fn zarms(c: ZCtx, st: Set<Seq<char>>, arms: Seq<SwitchArm>) -> (Seq<char>, Set<Seq<char>>)
    decreases arms,
{
    if arms.len() == 0 {
        (Seq::empty(), st)
    } else {
        let p = zarms(c, st, arms.subrange(0, arms.len() - 1));
        let a = zarm(c, p.1, arms[arms.len() - 1]);
        (p.0 + a.0, a.1)
    }
}

/// The indentation level a statement is printed at: levels saturate below the largest `usize`.
pub open spec fn z_level(level: int) -> int {
    if level < usize::MAX - 1 { level } else { usize::MAX - 2 }
}

/// A type annotation `: T`, or nothing.
pub open spec fn z_annot(ty: Option<TypeExpr>) -> Seq<char> {
    match ty {
        Some(t) => ": "@ + spec_gen_type(t),
        None => Seq::empty(),
    }
}

/// The Zig text of a statement at indentation `level`.
pub open spec fn zs(c: ZCtx, st: Set<Seq<char>>, s: Stmt, level: int) -> (Seq<char>, Set<Seq<char>>)
    decreases s,
{
    let l = z_level(level);
    let ind = spec_indent(l as nat);
    match s.kind {
        StmtKind::ConstDecl { name, ty, value } => {
            let v = zx(c, st, value);
            (ind + "const "@ + name@ + z_annot(ty) + " = "@ + v.0 + ";\n"@, v.1)
        },
        StmtKind::LetDecl { name, ty, value } => {
            let v = zx(c, st, value);
            (ind + "var "@ + name@ + z_annot(ty) + " = "@ + v.0 + ";\n"@, v.1)
        },
        StmtKind::Return(None) => (ind + "return;\n"@, st),
        StmtKind::Return(Some(e)) => {
            let v = zx(c, st, e);
            (ind + "return "@ + v.0 + ";\n"@, v.1)
        },
        StmtKind::Break => (ind + "break;\n"@, st),
        StmtKind::Continue => (ind + "continue;\n"@, st),
        StmtKind::If { cond, body, else_body } => {
            let x = zx(c, st, cond);
            let b = zss(c, x.1, body@, l + 1);
            let head = ind + "if"@ + " ("@ + x.0 + ") {\n"@ + b.0 + ind + "}\n"@;
            match else_body {
                Some(eb) => {
                    let e = zss(c, b.1, eb@, l + 1);
                    (head.drop_last() + " else {\n"@ + e.0 + ind + "}\n"@, e.1)
                },
                None => (head, b.1),
            }
        },
        StmtKind::While { cond, body } => {
            let x = zx(c, st, cond);
            let b = zss(c, x.1, body@, l + 1);
            (ind + "while"@ + " ("@ + x.0 + ") {\n"@ + b.0 + ind + "}\n"@, b.1)
        },
        StmtKind::ExprStmt(e) => {
            let v = zx(c, st, e);
            if e.kind is Switch {
                (ind + v.0 + "\n"@, v.1)
            } else {
                (ind + v.0 + ";\n"@, v.1)
            }
        },
    }
}

/// Statements at indentation `level`, in order.
pub open spec fn zss(c: ZCtx, st: Set<Seq<char>>, ss: Seq<Stmt>, level: int) -> (Seq<char>, Set<Seq<char>>)
    decreases ss,
{
    if ss.len() == 0 {
        (Seq::empty(), st)
    } else {
        let p = zss(c, st, ss.subrange(0, ss.len() - 1), level);
        let x = zs(c, p.1, ss[ss.len() - 1], level);
        (p.0 + x.0, x.1)
    }
}

/// A parameter's text.
pub open spec fn z_param(p: (String, TypeExpr)) -> Seq<char> {
    p.0@ + ": "@ + spec_gen_type(p.1)
}

/// The parameters' texts: the allocator first for a function that needs one.
pub open spec fn z_params(alloc: bool, ps: Seq<(String, TypeExpr)>) -> Seq<Seq<char>> {
    (if alloc { seq!["__zyre_allocator: std.mem.Allocator"@] } else { Seq::empty() })
        + Seq::new(ps.len(), |i: int| z_param(ps[i]))
}

/// The Zig text of a function declaration (a user `main` is renamed).
pub open spec fn zfn(c: ZCtx, st: Set<Seq<char>>, f: FnDecl) -> (Seq<char>, Set<Seq<char>>) {
    let name = if f.name@ == "main"@ { "__zyre_fn_main"@ } else { f.name@ };
    let b = zss(c, st, f.body@, 1);
    ((if f.exported { "pub "@ } else { Seq::empty() }) + "fn "@ + name + "("@
        + join_spec(z_params(c.alloc.contains(f.name@), f.params@), ", "@) + ") "@ + spec_gen_type(f.ret) + " {\n"@
        + b.0 + "}\n"@, b.1)
}

} // verus!
