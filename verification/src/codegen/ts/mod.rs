//! TypeScript back end.
use vstd::prelude::*;
use crate::codegen::Backend;
use crate::parser::{
    BinOp, Expr, ExprKind, FnDecl, Program, Stmt, StmtKind, StructField, SwitchArm, SwitchBody,
    SwitchPattern, TopLevel, TypeExpr, UnOp,
};
use crate::strs::{
    cat2, cat3, escape_spec, escape_str, float_point, float_point_text, float_text_ok, i64_to_string,
    int_dec, join_all, join_spec, join_strings, push_char, push_str, replace_all, replace_spec, str_eq, str_ends_with,
    str_starts_with, to_string, trim_end, views, ws_end,
};
use crate::fmt::{bin_expr, spec_binop_str};
use crate::lexer::Span;
use crate::symtab::{ae_of, al_view, ia_view, ie_of, lemma_al_view, lemma_ia_view, pairs_map, StrMap, StrSet};

verus! {

pub struct TsBackend {
    /// `const s = import("m")`: alias -> module
    pub import_aliases: StrMap<String>,
    /// `const fs = std.fs`: alias -> (module, namespace)
    pub aliases: StrMap<(String, String)>,
    /// std namespaces that calls go through (such as `debug` or `fs`)
    pub used_std_ns: StrSet,
}

// -------------------------------------------------------------------------
// Specifications

/// `name` is an alias of the std module.
pub open spec fn ts_is_std(ia: Map<Seq<char>, Seq<char>>, name: Seq<char>) -> bool {
    ia.contains_key(name) && ia[name] == "std"@
}


/// The callee `std.ns.f`, or `a.f` with `a` bound to `std.ns`, reaches `ns`.
pub open spec fn ts_callee_ns(
    ia: Map<Seq<char>, Seq<char>>,
    al: Map<Seq<char>, (Seq<char>, Seq<char>)>,
    callee: Expr,
    ns: Seq<char>,
) -> bool {
    match callee.kind {
        ExprKind::MemberAccess { obj, .. } => (match obj.kind {
            ExprKind::MemberAccess { obj: inner, prop } => match inner.kind {
                ExprKind::Var(base) => ts_is_std(ia, base@) && prop@ == ns,
                _ => false,
            },
            _ => false,
        }) || (match obj.kind {
            ExprKind::Var(a) => al.contains_key(a@) && al[a@].0 == "std"@ && al[a@].1 == ns,
            _ => false,
        }),
        _ => false,
    }
}

/// A call in `e` goes through the std namespace `ns`.
pub open spec fn ts_expr_ns(
    ia: Map<Seq<char>, Seq<char>>,
    al: Map<Seq<char>, (Seq<char>, Seq<char>)>,
    e: Expr,
    ns: Seq<char>,
) -> bool
    decreases e,
{
    match e.kind {
        ExprKind::Call { callee, args } => ts_callee_ns(ia, al, *callee, ns)
            || ts_expr_ns(ia, al, *callee, ns)
            || exists|i: int| 0 <= i < args@.len() && ts_expr_ns(ia, al, #[trigger] args@[i], ns),
        ExprKind::MemberAccess { obj, .. } => ts_expr_ns(ia, al, *obj, ns),
        ExprKind::BinOp { lhs, rhs, .. } => ts_expr_ns(ia, al, *lhs, ns) || ts_expr_ns(ia, al, *rhs, ns),
        ExprKind::UnOp { expr, .. } => ts_expr_ns(ia, al, *expr, ns),
        ExprKind::Propagate(x) => ts_expr_ns(ia, al, *x, ns),
        ExprKind::Catch { expr, body, .. } => ts_expr_ns(ia, al, *expr, ns)
            || exists|i: int| 0 <= i < body@.len() && ts_stmt_ns(ia, al, #[trigger] body@[i], ns),
        ExprKind::Switch { expr, arms } => ts_expr_ns(ia, al, *expr, ns)
            || exists|i: int| 0 <= i < arms@.len() && match (#[trigger] arms@[i]).body {
                SwitchBody::Expr(x) => ts_expr_ns(ia, al, x, ns),
                SwitchBody::Block(stmts) => exists|j: int| 0 <= j < stmts@.len()
                    && ts_stmt_ns(ia, al, #[trigger] stmts@[j], ns),
            },
        ExprKind::ArrayLiteral(elems) => exists|i: int| 0 <= i < elems@.len()
            && ts_expr_ns(ia, al, #[trigger] elems@[i], ns),
        ExprKind::Index { obj, idx } => ts_expr_ns(ia, al, *obj, ns) || ts_expr_ns(ia, al, *idx, ns),
        ExprKind::If { cond, then_, else_ } => ts_expr_ns(ia, al, *cond, ns)
            || ts_expr_ns(ia, al, *then_, ns) || ts_expr_ns(ia, al, *else_, ns),
        _ => false,
    }
}

/// A call in `s` goes through the std namespace `ns`.
pub open spec fn ts_stmt_ns(
    ia: Map<Seq<char>, Seq<char>>,
    al: Map<Seq<char>, (Seq<char>, Seq<char>)>,
    s: Stmt,
    ns: Seq<char>,
) -> bool
    decreases s,
{
    match s.kind {
        StmtKind::ConstDecl { value, .. } => ts_expr_ns(ia, al, value, ns),
        StmtKind::LetDecl { value, .. } => ts_expr_ns(ia, al, value, ns),
        StmtKind::Return(Some(e)) => ts_expr_ns(ia, al, e, ns),
        StmtKind::ExprStmt(e) => ts_expr_ns(ia, al, e, ns),
        StmtKind::If { cond, body, else_body } => ts_expr_ns(ia, al, cond, ns)
            || (exists|i: int| 0 <= i < body@.len() && ts_stmt_ns(ia, al, #[trigger] body@[i], ns))
            || match else_body {
                Some(eb) => exists|i: int| 0 <= i < eb@.len() && ts_stmt_ns(ia, al, #[trigger] eb@[i], ns),
                None => false,
            },
        StmtKind::While { cond, body } => ts_expr_ns(ia, al, cond, ns)
            || exists|i: int| 0 <= i < body@.len() && ts_stmt_ns(ia, al, #[trigger] body@[i], ns),
        _ => false,
    }
}

/// A call in the top-level item `t` goes through the std namespace `ns`.
pub open spec fn ts_item_ns(
    ia: Map<Seq<char>, Seq<char>>,
    al: Map<Seq<char>, (Seq<char>, Seq<char>)>,
    t: TopLevel,
    ns: Seq<char>,
) -> bool {
    match t {
        TopLevel::FnDecl(f) => exists|j: int| 0 <= j < f.body@.len()
            && ts_stmt_ns(ia, al, #[trigger] f.body@[j], ns),
        TopLevel::Stmt(s) => ts_stmt_ns(ia, al, s, ns),
        TopLevel::ConstDecl { value, .. } => ts_expr_ns(ia, al, value, ns),
        _ => false,
    }
}

/// The TypeScript spelling of a type expression.
pub open spec fn ts_type(ty: TypeExpr) -> Seq<char>
    decreases ty,
{
    match ty {
        TypeExpr::Name(n) => if n@ == "i32"@ || n@ == "f64"@ {
            "number"@
        } else if n@ == "bool"@ {
            "boolean"@
        } else {
            n@
        },
        TypeExpr::Array(inner, _) => ts_type(*inner) + "[]"@,
        TypeExpr::Optional(inner) => ts_type(*inner) + " | null"@,
        TypeExpr::ErrorUnion(_, inner) => ts_type(*inner),
    }
}

/// `level` levels of two-space indentation.
pub open spec fn ts_indent(level: nat) -> Seq<char>
    decreases level,
{
    if level == 0 {
        Seq::empty()
    } else {
        ts_indent((level - 1) as nat) + "  "@
    }
}

/// The TypeScript spelling of a binary operator.
pub open spec fn ts_binop_spec(op: BinOp) -> Seq<char> {
    match op {
        BinOp::Add => "+"@,
        BinOp::Sub => "-"@,
        BinOp::Mul => "*"@,
        BinOp::Div => "/"@,
        BinOp::Mod => "%"@,
        BinOp::Eq => "==="@,
        BinOp::NotEq => "!=="@,
        BinOp::Lt => "<"@,
        BinOp::Gt => ">"@,
        BinOp::LtEq => "<="@,
        BinOp::GtEq => ">="@,
        BinOp::And => "&&"@,
        BinOp::Or => "||"@,
    }
}

/// Law: TypeScript's operator for each Zyre operator: logical conjunction
/// `&&` for `and` and disjunction `||` for `or`, strict equality `===` and
/// `!==` for `==` and `!=`, and Zyre's own spelling for arithmetic and ordering.
pub proof fn lemma_ts_operators(op: BinOp)
    ensures
        ts_binop_spec(BinOp::And) == "&&"@,
        ts_binop_spec(BinOp::Or) == "||"@,
        ts_binop_spec(BinOp::Eq) == "==="@,
        ts_binop_spec(BinOp::NotEq) == "!=="@,
        !(op is And || op is Or || op is Eq || op is NotEq) ==> ts_binop_spec(op) == spec_binop_str(op),
{
}

/// Law: the TypeScript text of a binary operation is the operands' texts
/// around the operator, in brackets: `(lhs && rhs)` for `lhs and rhs`.
pub proof fn lemma_ts_binop_text(ia: Map<Seq<char>, Seq<char>>, al: Map<Seq<char>, (Seq<char>, Seq<char>)>,
    op: BinOp, lhs: Expr, rhs: Expr, span: Span)
    ensures
        ts_expr(ia, al, bin_expr(op, lhs, rhs, span))
            == "("@ + ts_expr(ia, al, lhs) + " "@ + ts_binop_spec(op) + " "@ + ts_expr(ia, al, rhs) + ")"@,
        op is And ==> ts_expr(ia, al, bin_expr(op, lhs, rhs, span))
            == "("@ + ts_expr(ia, al, lhs) + " && "@ + ts_expr(ia, al, rhs) + ")"@,
        op is Or ==> ts_expr(ia, al, bin_expr(op, lhs, rhs, span))
            == "("@ + ts_expr(ia, al, lhs) + " || "@ + ts_expr(ia, al, rhs) + ")"@,
{
    reveal_strlit(" && ");
    reveal_strlit(" || ");
    reveal_strlit("&&");
    reveal_strlit("||");
    reveal_strlit(" ");
    let a = ts_expr(ia, al, lhs);
    let b = ts_expr(ia, al, rhs);
    assert("("@ + a + " "@ + "&&"@ + " "@ + b + ")"@ =~= "("@ + a + " && "@ + b + ")"@);
    assert("("@ + a + " "@ + "||"@ + " "@ + b + ")"@ =~= "("@ + a + " || "@ + b + ")"@);
}

/// A call of `fn_name` in the std namespace `ns`, with the argument text `args`.
pub open spec fn ts_std_call(ns: Seq<char>, fn_name: Seq<char>, args: Seq<char>) -> Seq<char> {
    if ns == "debug"@ || ns == "fs"@ {
        "__zyre_std_"@ + ns + "."@ + fn_name + "("@ + args + ")"@
    } else {
        "/* std."@ + ns + "."@ + fn_name + " */ "@ + fn_name + "("@ + args + ")"@
    }
}

/// The binding name of a caught error: `_e` for a name that starts with `_`.
pub open spec fn ts_err_bind(name: Seq<char>) -> Seq<char> {
    if name.len() > 0 && name[0] == '_' {
        "_e"@
    } else {
        name
    }
}

/// `l + 1`, saturating at the largest `usize`.
pub open spec fn sat_inc(l: int) -> int {
    if l < usize::MAX { l + 1 } else { l }
}

/// A type annotation `: T`, or nothing.
pub open spec fn ts_annot(ty: Option<TypeExpr>) -> Seq<char> {
    match ty {
        Some(t) => ": "@ + ts_type(t),
        None => Seq::empty(),
    }
}

/// `s` without trailing whitespace.
pub open spec fn trim_end_spec(s: Seq<char>) -> Seq<char> {
    s.subrange(0, ws_end(s, s.len() as int))
}

/// A switch pattern's text.
pub open spec fn ts_pattern(p: SwitchPattern) -> Seq<char> {
    match p {
        SwitchPattern::Ident(s) => s@,
        SwitchPattern::Int(n) => int_dec(n as int),
        SwitchPattern::Bool(b) => if b { "true"@ } else { "false"@ },
        SwitchPattern::Else => Seq::empty(),
    }
}

/// The TypeScript text of an expression, given the std aliases of the program.
pub open spec fn ts_expr(ia: Map<Seq<char>, Seq<char>>, al: Map<Seq<char>, (Seq<char>, Seq<char>)>, e: Expr) -> Seq<char>
    decreases e,
{
    match e.kind {
        ExprKind::Var(name) => name@,
        ExprKind::Str(s) => "\""@ + escape_spec(s@) + "\""@,
        ExprKind::Int(n) => int_dec(n as int),
        ExprKind::Float(f) => if f@.len() > 0 && f@[0] != '.' { float_point(f@) } else { f@ },
        ExprKind::Bool(b) => if b { "true"@ } else { "false"@ },
        ExprKind::Import(_) => Seq::empty(),
        ExprKind::MemberAccess { obj, prop } => ts_expr(ia, al, *obj) + "."@ + prop@,
        ExprKind::Call { callee, args } => {
            let argt = join_spec(ts_exprs(ia, al, args@), ", "@);
            let plain = ts_expr(ia, al, *callee) + "("@ + argt + ")"@;
            match callee.kind {
                ExprKind::MemberAccess { obj, prop } => match obj.kind {
                    ExprKind::MemberAccess { obj: inner, prop: ns } => match inner.kind {
                        ExprKind::Var(base) => if ts_is_std(ia, base@) {
                            ts_std_call(ns@, prop@, argt)
                        } else {
                            plain
                        },
                        _ => plain,
                    },
                    ExprKind::Var(alias) => if al.contains_key(alias@) && al[alias@].0 == "std"@ {
                        ts_std_call(al[alias@].1, prop@, argt)
                    } else if ts_is_std(ia, alias@) {
                        ts_std_call(prop@, prop@, argt)
                    } else {
                        plain
                    },
                    _ => plain,
                },
                _ => plain,
            }
        },
        ExprKind::BinOp { op, lhs, rhs } => "("@ + ts_expr(ia, al, *lhs) + " "@ + ts_binop_spec(op) + " "@
            + ts_expr(ia, al, *rhs) + ")"@,
        ExprKind::UnOp { op, expr } => match op {
            UnOp::Neg => "(-"@ + ts_expr(ia, al, *expr) + ")"@,
            UnOp::Not => "(!"@ + ts_expr(ia, al, *expr) + ")"@,
        },
        ExprKind::Propagate(x) => ts_expr(ia, al, *x),
        ExprKind::Catch { expr, err_name, body } => "(() => { try { return "@ + ts_expr(ia, al, *expr)
            + "; } catch ("@ + ts_err_bind(err_name@) + ") {"@ + ts_inline(ia, al, body@) + " } })()"@,
        ExprKind::Switch { expr, arms } => "(() => { switch ("@ + ts_expr(ia, al, *expr) + ") {"@
            + ts_arms(ia, al, arms@) + " } })()"@,
        ExprKind::ArrayLiteral(elems) => "["@ + join_spec(ts_exprs(ia, al, elems@), ", "@) + "]"@,
        ExprKind::Index { obj, idx } => ts_expr(ia, al, *obj) + "["@ + ts_expr(ia, al, *idx) + "]"@,
        ExprKind::If { cond, then_, else_ } => "("@ + ts_expr(ia, al, *cond) + " ? "@ + ts_expr(ia, al, *then_)
            + " : "@ + ts_expr(ia, al, *else_) + ")"@,
    }
}

/// The texts of a list of expressions.
pub open spec fn ts_exprs(ia: Map<Seq<char>, Seq<char>>, al: Map<Seq<char>, (Seq<char>, Seq<char>)>, es: Seq<Expr>) -> Seq<Seq<char>>
    decreases es,
{
    if es.len() == 0 {
        Seq::empty()
    } else {
        ts_exprs(ia, al, es.subrange(0, es.len() - 1)).push(ts_expr(ia, al, es[es.len() - 1]))
    }
}

/// The text of one switch arm inside the switch of an arrow function.
pub open spec fn ts_arm(ia: Map<Seq<char>, Seq<char>>, al: Map<Seq<char>, (Seq<char>, Seq<char>)>, arm: SwitchArm) -> Seq<char>
    decreases arm,
{
    match arm.pattern {
        SwitchPattern::Else => match arm.body {
            SwitchBody::Expr(x) => " default: return "@ + ts_expr(ia, al, x) + ";"@,
            SwitchBody::Block(stmts) => " default: {"@ + ts_inline(ia, al, stmts@) + "}"@,
        },
        _ => match arm.body {
            SwitchBody::Expr(x) => " case "@ + ts_pattern(arm.pattern) + ": return "@ + ts_expr(ia, al, x) + ";"@,
            SwitchBody::Block(stmts) => " case "@ + ts_pattern(arm.pattern) + ": {"@ + ts_inline(ia, al, stmts@)
                + " break; }"@,
        },
    }
}

/// The texts of switch arms, one after another.
pub open spec fn ts_arms(ia: Map<Seq<char>, Seq<char>>, al: Map<Seq<char>, (Seq<char>, Seq<char>)>, arms: Seq<SwitchArm>) -> Seq<char>
    decreases arms,
{
    if arms.len() == 0 {
        Seq::empty()
    } else {
        ts_arms(ia, al, arms.subrange(0, arms.len() - 1)) + ts_arm(ia, al, arms[arms.len() - 1])
    }
}

/// The TypeScript text of a statement at indentation `level`.
pub open spec fn ts_stmt(ia: Map<Seq<char>, Seq<char>>, al: Map<Seq<char>, (Seq<char>, Seq<char>)>, s: Stmt, level: int) -> Seq<char>
    decreases s,
{
    let ind = ts_indent(level as nat);
    match s.kind {
        StmtKind::ConstDecl { name, ty, value } => ind + "const "@ + name@ + ts_annot(ty) + " = "@
            + ts_expr(ia, al, value) + ";\n"@,
        StmtKind::LetDecl { name, ty, value } => ind + "let "@ + name@ + ts_annot(ty) + " = "@
            + ts_expr(ia, al, value) + ";\n"@,
        StmtKind::Return(None) => ind + "return;\n"@,
        StmtKind::Return(Some(e)) => ind + "return "@ + ts_expr(ia, al, e) + ";\n"@,
        StmtKind::ExprStmt(e) => ind + ts_expr(ia, al, e) + ";\n"@,
        StmtKind::If { cond, body, else_body } => ind + "if ("@ + ts_expr(ia, al, cond) + ") {\n"@
            + ts_block(ia, al, body@, sat_inc(level)) + match else_body {
                Some(eb) => ind + "} else {\n"@ + ts_block(ia, al, eb@, sat_inc(level)),
                None => Seq::empty(),
            } + ind + "}\n"@,
        StmtKind::While { cond, body } => ind + "while ("@ + ts_expr(ia, al, cond) + ") {\n"@
            + ts_block(ia, al, body@, sat_inc(level)) + ind + "}\n"@,
        StmtKind::Break => ind + "break;\n"@,
        StmtKind::Continue => ind + "continue;\n"@,
    }
}

/// The texts of statements at indentation `level`, one after another.
pub open spec fn ts_block(ia: Map<Seq<char>, Seq<char>>, al: Map<Seq<char>, (Seq<char>, Seq<char>)>, ss: Seq<Stmt>, level: int) -> Seq<char>
    decreases ss,
{
    if ss.len() == 0 {
        Seq::empty()
    } else {
        ts_block(ia, al, ss.subrange(0, ss.len() - 1), level) + ts_stmt(ia, al, ss[ss.len() - 1], level)
    }
}

/// Statements on one line: each trimmed, with a space before it and `;` after it.
pub open spec fn ts_inline(ia: Map<Seq<char>, Seq<char>>, al: Map<Seq<char>, (Seq<char>, Seq<char>)>, ss: Seq<Stmt>) -> Seq<char>
    decreases ss,
{
    if ss.len() == 0 {
        Seq::empty()
    } else {
        ts_inline(ia, al, ss.subrange(0, ss.len() - 1)) + " "@ + trim_end_spec(ts_stmt(ia, al, ss[ss.len() - 1], 0))
            + ";"@
    }
}

/// A parameter's text: `name: T`.
pub open spec fn ts_param(p: (String, TypeExpr)) -> Seq<char> {
    p.0@ + ": "@ + ts_type(p.1)
}

/// The parameters' texts.
pub open spec fn ts_params(ps: Seq<(String, TypeExpr)>) -> Seq<Seq<char>> {
    Seq::new(ps.len(), |i: int| ts_param(ps[i]))
}

/// The TypeScript text of a function declaration.
pub open spec fn ts_fn(ia: Map<Seq<char>, Seq<char>>, al: Map<Seq<char>, (Seq<char>, Seq<char>)>, f: FnDecl) -> Seq<char> {
    (if f.exported { "export "@ } else { Seq::empty() }) + "function "@ + f.name@ + "("@
        + join_spec(ts_params(f.params@), ", "@) + "): "@ + ts_type(f.ret)
        + " {\n"@ + ts_block(ia, al, f.body@, 1) + "}"@
}


/// The aliases that the first pass records from the top-level consts of `p`:
/// `const a = import("m")` and `const a = s.ns` with `s` an alias of std.
pub open spec fn ts_pass1(p: Seq<TopLevel>) -> (Seq<(Seq<char>, Seq<char>)>, Seq<(Seq<char>, (Seq<char>, Seq<char>))>) {
    ts_pass1_from(Seq::empty(), Seq::empty(), p)
}

/// Pass 1 of a back end that already holds the import aliases `ie0` and the
/// namespace aliases `ae0`: those, followed by the ones the program adds.
pub open spec fn ts_pass1_from(
    ie0: Seq<(Seq<char>, Seq<char>)>,
    ae0: Seq<(Seq<char>, (Seq<char>, Seq<char>))>,
    p: Seq<TopLevel>,
) -> (Seq<(Seq<char>, Seq<char>)>, Seq<(Seq<char>, (Seq<char>, Seq<char>))>)
    decreases p.len(),
{
    if p.len() == 0 {
        (ie0, ae0)
    } else {
        let prev = ts_pass1_from(ie0, ae0, p.drop_last());
        match p.last() {
            TopLevel::ConstDecl { name, value, .. } => match value.kind {
                ExprKind::Import(module) => (prev.0.push((name@, module@)), prev.1),
                ExprKind::MemberAccess { obj, prop } => match obj.kind {
                    ExprKind::Var(base) => if ts_is_std(pairs_map(prev.0), base@) {
                        (prev.0, prev.1.push((name@, ("std"@, prop@))))
                    } else {
                        prev
                    },
                    _ => prev,
                },
                _ => prev,
            },
            _ => prev,
        }
    }
}

/// A std namespace used by some call of the program.
pub open spec fn ts_uses_ns(ia: Map<Seq<char>, Seq<char>>, al: Map<Seq<char>, (Seq<char>, Seq<char>)>,
    p: Seq<TopLevel>, k: Seq<char>) -> bool {
    exists|i: int| 0 <= i < p.len() && ts_item_ns(ia, al, #[trigger] p[i], k)
}

/// The import lines of the first `n` import aliases: one for each `.zy`
/// module whose alias is not bound again later.
pub open spec fn ts_header(ie: Seq<(Seq<char>, Seq<char>)>, n: int) -> Seq<char>
    decreases n,
{
    if n <= 0 {
        Seq::empty()
    } else {
        let e = ie[n - 1];
        ts_header(ie, n - 1) + if (forall|j: int| n - 1 < j < ie.len() ==> (#[trigger] ie[j]).0 != e.0)
            && crate::strs::is_suffix(".zy"@, e.1) {
            "import * as "@ + e.0 + " from \""@ + replace_spec(e.1, ".zy"@, ".ts"@) + "\";\n"@
        } else {
            Seq::empty()
        }
    }
}

/// The field lines of an interface.
pub open spec fn ts_fields(fs: Seq<StructField>) -> Seq<char>
    decreases fs.len(),
{
    if fs.len() == 0 {
        Seq::empty()
    } else {
        ts_fields(fs.drop_last()) + "  "@ + fs.last().name@ + ": "@ + ts_type(fs.last().ty) + ";\n"@
    }
}

/// The variant lines of a const enum.
pub open spec fn ts_variants(vs: Seq<String>) -> Seq<char>
    decreases vs.len(),
{
    if vs.len() == 0 {
        Seq::empty()
    } else {
        ts_variants(vs.drop_last()) + "  "@ + vs.last()@ + ",\n"@
    }
}

/// `export ` for an exported item.
pub open spec fn export_prefix(exported: bool) -> Seq<char> {
    if exported { "export "@ } else { Seq::empty() }
}

/// The declaration text of a top-level item: interfaces, const enums and functions.
pub open spec fn ts_decl(ia: Map<Seq<char>, Seq<char>>, al: Map<Seq<char>, (Seq<char>, Seq<char>)>, t: TopLevel) -> Seq<char> {
    match t {
        TopLevel::StructDecl { name, fields, exported } => export_prefix(exported) + "interface "@ + name@
            + " {\n"@ + ts_fields(fields@) + "}\n\n"@,
        TopLevel::EnumDecl { name, variants, exported } => export_prefix(exported) + "const enum "@ + name@
            + " {\n"@ + ts_variants(variants@) + "}\n\n"@,
        TopLevel::FnDecl(f) => ts_fn(ia, al, f) + "\n"@,
        _ => Seq::empty(),
    }
}

/// The declarations of the first `n` items.
pub open spec fn ts_decls(ia: Map<Seq<char>, Seq<char>>, al: Map<Seq<char>, (Seq<char>, Seq<char>)>,
    p: Seq<TopLevel>, n: int) -> Seq<char>
    decreases n,
{
    if n <= 0 {
        Seq::empty()
    } else {
        ts_decls(ia, al, p, n - 1) + ts_decl(ia, al, p[n - 1])
    }
}

/// A top-level const that only names a module or an alias: no code comes of it.
pub open spec fn ts_skipped(ia: Map<Seq<char>, Seq<char>>, al: Map<Seq<char>, (Seq<char>, Seq<char>)>, value: Expr) -> bool {
    match value.kind {
        ExprKind::Import(_) => true,
        ExprKind::MemberAccess { obj, .. } => match obj.kind {
            ExprKind::Var(base) => ts_is_std(ia, base@) || ia.contains_key(base@),
            _ => false,
        },
        ExprKind::Var(src) => ia.contains_key(src@) || al.contains_key(src@),
        _ => false,
    }
}

/// The top-level code of an item: a const that is not skipped, or a statement.
pub open spec fn ts_body_item(ia: Map<Seq<char>, Seq<char>>, al: Map<Seq<char>, (Seq<char>, Seq<char>)>, t: TopLevel) -> Seq<char> {
    match t {
        TopLevel::ConstDecl { name, value, exported, .. } => if ts_skipped(ia, al, value) {
            Seq::empty()
        } else {
            export_prefix(exported) + "const "@ + name@ + " = "@ + ts_expr(ia, al, value) + ";\n"@
        },
        TopLevel::Stmt(st) => ts_stmt(ia, al, st, 0),
        _ => Seq::empty(),
    }
}

/// The top-level code of the first `n` items.
pub open spec fn ts_body(ia: Map<Seq<char>, Seq<char>>, al: Map<Seq<char>, (Seq<char>, Seq<char>)>,
    p: Seq<TopLevel>, n: int) -> Seq<char>
    decreases n,
{
    if n <= 0 {
        Seq::empty()
    } else {
        ts_body(ia, al, p, n - 1) + ts_body_item(ia, al, p[n - 1])
    }
}

/// The TypeScript module generated for a program by a fresh back end: the
/// imports of `.zy` modules and of the std runtime namespaces in use, a blank
/// line after any alias or namespace, the declarations, then the top-level
/// code; with a final newline.
pub open spec fn ts_program(p: Seq<TopLevel>) -> Seq<char> {
    ts_program_from(Seq::empty(), Seq::empty(), Set::empty(), p)
}

/// The TypeScript module generated for a program by a back end that already
/// holds the import aliases `ie0`, the namespace aliases `ae0` and the used
/// std namespaces `u0`: the header lists every import alias it then holds,
/// and a runtime namespace is imported when used before or by this program.
pub open spec fn ts_program_from(
    ie0: Seq<(Seq<char>, Seq<char>)>,
    ae0: Seq<(Seq<char>, (Seq<char>, Seq<char>))>,
    u0: Set<Seq<char>>,
    p: Seq<TopLevel>,
) -> Seq<char> {
    let ie = ts_pass1_from(ie0, ae0, p).0;
    let ae = ts_pass1_from(ie0, ae0, p).1;
    let ia = pairs_map(ie);
    let al = pairs_map(ae);
    let text = ts_header(ie, ie.len() as int)
        + (if u0.contains("debug"@) || ts_uses_ns(ia, al, p, "debug"@) {
            "import * as __zyre_std_debug from \"./zyre_std_debug.ts\";\n"@
        } else {
            Seq::empty()
        })
        + (if u0.contains("fs"@) || ts_uses_ns(ia, al, p, "fs"@) {
            "import * as __zyre_std_fs from \"./zyre_std_fs.ts\";\n"@
        } else {
            Seq::empty()
        })
        + (if ie.len() > 0 || (exists|k: Seq<char>| u0.contains(k)) || exists|k: Seq<char>| ts_uses_ns(ia, al, p, k) {
            "\n"@
        } else {
            Seq::empty()
        })
        + ts_decls(ia, al, p, p.len() as int)
        + ts_body(ia, al, p, p.len() as int);
    if crate::strs::is_suffix("\n"@, text) { text } else { text + "\n"@ }
}

/// A back end that has not generated anything yet.
pub open spec fn ts_fresh(b: TsBackend) -> bool {
    b.import_aliases.entries@.len() == 0 && b.aliases.entries@.len() == 0 && b.used_std_ns.items@.len() == 0
}


/// The TypeScript spelling of a binary operator.
pub fn ts_binop(op: BinOp) -> (r: &'static str)
    ensures
        r@ == ts_binop_spec(op),
{
    let r = match op {
        BinOp::Add => "+",
        BinOp::Sub => "-",
        BinOp::Mul => "*",
        BinOp::Div => "/",
        BinOp::Mod => "%",
        BinOp::Eq => "===",
        BinOp::NotEq => "!==",
        BinOp::Lt => "<",
        BinOp::Gt => ">",
        BinOp::LtEq => "<=",
        BinOp::GtEq => ">=",
        BinOp::And => "&&",
        BinOp::Or => "||",
    };
    proof {
        reveal_strlit("+");
        reveal_strlit("-");
        reveal_strlit("*");
        reveal_strlit("/");
        reveal_strlit("%");
        reveal_strlit("===");
        reveal_strlit("!==");
        reveal_strlit("<");
        reveal_strlit(">");
        reveal_strlit("<=");
        reveal_strlit(">=");
        reveal_strlit("&&");
        reveal_strlit("||");
    }
    r
}

/// A call of `fn_name` in the std namespace `ns`, with the argument text `args`.
pub fn std_call_text(ns: &str, fn_name: &str, args: &str) -> (r: String)
    ensures
        r@ == ts_std_call(ns@, fn_name@, args@),
{
    if str_eq(ns, "debug") || str_eq(ns, "fs") {
        let r = join_all(vec!["__zyre_std_", ns, ".", fn_name, "(", args, ")"]);
        proof {
            reveal_strlit("__zyre_std_");
            reveal_strlit(".");
            reveal_strlit("(");
            reveal_strlit(")");
            reveal_strlit("debug");
            reveal_strlit("fs");
            reveal_with_fuel(crate::strs::concat_all, 10);
        }
        assert(r@ =~= ts_std_call(ns@, fn_name@, args@));
        r
    } else {
        let r = join_all(vec!["/* std.", ns, ".", fn_name, " */ ", fn_name, "(", args, ")"]);
        proof {
            reveal_strlit("/* std.");
            reveal_strlit(" */ ");
            reveal_strlit(".");
            reveal_strlit("(");
            reveal_strlit(")");
            reveal_strlit("debug");
            reveal_strlit("fs");
            reveal_with_fuel(crate::strs::concat_all, 10);
        }
        assert(r@ =~= ts_std_call(ns@, fn_name@, args@));
        r
    }
}

impl TsBackend {
    pub fn new() -> (r: Self)
        ensures
            r.import_aliases.entries@.len() == 0,
            r.aliases.entries@.len() == 0,
            r.used_std_ns.items@.len() == 0,
            forall|k: Seq<char>| r.import_aliases.get_spec(k) is None && r.aliases.get_spec(k) is None
                && !r.used_std_ns.has(k),
    {
        TsBackend { import_aliases: StrMap::new(), aliases: StrMap::new(), used_std_ns: StrSet::new() }
    }

    /// Whether `name` is an alias of the std module.
    fn is_std(&self, name: &str) -> (r: bool)
        ensures
            r == ts_is_std(ia_view(self.import_aliases), name@),
    {
        match self.import_aliases.get(name) {
            Some(m) => str_eq(m.as_str(), "std"),
            None => false,
        }
    }

    // ---- scanning for std namespaces ----

    /// Records the std namespace that the callee of a call reaches, if any.
    fn scan_callee(&mut self, callee: &Expr)
        ensures
            final(self).import_aliases == old(self).import_aliases,
            final(self).aliases == old(self).aliases,
            forall|k: Seq<char>| #[trigger] final(self).used_std_ns.has(k) == (old(self).used_std_ns.has(k)
                || ts_callee_ns(ia_view(old(self).import_aliases), al_view(old(self).aliases), *callee, k)),
    {
        if let ExprKind::MemberAccess { obj, .. } = &callee.kind {
            // std.ns.fn(...)
            if let ExprKind::MemberAccess { obj: inner, prop: ns } = &obj.kind {
                if let ExprKind::Var(base) = &inner.kind {
                    if self.is_std(base.as_str()) {
                        self.used_std_ns.insert(ns.clone());
                    }
                }
            }
            // alias.fn(...) where alias resolves to std.ns
            if let ExprKind::Var(alias) = &obj.kind {
                let a: Option<(String, String)> = match self.aliases.get(alias.as_str()) {
                    Some(p) => Some((p.0.clone(), p.1.clone())),
                    None => None,
                };
                if let Some((m, ns)) = a {
                    if str_eq(m.as_str(), "std") {
                        self.used_std_ns.insert(ns);
                    }
                }
            }
        }
    }

    fn scan_std_ns(&mut self, program: &Program)
        ensures
            final(self).import_aliases == old(self).import_aliases,
            final(self).aliases == old(self).aliases,
            forall|k: Seq<char>| #[trigger] final(self).used_std_ns.has(k) == (old(self).used_std_ns.has(k)
                || exists|i: int| 0 <= i < program@.len()
                    && ts_item_ns(ia_view(old(self).import_aliases), al_view(old(self).aliases), #[trigger] program@[i], k)),
    {
        let ghost ims = self.import_aliases;
        let ghost als = self.aliases;
        let ghost ia = ia_view(self.import_aliases);
        let ghost al = al_view(self.aliases);
        let ghost u0 = self.used_std_ns;
        let mut i: usize = 0;
        while i < program.len()
            invariant
                i <= program@.len(),
                self.import_aliases == ims,
                self.aliases == als,
                ia == ia_view(ims),
                al == al_view(als),
                forall|k: Seq<char>| #[trigger] self.used_std_ns.has(k) == (u0.has(k)
                    || exists|j: int| 0 <= j < i && ts_item_ns(ia, al, #[trigger] program@[j], k)),
            decreases program@.len() - i,
        {
            let ghost before = self.used_std_ns;
            match &program[i] {
                TopLevel::FnDecl(f) => self.scan_stmts(&f.body),
                TopLevel::Stmt(s) => self.scan_stmt(s),
                TopLevel::ConstDecl { value, .. } => self.scan_expr(value),
                _ => {},
            }
            assert forall|k: Seq<char>| #[trigger] self.used_std_ns.has(k) == (u0.has(k)
                || exists|j: int| 0 <= j < i + 1 && ts_item_ns(ia, al, #[trigger] program@[j], k)) by {
                if ts_item_ns(ia, al, program@[i as int], k) {
                    assert(self.used_std_ns.has(k));
                }
                if exists|j: int| 0 <= j < i + 1 && ts_item_ns(ia, al, #[trigger] program@[j], k) {
                    let j = choose|j: int| 0 <= j < i + 1 && ts_item_ns(ia, al, #[trigger] program@[j], k);
                    if j < i {
                        assert(before.has(k));
                    }
                }
            }
            i += 1;
        }
    }

    #[verifier::loop_isolation(false)]
    fn scan_stmts(&mut self, stmts: &Vec<Stmt>)
        ensures
            final(self).import_aliases == old(self).import_aliases,
            final(self).aliases == old(self).aliases,
            forall|k: Seq<char>| #[trigger] final(self).used_std_ns.has(k) == (old(self).used_std_ns.has(k)
                || exists|j: int| 0 <= j < stmts@.len()
                    && ts_stmt_ns(ia_view(old(self).import_aliases), al_view(old(self).aliases), #[trigger] stmts@[j], k)),
        decreases stmts,
    {
        let ghost ims = self.import_aliases;
        let ghost als = self.aliases;
        let ghost ia = ia_view(self.import_aliases);
        let ghost al = al_view(self.aliases);
        let ghost u0 = self.used_std_ns;
        let mut i: usize = 0;
        while i < stmts.len()
            invariant
                i <= stmts@.len(),
                self.import_aliases == ims,
                self.aliases == als,
                ia == ia_view(ims),
                al == al_view(als),
                forall|k: Seq<char>| #[trigger] self.used_std_ns.has(k) == (u0.has(k)
                    || exists|j: int| 0 <= j < i && ts_stmt_ns(ia, al, #[trigger] stmts@[j], k)),
            decreases stmts@.len() - i,
        {
            assert(decreases_to!(*stmts => stmts[i as int]));
            let ghost before = self.used_std_ns;
            self.scan_stmt(&stmts[i]);
            assert forall|k: Seq<char>| #[trigger] self.used_std_ns.has(k) == (u0.has(k)
                || exists|j: int| 0 <= j < i + 1 && ts_stmt_ns(ia, al, #[trigger] stmts@[j], k)) by {
                if ts_stmt_ns(ia, al, stmts@[i as int], k) {
                    assert(self.used_std_ns.has(k));
                }
                if exists|j: int| 0 <= j < i + 1 && ts_stmt_ns(ia, al, #[trigger] stmts@[j], k) {
                    let j = choose|j: int| 0 <= j < i + 1 && ts_stmt_ns(ia, al, #[trigger] stmts@[j], k);
                    if j < i {
                        assert(before.has(k));
                    }
                }
            }
            i += 1;
        }
    }

    fn scan_stmt(&mut self, stmt: &Stmt)
        ensures
            final(self).import_aliases == old(self).import_aliases,
            final(self).aliases == old(self).aliases,
            forall|k: Seq<char>| #[trigger] final(self).used_std_ns.has(k) == (old(self).used_std_ns.has(k)
                || ts_stmt_ns(ia_view(old(self).import_aliases), al_view(old(self).aliases), *stmt, k)),
        decreases stmt,
    {
        let ghost u0 = self.used_std_ns;
        match &stmt.kind {
            StmtKind::ConstDecl { value, .. } => self.scan_expr(value),
            StmtKind::LetDecl { value, .. } => self.scan_expr(value),
            StmtKind::Return(Some(e)) => self.scan_expr(e),
            StmtKind::ExprStmt(e) => self.scan_expr(e),
            StmtKind::If { cond, body, else_body } => {
                self.scan_expr(cond);
                let ghost u1 = self.used_std_ns;
                self.scan_stmts(body);
                let ghost u2 = self.used_std_ns;
                if let Some(s) = else_body {
                    self.scan_stmts(s);
                }
                assert forall|k: Seq<char>| #[trigger] self.used_std_ns.has(k) == (u0.has(k)
                    || ts_stmt_ns(ia_view(old(self).import_aliases), al_view(old(self).aliases), *stmt, k)) by {
                    assert(u1.has(k) ==> u2.has(k));
                }
            },
            StmtKind::While { cond, body } => {
                self.scan_expr(cond);
                self.scan_stmts(body);
            },
            _ => {},
        }
    }

    #[verifier::loop_isolation(false)]
    fn scan_expr(&mut self, expr: &Expr)
        ensures
            final(self).import_aliases == old(self).import_aliases,
            final(self).aliases == old(self).aliases,
            forall|k: Seq<char>| #[trigger] final(self).used_std_ns.has(k) == (old(self).used_std_ns.has(k)
                || ts_expr_ns(ia_view(old(self).import_aliases), al_view(old(self).aliases), *expr, k)),
        decreases expr,
    {
        let ghost ims = self.import_aliases;
        let ghost als = self.aliases;
        let ghost ia = ia_view(self.import_aliases);
        let ghost al = al_view(self.aliases);
        let ghost u0 = self.used_std_ns;
        match &expr.kind {
            ExprKind::Call { callee, args } => {
                self.scan_callee(callee);
                self.scan_expr(callee);
                let ghost u1 = self.used_std_ns;
                let mut i: usize = 0;
                while i < args.len()
                    invariant
                        i <= args@.len(),
                        self.import_aliases == ims,
                        self.aliases == als,
                        ia == ia_view(ims),
                        al == al_view(als),
                        forall|k: Seq<char>| #[trigger] self.used_std_ns.has(k) == (u1.has(k)
                            || exists|j: int| 0 <= j < i && ts_expr_ns(ia, al, #[trigger] args@[j], k)),
                    decreases args@.len() - i,
                {
                    assert(decreases_to!(*args => args[i as int]));
                    let ghost before = self.used_std_ns;
                    self.scan_expr(&args[i]);
                    assert forall|k: Seq<char>| #[trigger] self.used_std_ns.has(k) == (u1.has(k)
                        || exists|j: int| 0 <= j < i + 1 && ts_expr_ns(ia, al, #[trigger] args@[j], k)) by {
                        if ts_expr_ns(ia, al, args@[i as int], k) {
                            assert(self.used_std_ns.has(k));
                        }
                        if exists|j: int| 0 <= j < i + 1 && ts_expr_ns(ia, al, #[trigger] args@[j], k) {
                            let j = choose|j: int| 0 <= j < i + 1 && ts_expr_ns(ia, al, #[trigger] args@[j], k);
                            if j < i {
                                assert(before.has(k));
                            }
                        }
                    }
                    i += 1;
                }
            },
            ExprKind::MemberAccess { obj, .. } => self.scan_expr(obj),
            ExprKind::BinOp { lhs, rhs, .. } => {
                self.scan_expr(lhs);
                self.scan_expr(rhs);
            },
            ExprKind::UnOp { expr, .. } => self.scan_expr(expr),
            ExprKind::Propagate(e) => self.scan_expr(e),
            ExprKind::Catch { expr, body, .. } => {
                self.scan_expr(expr);
                self.scan_stmts(body);
            },
            ExprKind::Switch { expr, arms } => {
                self.scan_expr(expr);
                let ghost u1 = self.used_std_ns;
                let mut i: usize = 0;
                while i < arms.len()
                    invariant
                        i <= arms@.len(),
                        self.import_aliases == ims,
                        self.aliases == als,
                        ia == ia_view(ims),
                        al == al_view(als),
                        forall|k: Seq<char>| #[trigger] self.used_std_ns.has(k) == (u1.has(k)
                            || exists|j: int| 0 <= j < i && match (#[trigger] arms@[j]).body {
                                SwitchBody::Expr(x) => ts_expr_ns(ia, al, x, k),
                                SwitchBody::Block(stmts) => exists|m: int| 0 <= m < stmts@.len()
                                    && ts_stmt_ns(ia, al, #[trigger] stmts@[m], k),
                            }),
                    decreases arms@.len() - i,
                {
                    assert(decreases_to!(*arms => arms[i as int]));
                    let ghost before = self.used_std_ns;
                    match &arms[i].body {
                        SwitchBody::Expr(e) => self.scan_expr(e),
                        SwitchBody::Block(stmts) => self.scan_stmts(stmts),
                    }
                    assert forall|k: Seq<char>| #[trigger] self.used_std_ns.has(k) == (u1.has(k)
                        || exists|j: int| 0 <= j < i + 1 && match (#[trigger] arms@[j]).body {
                            SwitchBody::Expr(x) => ts_expr_ns(ia, al, x, k),
                            SwitchBody::Block(stmts) => exists|m: int| 0 <= m < stmts@.len()
                                && ts_stmt_ns(ia, al, #[trigger] stmts@[m], k),
                        }) by {
                        let hit_i = match arms@[i as int].body {
                            SwitchBody::Expr(x) => ts_expr_ns(ia, al, x, k),
                            SwitchBody::Block(stmts) => exists|m: int| 0 <= m < stmts@.len()
                                && ts_stmt_ns(ia, al, #[trigger] stmts@[m], k),
                        };
                        if hit_i {
                            assert(self.used_std_ns.has(k));
                        }
                        if exists|j: int| 0 <= j < i + 1 && match (#[trigger] arms@[j]).body {
                            SwitchBody::Expr(x) => ts_expr_ns(ia, al, x, k),
                            SwitchBody::Block(stmts) => exists|m: int| 0 <= m < stmts@.len()
                                && ts_stmt_ns(ia, al, #[trigger] stmts@[m], k),
                        } {
                            let j = choose|j: int| 0 <= j < i + 1 && match (#[trigger] arms@[j]).body {
                                SwitchBody::Expr(x) => ts_expr_ns(ia, al, x, k),
                                SwitchBody::Block(stmts) => exists|m: int| 0 <= m < stmts@.len()
                                    && ts_stmt_ns(ia, al, #[trigger] stmts@[m], k),
                            };
                            if j < i {
                                assert(before.has(k));
                            }
                        }
                    }
                    i += 1;
                }
            },
            ExprKind::ArrayLiteral(elems) => {
                let mut i: usize = 0;
                while i < elems.len()
                    invariant
                        i <= elems@.len(),
                        self.import_aliases == ims,
                        self.aliases == als,
                        ia == ia_view(ims),
                        al == al_view(als),
                        forall|k: Seq<char>| #[trigger] self.used_std_ns.has(k) == (u0.has(k)
                            || exists|j: int| 0 <= j < i && ts_expr_ns(ia, al, #[trigger] elems@[j], k)),
                    decreases elems@.len() - i,
                {
                    assert(decreases_to!(*elems => elems[i as int]));
                    let ghost before = self.used_std_ns;
                    self.scan_expr(&elems[i]);
                    assert forall|k: Seq<char>| #[trigger] self.used_std_ns.has(k) == (u0.has(k)
                        || exists|j: int| 0 <= j < i + 1 && ts_expr_ns(ia, al, #[trigger] elems@[j], k)) by {
                        if ts_expr_ns(ia, al, elems@[i as int], k) {
                            assert(self.used_std_ns.has(k));
                        }
                        if exists|j: int| 0 <= j < i + 1 && ts_expr_ns(ia, al, #[trigger] elems@[j], k) {
                            let j = choose|j: int| 0 <= j < i + 1 && ts_expr_ns(ia, al, #[trigger] elems@[j], k);
                            if j < i {
                                assert(before.has(k));
                            }
                        }
                    }
                    i += 1;
                }
            },
            ExprKind::Index { obj, idx } => {
                self.scan_expr(obj);
                self.scan_expr(idx);
            },
            ExprKind::If { cond, then_, else_ } => {
                self.scan_expr(cond);
                self.scan_expr(then_);
                self.scan_expr(else_);
            },
            _ => {},
        }
    }

    // ---- types ----

    pub fn gen_type(ty: &TypeExpr) -> (r: String)
        ensures
            r@ == ts_type(*ty),
        decreases ty,
    {
        match ty {
            TypeExpr::Name(n) => {
                proof {
                    reveal_strlit("i32");
                    reveal_strlit("f64");
                    reveal_strlit("bool");
                    reveal_strlit("number");
                    reveal_strlit("boolean");
                }
                if str_eq(n.as_str(), "i32") || str_eq(n.as_str(), "f64") {
                    to_string("number")
                } else if str_eq(n.as_str(), "bool") {
                    to_string("boolean")
                } else {
                    n.clone()
                }
            },
            TypeExpr::Array(inner, _) => {
                let t = Self::gen_type(inner);
                proof {
                    reveal_strlit("[]");
                }
                cat2(t.as_str(), "[]")
            },
            TypeExpr::Optional(inner) => {
                let t = Self::gen_type(inner);
                proof {
                    reveal_strlit(" | null");
                }
                cat2(t.as_str(), " | null")
            },
            TypeExpr::ErrorUnion(_, inner) => Self::gen_type(inner),
        }
    }

    fn type_annotation(ty: &Option<TypeExpr>) -> (r: String)
        ensures
            r@ == match *ty {
                Some(t) => ": "@ + ts_type(t),
                None => Seq::empty(),
            },
    {
        match ty {
            Some(t) => {
                let g = Self::gen_type(t);
                cat2(": ", g.as_str())
            },
            None => String::new(),
        }
    }

    fn indent(level: usize) -> (r: String)
        ensures
            r@ == ts_indent(level as nat),
    {
        let mut s = String::new();
        let mut i: usize = 0;
        while i < level
            invariant
                i <= level,
                s@ == ts_indent(i as nat),
            decreases level - i,
        {
            push_str(&mut s, "  ");
            i += 1;
        }
        s
    }

    // ---- program ----

    /// The module text for `program`. For a fresh back end it is `ts_program`;
    /// a back end that generated before keeps the aliases and namespaces it recorded.
    pub fn gen_program(&mut self, program: &Program) -> (r: String)
        ensures
            r@ == ts_program_from(ie_of(old(self).import_aliases), ae_of(old(self).aliases),
                old(self).used_std_ns.names(), program@),
            ts_fresh(*old(self)) ==> r@ == ts_program(program@),
    {
        let ghost fresh = ts_fresh(*self);
        let ghost u0 = self.used_std_ns;
        let ghost ie0 = ie_of(self.import_aliases);
        let ghost ae0 = ae_of(self.aliases);
        // Pass 1: collect import / alias consts
        let mut i: usize = 0;
        assert(ie_of(self.import_aliases) =~= Seq::<(Seq<char>, Seq<char>)>::empty() || !fresh);
        assert(ae_of(self.aliases) =~= Seq::<(Seq<char>, (Seq<char>, Seq<char>))>::empty() || !fresh);
        assert(u0.names() =~= Set::<Seq<char>>::empty() || !fresh);
        while i < program.len()
            invariant
                i <= program@.len(),
                self.used_std_ns == u0,
                ie_of(self.import_aliases) == ts_pass1_from(ie0, ae0, program@.subrange(0, i as int)).0,
                ae_of(self.aliases) == ts_pass1_from(ie0, ae0, program@.subrange(0, i as int)).1,
            decreases program@.len() - i,
        {
            proof {
                let t = program@.subrange(0, i + 1);
                assert(t.drop_last() =~= program@.subrange(0, i as int));
                assert(t.last() == program@[i as int]);
                lemma_ia_view(self.import_aliases);
                reveal_strlit("std");
            }
            if let TopLevel::ConstDecl { name, value, .. } = &program[i] {
                match &value.kind {
                    ExprKind::Import(module) => {
                        let ghost before = self.import_aliases;
                        self.import_aliases.insert(name.clone(), module.clone());
                        assert(ie_of(self.import_aliases) =~= ie_of(before).push((name@, module@)));
                    },
                    ExprKind::MemberAccess { obj, prop } => {
                        if let ExprKind::Var(base) = &obj.kind {
                            if self.is_std(base.as_str()) {
                                let ghost before = self.aliases;
                                let st = to_string("std");
                                self.aliases.insert(name.clone(), (st, prop.clone()));
                                assert(ae_of(self.aliases) =~= ae_of(before).push((name@, ("std"@, prop@))));
                            }
                        }
                    },
                    _ => {},
                }
            }
            i += 1;
        }
        assert(program@.subrange(0, program@.len() as int) =~= program@);

        // Pass 2: scan for std namespace usage
        self.scan_std_ns(program);

        let ghost ie = ie_of(self.import_aliases);
        let ghost ia = ia_view(self.import_aliases);
        let ghost al = al_view(self.aliases);
        proof {
            lemma_ia_view(self.import_aliases);
            lemma_al_view(self.aliases);
        }

        let mut out = String::new();
        let mut k: usize = 0;
        while k < self.import_aliases.len()
            invariant
                k <= self.import_aliases.entries@.len(),
                ie == ie_of(self.import_aliases),
                out@ == ts_header(ie, k as int),
            decreases self.import_aliases.entries@.len() - k,
        {
            let latest = self.import_aliases.is_latest(k);
            let alias = self.import_aliases.entries[k].key.as_str();
            let module = self.import_aliases.entries[k].val.as_str();
            proof {
                reveal_strlit(".zy");
                reveal_with_fuel(crate::strs::concat_all, 6);
                assert(ie[k as int] == (alias@, module@));
                assert(latest == forall|j: int| k < j < ie.len() ==> (#[trigger] ie[j]).0 != ie[k as int].0) by {
                    if latest {
                        assert forall|j: int| k < j < ie.len() implies (#[trigger] ie[j]).0 != ie[k as int].0 by {
                            assert(self.import_aliases.entries@[j].key@ == ie[j].0);
                        }
                    } else {
                        let j = choose|j: int| k < j < self.import_aliases.entries@.len()
                            && !((#[trigger] self.import_aliases.entries@[j]).key@ != self.import_aliases.entries@[k as int].key@);
                        assert(ie[j].0 == ie[k as int].0);
                    }
                }
            }
            if latest && str_ends_with(module, ".zy") {
                let path = replace_all(module, ".zy", ".ts");
                let line = join_all(vec!["import * as ", alias, " from \"", path.as_str(), "\";\n"]);
                push_str(&mut out, line.as_str());
            }
            k += 1;
        }
        let ghost header = out@;

        // Runtime imports for the std namespaces in use
        let debug = self.used_std_ns.contains("debug");
        if debug {
            push_str(&mut out, "import * as __zyre_std_debug from \"./zyre_std_debug.ts\";\n");
        }
        let ghost after_debug = out@;
        let fs = self.used_std_ns.contains("fs");
        if fs {
            push_str(&mut out, "import * as __zyre_std_fs from \"./zyre_std_fs.ts\";\n");
        }
        let ghost after_fs = out@;
        let any_ns = self.used_std_ns.items.len() > 0;
        proof {
            if any_ns {
                assert(self.used_std_ns.has(self.used_std_ns.items@[0]@));
            } else {
                assert forall|q: Seq<char>| !self.used_std_ns.has(q) by {}
            }
        }
        let blank = self.import_aliases.len() > 0 || any_ns;
        if blank {
            push_char(&mut out, '\n');
        }
        proof {
            reveal_strlit("\n");
        }
        let ghost lead = out@;

        // Declarations (struct / enum / fn)
        let mut i: usize = 0;
        while i < program.len()
            invariant
                i <= program@.len(),
                ia == ia_view(self.import_aliases),
                al == al_view(self.aliases),
                out@ == lead + ts_decls(ia, al, program@, i as int),
            decreases program@.len() - i,
        {
            let ghost before = out@;
            proof {
                reveal_with_fuel(crate::strs::concat_all, 6);
                reveal_strlit("export ");
                reveal_strlit("");
                reveal_strlit("}\n\n");
                reveal_strlit("\n");
            }
            match &program[i] {
                TopLevel::StructDecl { name, fields, exported } => {
                    let prefix = if *exported { "export " } else { "" };
                    let head = join_all(vec![prefix, "interface ", name.as_str(), " {\n"]);
                    push_str(&mut out, head.as_str());
                    let ghost at = out@;
                    let mut j: usize = 0;
                    while j < fields.len()
                        invariant
                            j <= fields@.len(),
                            out@ == at + ts_fields(fields@.subrange(0, j as int)),
                        decreases fields@.len() - j,
                    {
                        let t = Self::gen_type(&fields[j].ty);
                        let line = join_all(vec!["  ", fields[j].name.as_str(), ": ", t.as_str(), ";\n"]);
                        push_str(&mut out, line.as_str());
                        proof {
                            reveal_with_fuel(crate::strs::concat_all, 6);
                            let u = fields@.subrange(0, j + 1);
                            assert(u.drop_last() =~= fields@.subrange(0, j as int));
                            assert(u.last() == fields@[j as int]);
                            assert(out@ =~= at + ts_fields(u));
                        }
                        j += 1;
                    }
                    assert(fields@.subrange(0, fields@.len() as int) =~= fields@);
                    push_str(&mut out, "}\n\n");
                    assert(out@ =~= before + ts_decl(ia, al, program@[i as int]));
                },
                TopLevel::EnumDecl { name, variants, exported } => {
                    let prefix = if *exported { "export " } else { "" };
                    let head = join_all(vec![prefix, "const enum ", name.as_str(), " {\n"]);
                    push_str(&mut out, head.as_str());
                    let ghost at = out@;
                    let mut j: usize = 0;
                    while j < variants.len()
                        invariant
                            j <= variants@.len(),
                            out@ == at + ts_variants(variants@.subrange(0, j as int)),
                        decreases variants@.len() - j,
                    {
                        let line = cat3("  ", variants[j].as_str(), ",\n");
                        push_str(&mut out, line.as_str());
                        proof {
                            let u = variants@.subrange(0, j + 1);
                            assert(u.drop_last() =~= variants@.subrange(0, j as int));
                            assert(u.last() == variants@[j as int]);
                            assert(out@ =~= at + ts_variants(u));
                        }
                        j += 1;
                    }
                    assert(variants@.subrange(0, variants@.len() as int) =~= variants@);
                    push_str(&mut out, "}\n\n");
                    assert(out@ =~= before + ts_decl(ia, al, program@[i as int]));
                },
                TopLevel::FnDecl(f) => {
                    let s = self.gen_fn(f);
                    push_str(&mut out, s.as_str());
                    push_char(&mut out, '\n');
                    assert(out@ =~= before + ts_decl(ia, al, program@[i as int]));
                },
                _ => {
                    assert(out@ =~= before + ts_decl(ia, al, program@[i as int]));
                },
            }
            i += 1;
        }
        let ghost decls = out@;

        // Top-level body: consts other than imports and aliases, and statements
        let mut i: usize = 0;
        while i < program.len()
            invariant
                i <= program@.len(),
                ia == ia_view(self.import_aliases),
                al == al_view(self.aliases),
                out@ == decls + ts_body(ia, al, program@, i as int),
            decreases program@.len() - i,
        {
            let ghost before = out@;
            proof {
                reveal_with_fuel(crate::strs::concat_all, 7);
                reveal_strlit("export ");
                reveal_strlit("");
            }
            match &program[i] {
                TopLevel::ConstDecl { name, value, exported, .. } => {
                    let skip = match &value.kind {
                        ExprKind::Import(_) => true,
                        ExprKind::MemberAccess { obj, .. } => match &obj.kind {
                            ExprKind::Var(base) => self.is_std(base.as_str())
                                || self.import_aliases.contains_key(base.as_str()),
                            _ => false,
                        },
                        ExprKind::Var(src) => self.import_aliases.contains_key(src.as_str())
                            || self.aliases.contains_key(src.as_str()),
                        _ => false,
                    };
                    assert(skip == ts_skipped(ia, al, *value));
                    if !skip {
                        let prefix = if *exported { "export " } else { "" };
                        let v = self.gen_expr(value);
                        let line = join_all(vec![prefix, "const ", name.as_str(), " = ", v.as_str(), ";\n"]);
                        push_str(&mut out, line.as_str());
                    }
                    assert(out@ =~= before + ts_body_item(ia, al, program@[i as int]));
                },
                TopLevel::Stmt(st) => {
                    let t = self.gen_stmt(st, 0);
                    push_str(&mut out, t.as_str());
                    assert(out@ =~= before + ts_body_item(ia, al, program@[i as int]));
                },
                _ => {
                    assert(out@ =~= before + ts_body_item(ia, al, program@[i as int]));
                },
            }
            i += 1;
        }

        let ghost text = out@;
        let ends = str_ends_with(out.as_str(), "\n");
        if !ends {
            push_char(&mut out, '\n');
        }
        proof {
            reveal_strlit("\n");
            assert(header == ts_header(ie, ie.len() as int));
            assert(after_debug == header + (if debug {
                "import * as __zyre_std_debug from \"./zyre_std_debug.ts\";\n"@
            } else {
                Seq::empty()
            }));
            assert(after_fs == after_debug + (if fs {
                "import * as __zyre_std_fs from \"./zyre_std_fs.ts\";\n"@
            } else {
                Seq::empty()
            }));
            assert(lead == after_fs + (if blank { "\n"@ } else { Seq::empty() }));
            assert(blank == (ie.len() > 0 || any_ns));
            assert(text == lead + ts_decls(ia, al, program@, program@.len() as int)
                + ts_body(ia, al, program@, program@.len() as int));
            if !ends {
                assert(out@ =~= text + "\n"@);
            }
            assert(ie == ts_pass1_from(ie0, ae0, program@).0);
            assert(ia == pairs_map(ts_pass1_from(ie0, ae0, program@).0));
            assert(al == pairs_map(ts_pass1_from(ie0, ae0, program@).1));
            assert(debug == (u0.names().contains("debug"@) || ts_uses_ns(ia, al, program@, "debug"@)));
            assert(fs == (u0.names().contains("fs"@) || ts_uses_ns(ia, al, program@, "fs"@)));
            assert(any_ns == ((exists|q: Seq<char>| u0.names().contains(q))
                || exists|q: Seq<char>| ts_uses_ns(ia, al, program@, q))) by {
                if any_ns {
                    let q = self.used_std_ns.items@[0]@;
                    assert(self.used_std_ns.has(q));
                    if !u0.has(q) {
                        assert(ts_uses_ns(ia, al, program@, q));
                    } else {
                        assert(u0.names().contains(q));
                    }
                } else {
                    assert forall|q: Seq<char>| !ts_uses_ns(ia, al, program@, q) by {
                        assert(!self.used_std_ns.has(q));
                    }
                    assert forall|q: Seq<char>| !u0.names().contains(q) by {
                        assert(!self.used_std_ns.has(q));
                    }
                }
            }
        }
        out
    }

    // ---- functions ----

    pub fn gen_fn(&self, f: &FnDecl) -> (r: String)
        ensures
            r@ == ts_fn(ia_view(self.import_aliases), al_view(self.aliases), *f),
    {
        let prefix = if f.exported { "export " } else { "" };
        let mut params: Vec<String> = Vec::new();
        let ghost ps = ts_params(f.params@);
        let mut i: usize = 0;
        while i < f.params.len()
            invariant
                i <= f.params@.len(),
                ps == ts_params(f.params@),
                views(params@) == ps.subrange(0, i as int),
            decreases f.params@.len() - i,
        {
            let t = Self::gen_type(&f.params[i].1);
            let one = join_all(vec![f.params[i].0.as_str(), ": ", t.as_str()]);
            proof {
                reveal_with_fuel(crate::strs::concat_all, 4);
            }
            assert(one@ =~= ts_param(f.params@[i as int]));
            let ghost before = params@;
            params.push(one);
            assert(views(params@) =~= views(before).push(one@));
            assert(ps.subrange(0, i + 1) =~= ps.subrange(0, i as int).push(ps[i as int]));
            i += 1;
        }
        assert(ps.subrange(0, f.params@.len() as int) =~= ps);
        let ret = Self::gen_type(&f.ret);
        let joined = join_strings(&params, ", ");
        proof {
            reveal_with_fuel(crate::strs::concat_all, 9);
        }
        let head = join_all(vec![prefix, "function ", f.name.as_str(), "(", joined.as_str(), "): ",
            ret.as_str(), " {\n"]);
        let body = self.gen_block(&f.body, 1);
        let mut out = head;
        push_str(&mut out, body.as_str());
        push_char(&mut out, '}');
        proof {
            reveal_with_fuel(crate::strs::concat_all, 9);
            reveal_strlit("export ");
            reveal_strlit("");
            reveal_strlit("}");
            assert(prefix@ == (if f.exported { "export "@ } else { Seq::<char>::empty() }));
            assert(joined@ == join_spec(ts_params(f.params@), ", "@));
            assert(head@ =~= prefix@ + "function "@ + f.name@ + "("@ + joined@ + "): "@ + ret@ + " {\n"@);
        }
        assert(out@ =~= ts_fn(ia_view(self.import_aliases), al_view(self.aliases), *f));
        out
    }

    // ---- statements ----

    /// The statements of `stmts` at `level`, one after another.
    #[verifier::loop_isolation(false)]
    fn gen_block(&self, stmts: &Vec<Stmt>, level: usize) -> (r: String)
        ensures
            r@ == ts_block(ia_view(self.import_aliases), al_view(self.aliases), stmts@, level as int),
        decreases stmts, 1int,
    {
        let mut out = String::new();
        let mut k: usize = 0;
        while k < stmts.len()
            invariant
                k <= stmts@.len(),
                out@ == ts_block(ia_view(self.import_aliases), al_view(self.aliases), stmts@.subrange(0, k as int), level as int),
            decreases stmts@.len() - k,
        {
            assert(decreases_to!(*stmts => stmts[k as int]));
            let s = self.gen_stmt(&stmts[k], level);
            push_str(&mut out, s.as_str());
            proof {
                let t = stmts@.subrange(0, k + 1);
                assert(t.subrange(0, t.len() - 1) =~= stmts@.subrange(0, k as int));
                assert(t[t.len() - 1] == stmts@[k as int]);
            }
            k += 1;
        }
        assert(stmts@.subrange(0, stmts@.len() as int) =~= stmts@);
        out
    }

    /// The statements of `stmts` on one line: each trimmed and followed by `;`,
    /// with a space before it.
    #[verifier::loop_isolation(false)]
    fn gen_inline_block(&self, stmts: &Vec<Stmt>) -> (r: String)
        ensures
            r@ == ts_inline(ia_view(self.import_aliases), al_view(self.aliases), stmts@),
        decreases stmts, 1int,
    {
        let mut out = String::new();
        let mut k: usize = 0;
        while k < stmts.len()
            invariant
                k <= stmts@.len(),
                out@ == ts_inline(ia_view(self.import_aliases), al_view(self.aliases), stmts@.subrange(0, k as int)),
            decreases stmts@.len() - k,
        {
            assert(decreases_to!(*stmts => stmts[k as int]));
            let s = self.gen_stmt(&stmts[k], 0);
            let t = trim_end(s.as_str());
            push_char(&mut out, ' ');
            push_str(&mut out, t.as_str());
            push_char(&mut out, ';');
            proof {
                reveal_strlit(" ");
                reveal_strlit(";");
                let u = stmts@.subrange(0, k + 1);
                assert(u.subrange(0, u.len() - 1) =~= stmts@.subrange(0, k as int));
                assert(u[u.len() - 1] == stmts@[k as int]);
                assert(out@ =~= ts_inline(ia_view(self.import_aliases), al_view(self.aliases), u));
            }
            k += 1;
        }
        assert(stmts@.subrange(0, stmts@.len() as int) =~= stmts@);
        out
    }

    pub fn gen_stmt(&self, stmt: &Stmt, level: usize) -> (r: String)
        ensures
            r@ == ts_stmt(ia_view(self.import_aliases), al_view(self.aliases), *stmt, level as int),
        decreases stmt, 2int,
    {
        let ind = Self::indent(level);
        let next = if level < usize::MAX { level + 1 } else { level };
        let ghost ims = self.import_aliases;
        let ghost als = self.aliases;
        let ghost ia = ia_view(self.import_aliases);
        let ghost al = al_view(self.aliases);
        proof {
            reveal_with_fuel(crate::strs::concat_all, 9);
        }
        match &stmt.kind {
            StmtKind::ConstDecl { name, ty, value } => {
                let a = Self::type_annotation(ty);
                let v = self.gen_expr(value);
                let r = join_all(vec![ind.as_str(), "const ", name.as_str(), a.as_str(), " = ", v.as_str(), ";\n"]);
                assert(r@ =~= ts_stmt(ia, al, *stmt, level as int));
                r
            },
            StmtKind::LetDecl { name, ty, value } => {
                let a = Self::type_annotation(ty);
                let v = self.gen_expr(value);
                let r = join_all(vec![ind.as_str(), "let ", name.as_str(), a.as_str(), " = ", v.as_str(), ";\n"]);
                assert(r@ =~= ts_stmt(ia, al, *stmt, level as int));
                r
            },
            StmtKind::Return(None) => cat2(ind.as_str(), "return;\n"),
            StmtKind::Return(Some(e)) => {
                let v = self.gen_expr(e);
                let r = join_all(vec![ind.as_str(), "return ", v.as_str(), ";\n"]);
                assert(r@ =~= ts_stmt(ia, al, *stmt, level as int));
                r
            },
            StmtKind::ExprStmt(e) => {
                let v = self.gen_expr(e);
                let r = join_all(vec![ind.as_str(), v.as_str(), ";\n"]);
                assert(r@ =~= ts_stmt(ia, al, *stmt, level as int));
                r
            },
            StmtKind::If { cond, body, else_body } => {
                let c = self.gen_expr(cond);
                let mut out = join_all(vec![ind.as_str(), "if (", c.as_str(), ") {\n"]);
                let b = self.gen_block(body, next);
                push_str(&mut out, b.as_str());
                let ghost mid = out@;
                if let Some(else_stmts) = else_body {
                    let m = cat2(ind.as_str(), "} else {\n");
                    push_str(&mut out, m.as_str());
                    let e = self.gen_block(else_stmts, next);
                    push_str(&mut out, e.as_str());
                }
                let close = cat2(ind.as_str(), "}\n");
                push_str(&mut out, close.as_str());
                assert(out@ =~= ts_stmt(ia, al, *stmt, level as int));
                out
            },
            StmtKind::While { cond, body } => {
                let c = self.gen_expr(cond);
                let mut out = join_all(vec![ind.as_str(), "while (", c.as_str(), ") {\n"]);
                let b = self.gen_block(body, next);
                push_str(&mut out, b.as_str());
                let close = cat2(ind.as_str(), "}\n");
                push_str(&mut out, close.as_str());
                assert(out@ =~= ts_stmt(ia, al, *stmt, level as int));
                out
            },
            StmtKind::Break => cat2(ind.as_str(), "break;\n"),
            StmtKind::Continue => cat2(ind.as_str(), "continue;\n"),
        }
    }

    // ---- expressions ----

    #[verifier::loop_isolation(false)]
    fn gen_args(&self, args: &Vec<Expr>) -> (r: Vec<String>)
        ensures
            views(r@) == ts_exprs(ia_view(self.import_aliases), al_view(self.aliases), args@),
        decreases args, 1int,
    {
        let mut out: Vec<String> = Vec::new();
        let mut i: usize = 0;
        while i < args.len()
            invariant
                i <= args@.len(),
                views(out@) == ts_exprs(ia_view(self.import_aliases), al_view(self.aliases), args@.subrange(0, i as int)),
            decreases args@.len() - i,
        {
            assert(decreases_to!(*args => args[i as int]));
            let ghost before = out@;
            let x = self.gen_expr(&args[i]);
            out.push(x);
            proof {
                let t = args@.subrange(0, i + 1);
                assert(t.subrange(0, t.len() - 1) =~= args@.subrange(0, i as int));
                assert(t[t.len() - 1] == args@[i as int]);
                assert(views(out@) =~= views(before).push(out@.last()@));
            }
            i += 1;
        }
        assert(args@.subrange(0, args@.len() as int) =~= args@);
        out
    }

    /// The comma-separated texts of `args`.
    fn gen_arg_list(&self, args: &Vec<Expr>) -> (r: String)
        ensures
            r@ == join_spec(ts_exprs(ia_view(self.import_aliases), al_view(self.aliases), args@), ", "@),
        decreases args, 2int,
    {
        let parts = self.gen_args(args);
        join_strings(&parts, ", ")
    }

    #[verifier::loop_isolation(false)]
    pub fn gen_expr(&self, expr: &Expr) -> (r: String)
        ensures
            r@ == ts_expr(ia_view(self.import_aliases), al_view(self.aliases), *expr),
        decreases expr, 3int,
    {
        let ghost ims = self.import_aliases;
        let ghost als = self.aliases;
        let ghost ia = ia_view(self.import_aliases);
        let ghost al = al_view(self.aliases);
        proof {
            reveal_with_fuel(crate::strs::concat_all, 9);
        }
        match &expr.kind {
            ExprKind::Var(name) => name.clone(),
            ExprKind::Str(s) => {
                let e = escape_str(s.as_str());
                cat3("\"", e.as_str(), "\"")
            },
            ExprKind::Int(n) => i64_to_string(*n),
            ExprKind::Float(f) => {
                if float_text_ok(f.as_str()) {
                    float_point_text(f.as_str())
                } else {
                    f.clone()
                }
            },
            ExprKind::Bool(b) => to_string(if *b { "true" } else { "false" }),
            ExprKind::Import(_) => String::new(),
            ExprKind::MemberAccess { obj, prop } => {
                let o = self.gen_expr(obj);
                cat3(o.as_str(), ".", prop.as_str())
            },
            ExprKind::Call { callee, args } => self.gen_call(callee, args, Ghost(expr)),
            ExprKind::BinOp { op, lhs, rhs } => {
                let l = self.gen_expr(lhs);
                let r = self.gen_expr(rhs);
                let out = join_all(vec!["(", l.as_str(), " ", ts_binop(*op), " ", r.as_str(), ")"]);
                assert(out@ =~= ts_expr(ia, al, *expr));
                out
            },
            ExprKind::UnOp { op, expr: inner } => {
                let v = self.gen_expr(inner);
                match op {
                    UnOp::Neg => cat3("(-", v.as_str(), ")"),
                    UnOp::Not => cat3("(!", v.as_str(), ")"),
                }
            },
            // error propagation: in throw-based TS errors propagate on their own
            ExprKind::Propagate(e) => self.gen_expr(e),
            // catch expr -> an immediately called arrow function with try/catch
            ExprKind::Catch { expr: inner, err_name, body } => {
                let under = str_starts_with(err_name.as_str(), "_");
                proof {
                    reveal_strlit("_");
                    reveal_strlit("_e");
                    let n = err_name@;
                    if n.len() > 0 {
                        assert(n.subrange(0, 1)[0] == n[0]);
                        if n[0] == '_' {
                            assert(n.subrange(0, 1) =~= "_"@);
                        }
                    }
                    if under {
                        assert("_"@[0] == '_');
                    }
                    assert(under == (n.len() > 0 && n[0] == '_'));
                }
                let err_bind = if under {
                    to_string("_e")
                } else {
                    err_name.clone()
                };
                let v = self.gen_expr(inner);
                let head = join_all(vec!["(() => { try { return ", v.as_str(), "; } catch (",
                    err_bind.as_str(), ") {"]);
                let b = self.gen_inline_block(body);
                let mut out = head;
                push_str(&mut out, b.as_str());
                push_str(&mut out, " } })()");
                assert(out@ =~= ts_expr(ia, al, *expr));
                out
            },
            ExprKind::Switch { expr: subject, arms } => {
                let subj = self.gen_expr(subject);
                let head = join_all(vec!["(() => { switch (", subj.as_str(), ") {"]);
                let mut out = head;
                let ghost h = out@;
                let mut k: usize = 0;
                while k < arms.len()
                    invariant
                        k <= arms@.len(),
                        out@ == h + ts_arms(ia, al, arms@.subrange(0, k as int)),
                    decreases arms@.len() - k,
                {
                    assert(decreases_to!(*arms => arms[k as int]));
                    let arm = &arms[k];
                    let t = self.gen_arm(arm);
                    push_str(&mut out, t.as_str());
                    proof {
                        let u = arms@.subrange(0, k + 1);
                        assert(u.subrange(0, u.len() - 1) =~= arms@.subrange(0, k as int));
                        assert(u[u.len() - 1] == arms@[k as int]);
                        assert(out@ =~= h + ts_arms(ia, al, u));
                    }
                    k += 1;
                }
                assert(arms@.subrange(0, arms@.len() as int) =~= arms@);
                push_str(&mut out, " } })()");
                assert(out@ =~= ts_expr(ia, al, *expr));
                out
            },
            ExprKind::ArrayLiteral(elems) => {
                let joined = self.gen_arg_list(elems);
                cat3("[", joined.as_str(), "]")
            },
            ExprKind::Index { obj, idx } => {
                let o = self.gen_expr(obj);
                let i = self.gen_expr(idx);
                let out = join_all(vec![o.as_str(), "[", i.as_str(), "]"]);
                assert(out@ =~= ts_expr(ia, al, *expr));
                out
            },
            ExprKind::If { cond, then_, else_ } => {
                let c = self.gen_expr(cond);
                let t = self.gen_expr(then_);
                let e = self.gen_expr(else_);
                let out = join_all(vec!["(", c.as_str(), " ? ", t.as_str(), " : ", e.as_str(), ")"]);
                assert(out@ =~= ts_expr(ia, al, *expr));
                out
            },
        }
    }

    /// One switch arm inside the switch of an arrow function.
    fn gen_arm(&self, arm: &SwitchArm) -> (r: String)
        ensures
            r@ == ts_arm(ia_view(self.import_aliases), al_view(self.aliases), *arm),
        decreases arm,
    {
        let ghost ims = self.import_aliases;
        let ghost als = self.aliases;
        let ghost ia = ia_view(self.import_aliases);
        let ghost al = al_view(self.aliases);
        proof {
            reveal_with_fuel(crate::strs::concat_all, 9);
        }
        match &arm.pattern {
            SwitchPattern::Else => {
                match &arm.body {
                    SwitchBody::Expr(e) => {
                        let v = self.gen_expr(e);
                        cat3(" default: return ", v.as_str(), ";")
                    },
                    SwitchBody::Block(stmts) => {
                        let b = self.gen_inline_block(stmts);
                        cat3(" default: {", b.as_str(), "}")
                    },
                }
            },
            _ => {
                let pat = match &arm.pattern {
                    SwitchPattern::Ident(s) => s.clone(),
                    SwitchPattern::Int(n) => i64_to_string(*n),
                    SwitchPattern::Bool(b) => to_string(if *b { "true" } else { "false" }),
                    SwitchPattern::Else => String::new(),
                };
                assert(pat@ == ts_pattern(arm.pattern));
                match &arm.body {
                    SwitchBody::Expr(e) => {
                        let v = self.gen_expr(e);
                        let out = join_all(vec![" case ", pat.as_str(), ": return ", v.as_str(), ";"]);
                        assert(out@ =~= ts_arm(ia, al, *arm));
                        out
                    },
                    SwitchBody::Block(stmts) => {
                        let b = self.gen_inline_block(stmts);
                        let out = join_all(vec![" case ", pat.as_str(), ": {", b.as_str(), " break; }"]);
                        assert(out@ =~= ts_arm(ia, al, *arm));
                        out
                    },
                }
            },
        }
    }

    // ---- call dispatch ----

    fn gen_call(&self, callee: &Expr, args: &Vec<Expr>, Ghost(parent): Ghost<&Expr>) -> (r: String)
        requires
            parent.kind matches ExprKind::Call { callee: c, args: a } && *c == *callee && a == *args,
            decreases_to!(*parent => *callee),
            decreases_to!(*parent => *args),
        ensures
            r@ == ts_expr(ia_view(self.import_aliases), al_view(self.aliases), *parent),
        decreases parent, 2int,
    {
        let ghost ims = self.import_aliases;
        let ghost als = self.aliases;
        let ghost ia = ia_view(self.import_aliases);
        let ghost al = al_view(self.aliases);
        // std.debug.print / std.fs.readTextFile etc.
        if let ExprKind::MemberAccess { obj, prop } = &callee.kind {
            // std.ns.fn(args)
            if let ExprKind::MemberAccess { obj: inner, prop: ns } = &obj.kind {
                if let ExprKind::Var(base) = &inner.kind {
                    if self.is_std(base.as_str()) {
                        return self.gen_std_ns_call(ns.as_str(), prop.as_str(), args);
                    }
                }
            }
            // alias.fn(args) where alias resolves to std.ns
            if let ExprKind::Var(alias) = &obj.kind {
                let a: Option<(String, String)> = match self.aliases.get(alias.as_str()) {
                    Some(p) => Some((p.0.clone(), p.1.clone())),
                    None => None,
                };
                if let Some((m, ns)) = a {
                    if str_eq(m.as_str(), "std") {
                        return self.gen_std_ns_call(ns.as_str(), prop.as_str(), args);
                    }
                }
                // a direct alias of the std module: const s = import("std"); s.debug(...)
                if self.is_std(alias.as_str()) {
                    return self.gen_std_ns_call(prop.as_str(), prop.as_str(), args);
                }
            }
        }
        let callee_s = self.gen_expr(callee);
        let joined = self.gen_arg_list(args);
        let out = join_all(vec![callee_s.as_str(), "(", joined.as_str(), ")"]);
        proof {
            reveal_with_fuel(crate::strs::concat_all, 5);
        }
        assert(out@ =~= ts_expr(ia, al, *parent));
        out
    }

    fn gen_std_ns_call(&self, ns: &str, fn_name: &str, args: &Vec<Expr>) -> (r: String)
        ensures
            r@ == ts_std_call(ns@, fn_name@, join_spec(ts_exprs(ia_view(self.import_aliases), al_view(self.aliases), args@), ", "@)),
        decreases args, 3int,
    {
        let joined = self.gen_arg_list(args);
        std_call_text(ns, fn_name, joined.as_str())
    }
}

impl Backend for TsBackend {
    fn generate(&mut self, program: &Program) -> (r: String)
        ensures
            r@ == ts_program_from(ie_of(old(self).import_aliases), ae_of(old(self).aliases),
                old(self).used_std_ns.names(), program@),
            ts_fresh(*old(self)) ==> r@ == ts_program(program@),
    {
        self.gen_program(program)
    }
}

} // verus!
