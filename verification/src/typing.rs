//! The typing rules, as specifications: the type of each expression and the
//! diagnostics that checking a program reports, in order, with their spans.
//!
//! Checking reads a scope (names to types) and an environment (struct
//! fields, exports of local modules, named types), and threads a state: the
//! diagnostics so far and the span of the construct being checked, which a
//! diagnostic is reported at.
use vstd::prelude::*;
use crate::grammar::{g_parse, TopLevelV, TypeV};
use crate::lexer::{spec_tokenize, Span};
use crate::parser::{BinOp, Expr, ExprKind, Stmt, StmtKind, SwitchArm, SwitchBody, TopLevel, TypeExpr, UnOp};
use crate::strs::{dot_index, int_dec, is_prefix, is_suffix};
use crate::symtab::StrMap;
use crate::typechecker::{std_call_ty, ty_view, Ty, TyV, ZyError};

verus! {

// -------------------------------------------------------------------------
// Tables as values

/// A scope (or a table of named types) as a map from names to types.
pub open spec fn scope_v(m: StrMap<Ty>) -> Map<Seq<char>, TyV> {
    Map::new(|k: Seq<char>| m.get_spec(k) is Some, |k: Seq<char>| ty_view(m.get_spec(k).unwrap()))
}

/// Struct fields as (name, type) values.
pub open spec fn fields_v(f: Seq<(String, Ty)>) -> Seq<(Seq<char>, TyV)> {
    f.map_values(|p: (String, Ty)| (p.0@, ty_view(p.1)))
}

/// The struct table as a map from struct names to their fields.
pub open spec fn struct_v(m: StrMap<Vec<(String, Ty)>>) -> Map<Seq<char>, Seq<(Seq<char>, TyV)>> {
    Map::new(|k: Seq<char>| m.get_spec(k) is Some, |k: Seq<char>| fields_v(m.get_spec(k).unwrap()@))
}

/// The exports of local modules as a map from module path to exported names' types.
pub open spec fn exports_v(m: StrMap<StrMap<Ty>>) -> Map<Seq<char>, Map<Seq<char>, TyV>> {
    Map::new(|k: Seq<char>| m.get_spec(k) is Some, |k: Seq<char>| scope_v(m.get_spec(k).unwrap()))
}

/// What checking reads besides the scope.
pub struct TEnv {
    /// struct name -> (field name, type) in declaration order
    pub sf: Map<Seq<char>, Seq<(Seq<char>, TyV)>>,
    /// local module path -> exported function name -> type
    pub me: Map<Seq<char>, Map<Seq<char>, TyV>>,
    /// user-defined type names -> types
    pub types: Map<Seq<char>, TyV>,
}

/// The diagnostics so far (span if known, message) and the current span.
pub struct ChkSt {
    pub errs: Seq<(Option<Span>, Seq<char>)>,
    pub span: Span,
}

/// The diagnostics as (span, message).
pub open spec fn zerrs_v(es: Seq<ZyError>) -> Seq<(Option<Span>, Seq<char>)> {
    es.map_values(|e: ZyError| (e.span, e.message@))
}

/// Move the current span to `span`.
pub open spec fn c_at(st: ChkSt, span: Span) -> ChkSt {
    ChkSt { errs: st.errs, span }
}

/// Report `msg` at the current span (at no span while it is `(0, 0)`).
pub open spec fn c_err(st: ChkSt, msg: Seq<char>) -> ChkSt {
    ChkSt {
        errs: st.errs.push((if st.span != (0usize, 0usize) { Some(st.span) } else { None }, msg)),
        span: st.span,
    }
}

// -------------------------------------------------------------------------
// Types

/// How a type is named in diagnostics.
pub open spec fn tyv_display(t: TyV) -> Seq<char>
    decreases t,
{
    match t {
        TyV::I32 => "i32"@,
        TyV::F64 => "f64"@,
        TyV::Str => "string"@,
        TyV::Bool => "bool"@,
        TyV::Void => "void"@,
        TyV::Array(inner, n) => tyv_display(*inner) + "["@ + int_dec(n as int) + "]"@,
        TyV::Optional(inner) => "?"@ + tyv_display(*inner),
        TyV::ErrorUnion(inner) => "!"@ + tyv_display(*inner),
        TyV::Struct(name) => name,
        TyV::Enum(name) => name,
        TyV::Fn(..) => "fn"@,
        TyV::Module(name) => "module("@ + name + ")"@,
        TyV::Unknown => "unknown"@,
    }
}

/// A value of type `other` may be stored where `target` is expected:
/// equal types, `T` or `null` (void) into `?T`, `T` into `E!T`.
pub open spec fn tyv_assignable(target: TyV, other: TyV) -> bool {
    target == other || match target {
        TyV::Optional(inner) => *inner == other || other is Void,
        TyV::ErrorUnion(inner) => *inner == other,
        _ => false,
    }
}

/// The type a type name denotes, given the user-defined types.
pub open spec fn tyv_named(name: Seq<char>, types: Map<Seq<char>, TyV>) -> TyV {
    if name == "i32"@ {
        TyV::I32
    } else if name == "f64"@ {
        TyV::F64
    } else if name == "string"@ {
        TyV::Str
    } else if name == "bool"@ {
        TyV::Bool
    } else if name == "void"@ {
        TyV::Void
    } else if types.contains_key(name) {
        types[name]
    } else {
        TyV::Unknown
    }
}

/// The type a type expression denotes (an error union's error type is not kept).
pub open spec fn tyv_of(te: TypeExpr, types: Map<Seq<char>, TyV>) -> TyV
    decreases te,
{
    match te {
        TypeExpr::Name(name) => tyv_named(name@, types),
        TypeExpr::Array(inner, n) => TyV::Array(Box::new(tyv_of(*inner, types)), n),
        TypeExpr::Optional(inner) => TyV::Optional(Box::new(tyv_of(*inner, types))),
        TypeExpr::ErrorUnion(_, inner) => TyV::ErrorUnion(Box::new(tyv_of(*inner, types))),
    }
}

/// The type a parsed type expression denotes.
pub open spec fn tyv_of_v(te: TypeV, types: Map<Seq<char>, TyV>) -> TyV
    decreases te,
{
    match te {
        TypeV::Name(name) => tyv_named(name, types),
        TypeV::Array(inner, n) => TyV::Array(Box::new(tyv_of_v(*inner, types)), n),
        TypeV::Optional(inner) => TyV::Optional(Box::new(tyv_of_v(*inner, types))),
        TypeV::ErrorUnion(_, inner) => TyV::ErrorUnion(Box::new(tyv_of_v(*inner, types))),
    }
}

/// The type of the first field named `prop`, or unknown.
pub open spec fn field_tyv(fields: Seq<(Seq<char>, TyV)>, prop: Seq<char>) -> TyV
    decreases fields.len(),
{
    if fields.len() == 0 {
        TyV::Unknown
    } else if fields[0].0 == prop {
        fields[0].1
    } else {
        field_tyv(fields.subrange(1, fields.len() as int), prop)
    }
}

/// Some field is named `prop`.
pub open spec fn has_field(fields: Seq<(Seq<char>, TyV)>, prop: Seq<char>) -> bool {
    exists|i: int| 0 <= i < fields.len() && fields[i].0 == prop
}

/// The module a variable is bound to in `sc`.
pub open spec fn t_module(sc: Map<Seq<char>, TyV>, v: Seq<char>) -> Option<Seq<char>> {
    if sc.contains_key(v) {
        match sc[v] {
            TyV::Module(m) => Some(m),
            _ => None,
        }
    } else {
        None
    }
}

/// The type of a call `m.f(..)` of a local module's export.
pub open spec fn t_export_ret(env: TEnv, m: Seq<char>, f: Seq<char>) -> TyV {
    if env.me.contains_key(m) && env.me[m].contains_key(f) {
        match env.me[m][f] {
            TyV::Fn(_, ret) => *ret,
            _ => TyV::Unknown,
        }
    } else {
        TyV::Unknown
    }
}

/// The type of an expression in `sc`.
pub open spec fn t_expr(env: TEnv, sc: Map<Seq<char>, TyV>, e: Expr) -> TyV
    decreases e,
{
    match e.kind {
        ExprKind::Int(_) => TyV::I32,
        ExprKind::Float(_) => TyV::F64,
        ExprKind::Str(_) => TyV::Str,
        ExprKind::Bool(_) => TyV::Bool,
        ExprKind::Import(m) => TyV::Module(m@),
        ExprKind::Var(name) => if sc.contains_key(name@) { sc[name@] } else { TyV::Unknown },
        ExprKind::MemberAccess { obj, prop } => match t_expr(env, sc, *obj) {
            TyV::Module(_) => if prop@ == "fs"@ {
                TyV::Module("std.fs"@)
            } else if prop@ == "debug"@ {
                TyV::Module("std.debug"@)
            } else {
                TyV::Unknown
            },
            TyV::Struct(name) => if env.sf.contains_key(name) { field_tyv(env.sf[name], prop@) } else { TyV::Unknown },
            _ => TyV::Unknown,
        },
        ExprKind::Call { callee, args } => {
            let plain = match t_expr(env, sc, *callee) {
                TyV::Fn(_, ret) => *ret,
                _ => TyV::Unknown,
            };
            match callee.kind {
                ExprKind::MemberAccess { obj, prop } => {
                    let nested = match obj.kind {
                        ExprKind::MemberAccess { obj: inner, prop: inner_prop } => match inner.kind {
                            ExprKind::Var(module) => if t_module(sc, module@) is Some {
                                std_call_ty(module@, inner_prop@, prop@)
                            } else {
                                plain
                            },
                            _ => plain,
                        },
                        _ => plain,
                    };
                    match obj.kind {
                        ExprKind::Var(v) => match t_module(sc, v@) {
                            Some(m) => if is_suffix(".zy"@, m) {
                                t_export_ret(env, m, prop@)
                            } else if dot_index(m, 0) != m.len() {
                                std_call_ty(m.subrange(0, dot_index(m, 0)), m.subrange(dot_index(m, 0) + 1, m.len() as int), prop@)
                            } else {
                                TyV::Unknown
                            },
                            None => nested,
                        },
                        _ => nested,
                    }
                },
                _ => plain,
            }
        },
        ExprKind::BinOp { op, lhs, .. } => match op {
            BinOp::Add | BinOp::Sub | BinOp::Mul | BinOp::Div | BinOp::Mod => t_expr(env, sc, *lhs),
            _ => TyV::Bool,
        },
        ExprKind::UnOp { op, expr } => match op {
            UnOp::Neg => t_expr(env, sc, *expr),
            UnOp::Not => TyV::Bool,
        },
        ExprKind::ArrayLiteral(elems) => if elems@.len() == 0 {
            TyV::Array(Box::new(TyV::Unknown), 0)
        } else {
            TyV::Array(Box::new(t_expr(env, sc, elems@[0])), elems@.len() as u64)
        },
        ExprKind::Index { obj, .. } => match t_expr(env, sc, *obj) {
            TyV::Array(t, _) => *t,
            _ => TyV::Unknown,
        },
        ExprKind::Propagate(x) => match t_expr(env, sc, *x) {
            TyV::Optional(t) => *t,
            TyV::ErrorUnion(t) => *t,
            other => other,
        },
        ExprKind::Catch { expr, .. } => match t_expr(env, sc, *expr) {
            TyV::ErrorUnion(t) => *t,
            other => other,
        },
        ExprKind::Switch { arms, .. } => t_arms(env, sc, arms@),
        ExprKind::If { then_, .. } => t_expr(env, sc, *then_),
    }
}

/// The type of a switch: that of its first arm whose type is known (a block arm is `void`).
pub open spec fn t_arms(env: TEnv, sc: Map<Seq<char>, TyV>, arms: Seq<SwitchArm>) -> TyV
    decreases arms,
{
    if arms.len() == 0 {
        TyV::Unknown
    } else {
        let t = match arms[0].body {
            SwitchBody::Expr(x) => t_expr(env, sc, x),
            SwitchBody::Block(_) => TyV::Void,
        };
        if t is Unknown {
            t_arms(env, sc, arms.subrange(1, arms.len() as int))
        } else {
            t
        }
    }
}

// -------------------------------------------------------------------------
// Diagnostics of expressions and statements

/// The message for a call with the wrong number of arguments.
pub open spec fn arg_count_msg(expected: int, got: int) -> Seq<char> {
    "Expected "@ + int_dec(expected) + " argument(s), got "@ + int_dec(got)
}

/// The argument checks of a call from argument `i` on: each argument whose
/// type does not fit its parameter is reported at the argument.
pub open spec fn c_fn_args_from(params: Seq<TyV>, args: Seq<(TyV, Span)>, i: int, st: ChkSt) -> ChkSt
    decreases args.len() - i,
{
    if 0 <= i < args.len() && i < params.len() {
        let st1 = if !tyv_assignable(params[i], args[i].0) {
            c_err(c_at(st, args[i].1), "Argument "@ + int_dec(i + 1) + " type mismatch: expected '"@
                + tyv_display(params[i]) + "', got '"@ + tyv_display(args[i].0) + "'"@)
        } else {
            st
        };
        c_fn_args_from(params, args, i + 1, st1)
    } else {
        st
    }
}

/// The checks of a call's arguments against the parameters: a wrong count is
/// reported at the call, then each argument that does not fit.
pub open spec fn c_fn_args(params: Seq<TyV>, args: Seq<(TyV, Span)>, call_span: Span, st: ChkSt) -> ChkSt {
    let st1 = if args.len() != params.len() {
        c_err(c_at(st, call_span), arg_count_msg(params.len() as int, args.len() as int))
    } else {
        st
    };
    c_fn_args_from(params, args, 0, st1)
}

/// The argument count check of the known std functions.
pub open spec fn c_std_call(module: Seq<char>, ns: Seq<char>, f: Seq<char>, n: int, st: ChkSt) -> ChkSt {
    if module == "std"@ && ns == "debug"@ && f == "print"@ {
        if n != 1 { c_err(st, "std.debug.print expects 1 argument, got "@ + int_dec(n)) } else { st }
    } else if module == "std"@ && ns == "fs"@ && f == "readTextFile"@ {
        if n != 1 { c_err(st, "std.fs.readTextFile expects 1 argument, got "@ + int_dec(n)) } else { st }
    } else {
        st
    }
}

/// The types of arguments, with their spans.
pub open spec fn t_args(env: TEnv, sc: Map<Seq<char>, TyV>, args: Seq<Expr>) -> Seq<(TyV, Span)> {
    Seq::new(args.len(), |i: int| (t_expr(env, sc, args[i]), args[i].span))
}

/// The diagnostics of an expression.
pub open spec fn c_expr(env: TEnv, sc: Map<Seq<char>, TyV>, st: ChkSt, e: Expr) -> ChkSt
    decreases e, 0int,
{
    let st0 = c_at(st, e.span);
    match e.kind {
        ExprKind::Var(name) => if sc.contains_key(name@) {
            st0
        } else {
            c_err(st0, "Undefined variable: '"@ + name@ + "'"@)
        },
        ExprKind::MemberAccess { obj, prop } => {
            let st1 = c_expr(env, sc, st0, *obj);
            match t_expr(env, sc, *obj) {
                TyV::Struct(name) => if env.sf.contains_key(name) && !has_field(env.sf[name], prop@) {
                    c_err(st1, "Struct '"@ + name + "' has no field '"@ + prop@ + "'"@)
                } else {
                    st1
                },
                _ => st1,
            }
        },
        ExprKind::Call { callee, args } => {
            let general = {
                let st1 = c_expr(env, sc, st0, *callee);
                let st2 = c_args(env, sc, st1, args@);
                match t_expr(env, sc, *callee) {
                    TyV::Fn(params, _) => c_fn_args(params, t_args(env, sc, args@), e.span, st2),
                    TyV::Unknown => st2,
                    other => c_err(st2, "'"@ + tyv_display(other) + "' is not callable"@),
                }
            };
            match callee.kind {
                ExprKind::MemberAccess { obj, prop } => {
                    let nested = match obj.kind {
                        ExprKind::MemberAccess { obj: inner, prop: inner_prop } => match inner.kind {
                            ExprKind::Var(module) => if t_module(sc, module@) is Some {
                                c_std_call(module@, inner_prop@, prop@, args@.len() as int, c_args(env, sc, st0, args@))
                            } else {
                                general
                            },
                            _ => general,
                        },
                        _ => general,
                    };
                    match obj.kind {
                        ExprKind::Var(v) => match t_module(sc, v@) {
                            Some(m) => {
                                let st2 = c_args(env, sc, st0, args@);
                                if is_suffix(".zy"@, m) {
                                    if env.me.contains_key(m) && env.me[m].contains_key(prop@) {
                                        match env.me[m][prop@] {
                                            TyV::Fn(params, _) => c_fn_args(params, t_args(env, sc, args@), e.span, st2),
                                            _ => st2,
                                        }
                                    } else {
                                        st2
                                    }
                                } else if dot_index(m, 0) != m.len() {
                                    c_std_call(m.subrange(0, dot_index(m, 0)), m.subrange(dot_index(m, 0) + 1, m.len() as int),
                                        prop@, args@.len() as int, st2)
                                } else {
                                    st2
                                }
                            },
                            None => nested,
                        },
                        _ => nested,
                    }
                },
                _ => general,
            }
        },
        ExprKind::BinOp { op, lhs, rhs } => {
            let st2 = c_expr(env, sc, c_expr(env, sc, st0, *lhs), *rhs);
            let l = t_expr(env, sc, *lhs);
            let r = t_expr(env, sc, *rhs);
            match op {
                BinOp::Add | BinOp::Sub | BinOp::Mul | BinOp::Div | BinOp::Mod => if l != r {
                    c_err(st2, "Binary op type mismatch: '"@ + tyv_display(l) + "' vs '"@ + tyv_display(r) + "'"@)
                } else {
                    st2
                },
                BinOp::And | BinOp::Or => if !(l is Bool) || !(r is Bool) {
                    c_err(st2, "&& and || require bool operands"@)
                } else {
                    st2
                },
                _ => st2,
            }
        },
        ExprKind::UnOp { op, expr } => {
            let st1 = c_expr(env, sc, st0, *expr);
            let t = t_expr(env, sc, *expr);
            match op {
                UnOp::Not => if !(t is Bool) {
                    c_err(st1, "! requires bool, got '"@ + tyv_display(t) + "'"@)
                } else {
                    st1
                },
                UnOp::Neg => st1,
            }
        },
        ExprKind::ArrayLiteral(elems) => if elems@.len() == 0 {
            st0
        } else {
            c_elems(env, sc, c_expr(env, sc, st0, elems@[0]), elems@.subrange(1, elems@.len() as int),
                t_expr(env, sc, elems@[0]))
        },
        ExprKind::Index { obj, idx } => {
            let st2 = c_expr(env, sc, c_expr(env, sc, st0, *obj), *idx);
            let it = t_expr(env, sc, *idx);
            let st3 = if !(it is I32) {
                c_err(st2, "Array index must be i32, got '"@ + tyv_display(it) + "'"@)
            } else {
                st2
            };
            match t_expr(env, sc, *obj) {
                TyV::Array(..) => st3,
                other => c_err(st3, "Cannot index into '"@ + tyv_display(other) + "'"@),
            }
        },
        ExprKind::Propagate(x) => c_expr(env, sc, st0, *x),
        ExprKind::Catch { expr, err_name, body } => {
            let st1 = c_expr(env, sc, st0, *expr);
            c_block(env, sc.insert(err_name@, TyV::Str), TyV::Void, st1, body@)
        },
        ExprKind::Switch { expr, arms } => c_arms(env, sc, c_expr(env, sc, st0, *expr), arms@),
        ExprKind::If { cond, then_, else_ } => {
            let st1 = c_expr(env, sc, st0, *cond);
            let ct = t_expr(env, sc, *cond);
            let st2 = if !(ct is Bool) && !(ct is Unknown) { c_err(st1, "if condition must be bool"@) } else { st1 };
            let st4 = c_expr(env, sc, c_expr(env, sc, st2, *then_), *else_);
            let a = t_expr(env, sc, *then_);
            let b = t_expr(env, sc, *else_);
            if a != b && !(a is Unknown) && !(b is Unknown) {
                c_err(st4, "if branches have different types: '"@ + tyv_display(a) + "' vs '"@ + tyv_display(b) + "'"@)
            } else {
                st4
            }
        },
        _ => st0,
    }
}

/// The diagnostics of expressions checked one after another.
pub open spec fn c_args(env: TEnv, sc: Map<Seq<char>, TyV>, st: ChkSt, args: Seq<Expr>) -> ChkSt
    decreases args, 0int,
{
    if args.len() == 0 {
        st
    } else {
        c_args(env, sc, c_expr(env, sc, st, args[0]), args.subrange(1, args.len() as int))
    }
}

/// The diagnostics of the elements of an array literal after the first,
/// each of which must have the first one's type `t0`.
pub open spec fn c_elems(env: TEnv, sc: Map<Seq<char>, TyV>, st: ChkSt, es: Seq<Expr>, t0: TyV) -> ChkSt
    decreases es, 0int,
{
    if es.len() == 0 {
        st
    } else {
        let st1 = c_expr(env, sc, st, es[0]);
        let t = t_expr(env, sc, es[0]);
        let st2 = if t != t0 {
            c_err(st1, "Array element type mismatch: expected '"@ + tyv_display(t0) + "', got '"@ + tyv_display(t) + "'"@)
        } else {
            st1
        };
        c_elems(env, sc, st2, es.subrange(1, es.len() as int), t0)
    }
}

/// The diagnostics of switch arms (a block arm is checked as a block of `void`).
pub open spec fn c_arms(env: TEnv, sc: Map<Seq<char>, TyV>, st: ChkSt, arms: Seq<SwitchArm>) -> ChkSt
    decreases arms, 0int,
{
    if arms.len() == 0 {
        st
    } else {
        let st1 = match arms[0].body {
            SwitchBody::Expr(x) => c_expr(env, sc, st, x),
            SwitchBody::Block(ss) => c_block(env, sc, TyV::Void, st, ss@),
        };
        c_arms(env, sc, st1, arms.subrange(1, arms.len() as int))
    }
}

/// A statement's diagnostics, and the scope after it (a declaration binds its name).
pub open spec fn c_stmt(env: TEnv, sc: Map<Seq<char>, TyV>, ret: TyV, st: ChkSt, s: Stmt) -> (Map<Seq<char>, TyV>, ChkSt)
    decreases s, 0int,
{
    let st0 = c_at(st, s.span);
    match s.kind {
        StmtKind::ConstDecl { name, ty, value } => c_decl(env, sc, st0, name@, ty, value),
        StmtKind::LetDecl { name, ty, value } => c_decl(env, sc, st0, name@, ty, value),
        StmtKind::Return(None) => (sc, if !(ret is Void) {
            c_err(st0, "Expected return value of type '"@ + tyv_display(ret) + "', got nothing"@)
        } else {
            st0
        }),
        StmtKind::Return(Some(e)) => {
            let st1 = c_expr(env, sc, st0, e);
            let t = t_expr(env, sc, e);
            (sc, if !tyv_assignable(ret, t) {
                c_err(st1, "Return type mismatch: expected '"@ + tyv_display(ret) + "', got '"@ + tyv_display(t) + "'"@)
            } else {
                st1
            })
        },
        StmtKind::If { cond, body, else_body } => {
            let st1 = c_expr(env, sc, st0, cond);
            let ct = t_expr(env, sc, cond);
            let st2 = if !(ct is Bool) { c_err(st1, "if condition must be bool, got '"@ + tyv_display(ct) + "'"@) } else { st1 };
            let st3 = c_block(env, sc, ret, st2, body@);
            (sc, match else_body {
                Some(eb) => c_block(env, sc, ret, st3, eb@),
                None => st3,
            })
        },
        StmtKind::While { cond, body } => {
            let st1 = c_expr(env, sc, st0, cond);
            let ct = t_expr(env, sc, cond);
            let st2 = if !(ct is Bool) { c_err(st1, "while condition must be bool, got '"@ + tyv_display(ct) + "'"@) } else { st1 };
            (sc, c_block(env, sc, ret, st2, body@))
        },
        StmtKind::ExprStmt(e) => (sc, c_expr(env, sc, st0, e)),
        _ => (sc, st0),
    }
}

/// A declaration: its value's diagnostics, a mismatch with the declared
/// type, and the name bound to the declared (or else the value's) type.
pub open spec fn c_decl(env: TEnv, sc: Map<Seq<char>, TyV>, st: ChkSt, name: Seq<char>, ty: Option<TypeExpr>, value: Expr)
    -> (Map<Seq<char>, TyV>, ChkSt)
    decreases value, 1int,
{
    let st1 = c_expr(env, sc, st, value);
    let vt = t_expr(env, sc, value);
    let dt = match ty {
        Some(t) => tyv_of(t, env.types),
        None => vt,
    };
    (sc.insert(name, dt), if !tyv_assignable(dt, vt) {
        c_err(st1, "Type mismatch: '"@ + name + "' is declared as '"@ + tyv_display(dt) + "' but got '"@
            + tyv_display(vt) + "'"@)
    } else {
        st1
    })
}

/// The diagnostics of statements checked one after another.
pub open spec fn c_stmts(env: TEnv, sc: Map<Seq<char>, TyV>, ret: TyV, st: ChkSt, ss: Seq<Stmt>) -> ChkSt
    decreases ss, 0int,
{
    if ss.len() == 0 {
        st
    } else {
        let (sc1, st1) = c_stmt(env, sc, ret, st, ss[0]);
        c_stmts(env, sc1, ret, st1, ss.subrange(1, ss.len() as int))
    }
}

/// The diagnostics of a block: its statements', then each local constant or
/// variable that nothing in the block reads (names starting with `_` aside).
pub open spec fn c_block(env: TEnv, sc: Map<Seq<char>, TyV>, ret: TyV, st: ChkSt, ss: Seq<Stmt>) -> ChkSt
    decreases ss, 1int,
{
    c_unused(c_stmts(env, sc, ret, st, ss), local_decls(ss), refs_stmts(ss), "Unused local constant: '"@)
}

/// The names declared by the statements (not those starting with `_`), with the statements' spans.
pub open spec fn local_decls(ss: Seq<Stmt>) -> Seq<(Seq<char>, Span)>
    decreases ss.len(),
{
    if ss.len() == 0 {
        Seq::empty()
    } else {
        (match ss[0].kind {
            StmtKind::ConstDecl { name, .. } | StmtKind::LetDecl { name, .. } => if !is_prefix("_"@, name@) {
                seq![(name@, ss[0].span)]
            } else {
                Seq::empty()
            },
            _ => Seq::empty(),
        }) + local_decls(ss.subrange(1, ss.len() as int))
    }
}

/// Each declared name that is not read is reported at its declaration.
pub open spec fn c_unused(st: ChkSt, ds: Seq<(Seq<char>, Span)>, refs: Set<Seq<char>>, prefix: Seq<char>) -> ChkSt
    decreases ds.len(),
{
    if ds.len() == 0 {
        st
    } else {
        let st1 = if !refs.contains(ds[0].0) { c_err(c_at(st, ds[0].1), prefix + ds[0].0 + "'"@) } else { st };
        c_unused(st1, ds.subrange(1, ds.len() as int), refs, prefix)
    }
}

// -------------------------------------------------------------------------
// Names read

/// The variables an expression reads.
pub open spec fn refs_expr(e: Expr) -> Set<Seq<char>>
    decreases e,
{
    match e.kind {
        ExprKind::Var(name) => set![name@],
        ExprKind::Call { callee, args } => refs_expr(*callee) + refs_exprs(args@),
        ExprKind::MemberAccess { obj, .. } => refs_expr(*obj),
        ExprKind::BinOp { lhs, rhs, .. } => refs_expr(*lhs) + refs_expr(*rhs),
        ExprKind::UnOp { expr, .. } => refs_expr(*expr),
        ExprKind::Propagate(x) => refs_expr(*x),
        ExprKind::Catch { expr, body, .. } => refs_expr(*expr) + refs_stmts(body@),
        ExprKind::Switch { expr, arms } => refs_expr(*expr) + refs_arms(arms@),
        ExprKind::ArrayLiteral(elems) => refs_exprs(elems@),
        ExprKind::Index { obj, idx } => refs_expr(*obj) + refs_expr(*idx),
        ExprKind::If { cond, then_, else_ } => refs_expr(*cond) + refs_expr(*then_) + refs_expr(*else_),
        _ => Set::empty(),
    }
}

pub open spec fn refs_exprs(es: Seq<Expr>) -> Set<Seq<char>>
    decreases es,
{
    if es.len() == 0 {
        Set::empty()
    } else {
        refs_exprs(es.subrange(0, es.len() - 1)) + refs_expr(es[es.len() - 1])
    }
}

pub open spec fn refs_arms(arms: Seq<SwitchArm>) -> Set<Seq<char>>
    decreases arms,
{
    if arms.len() == 0 {
        Set::empty()
    } else {
        refs_arms(arms.subrange(0, arms.len() - 1)) + match arms[arms.len() - 1].body {
            SwitchBody::Expr(x) => refs_expr(x),
            SwitchBody::Block(ss) => refs_stmts(ss@),
        }
    }
}

/// The variables a statement reads.
pub open spec fn refs_stmt(s: Stmt) -> Set<Seq<char>>
    decreases s,
{
    match s.kind {
        StmtKind::ConstDecl { value, .. } | StmtKind::LetDecl { value, .. } => refs_expr(value),
        StmtKind::Return(Some(e)) => refs_expr(e),
        StmtKind::ExprStmt(e) => refs_expr(e),
        StmtKind::If { cond, body, else_body } => refs_expr(cond) + refs_stmts(body@) + match else_body {
            Some(eb) => refs_stmts(eb@),
            None => Set::empty(),
        },
        StmtKind::While { cond, body } => refs_expr(cond) + refs_stmts(body@),
        _ => Set::empty(),
    }
}

pub open spec fn refs_stmts(ss: Seq<Stmt>) -> Set<Seq<char>>
    decreases ss,
{
    if ss.len() == 0 {
        Set::empty()
    } else {
        refs_stmts(ss.subrange(0, ss.len() - 1)) + refs_stmt(ss[ss.len() - 1])
    }
}

// -------------------------------------------------------------------------
// Programs

/// The top-level names' types, the environment, and the checking state.
pub struct TGlob {
    pub globals: Map<Seq<char>, TyV>,
    pub env: TEnv,
    pub st: ChkSt,
}

/// The first module named `path` at or after `i` (the number of modules if none).
pub open spec fn first_mod(mods: Seq<(Seq<char>, Seq<char>)>, path: Seq<char>, i: int) -> int
    decreases mods.len() - i,
{
    if i < 0 || i >= mods.len() {
        mods.len() as int
    } else if mods[i].0 == path {
        i
    } else {
        first_mod(mods, path, i + 1)
    }
}

/// The types of the exported functions of parsed items.
pub open spec fn fn_exports(tops: Seq<TopLevelV>, types: Map<Seq<char>, TyV>) -> Map<Seq<char>, TyV>
    decreases tops.len(),
{
    if tops.len() == 0 {
        Map::empty()
    } else {
        let prev = fn_exports(tops.drop_last(), types);
        match tops.last() {
            TopLevelV::FnDecl { name, params, ret, exported, .. } => if exported {
                prev.insert(name, TyV::Fn(params.map_values(|p: (Seq<char>, TypeV)| tyv_of_v(p.1, types)),
                    Box::new(tyv_of_v(ret, types))))
            } else {
                prev
            },
            _ => prev,
        }
    }
}

/// The exports of the local module at `path`: its exported functions, as its
/// source parses (none when no source is given for it).
pub open spec fn m_exports(mods: Seq<(Seq<char>, Seq<char>)>, path: Seq<char>, types: Map<Seq<char>, TyV>)
    -> Map<Seq<char>, TyV> {
    let k = first_mod(mods, path, 0);
    if k < mods.len() {
        fn_exports(g_parse(spec_tokenize(mods[k].1)).0, types)
    } else {
        Map::empty()
    }
}

/// The type of a function declaration.
pub open spec fn fn_tyv(params: Seq<(String, TypeExpr)>, ret: TypeExpr, types: Map<Seq<char>, TyV>) -> TyV {
    TyV::Fn(params.map_values(|p: (String, TypeExpr)| tyv_of(p.1, types)), Box::new(tyv_of(ret, types)))
}

/// Pass 1 on one item: a constant is checked and bound (with the exports of a
/// local module it imports); functions, structs and enums are bound.
pub open spec fn c_item1(mods: Seq<(Seq<char>, Seq<char>)>, t: TopLevel, g: TGlob) -> TGlob {
    match t {
        TopLevel::ConstDecl { name, value, .. } => {
            let me = match value.kind {
                ExprKind::Import(path) => if is_suffix(".zy"@, path@) {
                    g.env.me.insert(path@, m_exports(mods, path@, g.env.types))
                } else {
                    g.env.me
                },
                _ => g.env.me,
            };
            TGlob {
                globals: g.globals.insert(name@, t_expr(g.env, g.globals, value)),
                env: TEnv { sf: g.env.sf, me, types: g.env.types },
                st: c_expr(g.env, g.globals, g.st, value),
            }
        },
        TopLevel::FnDecl(f) => TGlob {
            globals: g.globals.insert(f.name@, fn_tyv(f.params@, f.ret, g.env.types)),
            env: g.env,
            st: g.st,
        },
        TopLevel::StructDecl { name, fields, .. } => TGlob {
            globals: g.globals.insert(name@, TyV::Struct(name@)),
            env: TEnv {
                sf: g.env.sf.insert(name@, fields@.map_values(|f: crate::parser::StructField| (f.name@, tyv_of(f.ty, g.env.types)))),
                me: g.env.me,
                types: g.env.types.insert(name@, TyV::Struct(name@)),
            },
            st: g.st,
        },
        TopLevel::EnumDecl { name, .. } => TGlob {
            globals: g.globals.insert(name@, TyV::Enum(name@)),
            env: TEnv { sf: g.env.sf, me: g.env.me, types: g.env.types.insert(name@, TyV::Enum(name@)) },
            st: g.st,
        },
        TopLevel::Stmt(_) => g,
    }
}

/// Pass 1 over the items in order.
pub open spec fn c_pass1(mods: Seq<(Seq<char>, Seq<char>)>, p: Seq<TopLevel>, g: TGlob) -> TGlob
    decreases p.len(),
{
    if p.len() == 0 {
        g
    } else {
        c_item1(mods, p.last(), c_pass1(mods, p.drop_last(), g))
    }
}

/// The scope of a function body: the top-level names and the parameters.
pub open spec fn params_scope(globals: Map<Seq<char>, TyV>, ps: Seq<(String, TypeExpr)>, types: Map<Seq<char>, TyV>)
    -> Map<Seq<char>, TyV>
    decreases ps.len(),
{
    if ps.len() == 0 {
        globals
    } else {
        params_scope(globals, ps.drop_last(), types).insert(ps.last().0@, tyv_of(ps.last().1, types))
    }
}

/// Pass 2 on one item: function bodies, and the top-level statements in the
/// scope of the implicit main.
pub open spec fn c_item2(env: TEnv, globals: Map<Seq<char>, TyV>, t: TopLevel, acc: (Map<Seq<char>, TyV>, ChkSt))
    -> (Map<Seq<char>, TyV>, ChkSt) {
    let (sc, st) = acc;
    match t {
        TopLevel::FnDecl(f) => (sc, c_block(env, params_scope(globals, f.params@, env.types), tyv_of(f.ret, env.types), st,
            f.body@)),
        TopLevel::ConstDecl { name, value, .. } => if !globals.contains_key(name@) {
            (sc.insert(name@, t_expr(env, sc, value)), c_expr(env, sc, st, value))
        } else {
            (sc, st)
        },
        TopLevel::Stmt(x) => c_stmt(env, sc, TyV::Void, st, x),
        _ => (sc, st),
    }
}

/// Pass 2 over the items in order.
pub open spec fn c_pass2(env: TEnv, globals: Map<Seq<char>, TyV>, p: Seq<TopLevel>, acc: (Map<Seq<char>, TyV>, ChkSt))
    -> (Map<Seq<char>, TyV>, ChkSt)
    decreases p.len(),
{
    if p.len() == 0 {
        acc
    } else {
        c_item2(env, globals, p.last(), c_pass2(env, globals, p.drop_last(), acc))
    }
}

/// The top-level constants that only alias a variable (not named with a leading `_`).
pub open spec fn alias_decls(p: Seq<TopLevel>) -> Seq<(Seq<char>, Span)>
    decreases p.len(),
{
    if p.len() == 0 {
        Seq::empty()
    } else {
        alias_decls(p.drop_last()) + match p.last() {
            TopLevel::ConstDecl { name, name_span, value, .. } => if !is_prefix("_"@, name@) && value.kind is Var {
                seq![(name@, name_span)]
            } else {
                Seq::empty()
            },
            _ => Seq::empty(),
        }
    }
}

/// The variables that the program reads anywhere.
pub open spec fn all_refs(p: Seq<TopLevel>) -> Set<Seq<char>>
    decreases p.len(),
{
    if p.len() == 0 {
        Set::empty()
    } else {
        all_refs(p.drop_last()) + match p.last() {
            TopLevel::FnDecl(f) => refs_stmts(f.body@),
            TopLevel::Stmt(x) => refs_stmt(x),
            TopLevel::ConstDecl { value, .. } => refs_expr(value),
            _ => Set::empty(),
        }
    }
}

/// Checking a program, from the tables and state in `g`: pass 1 binds the
/// top-level names (checking the constants), pass 2 checks function bodies
/// and top-level statements, pass 3 reports top-level aliases that nothing reads.
pub open spec fn c_check(mods: Seq<(Seq<char>, Seq<char>)>, p: Seq<TopLevel>, g: TGlob) -> ChkSt {
    let g1 = c_pass1(mods, p, g);
    let st2 = c_pass2(g1.env, g1.globals, p, (g1.globals, g1.st)).1;
    if alias_decls(p).len() > 0 {
        c_unused(st2, alias_decls(p), all_refs(p), "Unused top-level alias: '"@)
    } else {
        st2
    }
}

/// The local modules' (path, source) pairs.
pub open spec fn mods_v(m: Seq<(String, String)>) -> Seq<(Seq<char>, Seq<char>)> {
    m.map_values(|p: (String, String)| (p.0@, p.1@))
}

/// The diagnostics of a program, with `mods` the sources of its local modules.
pub open spec fn check_spec(mods: Seq<(Seq<char>, Seq<char>)>, p: Seq<TopLevel>) -> Seq<(Option<Span>, Seq<char>)> {
    c_check(mods, p, TGlob {
        globals: Map::empty(),
        env: TEnv { sf: Map::empty(), me: Map::empty(), types: Map::empty() },
        st: ChkSt { errs: Seq::empty(), span: (0, 0) },
    }).errs
}

} // verus!
