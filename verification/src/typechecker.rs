//! Type checker: resolves names and types and collects diagnostics.
use vstd::prelude::*;
use crate::lexer::{Span, fits, lex_ok, tokenize};
use crate::parser::{
    parse, BinOp, Expr, ExprKind, Program, Stmt, StmtKind, SwitchArm, SwitchBody, TopLevel, TypeExpr, UnOp,
};
use crate::strs::{cat2, cat3, i64_to_string, int_dec, join_all, push_str, str_eq, str_ends_with,
    str_starts_with, to_string, u64_to_string, usize_to_string};
use crate::symtab::{lookup, Entry, StrMap, StrSet};
use crate::typing::{
    arg_count_msg, c_args, c_arms, c_at, c_block, c_check, c_decl, c_elems, c_err, c_expr, c_fn_args, c_fn_args_from,
    c_item1, c_item2, c_pass1, c_pass2, c_std_call, c_stmt, c_stmts, c_unused, check_spec, exports_v, field_tyv,
    fields_v, first_mod, fn_exports, fn_tyv, has_field, local_decls, m_exports, mods_v, params_scope, refs_expr,
    refs_exprs, refs_arms, refs_stmt, refs_stmts, alias_decls, all_refs, scope_v, struct_v, t_args, t_arms, t_expr,
    t_export_ret, t_module, tyv_assignable, tyv_display, tyv_named, tyv_of, tyv_of_v, zerrs_v, ChkSt, TEnv, TGlob,
};

verus! {

#[derive(Debug)]
pub struct ZyError {
    pub message: String,
    pub span: Option<Span>,
}

#[derive(Debug, PartialEq)]
pub enum Ty {
    I32,
    F64,
    String,
    Bool,
    Void,
    Array(Box<Ty>, u64),
    Optional(Box<Ty>),
    ErrorUnion(Box<Ty>),
    Struct(String),
    Enum(String),
    Fn { params: Vec<Ty>, ret: Box<Ty> },
    Module(String),
    Unknown,
}

/// Structural equality of types (names compared by their characters).
pub open spec fn ty_same(a: Ty, b: Ty) -> bool
    decreases a,
{
    match a {
        Ty::I32 => b is I32,
        Ty::F64 => b is F64,
        Ty::String => b is String,
        Ty::Bool => b is Bool,
        Ty::Void => b is Void,
        Ty::Unknown => b is Unknown,
        Ty::Array(x, n) => match b {
            Ty::Array(y, m) => n == m && ty_same(*x, *y),
            _ => false,
        },
        Ty::Optional(x) => match b {
            Ty::Optional(y) => ty_same(*x, *y),
            _ => false,
        },
        Ty::ErrorUnion(x) => match b {
            Ty::ErrorUnion(y) => ty_same(*x, *y),
            _ => false,
        },
        Ty::Struct(s) => match b {
            Ty::Struct(t) => s@ == t@,
            _ => false,
        },
        Ty::Enum(s) => match b {
            Ty::Enum(t) => s@ == t@,
            _ => false,
        },
        Ty::Module(s) => match b {
            Ty::Module(t) => s@ == t@,
            _ => false,
        },
        Ty::Fn { params: p, ret: r } => match b {
            Ty::Fn { params: q, ret: s } => p@.len() == q@.len()
                && (forall|i: int| 0 <= i < p@.len() ==> ty_same(#[trigger] p@[i], q@[i]))
                && ty_same(*r, *s),
            _ => false,
        },
    }
}

/// A type as a mathematical value: names by their characters.
pub enum TyV {
    I32,
    F64,
    Str,
    Bool,
    Void,
    Array(Box<TyV>, u64),
    Optional(Box<TyV>),
    ErrorUnion(Box<TyV>),
    Struct(Seq<char>),
    Enum(Seq<char>),
    Fn(Seq<TyV>, Box<TyV>),
    Module(Seq<char>),
    Unknown,
}

/// The value of a type.
pub open spec fn ty_view(t: Ty) -> TyV
    decreases t,
{
    match t {
        Ty::I32 => TyV::I32,
        Ty::F64 => TyV::F64,
        Ty::String => TyV::Str,
        Ty::Bool => TyV::Bool,
        Ty::Void => TyV::Void,
        Ty::Array(x, n) => TyV::Array(Box::new(ty_view(*x)), n),
        Ty::Optional(x) => TyV::Optional(Box::new(ty_view(*x))),
        Ty::ErrorUnion(x) => TyV::ErrorUnion(Box::new(ty_view(*x))),
        Ty::Struct(s) => TyV::Struct(s@),
        Ty::Enum(s) => TyV::Enum(s@),
        Ty::Fn { params, ret } => TyV::Fn(tys_view(params@), Box::new(ty_view(*ret))),
        Ty::Module(s) => TyV::Module(s@),
        Ty::Unknown => TyV::Unknown,
    }
}

/// The values of a list of types.
pub open spec fn tys_view(ts: Seq<Ty>) -> Seq<TyV>
    decreases ts,
{
    if ts.len() == 0 {
        Seq::empty()
    } else {
        tys_view(ts.subrange(0, ts.len() - 1)).push(ty_view(ts[ts.len() - 1]))
    }
}

proof fn lemma_tys_view(ts: Seq<Ty>)
    ensures
        tys_view(ts).len() == ts.len(),
        forall|i: int| 0 <= i < ts.len() ==> #[trigger] tys_view(ts)[i] == ty_view(ts[i]),
    decreases ts.len(),
{
    if ts.len() > 0 {
        let p = ts.subrange(0, ts.len() - 1);
        lemma_tys_view(p);
        assert forall|i: int| 0 <= i < ts.len() implies #[trigger] tys_view(ts)[i] == ty_view(ts[i]) by {
            if i < ts.len() - 1 {
                assert(p[i] == ts[i]);
            }
        }
    }
}

/// Structural equality of types is equality of their values.
pub proof fn lemma_ty_same_view(a: Ty, b: Ty)
    ensures
        ty_same(a, b) == (ty_view(a) == ty_view(b)),
    decreases a,
{
    match (a, b) {
        (Ty::Array(x, n), Ty::Array(y, m)) => {
            lemma_ty_same_view(*x, *y);
        },
        (Ty::Optional(x), Ty::Optional(y)) => {
            lemma_ty_same_view(*x, *y);
        },
        (Ty::ErrorUnion(x), Ty::ErrorUnion(y)) => {
            lemma_ty_same_view(*x, *y);
        },
        (Ty::Fn { params: p, ret: r }, Ty::Fn { params: q, ret: s }) => {
            lemma_ty_same_view(*r, *s);
            lemma_tys_view(p@);
            lemma_tys_view(q@);
            assert forall|i: int| 0 <= i < p@.len() && i < q@.len() implies
                ty_same(#[trigger] p@[i], q@[i]) == (ty_view(p@[i]) == ty_view(q@[i])) by {
                assert(decreases_to!(a => p));
                assert(decreases_to!(p => p@[i]));
                lemma_ty_same_view(p@[i], q@[i]);
            }
            if tys_view(p@) == tys_view(q@) {
                assert forall|i: int| 0 <= i < p@.len() implies ty_same(#[trigger] p@[i], q@[i]) by {
                    assert(tys_view(p@)[i] == tys_view(q@)[i]);
                }
            }
            if p@.len() == q@.len() && (forall|i: int| 0 <= i < p@.len() ==> ty_same(#[trigger] p@[i], q@[i])) {
                assert forall|i: int| 0 <= i < p@.len() implies tys_view(p@)[i] == tys_view(q@)[i] by {
                    assert(ty_same(p@[i], q@[i]));
                }
                assert(tys_view(p@) =~= tys_view(q@));
            }
        },
        _ => {},
    }
}

/// The type that a call `module.ns.fn_name(..)` has: `void` for
/// `std.debug.print`, `!string` for `std.fs.readTextFile`, unknown otherwise.
pub open spec fn std_call_ty(module: Seq<char>, ns: Seq<char>, fn_name: Seq<char>) -> TyV {
    if module == "std"@ && ns == "debug"@ && fn_name == "print"@ {
        TyV::Void
    } else if module == "std"@ && ns == "fs"@ && fn_name == "readTextFile"@ {
        TyV::ErrorUnion(Box::new(TyV::Str))
    } else {
        TyV::Unknown
    }
}

/// A value of type `other` may be stored where `target` is expected:
/// equal types, `T` or `null` (void) into `?T`, `T` into `E!T`.
pub open spec fn assignable(target: Ty, other: Ty) -> bool {
    ty_same(target, other) || match target {
        Ty::Optional(inner) => ty_same(*inner, other) || other is Void,
        Ty::ErrorUnion(inner) => ty_same(*inner, other),
        _ => false,
    }
}

/// Law: every type is structurally equal to itself.
pub proof fn lemma_ty_same_refl(t: Ty)
    ensures
        ty_same(t, t),
    decreases t,
{
    match t {
        Ty::Array(x, _) => lemma_ty_same_refl(*x),
        Ty::Optional(x) => lemma_ty_same_refl(*x),
        Ty::ErrorUnion(x) => lemma_ty_same_refl(*x),
        Ty::Fn { params: p, ret: r } => {
            lemma_ty_same_refl(*r);
            assert forall|i: int| 0 <= i < p@.len() implies ty_same(#[trigger] p@[i], p@[i]) by {
                lemma_ty_same_refl(p@[i]);
            }
        },
        _ => {},
    }
}

/// Law: every type is assignable to itself.
pub proof fn lemma_assignable_refl(t: Ty)
    ensures
        assignable(t, t),
{
    lemma_ty_same_refl(t);
}

/// Law: an optional type `?T` accepts a `T` and `null` (void), an error
/// union `E!T` accepts a `T`, and every type accepts itself.
pub proof fn lemma_wrapped_types_accept(t: TyV)
    ensures
        tyv_assignable(TyV::Optional(Box::new(t)), t),
        tyv_assignable(TyV::Optional(Box::new(t)), TyV::Void),
        tyv_assignable(TyV::ErrorUnion(Box::new(t)), t),
        tyv_assignable(t, t),
{
}

/// Law: the same for the checker's own types: `?T` accepts `T` and void,
/// `E!T` accepts `T`.
pub proof fn lemma_wrapped_types_accept_ty(t: Ty)
    ensures
        assignable(Ty::Optional(Box::new(t)), t),
        assignable(Ty::Optional(Box::new(t)), Ty::Void),
        assignable(Ty::ErrorUnion(Box::new(t)), t),
{
    lemma_ty_same_refl(t);
}

/// Law: `return e` in a function declared to return `?T` or `E!T`, where `e`
/// has type `T`, reports nothing beyond the diagnostics of `e` itself.
pub proof fn lemma_return_into_wrapped_type(env: TEnv, sc: Map<Seq<char>, TyV>, st: ChkSt, e: Expr, span: Span)
    ensures
        ({
            let s = Stmt { kind: StmtKind::Return(Some(e)), span };
            let t = t_expr(env, sc, e);
            &&& c_stmt(env, sc, TyV::Optional(Box::new(t)), st, s) == (sc, c_expr(env, sc, c_at(st, span), e))
            &&& c_stmt(env, sc, TyV::ErrorUnion(Box::new(t)), st, s) == (sc, c_expr(env, sc, c_at(st, span), e))
            &&& c_stmt(env, sc, t, st, s) == (sc, c_expr(env, sc, c_at(st, span), e))
        }),
{
    lemma_wrapped_types_accept(t_expr(env, sc, e));
}

impl Ty {
    /// A copy of the type.
    #[verifier::loop_isolation(false)]
    pub fn copy(&self) -> (r: Ty)
        ensures
            ty_same(r, *self),
            ty_view(r) == ty_view(*self),
        decreases self,
    {
        match self {
            Ty::I32 => Ty::I32,
            Ty::F64 => Ty::F64,
            Ty::String => Ty::String,
            Ty::Bool => Ty::Bool,
            Ty::Void => Ty::Void,
            Ty::Unknown => Ty::Unknown,
            Ty::Array(x, n) => Ty::Array(Box::new(x.copy()), *n),
            Ty::Optional(x) => Ty::Optional(Box::new(x.copy())),
            Ty::ErrorUnion(x) => Ty::ErrorUnion(Box::new(x.copy())),
            Ty::Struct(s) => Ty::Struct(s.clone()),
            Ty::Enum(s) => Ty::Enum(s.clone()),
            Ty::Module(s) => Ty::Module(s.clone()),
            Ty::Fn { params, ret } => {
                let mut ps: Vec<Ty> = Vec::new();
                let mut i: usize = 0;
                while i < params.len()
                    invariant
                        i <= params@.len(),
                        ps@.len() == i,
                        forall|j: int| 0 <= j < i ==> ty_same(#[trigger] ps@[j], params@[j]),
                        forall|j: int| 0 <= j < i ==> ty_view(#[trigger] ps@[j]) == ty_view(params@[j]),
                    decreases params@.len() - i,
                {
                    assert(decreases_to!(*self => *params));
                    assert(decreases_to!(*params => params[i as int]));
                    assert(decreases_to!(*self => params[i as int]));
                    let c = params[i].copy();
                    ps.push(c);
                    i += 1;
                }
                proof {
                    lemma_tys_view(ps@);
                    lemma_tys_view(params@);
                    assert(tys_view(ps@) =~= tys_view(params@));
                }
                Ty::Fn { params: ps, ret: Box::new(ret.copy()) }
            },
        }
    }

    /// Structural equality.
    #[verifier::loop_isolation(false)]
    pub fn same(&self, other: &Ty) -> (r: bool)
        ensures
            r == ty_same(*self, *other),
        decreases self,
    {
        match (self, other) {
            (Ty::I32, Ty::I32) => true,
            (Ty::F64, Ty::F64) => true,
            (Ty::String, Ty::String) => true,
            (Ty::Bool, Ty::Bool) => true,
            (Ty::Void, Ty::Void) => true,
            (Ty::Unknown, Ty::Unknown) => true,
            (Ty::Array(x, n), Ty::Array(y, m)) => *n == *m && x.same(y),
            (Ty::Optional(x), Ty::Optional(y)) => x.same(y),
            (Ty::ErrorUnion(x), Ty::ErrorUnion(y)) => x.same(y),
            (Ty::Struct(s), Ty::Struct(t)) => str_eq(s.as_str(), t.as_str()),
            (Ty::Enum(s), Ty::Enum(t)) => str_eq(s.as_str(), t.as_str()),
            (Ty::Module(s), Ty::Module(t)) => str_eq(s.as_str(), t.as_str()),
            (Ty::Fn { params: p, ret: r }, Ty::Fn { params: q, ret: s }) => {
                if p.len() != q.len() {
                    return false;
                }
                let mut i: usize = 0;
                while i < p.len()
                    invariant
                        i <= p@.len(),
                        p@.len() == q@.len(),
                        forall|j: int| 0 <= j < i ==> ty_same(#[trigger] p@[j], q@[j]),
                    decreases p@.len() - i,
                {
                    assert(decreases_to!(*self => *p));
                    assert(decreases_to!(*p => p[i as int]));
                    assert(decreases_to!(*self => p[i as int]));
                    if !p[i].same(&q[i]) {
                        return false;
                    }
                    i += 1;
                }
                r.same(s)
            },
            _ => false,
        }
    }

    fn from_type_expr(te: &TypeExpr, types: &StrMap<Ty>) -> (r: Ty)
        ensures
            ty_view(r) == tyv_of(*te, scope_v(*types)),
        decreases te,
    {
        proof {
            reveal_strlit("i32");
            reveal_strlit("f64");
            reveal_strlit("string");
            reveal_strlit("bool");
            reveal_strlit("void");
        }
        match te {
            TypeExpr::Name(name) => {
                let n = name.as_str();
                if str_eq(n, "i32") {
                    Ty::I32
                } else if str_eq(n, "f64") {
                    Ty::F64
                } else if str_eq(n, "string") {
                    Ty::String
                } else if str_eq(n, "bool") {
                    Ty::Bool
                } else if str_eq(n, "void") {
                    Ty::Void
                } else {
                    match types.get(n) {
                        Some(t) => t.copy(),
                        None => Ty::Unknown,
                    }
                }
            },
            TypeExpr::Array(inner, n) => Ty::Array(Box::new(Ty::from_type_expr(inner, types)), *n),
            TypeExpr::Optional(inner) => Ty::Optional(Box::new(Ty::from_type_expr(inner, types))),
            TypeExpr::ErrorUnion(_, inner) => Ty::ErrorUnion(Box::new(Ty::from_type_expr(inner, types))),
        }
    }

    pub fn is_assignable_from(&self, other: &Ty) -> (r: bool)
        ensures
            r == assignable(*self, *other),
            r == tyv_assignable(ty_view(*self), ty_view(*other)),
    {
        proof {
            lemma_ty_same_view(*self, *other);
            match self {
                Ty::Optional(inner) => lemma_ty_same_view(**inner, *other),
                Ty::ErrorUnion(inner) => lemma_ty_same_view(**inner, *other),
                _ => {},
            }
        }
        if self.same(other) {
            return true;
        }
        // ?T accepts both T and null
        if let Ty::Optional(inner) = self {
            return inner.same(other) || matches!(other, Ty::Void);
        }
        // E!T also accepts T
        if let Ty::ErrorUnion(inner) = self {
            return inner.same(other);
        }
        false
    }

    pub fn display(&self) -> (r: String)
        ensures
            r@ == tyv_display(ty_view(*self)),
        decreases self,
    {
        match self {
            Ty::I32 => to_string("i32"),
            Ty::F64 => to_string("f64"),
            Ty::String => to_string("string"),
            Ty::Bool => to_string("bool"),
            Ty::Void => to_string("void"),
            Ty::Array(t, n) => {
                let mut s = t.display();
                push_str(&mut s, "[");
                let d = u64_to_string(*n);
                push_str(&mut s, d.as_str());
                push_str(&mut s, "]");
                s
            },
            Ty::Optional(t) => {
                let d = t.display();
                cat2("?", d.as_str())
            },
            Ty::ErrorUnion(t) => {
                let d = t.display();
                cat2("!", d.as_str())
            },
            Ty::Struct(name) => name.clone(),
            Ty::Enum(name) => name.clone(),
            Ty::Fn { .. } => to_string("fn"),
            Ty::Module(name) => cat3("module(", name.as_str(), ")"),
            Ty::Unknown => to_string("unknown"),
        }
    }
}


/// Every module source given to the checker is accepted by the tokenizer.
pub open spec fn modules_ok(m: Seq<(String, String)>) -> bool {
    forall|i: int| 0 <= i < m.len() ==> fits((#[trigger] m[i]).1@) && lex_ok(m[i].1@)
}

pub struct TypeChecker {
    // Top-level symbol table (functions, types, imports)
    globals: StrMap<Ty>,
    // User-defined types (struct / enum)
    types: StrMap<Ty>,
    // Struct field types: struct name -> [(field name, type)]
    struct_fields: StrMap<Vec<(String, Ty)>>,
    // Exports of local .zy modules: mpath -> (fn name -> type)
    module_exports: StrMap<StrMap<Ty>>,
    // Sources of local .zy modules, by import path
    modules: Vec<(String, String)>,
    pub errors: Vec<ZyError>,
    // Span currently being checked
    current_span: Span,
}

/// Entries with the same names and equal types look up alike.
proof fn lemma_lookup_copy(a: Seq<Entry<Ty>>, b: Seq<Entry<Ty>>, k: Seq<char>)
    requires
        a.len() == b.len(),
        forall|i: int| 0 <= i < a.len() ==> (#[trigger] a[i]).key@ == b[i].key@ && ty_view(a[i].val) == ty_view(b[i].val),
    ensures
        (lookup(a, k) is Some) == (lookup(b, k) is Some),
        lookup(a, k) is Some ==> ty_view(lookup(a, k).unwrap()) == ty_view(lookup(b, k).unwrap()),
    decreases a.len(),
{
    if a.len() > 0 {
        assert(a.last() == a[a.len() - 1]);
        assert(b.last() == b[b.len() - 1]);
        let (x, y) = (a.drop_last(), b.drop_last());
        assert forall|i: int| 0 <= i < x.len() implies (#[trigger] x[i]).key@ == y[i].key@ && ty_view(x[i].val) == ty_view(y[i].val) by {
            assert(x[i] == a[i] && y[i] == b[i]);
        }
        lemma_lookup_copy(x, y, k);
    }
}

/// Binding `k` to `v` in a scope binds it in the scope's value.
proof fn lemma_scope_insert(a: StrMap<Ty>, b: StrMap<Ty>, k: Seq<char>, v: Ty)
    requires
        b.get_spec(k) == Some(v),
        forall|q: Seq<char>| q != k ==> b.get_spec(q) == a.get_spec(q),
    ensures
        scope_v(b) == scope_v(a).insert(k, ty_view(v)),
{
    assert(scope_v(b) =~= scope_v(a).insert(k, ty_view(v)));
}

/// A copy of a scope.
fn copy_scope(m: &StrMap<Ty>) -> (r: StrMap<Ty>)
    ensures
        scope_v(r) == scope_v(*m),
{
    let mut r: StrMap<Ty> = StrMap::new();
    let mut i: usize = 0;
    while i < m.entries.len()
        invariant
            i <= m.entries@.len(),
            r.entries@.len() == i,
            forall|j: int| 0 <= j < i ==> (#[trigger] r.entries@[j]).key@ == m.entries@[j].key@
                && ty_view(r.entries@[j].val) == ty_view(m.entries@[j].val),
        decreases m.entries@.len() - i,
    {
        r.insert(m.entries[i].key.clone(), m.entries[i].val.copy());
        i += 1;
    }
    assert forall|k: Seq<char>| #[trigger] scope_v(r).contains_key(k) == scope_v(*m).contains_key(k)
        && (scope_v(r).contains_key(k) ==> scope_v(r)[k] == scope_v(*m)[k]) by {
        lemma_lookup_copy(r.entries@, m.entries@, k);
    }
    assert(scope_v(r) =~= scope_v(*m));
    r
}

/// The message for a call with the wrong number of arguments.
fn arg_count_message(expected: usize, got: usize) -> (r: String)
    ensures
        r@ == arg_count_msg(expected as int, got as int),
{
    let e = usize_to_string(expected);
    let g = usize_to_string(got);
    let r = join_all(vec!["Expected ", e.as_str(), " argument(s), got ", g.as_str()]);
    proof {
        reveal_with_fuel(crate::strs::concat_all, 5);
    }
    r
}

/// The checker's tables and module sources are the same in `a` and `b`.
pub closed spec fn tables_kept(a: TypeChecker, b: TypeChecker) -> bool {
    &&& a.struct_fields == b.struct_fields
    &&& a.module_exports == b.module_exports
    &&& a.modules == b.modules
    &&& a.types == b.types
    &&& a.globals == b.globals
}

/// A parsed type expression denotes what the type expression denotes.
proof fn lemma_tyv_of_v(te: TypeExpr, types: Map<Seq<char>, TyV>)
    ensures
        tyv_of(te, types) == tyv_of_v(crate::grammar::type_v(te), types),
    decreases te,
{
    match te {
        TypeExpr::Array(inner, _) => lemma_tyv_of_v(*inner, types),
        TypeExpr::Optional(inner) => lemma_tyv_of_v(*inner, types),
        TypeExpr::ErrorUnion(e, inner) => lemma_tyv_of_v(*inner, types),
        _ => {},
    }
}

/// `first_mod` finds the first module named `path`.
proof fn lemma_first_mod(mods: Seq<(Seq<char>, Seq<char>)>, path: Seq<char>, i: int, k: int)
    requires
        0 <= i <= k <= mods.len(),
        forall|j: int| i <= j < k ==> (#[trigger] mods[j]).0 != path,
        k < mods.len() ==> mods[k].0 == path,
    ensures
        first_mod(mods, path, i) == k,
    decreases k - i,
{
    if i < k {
        lemma_first_mod(mods, path, i + 1, k);
    }
}

/// The type of a function declaration, given the named types.
fn fn_type(params: &Vec<(String, TypeExpr)>, ret: &TypeExpr, types: &StrMap<Ty>) -> (r: Ty)
    ensures
        ty_view(r) == fn_tyv(params@, *ret, scope_v(*types)),
{
    let ghost tv = scope_v(*types);
    let mut ps: Vec<Ty> = Vec::new();
    let mut m: usize = 0;
    while m < params.len()
        invariant
            m <= params@.len(),
            tv == scope_v(*types),
            ps@.len() == m,
            forall|j: int| 0 <= j < m ==> ty_view(#[trigger] ps@[j]) == tyv_of(params@[j].1, tv),
        decreases params@.len() - m,
    {
        let t = Ty::from_type_expr(&params[m].1, types);
        ps.push(t);
        m += 1;
    }
    let r = Ty::from_type_expr(ret, types);
    proof {
        lemma_tys_view(ps@);
        assert(tys_view(ps@) =~= params@.map_values(|p: (String, TypeExpr)| tyv_of(p.1, tv)));
    }
    Ty::Fn { params: ps, ret: Box::new(r) }
}

/// A function's type is the type of its parsed declaration.
proof fn lemma_fn_tyv_v(params: Seq<(String, TypeExpr)>, ret: TypeExpr, types: Map<Seq<char>, TyV>)
    ensures
        fn_tyv(params, ret, types) == TyV::Fn(
            params.map_values(|p: (String, TypeExpr)| crate::grammar::param_v(p)).map_values(
                |p: (Seq<char>, crate::grammar::TypeV)| tyv_of_v(p.1, types)),
            Box::new(tyv_of_v(crate::grammar::type_v(ret), types))),
{
    lemma_tyv_of_v(ret, types);
    assert forall|q: int| 0 <= q < params.len() implies
        tyv_of(#[trigger] params[q].1, types) == tyv_of_v(crate::grammar::param_v(params[q]).1, types) by {
        lemma_tyv_of_v(params[q].1, types);
    }
    assert(params.map_values(|p: (String, TypeExpr)| tyv_of(p.1, types))
        =~= params.map_values(|p: (String, TypeExpr)| crate::grammar::param_v(p)).map_values(
            |p: (Seq<char>, crate::grammar::TypeV)| tyv_of_v(p.1, types)));
}

impl TypeChecker {
    pub closed spec fn wf(&self) -> bool {
        modules_ok(self.modules@)
    }

    pub closed spec fn errors_spec(&self) -> Seq<ZyError> {
        self.errors@
    }

    /// The errors reported so far (the public `errors` field).
    pub fn errors(&self) -> (r: &Vec<ZyError>)
        ensures
            r@ == self.errors_spec(),
    {
        &self.errors
    }

    /// The struct fields, module exports and named types.
    pub closed spec fn env(&self) -> TEnv {
        TEnv { sf: struct_v(self.struct_fields), me: exports_v(self.module_exports), types: scope_v(self.types) }
    }

    /// The diagnostics so far and the current span.
    pub closed spec fn cst(&self) -> ChkSt {
        ChkSt { errs: zerrs_v(self.errors@), span: self.current_span }
    }

    /// The top-level names' types, the environment and the checking state.
    pub closed spec fn glob(&self) -> TGlob {
        TGlob { globals: scope_v(self.globals), env: self.env(), st: self.cst() }
    }

    /// The local modules' (path, source) pairs.
    pub closed spec fn mods(&self) -> Seq<(Seq<char>, Seq<char>)> {
        mods_v(self.modules@)
    }

    /// A checker that finds local modules' sources in `modules`
    /// (pairs of import path and source text).
    pub fn new(modules: Vec<(String, String)>) -> (r: Self)
        requires
            modules_ok(modules@),
        ensures
            r.wf(),
            r.errors_spec().len() == 0,
            r.mods() == mods_v(modules@),
            r.glob() == (TGlob {
                globals: Map::empty(),
                env: TEnv { sf: Map::empty(), me: Map::empty(), types: Map::empty() },
                st: ChkSt { errs: Seq::empty(), span: (0, 0) },
            }),
    {
        let r = TypeChecker {
            globals: StrMap::new(),
            types: StrMap::new(),
            struct_fields: StrMap::new(),
            module_exports: StrMap::new(),
            modules,
            errors: Vec::new(),
            current_span: (0, 0),
        };
        assert(scope_v(r.globals) =~= Map::empty());
        assert(scope_v(r.types) =~= Map::empty());
        assert(struct_v(r.struct_fields) =~= Map::empty());
        assert(exports_v(r.module_exports) =~= Map::empty());
        assert(zerrs_v(r.errors@) =~= Seq::empty());
        r
    }

    /// The first module given for `path`.
    fn find_module(&self, path: &str) -> (r: Option<usize>)
        ensures
            r matches Some(k) ==> k < self.modules@.len() && first_mod(self.mods(), path@, 0) == k,
            r is None ==> first_mod(self.mods(), path@, 0) == self.mods().len(),
    {
        let ghost mods = self.mods();
        let mut i: usize = 0;
        let mut found: Option<usize> = None;
        while i < self.modules.len()
            invariant
                i <= self.modules@.len(),
                mods == mods_v(self.modules@),
                found is None ==> forall|j: int| 0 <= j < i ==> (#[trigger] mods[j]).0 != path@,
                found matches Some(k) ==> k < self.modules@.len() && first_mod(mods, path@, 0) == k,
            decreases self.modules@.len() - i,
        {
            if found.is_none() && str_eq(self.modules[i].0.as_str(), path) {
                proof {
                    lemma_first_mod(mods, path@, 0, i as int);
                }
                found = Some(i);
            }
            i += 1;
        }
        proof {
            if found is None {
                lemma_first_mod(mods, path@, 0, mods.len() as int);
            }
        }
        found
    }

    /// The exported functions' types of a parsed module.
    fn exports_of(ast: &Program, types: &StrMap<Ty>) -> (r: StrMap<Ty>)
        ensures
            scope_v(r) == fn_exports(crate::grammar::tops_v(ast@), scope_v(*types)),
    {
        let ghost tops = crate::grammar::tops_v(ast@);
        let ghost tv = scope_v(*types);
        let mut exports: StrMap<Ty> = StrMap::new();
        assert(scope_v(exports) =~= Map::empty());
        let mut j: usize = 0;
        while j < ast.len()
            invariant
                j <= ast@.len(),
                tops == crate::grammar::tops_v(ast@),
                tv == scope_v(*types),
                scope_v(exports) == fn_exports(tops.subrange(0, j as int), tv),
            decreases ast@.len() - j,
        {
            assert(tops.subrange(0, j + 1).drop_last() =~= tops.subrange(0, j as int));
            assert(tops.subrange(0, j + 1).last() == crate::grammar::top_v(ast@[j as int]));
            if let TopLevel::FnDecl(f) = &ast[j] {
                if f.exported {
                    let fty = fn_type(&f.params, &f.ret, types);
                    let ghost before = exports;
                    let ghost fc = fty;
                    proof {
                        lemma_fn_tyv_v(f.params@, f.ret, tv);
                    }
                    exports.insert(f.name.clone(), fty);
                    proof {
                        lemma_scope_insert(before, exports, f.name@, fc);
                    }
                }
            }
            j += 1;
        }
        assert(tops.subrange(0, ast@.len() as int) =~= tops);
        exports
    }

    /// Parses a local .zy module and extracts the types of its exported functions.
    fn extract_module_exports(&self, path: &str) -> (r: StrMap<Ty>)
        requires
            self.wf(),
        ensures
            scope_v(r) == m_exports(self.mods(), path@, self.env().types),
    {
        let ghost mods = self.mods();
        let k = match self.find_module(path) {
            Some(k) => k,
            None => {
                let exports: StrMap<Ty> = StrMap::new();
                assert(scope_v(exports) =~= Map::empty());
                return exports;
            },
        };
        let source = self.modules[k].1.as_str();
        assert(fits(self.modules@[k as int].1@) && lex_ok(self.modules@[k as int].1@));
        let tokens = tokenize(source);
        let (ast, _, _) = parse(tokens);
        assert(mods[k as int].1 == source@);
        Self::exports_of(&ast, &self.types)
    }

    fn error(&mut self, msg: String)
        ensures
            tables_kept(*old(self), *final(self)),
            final(self).cst() == c_err(old(self).cst(), msg@),
    {
        let span = if self.current_span.0 != 0 || self.current_span.1 != 0 {
            Some(self.current_span)
        } else {
            None
        };
        let ghost m = msg@;
        let ghost before = self.errors@;
        self.errors.push(ZyError { span, message: msg });
        assert(zerrs_v(self.errors@) =~= zerrs_v(before).push((span, m)));
    }

    /// Pass 1 on one item: binds its name (checking a constant's value).
    fn bind_item(&mut self, item: &TopLevel)
        requires
            old(self).wf(),
        ensures
            final(self).wf(),
            final(self).mods() == old(self).mods(),
            final(self).glob() == c_item1(old(self).mods(), *item, old(self).glob()),
    {
        match item {
            TopLevel::ConstDecl { name, value, .. } => {
                // Register all top-level ConstDecls into globals in order
                let g2 = copy_scope(&self.globals);
                let ty = self.check_expr(value, &g2);
                let ghost before = self.globals;
                let ghost tyc = ty;
                self.globals.insert(name.clone(), ty);
                proof {
                    lemma_scope_insert(before, self.globals, name@, tyc);
                    reveal_strlit(".zy");
                }
                // Pre-collect exports of local .zy modules
                if let ExprKind::Import(path) = &value.kind {
                    if str_ends_with(path.as_str(), ".zy") {
                        let exports = self.extract_module_exports(path.as_str());
                        let ghost me = self.module_exports;
                        self.module_exports.insert(path.clone(), exports);
                        assert(exports_v(self.module_exports) =~= exports_v(me).insert(path@, scope_v(exports)));
                    }
                }
            },
            TopLevel::FnDecl(f) => {
                let fty = fn_type(&f.params, &f.ret, &self.types);
                let ghost before = self.globals;
                let ghost fc = fty;
                self.globals.insert(f.name.clone(), fty);
                proof {
                    lemma_scope_insert(before, self.globals, f.name@, fc);
                }
            },
            TopLevel::StructDecl { name, fields, .. } => {
                let ghost types = scope_v(self.types);
                let mut field_tys: Vec<(String, Ty)> = Vec::new();
                let mut m: usize = 0;
                while m < fields.len()
                    invariant
                        m <= fields@.len(),
                        types == scope_v(self.types),
                        field_tys@.len() == m,
                        forall|j: int| 0 <= j < m ==> (#[trigger] field_tys@[j]).0@ == fields@[j].name@
                            && ty_view(field_tys@[j].1) == tyv_of(fields@[j].ty, types),
                    decreases fields@.len() - m,
                {
                    let t = Ty::from_type_expr(&fields[m].ty, &self.types);
                    field_tys.push((fields[m].name.clone(), t));
                    m += 1;
                }
                assert(fields_v(field_tys@) =~= fields@.map_values(
                    |f: crate::parser::StructField| (f.name@, tyv_of(f.ty, types))));
                let ghost sf = self.struct_fields;
                let ghost fv = fields_v(field_tys@);
                self.struct_fields.insert(name.clone(), field_tys);
                assert(struct_v(self.struct_fields) =~= struct_v(sf).insert(name@, fv));
                let ghost tb = self.types;
                self.types.insert(name.clone(), Ty::Struct(name.clone()));
                proof {
                    lemma_scope_insert(tb, self.types, name@, Ty::Struct(*name));
                }
                let ghost gb = self.globals;
                self.globals.insert(name.clone(), Ty::Struct(name.clone()));
                proof {
                    lemma_scope_insert(gb, self.globals, name@, Ty::Struct(*name));
                }
            },
            TopLevel::EnumDecl { name, .. } => {
                let ghost tb = self.types;
                self.types.insert(name.clone(), Ty::Enum(name.clone()));
                proof {
                    lemma_scope_insert(tb, self.types, name@, Ty::Enum(*name));
                }
                let ghost gb = self.globals;
                self.globals.insert(name.clone(), Ty::Enum(name.clone()));
                proof {
                    lemma_scope_insert(gb, self.globals, name@, Ty::Enum(*name));
                }
            },
            TopLevel::Stmt(_) => {},
        }
    }

    /// Pass 2 on one item: a function body, or top-level code in the scope of
    /// the implicit main.
    fn check_item(&mut self, item: &TopLevel, body_scope: &mut StrMap<Ty>)
        requires
            old(self).wf(),
        ensures
            final(self).wf(),
            tables_kept(*old(self), *final(self)),
            (scope_v(*final(body_scope)), final(self).cst()) == c_item2(old(self).env(), scope_v(old(self).globals),
                *item, (scope_v(*old(body_scope)), old(self).cst())),
    {
        let ghost env = self.env();
        match item {
            TopLevel::FnDecl(f) => {
                let ret_ty = Ty::from_type_expr(&f.ret, &self.types);
                let mut scope = copy_scope(&self.globals);
                let mut m: usize = 0;
                while m < f.params.len()
                    invariant
                        m <= f.params@.len(),
                        env == self.env(),
                        scope_v(scope) == params_scope(scope_v(self.globals), f.params@.subrange(0, m as int), env.types),
                    decreases f.params@.len() - m,
                {
                    let t = Ty::from_type_expr(&f.params[m].1, &self.types);
                    let ghost before = scope;
                    let ghost tc = t;
                    scope.insert(f.params[m].0.clone(), t);
                    proof {
                        lemma_scope_insert(before, scope, f.params@[m as int].0@, tc);
                        assert(f.params@.subrange(0, m + 1).drop_last() =~= f.params@.subrange(0, m as int));
                    }
                    m += 1;
                }
                assert(f.params@.subrange(0, f.params@.len() as int) =~= f.params@);
                self.check_block(&f.body, &mut scope, &ret_ty);
            },
            TopLevel::ConstDecl { name, value, .. } => {
                // Only runtime const decls (import/alias were already handled in pass 1)
                if !self.globals.contains_key(name.as_str()) {
                    let s = copy_scope(body_scope);
                    let ty = self.check_expr(value, &s);
                    let ghost before = *body_scope;
                    let ghost tc = ty;
                    body_scope.insert(name.clone(), ty);
                    proof {
                        lemma_scope_insert(before, *body_scope, name@, tc);
                    }
                }
            },
            TopLevel::Stmt(stmt) => {
                self.check_stmt(stmt, body_scope, &Ty::Void);
            },
            _ => {},
        }
    }

    /// Pass 3: each top-level constant that only aliases a variable and that
    /// nothing reads is reported at its name.
    fn check_aliases(&mut self, program: &Program)
        requires
            old(self).wf(),
        ensures
            final(self).wf(),
            final(self).mods() == old(self).mods(),
            final(self).cst() == if alias_decls(program@).len() > 0 {
                c_unused(old(self).cst(), alias_decls(program@), all_refs(program@), "Unused top-level alias: '"@)
            } else {
                old(self).cst()
            },
    {
        let ghost p = program@;
        let ghost st2 = self.cst();
        let mut aliases: Vec<(String, Span)> = Vec::new();
        let mut i: usize = 0;
        while i < program.len()
            invariant
                i <= program@.len(),
                p == program@,
                aliases@.map_values(|d: (String, Span)| (d.0@, d.1)) == alias_decls(p.subrange(0, i as int)),
            decreases program@.len() - i,
        {
            assert(p.subrange(0, i + 1).drop_last() =~= p.subrange(0, i as int));
            assert(p.subrange(0, i + 1).last() == p[i as int]);
            let ghost before = aliases@;
            if let TopLevel::ConstDecl { name, name_span, value, .. } = &program[i] {
                if !str_starts_with(name.as_str(), "_") {
                    if let ExprKind::Var(_) = &value.kind {
                        aliases.push((name.clone(), *name_span));
                    }
                }
            }
            proof {
                reveal_strlit("_");
                assert(aliases@.map_values(|d: (String, Span)| (d.0@, d.1)) =~= alias_decls(p.subrange(0, i + 1)));
            }
            i += 1;
        }
        assert(p.subrange(0, p.len() as int) =~= p);
        let ghost ds = alias_decls(p);
        if aliases.len() > 0 {
            let mut read_names = StrSet::new();
            assert(read_names.names() =~= Set::empty());
            let mut i: usize = 0;
            while i < program.len()
                invariant
                    i <= program@.len(),
                    p == program@,
                    read_names.names() == all_refs(p.subrange(0, i as int)),
                decreases program@.len() - i,
            {
                assert(p.subrange(0, i + 1).drop_last() =~= p.subrange(0, i as int));
                assert(p.subrange(0, i + 1).last() == p[i as int]);
                match &program[i] {
                    TopLevel::FnDecl(f) => {
                        Self::refs_stmts(&f.body, &mut read_names);
                    },
                    TopLevel::Stmt(stmt) => {
                        Self::refs_stmt(stmt, &mut read_names);
                    },
                    TopLevel::ConstDecl { value, .. } => {
                        Self::refs_expr(value, &mut read_names);
                    },
                    _ => {
                        assert(read_names.names() + Set::empty() =~= read_names.names());
                    },
                }
                i += 1;
            }
            assert(p.subrange(0, p.len() as int) =~= p);
            let ghost refs = read_names.names();
            assert(ds.subrange(0, ds.len() as int) =~= ds);
            let mut k: usize = 0;
            while k < aliases.len()
                invariant
                    k <= aliases@.len(),
                    self.wf(),
                    self.mods() == old(self).mods(),
                    ds == aliases@.map_values(|d: (String, Span)| (d.0@, d.1)),
                    refs == read_names.names(),
                    c_unused(self.cst(), ds.subrange(k as int, ds.len() as int), refs, "Unused top-level alias: '"@)
                        == c_unused(st2, ds, refs, "Unused top-level alias: '"@),
                decreases aliases@.len() - k,
            {
                let name = aliases[k].0.as_str();
                proof {
                    let rest = ds.subrange(k as int, ds.len() as int);
                    assert(rest[0] == ds[k as int]);
                    assert(rest.subrange(1, rest.len() as int) =~= ds.subrange(k + 1, ds.len() as int));
                }
                if !read_names.contains(name) {
                    self.current_span = aliases[k].1;
                    proof {
                        reveal_with_fuel(crate::strs::concat_all, 4);
                    }
                    self.error(join_all(vec!["Unused top-level alias: '", name, "'"]));
                }
                k += 1;
            }
            assert(ds.subrange(ds.len() as int, ds.len() as int) =~= Seq::empty());
        }
    }

    /// Pass 1 over the program.
    fn bind_all(&mut self, program: &Program)
        requires
            old(self).wf(),
        ensures
            final(self).wf(),
            final(self).mods() == old(self).mods(),
            final(self).glob() == c_pass1(old(self).mods(), program@, old(self).glob()),
    {
        let ghost mods = self.mods();
        let ghost p = program@;
        let ghost g0 = self.glob();
        let mut i: usize = 0;
        while i < program.len()
            invariant
                i <= program@.len(),
                p == program@,
                self.wf(),
                mods == self.mods(),
                self.glob() == c_pass1(mods, p.subrange(0, i as int), g0),
            decreases program@.len() - i,
        {
            assert(p.subrange(0, i + 1).drop_last() =~= p.subrange(0, i as int));
            assert(p.subrange(0, i + 1).last() == p[i as int]);
            self.bind_item(&program[i]);
            i += 1;
        }
        assert(p.subrange(0, p.len() as int) =~= p);
    }

    /// Pass 2 over the program.
    fn check_all(&mut self, program: &Program)
        requires
            old(self).wf(),
        ensures
            final(self).wf(),
            final(self).mods() == old(self).mods(),
            final(self).cst() == c_pass2(old(self).env(), scope_v(old(self).globals), program@,
                (scope_v(old(self).globals), old(self).cst())).1,
    {
        let ghost mods = self.mods();
        let ghost p = program@;
        let ghost env = self.env();
        let ghost globals = scope_v(self.globals);
        let ghost st1 = self.cst();
        let mut body_scope = copy_scope(&self.globals);
        let mut i: usize = 0;
        while i < program.len()
            invariant
                i <= program@.len(),
                p == program@,
                self.wf(),
                mods == self.mods(),
                env == self.env(),
                globals == scope_v(self.globals),
                (scope_v(body_scope), self.cst()) == c_pass2(env, globals, p.subrange(0, i as int), (globals, st1)),
            decreases program@.len() - i,
        {
            assert(p.subrange(0, i + 1).drop_last() =~= p.subrange(0, i as int));
            assert(p.subrange(0, i + 1).last() == p[i as int]);
            self.check_item(&program[i], &mut body_scope);
            i += 1;
        }
        assert(p.subrange(0, p.len() as int) =~= p);
    }

    /// Checks a program: binds its top-level names, checks function bodies
    /// and top-level statements, then reports unused top-level aliases.
    pub fn check(&mut self, program: &Program)
        requires
            old(self).wf(),
        ensures
            final(self).wf(),
            final(self).mods() == old(self).mods(),
            final(self).cst() == c_check(old(self).mods(), program@, old(self).glob()),
    {
        // Pass 1: collect top-level symbols (import / alias / fn / struct / enum only)
        self.bind_all(program);
        // Pass 2: check function bodies + top-level body statements (in order)
        self.check_all(program);
        // Pass 3: unused-check for top-level variable aliases (const a = some_var)
        self.check_aliases(program);
    }

    #[verifier::loop_isolation(false)]
    fn check_block(&mut self, stmts: &Vec<Stmt>, scope: &mut StrMap<Ty>, ret_ty: &Ty)
        requires
            old(self).wf(),
        ensures
            final(self).wf(),
            tables_kept(*old(self), *final(self)),
            final(self).cst() == c_block(old(self).env(), scope_v(*old(scope)), ty_view(*ret_ty), old(self).cst(), stmts@),
        decreases stmts, 1int,
    {
        let ghost env = self.env();
        let ghost ret = ty_view(*ret_ty);
        let ghost ss = stmts@;
        // Collect all variable references in the block upfront
        let refs = Self::collect_refs(stmts);
        // Record local declarations (names starting with _ are excluded as intentionally unused)
        let mut decls: Vec<(String, Span)> = Vec::new();
        let ghost goal = c_stmts(env, scope_v(*scope), ret, self.cst(), ss);
        assert(ss.subrange(0, ss.len() as int) =~= ss);
        assert(decls@.map_values(|d: (String, Span)| (d.0@, d.1)) + local_decls(ss) =~= local_decls(ss));
        let mut i: usize = 0;
        while i < stmts.len()
            invariant
                i <= stmts@.len(),
                ss == stmts@,
                self.wf(),
                tables_kept(*old(self), *self),
                env == self.env(),
                c_stmts(env, scope_v(*scope), ret, self.cst(), ss.subrange(i as int, ss.len() as int)) == goal,
                decls@.map_values(|d: (String, Span)| (d.0@, d.1)) + local_decls(ss.subrange(i as int, ss.len() as int))
                    == local_decls(ss),
            decreases stmts@.len() - i,
        {
            let stmt = &stmts[i];
            let ghost before = decls@;
            let ghost rest = ss.subrange(i as int, ss.len() as int);
            proof {
                assert(rest[0] == ss[i as int]);
                assert(rest.subrange(1, rest.len() as int) =~= ss.subrange(i + 1, ss.len() as int));
                reveal_strlit("_");
            }
            match &stmt.kind {
                StmtKind::ConstDecl { name, .. } | StmtKind::LetDecl { name, .. } => {
                    if !str_starts_with(name.as_str(), "_") {
                        decls.push((name.clone(), stmt.span));
                    }
                },
                _ => {},
            }
            proof {
                let v = |d: (String, Span)| (d.0@, d.1);
                assert(decls@.map_values(v) + local_decls(ss.subrange(i + 1, ss.len() as int))
                    =~= before.map_values(v) + local_decls(rest));
            }
            assert(decreases_to!(*stmts => stmts[i as int]));
            self.check_stmt(stmt, scope, ret_ty);
            i += 1;
        }
        proof {
            assert(ss.subrange(ss.len() as int, ss.len() as int) =~= Seq::<Stmt>::empty());
            assert(decls@.map_values(|d: (String, Span)| (d.0@, d.1)) + Seq::empty()
                =~= decls@.map_values(|d: (String, Span)| (d.0@, d.1)));
        }
        let ghost ds = local_decls(ss);
        let ghost rs = refs.names();
        let ghost st1 = self.cst();
        assert(ds.subrange(0, ds.len() as int) =~= ds);
        let mut k: usize = 0;
        while k < decls.len()
            invariant
                k <= decls@.len(),
                self.wf(),
                tables_kept(*old(self), *self),
                ds == decls@.map_values(|d: (String, Span)| (d.0@, d.1)),
                rs == refs.names(),
                c_unused(self.cst(), ds.subrange(k as int, ds.len() as int), rs, "Unused local constant: '"@)
                    == c_unused(st1, ds, rs, "Unused local constant: '"@),
            decreases decls@.len() - k,
        {
            let name = decls[k].0.as_str();
            proof {
                let rest = ds.subrange(k as int, ds.len() as int);
                assert(rest[0] == ds[k as int]);
                assert(rest.subrange(1, rest.len() as int) =~= ds.subrange(k + 1, ds.len() as int));
            }
            if !refs.contains(name) {
                self.current_span = decls[k].1;
                proof {
                    reveal_with_fuel(crate::strs::concat_all, 4);
                }
                self.error(join_all(vec!["Unused local constant: '", name, "'"]));
            }
            k += 1;
        }
        assert(ds.subrange(ds.len() as int, ds.len() as int) =~= Seq::empty());
    }

    fn collect_refs(stmts: &Vec<Stmt>) -> (r: StrSet)
        ensures
            r.names() == refs_stmts(stmts@),
    {
        let mut refs = StrSet::new();
        assert(refs.names() =~= Set::empty());
        Self::refs_stmts(stmts, &mut refs);
        assert(refs.names() =~= refs_stmts(stmts@));
        refs
    }

    #[verifier::loop_isolation(false)]
    fn refs_stmts(stmts: &Vec<Stmt>, refs: &mut StrSet)
        ensures
            final(refs).names() == old(refs).names() + refs_stmts(stmts@),
        decreases stmts, 0int,
    {
        let ghost start = refs.names();
        let mut i: usize = 0;
        while i < stmts.len()
            invariant
                i <= stmts@.len(),
                refs.names() == start + refs_stmts(stmts@.subrange(0, i as int)),
            decreases stmts@.len() - i,
        {
            assert(decreases_to!(*stmts => stmts[i as int]));
            Self::refs_stmt(&stmts[i], refs);
            proof {
                assert(stmts@.subrange(0, i + 1).subrange(0, i as int) =~= stmts@.subrange(0, i as int));
                assert(refs.names() =~= start + refs_stmts(stmts@.subrange(0, i + 1)));
            }
            i += 1;
        }
        assert(stmts@.subrange(0, stmts@.len() as int) =~= stmts@);
    }

    fn refs_stmt(stmt: &Stmt, refs: &mut StrSet)
        ensures
            final(refs).names() == old(refs).names() + refs_stmt(*stmt),
        decreases stmt, 0int,
    {
        let ghost start = refs.names();
        match &stmt.kind {
            StmtKind::ConstDecl { value, .. } | StmtKind::LetDecl { value, .. } => {
                Self::refs_expr(value, refs);
            },
            StmtKind::Return(Some(e)) => Self::refs_expr(e, refs),
            StmtKind::ExprStmt(e) => Self::refs_expr(e, refs),
            StmtKind::If { cond, body, else_body } => {
                Self::refs_expr(cond, refs);
                Self::refs_stmts(body, refs);
                if let Some(else_stmts) = else_body {
                    Self::refs_stmts(else_stmts, refs);
                }
            },
            StmtKind::While { cond, body } => {
                Self::refs_expr(cond, refs);
                Self::refs_stmts(body, refs);
            },
            _ => {},
        }
        assert(refs.names() =~= start + refs_stmt(*stmt));
    }

    #[verifier::loop_isolation(false)]
    fn refs_expr(expr: &Expr, refs: &mut StrSet)
        ensures
            final(refs).names() == old(refs).names() + refs_expr(*expr),
        decreases expr, 0int,
    {
        let ghost start = refs.names();
        match &expr.kind {
            ExprKind::Var(name) => {
                refs.insert(name.clone());
            },
            ExprKind::Call { callee, args } => {
                Self::refs_expr(callee, refs);
                let ghost mid = refs.names();
                let mut i: usize = 0;
                while i < args.len()
                    invariant
                        i <= args@.len(),
                        refs.names() == mid + refs_exprs(args@.subrange(0, i as int)),
                    decreases args@.len() - i,
                {
                    assert(decreases_to!(*args => args[i as int]));
                    Self::refs_expr(&args[i], refs);
                    proof {
                        assert(args@.subrange(0, i + 1).subrange(0, i as int) =~= args@.subrange(0, i as int));
                        assert(refs.names() =~= mid + refs_exprs(args@.subrange(0, i + 1)));
                    }
                    i += 1;
                }
                assert(args@.subrange(0, args@.len() as int) =~= args@);
            },
            ExprKind::MemberAccess { obj, .. } => Self::refs_expr(obj, refs),
            ExprKind::BinOp { lhs, rhs, .. } => {
                Self::refs_expr(lhs, refs);
                Self::refs_expr(rhs, refs);
            },
            ExprKind::UnOp { expr, .. } => Self::refs_expr(expr, refs),
            ExprKind::Propagate(expr) => Self::refs_expr(expr, refs),
            ExprKind::Catch { expr, body, .. } => {
                Self::refs_expr(expr, refs);
                Self::refs_stmts(body, refs);
            },
            ExprKind::Switch { expr, arms } => {
                Self::refs_expr(expr, refs);
                let ghost mid = refs.names();
                let mut i: usize = 0;
                while i < arms.len()
                    invariant
                        i <= arms@.len(),
                        refs.names() == mid + refs_arms(arms@.subrange(0, i as int)),
                    decreases arms@.len() - i,
                {
                    assert(decreases_to!(*arms => arms[i as int]));
                    match &arms[i].body {
                        SwitchBody::Expr(e) => Self::refs_expr(e, refs),
                        SwitchBody::Block(stmts) => Self::refs_stmts(stmts, refs),
                    }
                    proof {
                        assert(arms@.subrange(0, i + 1).subrange(0, i as int) =~= arms@.subrange(0, i as int));
                        assert(refs.names() =~= mid + refs_arms(arms@.subrange(0, i + 1)));
                    }
                    i += 1;
                }
                assert(arms@.subrange(0, arms@.len() as int) =~= arms@);
            },
            ExprKind::ArrayLiteral(elems) => {
                let mut i: usize = 0;
                while i < elems.len()
                    invariant
                        i <= elems@.len(),
                        refs.names() == start + refs_exprs(elems@.subrange(0, i as int)),
                    decreases elems@.len() - i,
                {
                    assert(decreases_to!(*elems => elems[i as int]));
                    Self::refs_expr(&elems[i], refs);
                    proof {
                        assert(elems@.subrange(0, i + 1).subrange(0, i as int) =~= elems@.subrange(0, i as int));
                        assert(refs.names() =~= start + refs_exprs(elems@.subrange(0, i + 1)));
                    }
                    i += 1;
                }
                assert(elems@.subrange(0, elems@.len() as int) =~= elems@);
            },
            ExprKind::Index { obj, idx } => {
                Self::refs_expr(obj, refs);
                Self::refs_expr(idx, refs);
            },
            ExprKind::If { cond, then_, else_ } => {
                Self::refs_expr(cond, refs);
                Self::refs_expr(then_, refs);
                Self::refs_expr(else_, refs);
            },
            _ => {},
        }
        assert(refs.names() =~= start + refs_expr(*expr));
    }

    #[verifier::loop_isolation(false)]
    fn check_stmt(&mut self, stmt: &Stmt, scope: &mut StrMap<Ty>, ret_ty: &Ty)
        requires
            old(self).wf(),
        ensures
            final(self).wf(),
            tables_kept(*old(self), *final(self)),
            (scope_v(*final(scope)), final(self).cst())
                == c_stmt(old(self).env(), scope_v(*old(scope)), ty_view(*ret_ty), old(self).cst(), *stmt),
        decreases stmt, 1int,
    {
        let ghost env = self.env();
        let ghost sc = scope_v(*scope);
        self.current_span = stmt.span;
        match &stmt.kind {
            StmtKind::ConstDecl { name, ty, value } | StmtKind::LetDecl { name, ty, value } => {
                let val_ty = self.check_expr(value, scope);
                let decl_ty = if let Some(t) = ty {
                    Ty::from_type_expr(t, &self.types)
                } else {
                    val_ty.copy()
                };
                if !decl_ty.is_assignable_from(&val_ty) {
                    let d = decl_ty.display();
                    let v = val_ty.display();
                    proof {
                        reveal_with_fuel(crate::strs::concat_all, 8);
                    }
                    self.error(join_all(vec![
                        "Type mismatch: '", name.as_str(), "' is declared as '", d.as_str(),
                        "' but got '", v.as_str(), "'",
                    ]));
                }
                let ghost before = *scope;
                let ghost dt = decl_ty;
                scope.insert(name.clone(), decl_ty);
                proof {
                    lemma_scope_insert(before, *scope, name@, dt);
                }
            },
            StmtKind::Return(None) => {
                if !matches!(ret_ty, Ty::Void) {
                    let d = ret_ty.display();
                    proof {
                        reveal_with_fuel(crate::strs::concat_all, 4);
                    }
                    self.error(join_all(vec!["Expected return value of type '", d.as_str(), "', got nothing"]));
                }
            },
            StmtKind::Return(Some(expr)) => {
                let ty = self.check_expr(expr, scope);
                if !ret_ty.is_assignable_from(&ty) {
                    let d = ret_ty.display();
                    let v = ty.display();
                    proof {
                        reveal_with_fuel(crate::strs::concat_all, 6);
                    }
                    self.error(join_all(vec![
                        "Return type mismatch: expected '", d.as_str(), "', got '", v.as_str(), "'",
                    ]));
                }
            },
            StmtKind::If { cond, body, else_body } => {
                let cond_ty = self.check_expr(cond, scope);
                if !matches!(cond_ty, Ty::Bool) {
                    let d = cond_ty.display();
                    proof {
                        reveal_with_fuel(crate::strs::concat_all, 4);
                    }
                    self.error(join_all(vec!["if condition must be bool, got '", d.as_str(), "'"]));
                }
                let mut inner = copy_scope(scope);
                self.check_block(body, &mut inner, ret_ty);
                if let Some(else_stmts) = else_body {
                    let mut inner = copy_scope(scope);
                    self.check_block(else_stmts, &mut inner, ret_ty);
                }
            },
            StmtKind::While { cond, body } => {
                let cond_ty = self.check_expr(cond, scope);
                if !matches!(cond_ty, Ty::Bool) {
                    let d = cond_ty.display();
                    proof {
                        reveal_with_fuel(crate::strs::concat_all, 4);
                    }
                    self.error(join_all(vec!["while condition must be bool, got '", d.as_str(), "'"]));
                }
                let mut inner = copy_scope(scope);
                self.check_block(body, &mut inner, ret_ty);
            },
            StmtKind::Break | StmtKind::Continue => {},
            StmtKind::ExprStmt(expr) => {
                self.check_expr(expr, scope);
            },
        }
    }

    fn check_fn_args(&mut self, params: &Vec<Ty>, arg_tys: &Vec<(Ty, Span)>, call_span: Span)
        requires
            old(self).wf(),
        ensures
            final(self).wf(),
            tables_kept(*old(self), *final(self)),
            final(self).cst() == c_fn_args(tys_view(params@), targs_v(arg_tys@), call_span, old(self).cst()),
    {
        let ghost ps = tys_view(params@);
        let ghost args = targs_v(arg_tys@);
        proof {
            lemma_tys_view(params@);
        }
        if arg_tys.len() != params.len() {
            self.current_span = call_span;
            let m = arg_count_message(params.len(), arg_tys.len());
            self.error(m);
        }
        let ghost goal = c_fn_args(ps, args, call_span, old(self).cst());
        let mut i: usize = 0;
        while i < arg_tys.len() && i < params.len()
            invariant
                i <= arg_tys@.len(),
                ps == tys_view(params@),
                ps.len() == params@.len(),
                forall|j: int| 0 <= j < params@.len() ==> #[trigger] ps[j] == ty_view(params@[j]),
                args == targs_v(arg_tys@),
                self.wf(),
                tables_kept(*old(self), *self),
                c_fn_args_from(ps, args, i as int, self.cst()) == goal,
            decreases arg_tys@.len() - i,
        {
            if !params[i].is_assignable_from(&arg_tys[i].0) {
                self.current_span = arg_tys[i].1;
                let n = usize_to_string(i + 1);
                let p = params[i].display();
                let a = arg_tys[i].0.display();
                proof {
                    reveal_with_fuel(crate::strs::concat_all, 8);
                }
                self.error(join_all(vec![
                    "Argument ", n.as_str(), " type mismatch: expected '", p.as_str(), "', got '",
                    a.as_str(), "'",
                ]));
            }
            i += 1;
        }
    }

    /// Types of call arguments, with their spans.
    #[verifier::loop_isolation(false)]
    fn check_args(&mut self, args: &Vec<Expr>, scope: &StrMap<Ty>, Ghost(parent): Ghost<&Expr>)
        -> (r: Vec<(Ty, Span)>)
        requires
            old(self).wf(),
            forall|i: int| 0 <= i < args@.len() ==> decreases_to!(*parent => #[trigger] args@[i]),
        ensures
            final(self).wf(),
            tables_kept(*old(self), *final(self)),
            targs_v(r@) == t_args(old(self).env(), scope_v(*scope), args@),
            final(self).cst() == c_args(old(self).env(), scope_v(*scope), old(self).cst(), args@),
        decreases parent, 0int,
    {
        let ghost env = self.env();
        let ghost sc = scope_v(*scope);
        let ghost goal = c_args(env, sc, self.cst(), args@);
        let mut tys: Vec<(Ty, Span)> = Vec::new();
        assert(args@.subrange(0, args@.len() as int) =~= args@);
        assert(targs_v(tys@) =~= t_args(env, sc, args@.subrange(0, 0)));
        let mut i: usize = 0;
        while i < args.len()
            invariant
                i <= args@.len(),
                self.wf(),
                tables_kept(*old(self), *self),
                env == self.env(),
                targs_v(tys@) == t_args(env, sc, args@.subrange(0, i as int)),
                c_args(env, sc, self.cst(), args@.subrange(i as int, args@.len() as int)) == goal,
            decreases args@.len() - i,
        {
            proof {
                let rest = args@.subrange(i as int, args@.len() as int);
                assert(rest[0] == args@[i as int]);
                assert(rest.subrange(1, rest.len() as int) =~= args@.subrange(i + 1, args@.len() as int));
            }
            assert(decreases_to!(*parent => args@[i as int]));
            let t = self.check_expr(&args[i], scope);
            let ghost before = tys@;
            tys.push((t, args[i].span));
            proof {
                let a = t_args(env, sc, args@.subrange(0, i as int));
                let b = t_args(env, sc, args@.subrange(0, i + 1));
                assert forall|j: int| 0 <= j < i + 1 implies #[trigger] targs_v(tys@)[j] == b[j] by {
                    if j < i {
                        assert(tys@[j] == before[j]);
                        assert(targs_v(before)[j] == a[j]);
                    }
                }
                assert(targs_v(tys@) =~= b);
            }
            i += 1;
        }
        assert(args@.subrange(0, args@.len() as int) =~= args@);
        assert(args@.subrange(args@.len() as int, args@.len() as int) =~= Seq::<Expr>::empty());
        tys
    }

    /// A call's type and diagnostics: calls of a local module's exports and of
    /// std (directly or through an alias) are checked against what is known of them.
    #[verifier::loop_isolation(false)]
    #[verifier::rlimit(60)]
    fn check_call(&mut self, expr: &Expr, scope: &StrMap<Ty>) -> (r: Ty)
        requires
            old(self).wf(),
            expr.kind is Call,
            old(self).current_span == expr.span,
        ensures
            final(self).wf(),
            tables_kept(*old(self), *final(self)),
            ty_view(r) == t_expr(old(self).env(), scope_v(*scope), *expr),
            final(self).cst() == c_expr(old(self).env(), scope_v(*scope), old(self).cst(), *expr),
        decreases expr, 1int,
    {
        let ghost env = self.env();
        let ghost sc = scope_v(*scope);
        let ghost st0 = self.cst();
        proof {
            reveal_with_fuel(ty_view, 2);
            assert(c_at(st0, expr.span) == st0);
        }
        let (callee, args) = match &expr.kind {
            ExprKind::Call { callee, args } => (callee, args),
            _ => {
                return Ty::Unknown;
            },
        };
        assert forall|i: int| 0 <= i < args@.len() implies decreases_to!(*expr => #[trigger] args@[i]) by {
            assert(decreases_to!(*args => args[i]));
        }
        // Special handling for std.debug.print and similar calls
        if let ExprKind::MemberAccess { obj, prop } = &callee.kind {
            if let ExprKind::Var(var_name) = &obj.kind {
                let mpath: Option<String> = match scope.get(var_name.as_str()) {
                    Some(Ty::Module(m)) => Some(m.clone()),
                    _ => None,
                };
                if let Some(mpath) = mpath {
                    assert(t_module(sc, var_name@) == Some(mpath@));
                    // Call to a local .zy module
                    if str_ends_with(mpath.as_str(), ".zy") {
                        proof {
                            reveal_strlit(".zy");
                        }
                        let fn_ty: Option<Ty> = match self.module_exports.get(mpath.as_str()) {
                            Some(e) => match e.get(prop.as_str()) {
                                Some(t) => Some(t.copy()),
                                None => None,
                            },
                            None => None,
                        };
                        let arg_tys = self.check_args(args, scope, Ghost(expr));
                        return match fn_ty {
                            Some(Ty::Fn { params, ret }) => {
                                proof {
                                    lemma_tys_view(params@);
                                }
                                self.check_fn_args(&params, &arg_tys, expr.span);
                                *ret
                            },
                            _ => Ty::Unknown,
                        };
                    }
                    proof {
                        reveal_strlit(".zy");
                    }
                    let _ = self.check_args(args, scope, Ghost(expr));
                    // Sub-module alias (e.g. const fs = std.fs; fs.readTextFile(...))
                    let parts = crate::strs::split_at_dot(mpath.as_str());
                    return match parts {
                        Some((root, ns)) => self.check_std_ns_call(root.as_str(), ns.as_str(), prop.as_str(), args.len()),
                        None => Ty::Unknown,
                    };
                }
            }
            // Nested calls such as std.fs.readTextFile
            if let ExprKind::MemberAccess { obj: inner_obj, prop: inner_prop } = &obj.kind {
                if let ExprKind::Var(module) = &inner_obj.kind {
                    if matches!(scope.get(module.as_str()), Some(Ty::Module(_))) {
                        let _ = self.check_args(args, scope, Ghost(expr));
                        return self.check_std_ns_call(module.as_str(), inner_prop.as_str(), prop.as_str(), args.len());
                    }
                }
            }
        }
        let callee_ty = self.check_expr(callee, scope);
        let arg_tys = self.check_args(args, scope, Ghost(expr));
        match callee_ty {
            Ty::Fn { params, ret } => {
                proof {
                    lemma_tys_view(params@);
                }
                self.check_fn_args(&params, &arg_tys, expr.span);
                *ret
            },
            Ty::Unknown => Ty::Unknown,
            other => {
                let d = other.display();
                proof {
                    reveal_with_fuel(crate::strs::concat_all, 4);
                }
                self.error(join_all(vec!["'", d.as_str(), "' is not callable"]));
                Ty::Unknown
            },
        }
    }

    #[verifier::loop_isolation(false)]
    #[verifier::rlimit(60)]
    fn check_expr(&mut self, expr: &Expr, scope: &StrMap<Ty>) -> (r: Ty)
        requires
            old(self).wf(),
        ensures
            final(self).wf(),
            tables_kept(*old(self), *final(self)),
            ty_view(r) == t_expr(old(self).env(), scope_v(*scope), *expr),
            final(self).cst() == c_expr(old(self).env(), scope_v(*scope), old(self).cst(), *expr),
        decreases expr, 2int,
    {
        let ghost env = self.env();
        let ghost sc = scope_v(*scope);
        proof {
            reveal_with_fuel(ty_view, 2);
        }
        // Update to expression-level span (points to the exact location, e.g. arguments)
        self.current_span = expr.span;
        let ghost st0 = self.cst();
        match &expr.kind {
            ExprKind::Int(_) => Ty::I32,
            ExprKind::Float(_) => Ty::F64,
            ExprKind::Str(_) => Ty::String,
            ExprKind::Bool(_) => Ty::Bool,
            ExprKind::Import(m) => Ty::Module(m.clone()),
            ExprKind::Var(name) => {
                match scope.get(name.as_str()) {
                    Some(ty) => ty.copy(),
                    None => {
                        proof {
                            reveal_with_fuel(crate::strs::concat_all, 4);
                        }
                        self.error(join_all(vec!["Undefined variable: '", name.as_str(), "'"]));
                        Ty::Unknown
                    },
                }
            },
            ExprKind::MemberAccess { obj, prop } => {
                let obj_ty = self.check_expr(obj, scope);
                match &obj_ty {
                    Ty::Module(module) => Self::check_std_member(module.as_str(), prop.as_str()),
                    Ty::Struct(name) => {
                        match self.struct_fields.get(name.as_str()) {
                            Some(fields) => {
                                let ghost fv = fields_v(fields@);
                                assert(env.sf[name@] == fv);
                                let mut found: Option<Ty> = None;
                                let mut k: usize = 0;
                                assert(fv.subrange(0, fv.len() as int) =~= fv);
                                while k < fields.len()
                                    invariant
                                        k <= fields@.len(),
                                        fv == fields_v(fields@),
                                        found is None ==> field_tyv(fv, prop@) == field_tyv(fv.subrange(k as int, fv.len() as int), prop@),
                                        found is None ==> forall|j: int| 0 <= j < k ==> (#[trigger] fv[j]).0 != prop@,
                                        found matches Some(t) ==> ty_view(t) == field_tyv(fv, prop@) && has_field(fv, prop@),
                                    decreases fields@.len() - k,
                                {
                                    proof {
                                        let rest = fv.subrange(k as int, fv.len() as int);
                                        assert(rest[0] == fv[k as int]);
                                        assert(rest.subrange(1, rest.len() as int) =~= fv.subrange(k + 1, fv.len() as int));
                                    }
                                    if found.is_none() && str_eq(fields[k].0.as_str(), prop.as_str()) {
                                        found = Some(fields[k].1.copy());
                                    }
                                    k += 1;
                                }
                                match found {
                                    Some(t) => t,
                                    None => {
                                        proof {
                                            reveal_with_fuel(crate::strs::concat_all, 6);
                                        }
                                        self.error(join_all(vec![
                                            "Struct '", name.as_str(), "' has no field '", prop.as_str(), "'",
                                        ]));
                                        Ty::Unknown
                                    },
                                }
                            },
                            None => Ty::Unknown,
                        }
                    },
                    _ => Ty::Unknown,
                }
            },
            ExprKind::Call { .. } => self.check_call(expr, scope),
            ExprKind::BinOp { op, lhs, rhs } => {
                let lhs_ty = self.check_expr(lhs, scope);
                let rhs_ty = self.check_expr(rhs, scope);
                proof {
                    lemma_ty_same_view(lhs_ty, rhs_ty);
                }
                match op {
                    BinOp::Add | BinOp::Sub | BinOp::Mul | BinOp::Div | BinOp::Mod => {
                        if !lhs_ty.same(&rhs_ty) {
                            let l = lhs_ty.display();
                            let r = rhs_ty.display();
                            proof {
                                reveal_with_fuel(crate::strs::concat_all, 6);
                            }
                            self.error(join_all(vec![
                                "Binary op type mismatch: '", l.as_str(), "' vs '", r.as_str(), "'",
                            ]));
                        }
                        lhs_ty
                    },
                    BinOp::Eq | BinOp::NotEq | BinOp::Lt | BinOp::Gt | BinOp::LtEq | BinOp::GtEq => Ty::Bool,
                    BinOp::And | BinOp::Or => {
                        if !matches!(lhs_ty, Ty::Bool) || !matches!(rhs_ty, Ty::Bool) {
                            self.error(to_string("&& and || require bool operands"));
                        }
                        Ty::Bool
                    },
                }
            },
            ExprKind::UnOp { op, expr: inner } => {
                let ty = self.check_expr(inner, scope);
                match op {
                    UnOp::Neg => ty,
                    UnOp::Not => {
                        if !matches!(ty, Ty::Bool) {
                            let d = ty.display();
                            proof {
                                reveal_with_fuel(crate::strs::concat_all, 4);
                            }
                            self.error(join_all(vec!["! requires bool, got '", d.as_str(), "'"]));
                        }
                        Ty::Bool
                    },
                }
            },
            ExprKind::ArrayLiteral(elems) => {
                if elems.len() == 0 {
                    return Ty::Array(Box::new(Ty::Unknown), 0);
                }
                assert(decreases_to!(*elems => elems[0]));
                let elem_ty = self.check_expr(&elems[0], scope);
                let ghost t0 = ty_view(elem_ty);
                let ghost goal = c_elems(env, sc, self.cst(), elems@.subrange(1, elems@.len() as int), t0);
                let mut i: usize = 1;
                while i < elems.len()
                    invariant
                        1 <= i <= elems@.len(),
                        self.wf(),
                        tables_kept(*old(self), *self),
                        env == self.env(),
                        t0 == ty_view(elem_ty),
                        c_elems(env, sc, self.cst(), elems@.subrange(i as int, elems@.len() as int), t0) == goal,
                    decreases elems@.len() - i,
                {
                    proof {
                        let rest = elems@.subrange(i as int, elems@.len() as int);
                        assert(rest[0] == elems@[i as int]);
                        assert(rest.subrange(1, rest.len() as int) =~= elems@.subrange(i + 1, elems@.len() as int));
                    }
                    assert(decreases_to!(*elems => elems[i as int]));
                    let t = self.check_expr(&elems[i], scope);
                    proof {
                        lemma_ty_same_view(t, elem_ty);
                    }
                    if !t.same(&elem_ty) {
                        let e = elem_ty.display();
                        let d = t.display();
                        proof {
                            reveal_with_fuel(crate::strs::concat_all, 6);
                        }
                        self.error(join_all(vec![
                            "Array element type mismatch: expected '", e.as_str(), "', got '", d.as_str(), "'",
                        ]));
                    }
                    i += 1;
                }
                assert(elems@.subrange(elems@.len() as int, elems@.len() as int) =~= Seq::<Expr>::empty());
                Ty::Array(Box::new(elem_ty), elems.len() as u64)
            },
            ExprKind::Index { obj, idx } => {
                let obj_ty = self.check_expr(obj, scope);
                let idx_ty = self.check_expr(idx, scope);
                if !matches!(idx_ty, Ty::I32) {
                    let d = idx_ty.display();
                    proof {
                        reveal_with_fuel(crate::strs::concat_all, 4);
                    }
                    self.error(join_all(vec!["Array index must be i32, got '", d.as_str(), "'"]));
                }
                match obj_ty {
                    Ty::Array(elem_ty, _) => *elem_ty,
                    other => {
                        let d = other.display();
                        proof {
                            reveal_with_fuel(crate::strs::concat_all, 4);
                        }
                        self.error(join_all(vec!["Cannot index into '", d.as_str(), "'"]));
                        Ty::Unknown
                    },
                }
            },
            ExprKind::Propagate(inner) => {
                let ty = self.check_expr(inner, scope);
                match ty {
                    Ty::Optional(t) => *t,
                    Ty::ErrorUnion(t) => *t,
                    other => other,
                }
            },
            ExprKind::Catch { expr: inner, err_name, body } => {
                let ty = self.check_expr(inner, scope);
                let mut scope2 = copy_scope(scope);
                let ghost before = scope2;
                scope2.insert(err_name.clone(), Ty::String);
                proof {
                    lemma_scope_insert(before, scope2, err_name@, Ty::String);
                }
                self.check_block(body, &mut scope2, &Ty::Void);
                match ty {
                    Ty::ErrorUnion(t) => *t,
                    other => other,
                }
            },
            ExprKind::Switch { expr: subject, arms } => self.check_switch(expr, scope),
            ExprKind::If { cond, then_, else_ } => {
                let cond_ty = self.check_expr(cond, scope);
                if !matches!(cond_ty, Ty::Bool) && !matches!(cond_ty, Ty::Unknown) {
                    self.error(to_string("if condition must be bool"));
                }
                let then_ty = self.check_expr(then_, scope);
                let else_ty = self.check_expr(else_, scope);
                proof {
                    lemma_ty_same_view(then_ty, else_ty);
                }
                if !then_ty.same(&else_ty) && !matches!(then_ty, Ty::Unknown)
                    && !matches!(else_ty, Ty::Unknown) {
                    let t = then_ty.display();
                    let e = else_ty.display();
                    proof {
                        reveal_with_fuel(crate::strs::concat_all, 6);
                    }
                    self.error(join_all(vec![
                        "if branches have different types: '", t.as_str(), "' vs '", e.as_str(), "'",
                    ]));
                }
                then_ty
            },
        }
    }

    /// A switch's type and diagnostics: the subject, then each arm.
    #[verifier::loop_isolation(false)]
    fn check_switch(&mut self, expr: &Expr, scope: &StrMap<Ty>) -> (r: Ty)
        requires
            old(self).wf(),
            expr.kind is Switch,
            old(self).current_span == expr.span,
        ensures
            final(self).wf(),
            tables_kept(*old(self), *final(self)),
            ty_view(r) == t_expr(old(self).env(), scope_v(*scope), *expr),
            final(self).cst() == c_expr(old(self).env(), scope_v(*scope), old(self).cst(), *expr),
        decreases expr, 1int,
    {
        let ghost env = self.env();
        let ghost sc = scope_v(*scope);
        let ghost st0 = self.cst();
        assert(c_at(st0, expr.span) == st0);
        let (subject, arms) = match &expr.kind {
            ExprKind::Switch { expr: subject, arms } => (subject, arms),
            _ => {
                return Ty::Unknown;
            },
        };
        self.check_expr(subject, scope);
        let ghost goal = c_arms(env, sc, self.cst(), arms@);
        let mut result_ty = Ty::Unknown;
        let mut i: usize = 0;
        assert(arms@.subrange(0, arms@.len() as int) =~= arms@);
        while i < arms.len()
            invariant
                i <= arms@.len(),
                self.wf(),
                tables_kept(*old(self), *self),
                env == self.env(),
                result_ty is Unknown ==> t_arms(env, sc, arms@) == t_arms(env, sc, arms@.subrange(i as int, arms@.len() as int)),
                !(result_ty is Unknown) ==> ty_view(result_ty) == t_arms(env, sc, arms@),
                c_arms(env, sc, self.cst(), arms@.subrange(i as int, arms@.len() as int)) == goal,
            decreases arms@.len() - i,
        {
            assert(decreases_to!(*arms => arms[i as int]));
            proof {
                let rest = arms@.subrange(i as int, arms@.len() as int);
                assert(rest[0] == arms@[i as int]);
                assert(rest.subrange(1, rest.len() as int) =~= arms@.subrange(i + 1, arms@.len() as int));
            }
            let arm_ty = match &arms[i].body {
                SwitchBody::Expr(e) => self.check_expr(e, scope),
                SwitchBody::Block(stmts) => {
                    let mut inner = copy_scope(scope);
                    self.check_block(stmts, &mut inner, &Ty::Void);
                    Ty::Void
                },
            };
            if matches!(result_ty, Ty::Unknown) {
                result_ty = arm_ty;
            }
            i += 1;
        }
        assert(arms@.subrange(arms@.len() as int, arms@.len() as int) =~= Seq::<SwitchArm>::empty());
        result_ty
    }

    /// Type of a member of a module: the `fs` and `debug` namespaces of std.
    fn check_std_member(_module: &str, prop: &str) -> (r: Ty)
        ensures
            ty_view(r) == (if prop@ == "fs"@ {
                TyV::Module("std.fs"@)
            } else if prop@ == "debug"@ {
                TyV::Module("std.debug"@)
            } else {
                TyV::Unknown
            }),
    {
        if str_eq(prop, "fs") {
            Ty::Module(to_string("std.fs"))
        } else if str_eq(prop, "debug") {
            Ty::Module(to_string("std.debug"))
        } else {
            Ty::Unknown
        }
    }

    /// Result type of a call `module.ns.fn_name(...)` with `n_args` arguments;
    /// reports a wrong argument count for the known std functions.
    fn check_std_ns_call(&mut self, module: &str, ns: &str, fn_name: &str, n_args: usize) -> (r: Ty)
        requires
            old(self).wf(),
        ensures
            final(self).wf(),
            tables_kept(*old(self), *final(self)),
            ty_view(r) == std_call_ty(module@, ns@, fn_name@),
            final(self).cst() == c_std_call(module@, ns@, fn_name@, n_args as int, old(self).cst()),
    {
        proof {
            reveal_with_fuel(ty_view, 2);
        }
        let is_std = str_eq(module, "std");
        if is_std && str_eq(ns, "debug") && str_eq(fn_name, "print") {
            if n_args != 1 {
                let n = usize_to_string(n_args);
                self.error(cat2("std.debug.print expects 1 argument, got ", n.as_str()));
            }
            Ty::Void
        } else if is_std && str_eq(ns, "fs") && str_eq(fn_name, "readTextFile") {
            if n_args != 1 {
                let n = usize_to_string(n_args);
                self.error(cat2("std.fs.readTextFile expects 1 argument, got ", n.as_str()));
            }
            Ty::ErrorUnion(Box::new(Ty::String))
        } else {
            Ty::Unknown
        }
    }
}

/// Arguments' (type, span) as values.
pub open spec fn targs_v(a: Seq<(Ty, Span)>) -> Seq<(TyV, Span)> {
    a.map_values(|x: (Ty, Span)| (ty_view(x.0), x.1))
}

/// Law: on the same program and modules, `check` returns exactly the
/// messages of the diagnostics that `check_with_diagnostics` returns, in order.
pub proof fn lemma_check_messages(
    modules: Seq<(String, String)>,
    program: Seq<TopLevel>,
    messages: Seq<String>,
    diagnostics: Seq<ZyError>,
)
    requires
        messages.map_values(|m: String| m@) == check_spec(mods_v(modules), program).map_values(
            |e: (Option<Span>, Seq<char>)| e.1),
        zerrs_v(diagnostics) == check_spec(mods_v(modules), program),
    ensures
        messages.map_values(|m: String| m@) == diagnostics.map_values(|d: ZyError| d.message@),
{
    let spec = check_spec(mods_v(modules), program);
    let ms = messages.map_values(|m: String| m@);
    let ds = diagnostics.map_values(|d: ZyError| d.message@);
    let es = spec.map_values(|e: (Option<Span>, Seq<char>)| e.1);
    assert(ms.len() == spec.len());
    assert forall|j: int| 0 <= j < ms.len() implies #[trigger] ms[j] == ds[j] by {
        assert(es[j] == spec[j].1);
        assert(zerrs_v(diagnostics)[j] == (diagnostics[j].span, diagnostics[j].message@));
    }
    assert(ms =~= ds);
}

/// Checks `program` and returns the messages of its diagnostics.
/// `modules` holds the sources of local `.zy` modules by import path.
pub fn check(program: &Program, modules: Vec<(String, String)>) -> (r: Vec<String>)
    requires
        modules_ok(modules@),
    ensures
        r@.map_values(|m: String| m@) == check_spec(mods_v(modules@), program@).map_values(
            |e: (Option<Span>, Seq<char>)| e.1),
{
    let ghost spec = check_spec(mods_v(modules@), program@);
    let errors = check_with_diagnostics(program, modules);
    let mut out: Vec<String> = Vec::new();
    let mut i: usize = 0;
    while i < errors.len()
        invariant
            i <= errors@.len(),
            out@.len() == i,
            zerrs_v(errors@) == spec,
            forall|j: int| 0 <= j < i ==> (#[trigger] out@[j])@ == errors@[j].message@,
        decreases errors@.len() - i,
    {
        out.push(errors[i].message.clone());
        i += 1;
    }
    assert(out@.map_values(|m: String| m@) =~= spec.map_values(|e: (Option<Span>, Seq<char>)| e.1));
    out
}

/// Checks `program` and returns its diagnostics with their spans.
pub fn check_with_diagnostics(program: &Program, modules: Vec<(String, String)>) -> (r: Vec<ZyError>)
    requires
        modules_ok(modules@),
    ensures
        zerrs_v(r@) == check_spec(mods_v(modules@), program@),
{
    let mut tc = TypeChecker::new(modules);
    tc.check(program);
    tc.errors
}

} // verus!
