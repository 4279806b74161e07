//! The Zig module of a whole program, as specifications: which top-level
//! constants are hoisted out of the implicit `main`, which functions take an
//! allocator, and the text of the module.
use vstd::prelude::*;
use super::stdlib::{z_expr_alloc, z_stmt_alloc, z_stmts_alloc};
use super::text::{zfn, zs, zx, ZCtx};
use super::tracker::{z_program_std, z_stmt_calls};
use super::{spec_gen_type, spec_zig_path, BodyItem, ZigBackend};
use crate::parser::{Expr, ExprKind, Stmt, StmtKind, StructField, SwitchArm, SwitchBody, TopLevel};

verus! {

// -------------------------------------------------------------------------
// Hoisted constants

/// The variables a constant's value names, in order, wherever they occur in
/// it: in operands, callees and arguments, array elements and indices,
/// branches, switch arms and the statements of `catch` and switch blocks.
pub open spec fn z_deps(e: Expr) -> Seq<Seq<char>>
    decreases e,
{
    match e.kind {
        ExprKind::Var(name) => seq![name@],
        ExprKind::BinOp { lhs, rhs, .. } => z_deps(*lhs) + z_deps(*rhs),
        ExprKind::UnOp { expr, .. } => z_deps(*expr),
        ExprKind::Call { callee, args } => z_deps(*callee) + z_deps_list(args@),
        ExprKind::MemberAccess { obj, .. } => z_deps(*obj),
        ExprKind::Propagate(x) => z_deps(*x),
        ExprKind::Catch { expr, body, .. } => z_deps(*expr) + z_deps_stmts(body@),
        ExprKind::Switch { expr, arms } => z_deps(*expr) + z_deps_arms(arms@),
        ExprKind::ArrayLiteral(es) => z_deps_list(es@),
        ExprKind::Index { obj, idx } => z_deps(*obj) + z_deps(*idx),
        ExprKind::If { cond, then_, else_ } => z_deps(*cond) + z_deps(*then_) + z_deps(*else_),
        _ => Seq::empty(),
    }
}

/// The variables the expressions name, one after another.
pub open spec fn z_deps_list(es: Seq<Expr>) -> Seq<Seq<char>>
    decreases es,
{
    if es.len() == 0 {
        Seq::empty()
    } else {
        z_deps_list(es.subrange(0, es.len() - 1)) + z_deps(es[es.len() - 1])
    }
}

/// The variables a switch arm's body names.
pub open spec fn z_deps_arm(arm: SwitchArm) -> Seq<Seq<char>>
    decreases arm,
{
    match arm.body {
        SwitchBody::Expr(x) => z_deps(x),
        SwitchBody::Block(stmts) => z_deps_stmts(stmts@),
    }
}

/// The variables the switch arms name, one after another.
pub open spec fn z_deps_arms(arms: Seq<SwitchArm>) -> Seq<Seq<char>>
    decreases arms,
{
    if arms.len() == 0 {
        Seq::empty()
    } else {
        z_deps_arms(arms.subrange(0, arms.len() - 1)) + z_deps_arm(arms[arms.len() - 1])
    }
}

/// The variables a statement names.
pub open spec fn z_deps_stmt(s: Stmt) -> Seq<Seq<char>>
    decreases s,
{
    match s.kind {
        StmtKind::ConstDecl { value, .. } => z_deps(value),
        StmtKind::LetDecl { value, .. } => z_deps(value),
        StmtKind::Return(Some(e)) => z_deps(e),
        StmtKind::ExprStmt(e) => z_deps(e),
        StmtKind::If { cond, body, else_body } => z_deps(cond) + z_deps_stmts(body@) + match else_body {
            Some(eb) => z_deps_stmts(eb@),
            None => Seq::empty(),
        },
        StmtKind::While { cond, body } => z_deps(cond) + z_deps_stmts(body@),
        _ => Seq::empty(),
    }
}

/// The variables the statements name, one after another.
pub open spec fn z_deps_stmts(ss: Seq<Stmt>) -> Seq<Seq<char>>
    decreases ss,
{
    if ss.len() == 0 {
        Seq::empty()
    } else {
        z_deps_stmts(ss.subrange(0, ss.len() - 1)) + z_deps_stmt(ss[ss.len() - 1])
    }
}

/// A top-level constant named `name`.
pub open spec fn z_const_named(t: TopLevel, name: Seq<char>) -> bool {
    match t {
        TopLevel::ConstDecl { name: c, .. } => c@ == name,
        _ => false,
    }
}

/// Item `j` is the last top-level constant named `name`.
pub open spec fn z_const_at(p: Seq<TopLevel>, name: Seq<char>, j: int) -> bool {
    &&& 0 <= j < p.len()
    &&& z_const_named(p[j], name)
    &&& forall|k: int| j < k < p.len() ==> !z_const_named(#[trigger] p[k], name)
}

/// The last constant named `name`, if there is one, is in `m`.
pub open spec fn z_marks(p: Seq<TopLevel>, m: Set<int>, name: Seq<char>) -> bool {
    forall|j: int| #[trigger] z_const_at(p, name, j) ==> m.contains(j)
}

/// The name of an exported top-level constant.
pub open spec fn z_export(t: TopLevel) -> Option<Seq<char>> {
    match t {
        TopLevel::ConstDecl { name, exported, .. } => if exported { Some(name@) } else { None },
        _ => None,
    }
}

/// The variables a top-level constant's value depends on (none for other items).
pub open spec fn z_item_deps(t: TopLevel) -> Seq<Seq<char>> {
    match t {
        TopLevel::ConstDecl { value, .. } => z_deps(value),
        _ => Seq::empty(),
    }
}

/// `m` holds the exported constants and the constants that the values of its
/// constants depend on.
pub open spec fn z_hoist_closed(p: Seq<TopLevel>, m: Set<int>) -> bool {
    &&& forall|i: int| 0 <= i < p.len() && (#[trigger] z_export(p[i])) is Some
        ==> z_marks(p, m, z_export(p[i]).unwrap())
    &&& forall|i: int, k: int| m.contains(i) && 0 <= i < p.len() && 0 <= k < z_item_deps(p[i]).len()
        ==> z_marks(p, m, #[trigger] z_item_deps(p[i])[k])
}

/// The items of the hoisted constants: those in every closed set.
pub open spec fn z_hoist_idx(p: Seq<TopLevel>) -> Set<int> {
    Set::new(|j: int| forall|m: Set<int>| #[trigger] z_hoist_closed(p, m) ==> m.contains(j))
}

/// The names of the constants emitted at the top level rather than in `main`:
/// the exported ones and, transitively, the constants their values use.
pub open spec fn z_hoisted(p: Seq<TopLevel>) -> Set<Seq<char>> {
    Set::new(|x: Seq<char>| exists|j: int| 0 <= j < p.len() && z_hoist_idx(p).contains(j)
        && #[trigger] z_const_named(p[j], x))
}

/// The items marked in `s`.
pub open spec fn z_set_of(s: Seq<bool>) -> Set<int> {
    Set::new(|j: int| 0 <= j < s.len() && s[j])
}

/// The number of items not marked in `s`.
pub open spec fn z_unmarked(s: Seq<bool>) -> nat
    decreases s.len(),
{
    if s.len() == 0 {
        0
    } else {
        z_unmarked(s.drop_last()) + if s.last() { 0nat } else { 1nat }
    }
}

pub proof fn lemma_unmarked_le(s: Seq<bool>)
    ensures
        z_unmarked(s) <= s.len(),
        z_unmarked(s) == 0 ==> forall|j: int| 0 <= j < s.len() ==> s[j],
    decreases s.len(),
{
    if s.len() > 0 {
        lemma_unmarked_le(s.drop_last());
        if z_unmarked(s) == 0 {
            assert forall|j: int| 0 <= j < s.len() implies s[j] by {
                if j < s.len() - 1 {
                    assert(s[j] == s.drop_last()[j]);
                }
            }
        }
    }
}

pub proof fn lemma_unmarked_set(s: Seq<bool>, j: int)
    requires
        0 <= j < s.len(),
        !s[j],
    ensures
        z_unmarked(s.update(j, true)) + 1 == z_unmarked(s),
    decreases s.len(),
{
    let t = s.update(j, true);
    if j == s.len() - 1 {
        assert(t.drop_last() =~= s.drop_last());
    } else {
        assert(t.drop_last() =~= s.drop_last().update(j, true));
        lemma_unmarked_set(s.drop_last(), j);
    }
}

/// Marking more items keeps the constants of every name marked.
pub proof fn lemma_marks_subset(p: Seq<TopLevel>, a: Set<int>, b: Set<int>)
    requires
        a.subset_of(b),
    ensures
        forall|name: Seq<char>| z_marks(p, a, name) ==> #[trigger] z_marks(p, b, name),
{
}

/// Two items that are both the last constant of a name are the same.
pub proof fn lemma_const_at_unique(p: Seq<TopLevel>, name: Seq<char>, a: int, b: int)
    requires
        z_const_at(p, name, a),
        z_const_at(p, name, b),
    ensures
        a == b,
{
    if a < b {
        assert(!z_const_named(p[b], name));
    } else if b < a {
        assert(!z_const_named(p[a], name));
    }
}

// -------------------------------------------------------------------------
// Functions that take an allocator

/// The name of a function declaration.
pub open spec fn z_fn_name(t: TopLevel) -> Option<Seq<char>> {
    match t {
        TopLevel::FnDecl(f) => Some(f.name@),
        _ => None,
    }
}

/// The body of a function declaration (nothing for other items).
pub open spec fn z_fn_body(t: TopLevel) -> Seq<Stmt> {
    match t {
        TopLevel::FnDecl(f) => f.body@,
        _ => Seq::empty(),
    }
}

/// Item `i` declares a function that no later item declares again.
pub open spec fn z_last_fn(p: Seq<TopLevel>, i: int) -> bool {
    &&& 0 <= i < p.len()
    &&& z_fn_name(p[i]) is Some
    &&& forall|j: int| i < j < p.len() ==> z_fn_name(#[trigger] p[j]) != z_fn_name(p[i])
}

/// Some statement calls a function of `s`.
pub open spec fn z_stmts_calls(s: Set<Seq<char>>, ss: Seq<Stmt>) -> bool {
    exists|k: int| 0 <= k < ss.len() && z_stmt_calls(s, #[trigger] ss[k])
}

/// `s` holds every function (by its last declaration) whose body uses an
/// allocator under `c`, and every function whose body calls one in `s`.
pub open spec fn z_alloc_closed(c: ZCtx, p: Seq<TopLevel>, s: Set<Seq<char>>) -> bool {
    forall|i: int| #[trigger] z_last_fn(p, i)
        ==> (z_stmts_alloc(c, z_fn_body(p[i])) || z_stmts_calls(s, z_fn_body(p[i])))
        ==> s.contains(z_fn_name(p[i]).unwrap())
}

/// The functions that need an allocator: those in every closed set.
pub open spec fn z_alloc_fns(c: ZCtx, p: Seq<TopLevel>) -> Set<Seq<char>> {
    Set::new(|x: Seq<char>| forall|s: Set<Seq<char>>| #[trigger] z_alloc_closed(c, p, s) ==> s.contains(x))
}

/// Among the first `n` items, the number of last declarations of functions
/// whose name is not in `s`.
pub open spec fn z_missing(p: Seq<TopLevel>, s: Set<Seq<char>>, n: int) -> nat
    decreases n,
{
    if n <= 0 {
        0
    } else {
        z_missing(p, s, n - 1) + if z_last_fn(p, n - 1) && !s.contains(z_fn_name(p[n - 1]).unwrap()) {
            1nat
        } else {
            0nat
        }
    }
}

pub proof fn lemma_missing_le(p: Seq<TopLevel>, s: Set<Seq<char>>, n: int)
    requires
        n >= 0,
    ensures
        z_missing(p, s, n) <= n,
        z_missing(p, s, n) == 0 ==> forall|i: int| 0 <= i < n && #[trigger] z_last_fn(p, i)
            ==> s.contains(z_fn_name(p[i]).unwrap()),
    decreases n,
{
    if n > 0 {
        lemma_missing_le(p, s, n - 1);
    }
}

/// Adding names never adds missing functions; adding the name of a missing one removes it.
pub proof fn lemma_missing_mono(p: Seq<TopLevel>, a: Set<Seq<char>>, b: Set<Seq<char>>, n: int, i0: int)
    requires
        a.subset_of(b),
    ensures
        z_missing(p, b, n) <= z_missing(p, a, n),
        0 <= i0 < n && z_last_fn(p, i0) && !a.contains(z_fn_name(p[i0]).unwrap())
            && b.contains(z_fn_name(p[i0]).unwrap()) ==> z_missing(p, b, n) < z_missing(p, a, n),
    decreases n,
{
    if n > 0 {
        lemma_missing_mono(p, a, b, n - 1, i0);
    }
}

// -------------------------------------------------------------------------
// Aliases

/// What the first pass learns from the top-level constants.
pub struct ZPass {
    /// alias -> module, for `const a = import("m")` and `const b = a`
    pub ia: Map<Seq<char>, Seq<char>>,
    /// alias -> (module, namespace), for `const a = m.ns` and `const b = a`
    pub al: Map<Seq<char>, (Seq<char>, Seq<char>)>,
    /// The names bound to a module.
    pub names: Set<Seq<char>>,
    /// (alias, Zig path) of each import of a module other than std.
    pub users: Seq<(Seq<char>, Seq<char>)>,
    /// The imported modules, in order.
    pub imports: Seq<Seq<char>>,
}

/// The module `name` stands for through the import aliases `ia`.
pub open spec fn z_map_resolve(ia: Map<Seq<char>, Seq<char>>, name: Seq<char>) -> Seq<char> {
    if ia.contains_key(name) { ia[name] } else { name }
}

/// The first pass over the top-level constants, item by item.
pub open spec fn zpass1(p: Seq<TopLevel>) -> ZPass {
    zpass1_from(Map::empty(), Map::empty(), p)
}

/// The first pass of a back end that already holds the import aliases `ia0`
/// and the namespace aliases `al0`.
pub open spec fn zpass1_from(ia0: Map<Seq<char>, Seq<char>>, al0: Map<Seq<char>, (Seq<char>, Seq<char>)>,
    p: Seq<TopLevel>) -> ZPass
    decreases p.len(),
{
    if p.len() == 0 {
        ZPass { ia: ia0, al: al0, names: Set::empty(), users: Seq::empty(), imports: Seq::empty() }
    } else {
        let q = zpass1_from(ia0, al0, p.drop_last());
        match p.last() {
            TopLevel::ConstDecl { name, value, .. } => match value.kind {
                ExprKind::Import(module) => {
                    let ia = q.ia.insert(name@, module@);
                    ZPass {
                        ia: ia,
                        al: q.al,
                        names: q.names.insert(name@),
                        users: if z_map_resolve(ia, module@) == "std"@ {
                            q.users
                        } else {
                            q.users.push((name@, spec_zig_path(module@)))
                        },
                        imports: q.imports.push(module@),
                    }
                },
                ExprKind::MemberAccess { obj, prop } => match obj.kind {
                    ExprKind::Var(module) => ZPass {
                        ia: q.ia,
                        al: q.al.insert(name@, (z_map_resolve(q.ia, module@), prop@)),
                        names: q.names,
                        users: q.users,
                        imports: q.imports,
                    },
                    _ => q,
                },
                ExprKind::Var(src) => if q.ia.contains_key(src@) {
                    ZPass {
                        ia: q.ia.insert(name@, q.ia[src@]),
                        al: q.al,
                        names: q.names.insert(name@),
                        users: q.users,
                        imports: q.imports,
                    }
                } else if q.al.contains_key(src@) {
                    ZPass { ia: q.ia, al: q.al.insert(name@, q.al[src@]), names: q.names, users: q.users, imports: q.imports }
                } else {
                    q
                },
                _ => q,
            },
            _ => q,
        }
    }
}

/// The context of code generation after the first pass: the aliases, and the
/// allocating functions found with none known before.
pub open spec fn z_ctx_of(p: Seq<TopLevel>) -> ZCtx {
    z_ctx_from(Map::empty(), Map::empty(), Set::empty(), p)
}

/// The context of code generation after the first pass of a back end that
/// already holds the aliases `ia0`, `al0` and the allocating functions `alloc0`.
pub open spec fn z_ctx_from(ia0: Map<Seq<char>, Seq<char>>, al0: Map<Seq<char>, (Seq<char>, Seq<char>)>,
    alloc0: Set<Seq<char>>, p: Seq<TopLevel>) -> ZCtx {
    let q = zpass1_from(ia0, al0, p);
    ZCtx { ia: q.ia, al: q.al, alloc: z_alloc_fns(ZCtx { ia: q.ia, al: q.al, alloc: alloc0 }, p) }
}

// -------------------------------------------------------------------------
// The implicit main

/// A top-level constant that only names a module or an alias: it makes no code of its own.
pub open spec fn z_is_alias_const(names: Set<Seq<char>>, al: Map<Seq<char>, (Seq<char>, Seq<char>)>,
    value: Expr) -> bool {
    match value.kind {
        ExprKind::Import(_) => true,
        ExprKind::MemberAccess { obj, .. } => match obj.kind {
            ExprKind::Var(m) => names.contains(m@) || al.contains_key(m@),
            _ => false,
        },
        ExprKind::Var(src) => al.contains_key(src@) || names.contains(src@),
        _ => false,
    }
}

/// An item whose code goes into the implicit `main`.
pub open spec fn z_in_main(names: Set<Seq<char>>, al: Map<Seq<char>, (Seq<char>, Seq<char>)>,
    h: Set<Seq<char>>, t: TopLevel) -> bool {
    match t {
        TopLevel::ConstDecl { name, value, .. } => !z_is_alias_const(names, al, value) && !h.contains(name@),
        TopLevel::Stmt(_) => true,
        _ => false,
    }
}

/// The items of the implicit `main`, in order.
pub open spec fn z_main_items(names: Set<Seq<char>>, al: Map<Seq<char>, (Seq<char>, Seq<char>)>,
    h: Set<Seq<char>>, p: Seq<TopLevel>) -> Seq<TopLevel>
    decreases p.len(),
{
    if p.len() == 0 {
        Seq::empty()
    } else {
        z_main_items(names, al, h, p.drop_last()) + if z_in_main(names, al, h, p.last()) {
            seq![p.last()]
        } else {
            Seq::empty()
        }
    }
}

/// A body item stands for the item `t`.
pub open spec fn z_body_item_is(b: BodyItem, t: TopLevel) -> bool {
    match b {
        BodyItem::Const(n, v) => match t {
            TopLevel::ConstDecl { name, value, .. } => *n == name && *v == value,
            _ => false,
        },
        BodyItem::Stmt(s) => match t {
            TopLevel::Stmt(x) => *s == x,
            _ => false,
        },
    }
}

/// The (alias, path) pairs as text.
pub open spec fn z_pairs(u: Seq<(String, String)>) -> Seq<(Seq<char>, Seq<char>)> {
    Seq::new(u.len(), |k: int| (u[k].0@, u[k].1@))
}

/// The code of an item of `main` uses an allocator.
pub open spec fn z_item_alloc(c: ZCtx, t: TopLevel) -> bool {
    match t {
        TopLevel::ConstDecl { value, .. } => z_expr_alloc(c, value),
        TopLevel::Stmt(s) => z_stmt_alloc(c, s),
        _ => false,
    }
}

/// The text of the items of `main`, with the error variables `st` in scope.
pub open spec fn z_main_text(c: ZCtx, st: Set<Seq<char>>, items: Seq<TopLevel>) -> (Seq<char>, Set<Seq<char>>)
    decreases items.len(),
{
    if items.len() == 0 {
        (Seq::empty(), st)
    } else {
        let prev = z_main_text(c, st, items.drop_last());
        match items.last() {
            TopLevel::ConstDecl { name, value, .. } => {
                let v = zx(c, prev.1, value);
                (prev.0 + "    const "@ + name@ + " = "@ + v.0 + ";\n"@, v.1)
            },
            TopLevel::Stmt(x) => {
                let t = zs(c, prev.1, x, 1);
                (prev.0 + t.0, t.1)
            },
            _ => prev,
        }
    }
}

/// The allocator set up at the start of `main`.
pub open spec fn z_arena(needs_alloc: bool) -> Seq<char> {
    "    var __zyre_arena = std.heap.ArenaAllocator.init(std.heap.page_allocator);\n"@
        + "    defer __zyre_arena.deinit();\n"@
        + "    const __zyre_allocator = __zyre_arena.allocator();\n"@
        + (if needs_alloc { Seq::empty() } else { "    _ = __zyre_allocator;\n"@ }) + "\n"@
}

// -------------------------------------------------------------------------
// Declarations

/// `pub ` for an exported item.
pub open spec fn z_pub(exported: bool) -> Seq<char> {
    if exported { "pub "@ } else { Seq::empty() }
}

/// The hoisted constants of the first items, not bound to a module, in order.
pub open spec fn z_hoist_text(c: ZCtx, st: Set<Seq<char>>, p: Seq<TopLevel>, h: Set<Seq<char>>,
    names: Set<Seq<char>>) -> (Seq<char>, Set<Seq<char>>)
    decreases p.len(),
{
    if p.len() == 0 {
        (Seq::empty(), st)
    } else {
        let prev = z_hoist_text(c, st, p.drop_last(), h, names);
        match p.last() {
            TopLevel::ConstDecl { name, value, exported, .. } => if h.contains(name@) && !names.contains(name@) {
                let v = zx(c, prev.1, value);
                (prev.0 + z_pub(exported) + "const "@ + name@ + " = "@ + v.0 + ";\n"@, v.1)
            } else {
                prev
            },
            _ => prev,
        }
    }
}

/// The field lines of a struct.
pub open spec fn z_fields(fs: Seq<StructField>) -> Seq<char>
    decreases fs.len(),
{
    if fs.len() == 0 {
        Seq::empty()
    } else {
        z_fields(fs.drop_last()) + "    "@ + fs.last().name@ + ": "@ + spec_gen_type(fs.last().ty) + ",\n"@
    }
}

/// The variant lines of an enum.
pub open spec fn z_variants(vs: Seq<String>) -> Seq<char>
    decreases vs.len(),
{
    if vs.len() == 0 {
        Seq::empty()
    } else {
        z_variants(vs.drop_last()) + "    "@ + vs.last()@ + ",\n"@
    }
}

/// The structs, enums and functions of the first items, in order.
pub open spec fn z_decls(c: ZCtx, st: Set<Seq<char>>, p: Seq<TopLevel>) -> (Seq<char>, Set<Seq<char>>)
    decreases p.len(),
{
    if p.len() == 0 {
        (Seq::empty(), st)
    } else {
        let prev = z_decls(c, st, p.drop_last());
        match p.last() {
            TopLevel::StructDecl { name, fields, exported } => (prev.0 + z_pub(exported) + "const "@ + name@
                + " = struct {\n"@ + z_fields(fields@) + "};\n\n"@, prev.1),
            TopLevel::EnumDecl { name, variants, exported } => (prev.0 + z_pub(exported) + "const "@ + name@
                + " = enum {\n"@ + z_variants(variants@) + "};\n\n"@, prev.1),
            TopLevel::FnDecl(f) => {
                let t = zfn(c, prev.1, f);
                (prev.0 + t.0 + "\n"@, t.1)
            },
            _ => prev,
        }
    }
}

/// The import lines of the modules other than std.
pub open spec fn z_user_lines(us: Seq<(Seq<char>, Seq<char>)>) -> Seq<char>
    decreases us.len(),
{
    if us.len() == 0 {
        Seq::empty()
    } else {
        z_user_lines(us.drop_last()) + "const "@ + us.last().0 + " = @import(\""@ + us.last().1 + "\");\n"@
    }
}

/// The std imports.
pub open spec fn z_std_lines() -> Seq<char> {
    "const std = @import(\"std\");\n"@ + "const __zyre_runtime = @import(\"zyre_runtime.zig\");\n"@
        + "const __zyre_std_debug = @import(\"zyre_std_debug.zig\");\n"@
        + "const __zyre_std_fs = @import(\"zyre_std_fs.zig\");\n"@
}

/// The Zig module generated for a program by a fresh back end: the std
/// imports (when std or the implicit `main` is used) and the other imports, a
/// blank line after any, the hoisted constants and a blank line after them,
/// the declarations, then the implicit `main` holding the other top-level
/// constants and statements.
pub open spec fn zig_program(p: Seq<TopLevel>) -> Seq<char> {
    zig_program_from(Map::empty(), Map::empty(), Set::empty(), Set::empty(), p)
}

/// The Zig module generated by a back end that already holds the aliases
/// `ia0` and `al0`, the allocating functions `alloc0` and the `catch` error
/// variables `st0`.
pub open spec fn zig_program_from(ia0: Map<Seq<char>, Seq<char>>, al0: Map<Seq<char>, (Seq<char>, Seq<char>)>,
    alloc0: Set<Seq<char>>, st0: Set<Seq<char>>, p: Seq<TopLevel>) -> Seq<char> {
    let q = zpass1_from(ia0, al0, p);
    let c = z_ctx_from(ia0, al0, alloc0, p);
    let h = z_hoisted(p);
    let items = z_main_items(q.names, q.al, h, p);
    let needs_std = z_program_std(c, p) || items.len() > 0;
    let ht = z_hoist_text(c, st0, p, h, q.names);
    let dt = z_decls(c, ht.1, p);
    let mt = z_main_text(c, dt.1, items);
    (if needs_std { z_std_lines() } else { Seq::empty() })
        + z_user_lines(q.users)
        + (if needs_std || q.users.len() > 0 { "\n"@ } else { Seq::empty() })
        + ht.0
        + (if exists|x: Seq<char>| h.contains(x) && !q.names.contains(x) { "\n"@ } else { Seq::empty() })
        + dt.0
        + (if items.len() > 0 {
            "pub fn main() !void {\n"@ + "    try __zyre_runtime.Output.init();\n"@
                + "    defer __zyre_runtime.Output.restore();\n"@
                + z_arena(exists|k: int| 0 <= k < items.len() && z_item_alloc(c, #[trigger] items[k]))
                + mt.0 + "}\n"@
        } else {
            Seq::empty()
        })
}

/// A back end that has not generated anything yet.
pub open spec fn z_fresh(b: ZigBackend) -> bool {
    &&& b.import_aliases.entries@.len() == 0
    &&& b.aliases.entries@.len() == 0
    &&& b.catch_err_vars.items@.len() == 0
    &&& b.allocating_fns.items@.len() == 0
}

// -------------------------------------------------------------------------
// Laws

/// The hoisted constants hold every exported constant and every constant
/// that a hoisted constant's value uses.
pub proof fn lemma_hoisted_closed(p: Seq<TopLevel>)
    ensures
        z_hoist_closed(p, z_hoist_idx(p)),
{
    let h = z_hoist_idx(p);
    assert forall|i: int| 0 <= i < p.len() && (#[trigger] z_export(p[i])) is Some
        implies z_marks(p, h, z_export(p[i]).unwrap()) by {
        assert forall|j: int| #[trigger] z_const_at(p, z_export(p[i]).unwrap(), j) implies h.contains(j) by {
            assert forall|m: Set<int>| #[trigger] z_hoist_closed(p, m) implies m.contains(j) by {
                assert(z_marks(p, m, z_export(p[i]).unwrap()));
            }
        }
    }
    assert forall|i: int, k: int| h.contains(i) && 0 <= i < p.len() && 0 <= k < z_item_deps(p[i]).len()
        implies z_marks(p, h, #[trigger] z_item_deps(p[i])[k]) by {
        assert forall|j: int| #[trigger] z_const_at(p, z_item_deps(p[i])[k], j) implies h.contains(j) by {
            assert forall|m: Set<int>| #[trigger] z_hoist_closed(p, m) implies m.contains(j) by {
                assert(m.contains(i));
                assert(z_marks(p, m, z_item_deps(p[i])[k]));
            }
        }
    }
}

/// Some item at or after `i` is the last constant named like the constant at `i`.
pub proof fn lemma_last_const(p: Seq<TopLevel>, name: Seq<char>, i: int)
    requires
        0 <= i < p.len(),
        z_const_named(p[i], name),
    ensures
        exists|j: int| i <= j && #[trigger] z_const_at(p, name, j),
    decreases p.len() - i,
{
    if exists|k: int| i < k < p.len() && z_const_named(#[trigger] p[k], name) {
        let k = choose|k: int| i < k < p.len() && z_const_named(#[trigger] p[k], name);
        lemma_last_const(p, name, k);
        let j = choose|j: int| k <= j && #[trigger] z_const_at(p, name, j);
        assert(i <= j);
    } else {
        assert(z_const_at(p, name, i));
    }
}

/// Every exported constant is emitted at the top level.
pub proof fn lemma_exported_hoisted(p: Seq<TopLevel>, i: int)
    requires
        0 <= i < p.len(),
        z_export(p[i]) is Some,
    ensures
        z_hoisted(p).contains(z_export(p[i]).unwrap()),
{
    let name = z_export(p[i]).unwrap();
    assert(z_const_named(p[i], name));
    lemma_last_const(p, name, i);
    let j = choose|j: int| i <= j && #[trigger] z_const_at(p, name, j);
    lemma_hoisted_closed(p);
    assert(z_hoist_idx(p).contains(j));
    assert(z_const_named(p[j], name));
}

/// The functions that take an allocator hold every function that uses one
/// and every function that calls one of them.
pub proof fn lemma_alloc_closed(c: ZCtx, p: Seq<TopLevel>)
    ensures
        z_alloc_closed(c, p, z_alloc_fns(c, p)),
{
    let a = z_alloc_fns(c, p);
    assert forall|i: int| #[trigger] z_last_fn(p, i) && (z_stmts_alloc(c, z_fn_body(p[i]))
        || z_stmts_calls(a, z_fn_body(p[i]))) implies a.contains(z_fn_name(p[i]).unwrap()) by {
        assert forall|s: Set<Seq<char>>| #[trigger] z_alloc_closed(c, p, s) implies s.contains(z_fn_name(p[i]).unwrap()) by {
            if !z_stmts_alloc(c, z_fn_body(p[i])) {
                assert(a.subset_of(s));
                let b = z_fn_body(p[i]);
                let k = choose|k: int| 0 <= k < b.len() && z_stmt_calls(a, #[trigger] b[k]);
                super::tracker::lemma_stmt_calls_mono(a, s, b[k]);
                assert(z_stmts_calls(s, b));
            }
        }
    }
}

/// Only functions take an allocator.
pub proof fn lemma_alloc_fns_named(c: ZCtx, p: Seq<TopLevel>, x: Seq<char>)
    requires
        z_alloc_fns(c, p).contains(x),
    ensures
        exists|i: int| #[trigger] z_last_fn(p, i) && z_fn_name(p[i]) == Some(x),
{
    let all = Set::new(|y: Seq<char>| exists|i: int| #[trigger] z_last_fn(p, i) && z_fn_name(p[i]) == Some(y));
    assert(z_alloc_closed(c, p, all)) by {
        assert forall|i: int| #[trigger] z_last_fn(p, i) implies all.contains(z_fn_name(p[i]).unwrap()) by {
            assert(z_fn_name(p[i]) == Some(z_fn_name(p[i]).unwrap()));
        }
    }
    assert(all.contains(x));
}

} // verus!
