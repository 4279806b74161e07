//! Zig back end.
use vstd::prelude::*;
use crate::codegen::Backend;
use crate::parser::{
    BinOp, Expr, ExprKind, FnDecl, Program, Stmt, StmtKind, StructField, SwitchArm, SwitchBody, SwitchPattern,
    TopLevel, TypeExpr, UnOp,
};
use crate::strs::{
    cat2, cat3, float_plain_text, float_text_ok, i64_to_string, join_all, push_str, str_eq,
    str_ends_with, to_string, u64_to_string, views,
};
use crate::symtab::{al_view, ia_view, StrMap, StrSet};
use stdlib::z_stmts_alloc;
use text::{z_keeps, zarm, zarms, zfn, zs, zss, zx, zxs};
use tracker::z_stmt_calls;

pub mod program;
pub mod stdlib;
pub mod text;
pub mod tracker;

verus! {

pub struct ZigBackend {
    pub imports: Vec<String>,
    // Aliases like const fs = std.fs: alias -> (resolved_module, ns)
    pub aliases: StrMap<(String, String)>,
    // Aliases like const s = import("std"): alias -> module name ("s" -> "std")
    pub import_aliases: StrMap<String>,
    pub catch_err_vars: StrSet,
    // Names of functions that require an allocator (transitively)
    pub allocating_fns: StrSet,
}

/// A statement of the implicit `main`: a top-level const or a top-level statement.
pub enum BodyItem<'a> {
    Const(&'a String, &'a Expr),
    Stmt(&'a Stmt),
}

/// A module path in Zig: `.zy` replaced by `.zig`.
pub open spec fn spec_zig_path(path: Seq<char>) -> Seq<char> {
    if crate::strs::is_suffix(".zy"@, path) {
        path.subrange(0, path.len() - 3) + ".zig"@
    } else {
        path
    }
}

/// The Zig spelling of a type expression.
pub open spec fn spec_gen_type(ty: TypeExpr) -> Seq<char>
    decreases ty,
{
    match ty {
        TypeExpr::Name(name) => if name@ == "string"@ {
            "[]const u8"@
        } else {
            name@
        },
        TypeExpr::Array(inner, n) => "["@ + crate::strs::int_dec(n as int) + "]"@ + spec_gen_type(*inner),
        TypeExpr::Optional(inner) => "?"@ + spec_gen_type(*inner),
        TypeExpr::ErrorUnion(None, inner) => "!"@ + spec_gen_type(*inner),
        TypeExpr::ErrorUnion(Some(e), inner) => spec_gen_type(*e) + "!"@ + spec_gen_type(*inner),
    }
}

/// `level` levels of four-space indentation.
pub open spec fn spec_indent(level: nat) -> Seq<char>
    decreases level,
{
    if level == 0 {
        Seq::empty()
    } else {
        spec_indent((level - 1) as nat) + "    "@
    }
}

impl ZigBackend {
    pub fn new() -> (r: Self)
        ensures
            r.imports@.len() == 0,
            r.aliases.entries@.len() == 0,
            r.import_aliases.entries@.len() == 0,
            r.catch_err_vars.items@.len() == 0,
            r.allocating_fns.items@.len() == 0,
    {
        ZigBackend {
            imports: Vec::new(),
            aliases: StrMap::new(),
            import_aliases: StrMap::new(),
            catch_err_vars: StrSet::new(),
            allocating_fns: StrSet::new(),
        }
    }

    /// The module an import alias stands for (e.g. "s" -> "std"); other names stand for themselves.
    pub open spec fn spec_resolve(&self, name: Seq<char>) -> Seq<char> {
        text::z_resolve(self.ctx(), name)
    }

    /// Resolves an alias name to the actual module name (e.g. "s" -> "std").
    pub(crate) fn resolve_module(&self, name: &str) -> (r: String)
        ensures
            r@ == self.spec_resolve(name@),
    {
        match self.import_aliases.get(name) {
            Some(m) => m.clone(),
            None => to_string(name),
        }
    }

    pub fn zy_to_zig_path(path: &str) -> (r: String)
        ensures
            r@ == spec_zig_path(path@),
    {
        if str_ends_with(path, ".zy") {
            proof {
                reveal_strlit(".zy");
            }
            let v = crate::strs::chars_of(path);
            let mut s = String::new();
            let mut i: usize = 0;
            let n = v.len() - 3;
            while i < n
                invariant
                    i <= n,
                    n == path@.len() - 3,
                    v@ == path@,
                    s@ == path@.subrange(0, i as int),
                decreases n - i,
            {
                crate::strs::push_char(&mut s, v[i]);
                i += 1;
                assert(s@ =~= path@.subrange(0, i as int));
            }
            push_str(&mut s, ".zig");
            s
        } else {
            to_string(path)
        }
    }

    pub(crate) fn is_std_module(&self, name: &str) -> (r: bool)
        ensures
            r == (self.spec_resolve(name@) == "std"@),
    {
        let m = self.resolve_module(name);
        str_eq(m.as_str(), "std")
    }
}

impl ZigBackend {
    /// Names of the constants that must be emitted at the top level: the
    /// exported ones and, transitively, the constants their values use.
    fn collect_hoisted(program: &Program) -> (r: StrSet)
        ensures
            r.names() == program::z_hoisted(program@),
    {
        let ghost p = program@;
        let n = program.len();
        let mut marked: Vec<bool> = Vec::new();
        let mut i: usize = 0;
        while i < n
            invariant
                i <= n,
                n == p.len(),
                marked@.len() == i,
                forall|j: int| 0 <= j < i ==> !marked@[j],
            decreases n - i,
        {
            marked.push(false);
            i += 1;
        }
        // Start from the exported constants
        let mut i: usize = 0;
        while i < n
            invariant
                i <= n,
                n == p.len(),
                p == program@,
                marked@.len() == n,
                forall|j: int| 0 <= j < n && #[trigger] marked@[j] ==> program::z_hoist_idx(p).contains(j),
                forall|k: int| 0 <= k < i && (#[trigger] program::z_export(p[k])) is Some
                    ==> program::z_marks(p, program::z_set_of(marked@), program::z_export(p[k]).unwrap()),
            decreases n - i,
        {
            if let TopLevel::ConstDecl { name, exported: true, .. } = &program[i] {
                assert(program::z_export(p[i as int]) == Some(name@));
                if let Some(j) = Self::const_index(program, name.as_str()) {
                    let ghost before = marked@;
                    marked.set(j, true);
                    proof {
                        assert forall|m: Set<int>| #[trigger] program::z_hoist_closed(p, m) implies m.contains(j as int) by {
                            assert(program::z_marks(p, m, name@));
                        }
                        Self::lemma_marks_grow(p, before, marked@);
                        assert forall|q: int| #[trigger] program::z_const_at(p, name@, q)
                            implies program::z_set_of(marked@).contains(q) by {
                            program::lemma_const_at_unique(p, name@, q, j as int);
                        }
                    }
                }
            }
            i += 1;
        }
        // Add the constants used by marked ones until nothing changes
        proof {
            program::lemma_unmarked_le(marked@);
        }
        let mut round: usize = 0;
        while round < n
            invariant
                round <= n,
                n == p.len(),
                p == program@,
                marked@.len() == n,
                forall|j: int| 0 <= j < n && #[trigger] marked@[j] ==> program::z_hoist_idx(p).contains(j),
                forall|k: int| 0 <= k < n && (#[trigger] program::z_export(p[k])) is Some
                    ==> program::z_marks(p, program::z_set_of(marked@), program::z_export(p[k]).unwrap()),
                program::z_unmarked(marked@) + round <= n,
                round == n ==> program::z_hoist_closed(p, program::z_set_of(marked@)),
            ensures
                marked@.len() == n,
                forall|j: int| 0 <= j < n && #[trigger] marked@[j] ==> program::z_hoist_idx(p).contains(j),
                program::z_hoist_closed(p, program::z_set_of(marked@)),
            decreases n - round,
        {
            let ghost start = marked@;
            let mut changed = false;
            let mut i: usize = 0;
            while i < n
                invariant
                    i <= n,
                    n == p.len(),
                    p == program@,
                    marked@.len() == n,
                    forall|j: int| 0 <= j < n && #[trigger] marked@[j] ==> program::z_hoist_idx(p).contains(j),
                    program::z_set_of(start).subset_of(program::z_set_of(marked@)),
                    changed ==> program::z_unmarked(marked@) < program::z_unmarked(start),
                    !changed ==> marked@ == start,
                    !changed ==> forall|a: int, k: int| 0 <= a < i && marked@[a] && 0 <= k < program::z_item_deps(p[a]).len()
                        ==> program::z_marks(p, program::z_set_of(marked@), #[trigger] program::z_item_deps(p[a])[k]),
                decreases n - i,
            {
                if marked[i] {
                    if let TopLevel::ConstDecl { value, .. } = &program[i] {
                        let mut deps: Vec<String> = Vec::new();
                        Self::expr_deps(value, &mut deps);
                        assert(views(deps@) =~= program::z_item_deps(p[i as int]));
                        let ghost before_deps = marked@;
                        let mut k: usize = 0;
                        while k < deps.len()
                            invariant
                                k <= deps@.len(),
                                n == p.len(),
                                p == program@,
                                i < n,
                                marked@.len() == n,
                                views(deps@) == program::z_item_deps(p[i as int]),
                                forall|j: int| 0 <= j < n && #[trigger] marked@[j] ==> program::z_hoist_idx(p).contains(j),
                                program::z_hoist_idx(p).contains(i as int),
                                program::z_set_of(start).subset_of(program::z_set_of(marked@)),
                                changed ==> program::z_unmarked(marked@) < program::z_unmarked(start),
                                !changed ==> marked@ == start,
                                !changed ==> forall|q: int| 0 <= q < k
                                    ==> program::z_marks(p, program::z_set_of(marked@), #[trigger] views(deps@)[q]),
                                !changed ==> forall|a: int, q: int| 0 <= a < i && marked@[a] && 0 <= q < program::z_item_deps(p[a]).len()
                                    ==> program::z_marks(p, program::z_set_of(marked@), #[trigger] program::z_item_deps(p[a])[q]),
                            decreases deps@.len() - k,
                        {
                            let ghost dep = deps@[k as int]@;
                            assert(views(deps@)[k as int] == dep);
                            if let Some(j) = Self::const_index(program, deps[k].as_str()) {
                                if !marked[j] {
                                    let ghost before = marked@;
                                    proof {
                                        assert forall|m: Set<int>| #[trigger] program::z_hoist_closed(p, m)
                                            implies m.contains(j as int) by {
                                            assert(m.contains(i as int));
                                            assert(program::z_item_deps(p[i as int])[k as int] == dep);
                                            assert(program::z_marks(p, m, dep));
                                        }
                                        program::lemma_unmarked_set(before, j as int);
                                    }
                                    marked.set(j, true);
                                    changed = true;
                                    proof {
                                        Self::lemma_marks_grow(p, before, marked@);
                                    }
                                } else {
                                    proof {
                                        assert forall|q: int| #[trigger] program::z_const_at(p, dep, q)
                                            implies program::z_set_of(marked@).contains(q) by {
                                            program::lemma_const_at_unique(p, dep, q, j as int);
                                        }
                                    }
                                }
                            }
                            k += 1;
                        }
                        proof {
                            if !changed {
                                assert forall|q: int| 0 <= q < program::z_item_deps(p[i as int]).len()
                                    implies program::z_marks(p, program::z_set_of(marked@),
                                        #[trigger] program::z_item_deps(p[i as int])[q]) by {
                                    assert(views(deps@)[q] == program::z_item_deps(p[i as int])[q]);
                                }
                            }
                        }
                    }
                }
                i += 1;
            }
            proof {
                program::lemma_marks_subset(p, program::z_set_of(start), program::z_set_of(marked@));
            }
            if !changed {
                proof {
                    assert forall|a: int, k: int| program::z_set_of(marked@).contains(a) && 0 <= a < p.len()
                        && 0 <= k < program::z_item_deps(p[a]).len()
                        implies program::z_marks(p, program::z_set_of(marked@), #[trigger] program::z_item_deps(p[a])[k]) by {
                        assert(marked@[a]);
                    }
                }
                break;
            }
            round += 1;
            proof {
                if round == n {
                    program::lemma_unmarked_le(marked@);
                    assert forall|name: Seq<char>| program::z_marks(p, program::z_set_of(marked@), name) by {
                        assert forall|q: int| #[trigger] program::z_const_at(p, name, q)
                            implies program::z_set_of(marked@).contains(q) by {
                            assert(marked@[q]);
                        }
                    }
                }
            }
        }
        let mut hoisted = StrSet::new();
        let mut i: usize = 0;
        while i < n
            invariant
                i <= n,
                n == p.len(),
                p == program@,
                marked@.len() == n,
                hoisted.names() == Set::new(|x: Seq<char>| exists|j: int| 0 <= j < i && marked@[j]
                    && #[trigger] program::z_const_named(p[j], x)),
            decreases n - i,
        {
            let ghost old_names = hoisted.names();
            if marked[i] {
                if let TopLevel::ConstDecl { name, .. } = &program[i] {
                    if !hoisted.contains(name.as_str()) {
                        hoisted.insert(name.clone());
                    }
                    assert(program::z_const_named(p[i as int], name@));
                }
            }
            assert(hoisted.names() =~= Set::new(|x: Seq<char>| exists|j: int| 0 <= j < i + 1 && marked@[j]
                && #[trigger] program::z_const_named(p[j], x))) by {
                assert forall|x: Seq<char>| (exists|j: int| 0 <= j < i + 1 && marked@[j]
                    && #[trigger] program::z_const_named(p[j], x)) implies hoisted.names().contains(x) by {
                    let j = choose|j: int| 0 <= j < i + 1 && marked@[j] && #[trigger] program::z_const_named(p[j], x);
                    if j < i {
                        assert(old_names.contains(x));
                    }
                }
            }
            i += 1;
        }
        proof {
            let z = program::z_set_of(marked@);
            assert(z.subset_of(program::z_hoist_idx(p)));
            assert(hoisted.names() =~= program::z_hoisted(p)) by {
                assert forall|x: Seq<char>| #[trigger] program::z_hoisted(p).contains(x) implies hoisted.names().contains(x) by {
                    let j = choose|j: int| 0 <= j < p.len() && program::z_hoist_idx(p).contains(j)
                        && #[trigger] program::z_const_named(p[j], x);
                    assert(z.contains(j));
                }
            }
        }
        hoisted
    }

    /// Marking more items keeps every constant that was marked marked.
    proof fn lemma_marks_grow(p: Seq<TopLevel>, a: Seq<bool>, b: Seq<bool>)
        requires
            a.len() == b.len(),
            forall|j: int| 0 <= j < a.len() && a[j] ==> b[j],
        ensures
            program::z_set_of(a).subset_of(program::z_set_of(b)),
            forall|name: Seq<char>| program::z_marks(p, program::z_set_of(a), name)
                ==> #[trigger] program::z_marks(p, program::z_set_of(b), name),
    {
    }

    /// Index of the last top-level constant named `name`.
    fn const_index(program: &Program, name: &str) -> (r: Option<usize>)
        ensures
            r matches Some(j) ==> program::z_const_at(program@, name@, j as int),
            r is None ==> forall|j: int| 0 <= j < program@.len() ==> !program::z_const_named(#[trigger] program@[j], name@),
    {
        let mut i = program.len();
        while i > 0
            invariant
                i <= program@.len(),
                forall|j: int| i <= j < program@.len() ==> !program::z_const_named(#[trigger] program@[j], name@),
            decreases i,
        {
            if let TopLevel::ConstDecl { name: c, .. } = &program[i - 1] {
                if str_eq(c.as_str(), name) {
                    return Some(i - 1);
                }
            }
            i -= 1;
        }
        None
    }

    /// The variables a constant's value names, wherever they occur in it.
    #[verifier::loop_isolation(false)]
    fn expr_deps(expr: &Expr, out: &mut Vec<String>)
        ensures
            views(final(out)@) == views(old(out)@) + program::z_deps(*expr),
        decreases expr,
    {
        let ghost before = out@;
        match &expr.kind {
            ExprKind::Var(name) => {
                out.push(name.clone());
                assert(views(out@) =~= views(before) + program::z_deps(*expr));
            },
            ExprKind::BinOp { lhs, rhs, .. } => {
                Self::expr_deps(lhs, out);
                Self::expr_deps(rhs, out);
                assert(views(out@) =~= views(before) + program::z_deps(*expr));
            },
            ExprKind::UnOp { expr: inner, .. } => Self::expr_deps(inner, out),
            ExprKind::Call { callee, args } => {
                Self::expr_deps(callee, out);
                Self::list_deps(args, out);
                assert(views(out@) =~= views(before) + program::z_deps(*expr));
            },
            ExprKind::MemberAccess { obj, .. } => Self::expr_deps(obj, out),
            ExprKind::Propagate(x) => Self::expr_deps(x, out),
            ExprKind::Catch { expr: inner, body, .. } => {
                Self::expr_deps(inner, out);
                Self::stmts_deps(body, out);
                assert(views(out@) =~= views(before) + program::z_deps(*expr));
            },
            ExprKind::Switch { expr: inner, arms } => {
                Self::expr_deps(inner, out);
                let ghost mid = views(out@);
                let mut i: usize = 0;
                while i < arms.len()
                    invariant
                        i <= arms@.len(),
                        views(out@) == mid + program::z_deps_arms(arms@.subrange(0, i as int)),
                    decreases arms@.len() - i,
                {
                    assert(decreases_to!(*arms => arms[i as int]));
                    Self::arm_deps(&arms[i], out);
                    assert(arms@.subrange(0, i + 1).subrange(0, i as int) =~= arms@.subrange(0, i as int));
                    i += 1;
                }
                assert(arms@.subrange(0, arms@.len() as int) =~= arms@);
                assert(views(out@) =~= views(before) + program::z_deps(*expr));
            },
            ExprKind::ArrayLiteral(es) => {
                Self::list_deps(es, out);
            },
            ExprKind::Index { obj, idx } => {
                Self::expr_deps(obj, out);
                Self::expr_deps(idx, out);
                assert(views(out@) =~= views(before) + program::z_deps(*expr));
            },
            ExprKind::If { cond, then_, else_ } => {
                Self::expr_deps(cond, out);
                Self::expr_deps(then_, out);
                Self::expr_deps(else_, out);
                assert(views(out@) =~= views(before) + program::z_deps(*expr));
            },
            _ => {
                assert(views(out@) =~= views(out@) + program::z_deps(*expr));
            },
        }
    }

    /// The variables a switch arm's body names.
    fn arm_deps(arm: &SwitchArm, out: &mut Vec<String>)
        ensures
            views(final(out)@) == views(old(out)@) + program::z_deps_arm(*arm),
        decreases arm,
    {
        match &arm.body {
            SwitchBody::Expr(x) => Self::expr_deps(x, out),
            SwitchBody::Block(stmts) => Self::stmts_deps(stmts, out),
        }
    }

    /// The variables the expressions name, one after another.
    #[verifier::loop_isolation(false)]
    fn list_deps(es: &Vec<Expr>, out: &mut Vec<String>)
        ensures
            views(final(out)@) == views(old(out)@) + program::z_deps_list(es@),
        decreases es,
    {
        let ghost mid = views(out@);
        let mut i: usize = 0;
        while i < es.len()
            invariant
                i <= es@.len(),
                views(out@) == mid + program::z_deps_list(es@.subrange(0, i as int)),
            decreases es@.len() - i,
        {
            assert(decreases_to!(*es => es[i as int]));
            Self::expr_deps(&es[i], out);
            assert(es@.subrange(0, i + 1).subrange(0, i as int) =~= es@.subrange(0, i as int));
            i += 1;
        }
        assert(es@.subrange(0, es@.len() as int) =~= es@);
    }

    /// The variables a statement names.
    fn stmt_deps(stmt: &Stmt, out: &mut Vec<String>)
        ensures
            views(final(out)@) == views(old(out)@) + program::z_deps_stmt(*stmt),
        decreases stmt,
    {
        let ghost before = out@;
        match &stmt.kind {
            StmtKind::ConstDecl { value, .. } => Self::expr_deps(value, out),
            StmtKind::LetDecl { value, .. } => Self::expr_deps(value, out),
            StmtKind::Return(Some(e)) => Self::expr_deps(e, out),
            StmtKind::ExprStmt(e) => Self::expr_deps(e, out),
            StmtKind::If { cond, body, else_body } => {
                Self::expr_deps(cond, out);
                Self::stmts_deps(body, out);
                match else_body {
                    Some(eb) => Self::stmts_deps(eb, out),
                    None => {},
                }
                assert(views(out@) =~= views(before) + program::z_deps_stmt(*stmt));
            },
            StmtKind::While { cond, body } => {
                Self::expr_deps(cond, out);
                Self::stmts_deps(body, out);
                assert(views(out@) =~= views(before) + program::z_deps_stmt(*stmt));
            },
            _ => {
                assert(views(out@) =~= views(out@) + program::z_deps_stmt(*stmt));
            },
        }
    }

    /// The variables the statements name, one after another.
    #[verifier::loop_isolation(false)]
    fn stmts_deps(stmts: &Vec<Stmt>, out: &mut Vec<String>)
        ensures
            views(final(out)@) == views(old(out)@) + program::z_deps_stmts(stmts@),
        decreases stmts,
    {
        let ghost mid = views(out@);
        let mut i: usize = 0;
        while i < stmts.len()
            invariant
                i <= stmts@.len(),
                views(out@) == mid + program::z_deps_stmts(stmts@.subrange(0, i as int)),
            decreases stmts@.len() - i,
        {
            assert(decreases_to!(*stmts => stmts[i as int]));
            Self::stmt_deps(&stmts[i], out);
            assert(stmts@.subrange(0, i + 1).subrange(0, i as int) =~= stmts@.subrange(0, i as int));
            i += 1;
        }
        assert(stmts@.subrange(0, stmts@.len() as int) =~= stmts@);
    }

    /// Names of the functions that need an allocator: those that use one
    /// directly, and transitively those that call them.
    pub(crate) fn collect_allocating_fns(&self, program: &Program) -> (r: StrSet)
        ensures
            r.names() == program::z_alloc_fns(self.ctx(), program@),
    {
        let ghost c = self.ctx();
        let ghost p = program@;
        let n = program.len();
        let mut allocating = StrSet::new();
        assert(allocating.names() =~= Set::empty());
        let mut i: usize = 0;
        while i < n
            invariant
                i <= n,
                n == p.len(),
                p == program@,
                c == self.ctx(),
                allocating.names().subset_of(program::z_alloc_fns(c, p)),
                forall|j: int| 0 <= j < i && #[trigger] program::z_last_fn(p, j)
                    && z_stmts_alloc(c, program::z_fn_body(p[j]))
                    ==> allocating.names().contains(program::z_fn_name(p[j]).unwrap()),
            decreases n - i,
        {
            if let TopLevel::FnDecl(f) = &program[i] {
                if self.is_last_fn(program, i) && self.uses_allocator(&f.body) {
                    proof {
                        assert forall|s: Set<Seq<char>>| #[trigger] program::z_alloc_closed(c, p, s)
                            implies s.contains(f.name@) by {
                            assert(program::z_last_fn(p, i as int));
                        }
                    }
                    allocating.insert(f.name.clone());
                }
            }
            i += 1;
        }
        // Propagate transitively
        proof {
            program::lemma_missing_le(p, allocating.names(), n as int);
        }
        let mut round: usize = 0;
        while round < n
            invariant
                round <= n,
                n == p.len(),
                p == program@,
                c == self.ctx(),
                allocating.names().subset_of(program::z_alloc_fns(c, p)),
                forall|j: int| 0 <= j < n && #[trigger] program::z_last_fn(p, j)
                    && z_stmts_alloc(c, program::z_fn_body(p[j]))
                    ==> allocating.names().contains(program::z_fn_name(p[j]).unwrap()),
                program::z_missing(p, allocating.names(), n as int) + round <= n,
                round == n ==> program::z_alloc_closed(c, p, allocating.names()),
            ensures
                allocating.names().subset_of(program::z_alloc_fns(c, p)),
                program::z_alloc_closed(c, p, allocating.names()),
            decreases n - round,
        {
            let ghost start = allocating.names();
            let mut changed = false;
            let mut i: usize = 0;
            while i < n
                invariant
                    i <= n,
                    n == p.len(),
                    p == program@,
                    c == self.ctx(),
                    allocating.names().subset_of(program::z_alloc_fns(c, p)),
                    start.subset_of(allocating.names()),
                    changed ==> program::z_missing(p, allocating.names(), n as int)
                        < program::z_missing(p, start, n as int),
                    !changed ==> allocating.names() == start,
                    !changed ==> forall|j: int| 0 <= j < i && #[trigger] program::z_last_fn(p, j)
                        && program::z_stmts_calls(allocating.names(), program::z_fn_body(p[j]))
                        ==> allocating.names().contains(program::z_fn_name(p[j]).unwrap()),
                decreases n - i,
            {
                if let TopLevel::FnDecl(f) = &program[i] {
                    if self.is_last_fn(program, i) && !allocating.contains(f.name.as_str())
                        && Self::stmts_call_any(&f.body, &allocating) {
                        let ghost before = allocating.names();
                        proof {
                            assert forall|s: Set<Seq<char>>| #[trigger] program::z_alloc_closed(c, p, s)
                                implies s.contains(f.name@) by {
                                assert(before.subset_of(s));
                                let k = choose|k: int| 0 <= k < f.body@.len()
                                    && z_stmt_calls(before, #[trigger] f.body@[k]);
                                tracker::lemma_stmt_calls_mono(before, s, f.body@[k]);
                                assert(program::z_stmts_calls(s, program::z_fn_body(p[i as int])));
                                assert(program::z_last_fn(p, i as int));
                            }
                        }
                        allocating.insert(f.name.clone());
                        changed = true;
                        proof {
                            program::lemma_missing_mono(p, before, allocating.names(), n as int, i as int);
                            program::lemma_missing_mono(p, start, before, n as int, i as int);
                        }
                    }
                }
                i += 1;
            }
            if !changed {
                break;
            }
            round += 1;
            proof {
                if round == n {
                    program::lemma_missing_le(p, allocating.names(), n as int);
                }
            }
        }
        allocating
    }

    /// Item `i` is the last function declared with its name.
    fn is_last_fn(&self, program: &Program, i: usize) -> (r: bool)
        requires
            i < program@.len(),
        ensures
            r == (program::z_last_fn(program@, i as int)),
    {
        let name = match &program[i] {
            TopLevel::FnDecl(f) => f.name.as_str(),
            _ => {
                return false;
            },
        };
        let n = program.len();
        let mut j = i + 1;
        while j < n
            invariant
                i < j <= program@.len(),
                n == program@.len(),
                program::z_fn_name(program@[i as int]) == Some(name@),
                forall|k: int| i < k < j ==> program::z_fn_name(#[trigger] program@[k]) != Some(name@),
            decreases program@.len() - j,
        {
            if let TopLevel::FnDecl(g) = &program[j] {
                if str_eq(g.name.as_str(), name) {
                    assert(program::z_fn_name(program@[j as int]) == Some(name@));
                    return false;
                }
            }
            j += 1;
        }
        true
    }

    /// Some item of the implicit main uses an allocator.
    fn body_uses_allocator(&self, body: &Vec<BodyItem>, Ghost(items): Ghost<Seq<TopLevel>>) -> (r: bool)
        requires
            body@.len() == items.len(),
            forall|k: int| 0 <= k < items.len() ==> program::z_body_item_is(body@[k], #[trigger] items[k]),
        ensures
            r == exists|k: int| 0 <= k < items.len() && program::z_item_alloc(self.ctx(), #[trigger] items[k]),
    {
        let mut i: usize = 0;
        while i < body.len()
            invariant
                i <= body@.len(),
                body@.len() == items.len(),
                forall|k: int| 0 <= k < items.len() ==> program::z_body_item_is(body@[k], #[trigger] items[k]),
                forall|k: int| 0 <= k < i ==> !program::z_item_alloc(self.ctx(), #[trigger] items[k]),
            decreases body@.len() - i,
        {
            assert(program::z_body_item_is(body@[i as int], items[i as int]));
            let hit = match &body[i] {
                BodyItem::Const(_, value) => self.expr_uses_allocator(value),
                BodyItem::Stmt(s) => self.stmt_uses_allocator(s),
            };
            if hit {
                return true;
            }
            i += 1;
        }
        false
    }

    /// Pass 1: the import names, the imports of modules other than std, and
    /// the aliases.
    fn first_pass(&mut self, program: &Program) -> (r: (StrSet, Vec<(String, String)>))
        ensures
            ({
                let q = program::zpass1_from(ia_view(old(self).import_aliases), al_view(old(self).aliases), program@);
                &&& ia_view(final(self).import_aliases) == q.ia
                &&& al_view(final(self).aliases) == q.al
                &&& r.0.names() == q.names
                &&& program::z_pairs(r.1@) == q.users
                &&& views(final(self).imports@) == views(old(self).imports@) + q.imports
            }),
            final(self).catch_err_vars == old(self).catch_err_vars,
            final(self).allocating_fns == old(self).allocating_fns,
    {
        let ghost p = program@;
        let ghost imports0 = views(self.imports@);
        let ghost ia_start = ia_view(self.import_aliases);
        let ghost al_start = al_view(self.aliases);
        let mut import_names = StrSet::new();
        // User-defined imports other than std (name, zig_path)
        let mut user_imports: Vec<(String, String)> = Vec::new();
        assert(import_names.names() =~= Set::empty());
        assert(program::z_pairs(user_imports@) =~= Seq::empty());
        let mut i: usize = 0;
        while i < program.len()
            invariant
                i <= program@.len(),
                p == program@,
                ia_view(self.import_aliases) == program::zpass1_from(ia_start, al_start, p.subrange(0, i as int)).ia,
                al_view(self.aliases) == program::zpass1_from(ia_start, al_start, p.subrange(0, i as int)).al,
                import_names.names() == program::zpass1_from(ia_start, al_start, p.subrange(0, i as int)).names,
                program::z_pairs(user_imports@) == program::zpass1_from(ia_start, al_start, p.subrange(0, i as int)).users,
                views(self.imports@) == imports0 + program::zpass1_from(ia_start, al_start, p.subrange(0, i as int)).imports,
                self.catch_err_vars == old(self).catch_err_vars,
                self.allocating_fns == old(self).allocating_fns,
            decreases program@.len() - i,
        {
            let ghost pre = p.subrange(0, i as int);
            let ghost q = program::zpass1_from(ia_start, al_start, pre);
            assert(p.subrange(0, i + 1).drop_last() =~= pre);
            assert(p.subrange(0, i + 1).last() == p[i as int]);
            let ghost ia0 = ia_view(self.import_aliases);
            let ghost al0 = al_view(self.aliases);
            let ghost names0 = import_names.names();
            let ghost users0 = user_imports@;
            let ghost imps = self.imports@;
            if let TopLevel::ConstDecl { name, value, .. } = &program[i] {
                if let ExprKind::Import(module) = &value.kind {
                    self.imports.push(module.clone());
                    import_names.insert(name.clone());
                    self.import_aliases.insert(name.clone(), module.clone());
                    assert(ia_view(self.import_aliases) =~= ia0.insert(name@, module@));
                    assert(views(self.imports@) =~= views(imps).push(module@));
                    if !self.is_std_module(module.as_str()) {
                        user_imports.push((name.clone(), Self::zy_to_zig_path(module.as_str())));
                    }
                    assert(program::z_pairs(user_imports@) =~= program::zpass1_from(ia_start, al_start,
                        p.subrange(0, i + 1)).users);
                }
                if let ExprKind::MemberAccess { obj, prop } = &value.kind {
                    if let ExprKind::Var(module) = &obj.kind {
                        let resolved = self.resolve_module(module.as_str());
                        self.aliases.insert(name.clone(), (resolved, prop.clone()));
                        assert(al_view(self.aliases) =~= al0.insert(name@, (resolved@, prop@)));
                    }
                }
                if let ExprKind::Var(src) = &value.kind {
                    let m: Option<String> = match self.import_aliases.get(src.as_str()) {
                        Some(m) => Some(m.clone()),
                        None => None,
                    };
                    if let Some(module) = m {
                        self.import_aliases.insert(name.clone(), module);
                        import_names.insert(name.clone());
                        assert(ia_view(self.import_aliases) =~= ia0.insert(name@, ia0[src@]));
                    } else {
                        let a: Option<(String, String)> = match self.aliases.get(src.as_str()) {
                            Some(p) => Some((p.0.clone(), p.1.clone())),
                            None => None,
                        };
                        if let Some(resolved) = a {
                            self.aliases.insert(name.clone(), resolved);
                            assert(al_view(self.aliases) =~= al0.insert(name@, al0[src@]));
                        }
                    }
                }
            }
            i += 1;
        }
        assert(p.subrange(0, p.len() as int) =~= p);
        (import_names, user_imports)
    }

    /// Pass 2: the top-level constants and statements of the implicit main.
    fn main_items<'a>(&self, program: &'a Program, import_names: &StrSet, hoisted: &StrSet) -> (r: Vec<BodyItem<'a>>)
        ensures
            ({
                let items = program::z_main_items(import_names.names(), al_view(self.aliases), hoisted.names(), program@);
                &&& r@.len() == items.len()
                &&& forall|k: int| 0 <= k < items.len() ==> program::z_body_item_is(r@[k], #[trigger] items[k])
            }),
    {
        let ghost p = program@;
        let ghost names = import_names.names();
        let ghost al = al_view(self.aliases);
        let ghost h = hoisted.names();
        let mut body: Vec<BodyItem> = Vec::new();
        let mut i: usize = 0;
        while i < program.len()
            invariant
                i <= program@.len(),
                p == program@,
                names == import_names.names(),
                al == al_view(self.aliases),
                h == hoisted.names(),
                body@.len() == program::z_main_items(names, al, h, p.subrange(0, i as int)).len(),
                forall|k: int| 0 <= k < body@.len() ==> program::z_body_item_is(body@[k],
                    #[trigger] program::z_main_items(names, al, h, p.subrange(0, i as int))[k]),
            decreases program@.len() - i,
        {
            let ghost pre = p.subrange(0, i as int);
            let ghost before = body@;
            assert(p.subrange(0, i + 1).drop_last() =~= pre);
            assert(p.subrange(0, i + 1).last() == p[i as int]);
            let ghost items0 = program::z_main_items(names, al, h, pre);
            let ghost items1 = program::z_main_items(names, al, h, p.subrange(0, i + 1));
            match &program[i] {
                TopLevel::ConstDecl { name, value, .. } => {
                    let is_import = matches!(&value.kind, ExprKind::Import(_));
                    let is_module_alias = match &value.kind {
                        ExprKind::MemberAccess { obj, .. } => match &obj.kind {
                            ExprKind::Var(m) => import_names.contains(m.as_str())
                                || self.aliases.contains_key(m.as_str()),
                            _ => false,
                        },
                        _ => false,
                    };
                    let is_var_alias = match &value.kind {
                        ExprKind::Var(src) => self.aliases.contains_key(src.as_str())
                            || import_names.contains(src.as_str()),
                        _ => false,
                    };
                    assert((is_import || is_module_alias || is_var_alias) == program::z_is_alias_const(names, al, *value));
                    if !is_import && !is_module_alias && !is_var_alias && !hoisted.contains(name.as_str()) {
                        body.push(BodyItem::Const(name, value));
                        assert forall|k: int| 0 <= k < body@.len() implies program::z_body_item_is(body@[k],
                            #[trigger] items1[k]) by {
                            if k < before.len() {
                                assert(body@[k] == before[k]);
                                assert(items1[k] == items0[k]);
                            }
                        }
                    } else {
                        assert(items1 =~= items0);
                    }
                },
                TopLevel::Stmt(stmt) => {
                    body.push(BodyItem::Stmt(stmt));
                    assert forall|k: int| 0 <= k < body@.len() implies program::z_body_item_is(body@[k],
                        #[trigger] items1[k]) by {
                        if k < before.len() {
                            assert(body@[k] == before[k]);
                            assert(items1[k] == items0[k]);
                        }
                    }
                },
                _ => {
                    assert(items1 =~= items0);
                },
            }
            i += 1;
        }
        assert(p.subrange(0, p.len() as int) =~= p);
        body
    }

    /// The import lines: std's when it is needed, then the other modules'.
    fn header(needs_std: bool, user_imports: &Vec<(String, String)>) -> (r: String)
        ensures
            r@ == (if needs_std { program::z_std_lines() } else { Seq::empty() })
                + program::z_user_lines(program::z_pairs(user_imports@))
                + (if needs_std || user_imports@.len() > 0 { "\n"@ } else { Seq::empty() }),
    {
        let mut out = String::new();
        if needs_std {
            push_str(&mut out, "const std = @import(\"std\");\n");
            push_str(&mut out, "const __zyre_runtime = @import(\"zyre_runtime.zig\");\n");
            push_str(&mut out, "const __zyre_std_debug = @import(\"zyre_std_debug.zig\");\n");
            push_str(&mut out, "const __zyre_std_fs = @import(\"zyre_std_fs.zig\");\n");
        }
        let ghost base = out@;
        proof {
            assert(base =~= (if needs_std { program::z_std_lines() } else { Seq::empty() }));
        }
        let ghost us = program::z_pairs(user_imports@);
        let mut i: usize = 0;
        while i < user_imports.len()
            invariant
                i <= user_imports@.len(),
                us == program::z_pairs(user_imports@),
                out@ == base + program::z_user_lines(us.subrange(0, i as int)),
            decreases user_imports@.len() - i,
        {
            let line = join_all(vec![
                "const ", user_imports[i].0.as_str(), " = @import(\"", user_imports[i].1.as_str(), "\");\n",
            ]);
            proof {
                reveal_with_fuel(crate::strs::concat_all, 6);
                assert(us.subrange(0, i + 1).drop_last() =~= us.subrange(0, i as int));
            }
            push_str(&mut out, line.as_str());
            i += 1;
        }
        assert(us.subrange(0, us.len() as int) =~= us);
        if needs_std || user_imports.len() > 0 {
            push_str(&mut out, "\n");
        }
        proof {
            reveal_strlit("");
        }
        out
    }

    /// The hoisted constants not bound to a module, in declaration order, and
    /// a blank line after them if there are any.
    fn hoisted_consts(&mut self, program: &Program, hoisted: &StrSet, import_names: &StrSet) -> (r: String)
        ensures
            z_keeps(*old(self), *final(self)),
            ({
                let t = program::z_hoist_text(old(self).ctx(), old(self).catch_err_vars.names(), program@,
                    hoisted.names(), import_names.names());
                &&& r@ == t.0 + (if exists|x: Seq<char>| hoisted.names().contains(x) && !import_names.names().contains(x) {
                    "\n"@
                } else {
                    Seq::empty()
                })
                &&& final(self).catch_err_vars.names() == t.1
            }),
    {
        let ghost p = program@;
        let ghost c = self.ctx();
        let ghost st = self.catch_err_vars.names();
        let ghost h = hoisted.names();
        let ghost names = import_names.names();
        let mut out = String::new();
        let mut i: usize = 0;
        while i < program.len()
            invariant
                i <= program@.len(),
                p == program@,
                z_keeps(*old(self), *self),
                c == old(self).ctx(),
                st == old(self).catch_err_vars.names(),
                h == hoisted.names(),
                names == import_names.names(),
                out@ == program::z_hoist_text(c, st, p.subrange(0, i as int), h, names).0,
                self.catch_err_vars.names() == program::z_hoist_text(c, st, p.subrange(0, i as int), h, names).1,
            decreases program@.len() - i,
        {
            assert(p.subrange(0, i + 1).drop_last() =~= p.subrange(0, i as int));
            assert(p.subrange(0, i + 1).last() == p[i as int]);
            if let TopLevel::ConstDecl { name, value, exported, .. } = &program[i] {
                if hoisted.contains(name.as_str()) && !import_names.contains(name.as_str()) {
                    let v = self.gen_expr(value);
                    proof {
                        reveal_with_fuel(crate::strs::concat_all, 7);
                        reveal_strlit("");
                    }
                    let line = join_all(vec![
                        if *exported { "pub " } else { "" }, "const ", name.as_str(), " = ", v.as_str(), ";\n",
                    ]);
                    push_str(&mut out, line.as_str());
                }
            }
            i += 1;
        }
        assert(p.subrange(0, p.len() as int) =~= p);
        let mut any_hoisted = false;
        let mut k: usize = 0;
        while k < hoisted.items.len()
            invariant
                k <= hoisted.items@.len(),
                names == import_names.names(),
                any_hoisted == exists|j: int| 0 <= j < k && !names.contains(#[trigger] hoisted.items@[j]@),
            decreases hoisted.items@.len() - k,
        {
            if !import_names.contains(hoisted.items[k].as_str()) {
                any_hoisted = true;
            }
            k += 1;
        }
        proof {
            if any_hoisted {
                let j = choose|j: int| 0 <= j < hoisted.items@.len() && !names.contains(#[trigger] hoisted.items@[j]@);
                assert(h.contains(hoisted.items@[j]@));
            } else {
                assert forall|x: Seq<char>| !(h.contains(x) && !names.contains(x)) by {
                    if h.contains(x) {
                        let j = choose|j: int| 0 <= j < hoisted.items@.len() && hoisted.items@[j]@ == x;
                        assert(!names.contains(hoisted.items@[j]@) ==> false);
                    }
                }
            }
        }
        if any_hoisted {
            push_str(&mut out, "\n");
        }
        proof {
            reveal_strlit("");
        }
        out
    }

    /// A struct declaration.
    fn struct_text(name: &String, fields: &Vec<StructField>, exported: bool) -> (r: String)
        ensures
            r@ == program::z_pub(exported) + "const "@ + name@ + " = struct {\n"@ + program::z_fields(fields@) + "};\n\n"@,
    {
        proof {
            reveal_with_fuel(crate::strs::concat_all, 5);
            reveal_strlit("");
        }
        let mut out = join_all(vec![if exported { "pub " } else { "" }, "const ", name.as_str(), " = struct {\n"]);
        let ghost base = out@;
        let mut k: usize = 0;
        while k < fields.len()
            invariant
                k <= fields@.len(),
                out@ == base + program::z_fields(fields@.subrange(0, k as int)),
            decreases fields@.len() - k,
        {
            let t = Self::gen_type(&fields[k].ty);
            proof {
                reveal_with_fuel(crate::strs::concat_all, 6);
                assert(fields@.subrange(0, k + 1).drop_last() =~= fields@.subrange(0, k as int));
            }
            let line = join_all(vec!["    ", fields[k].name.as_str(), ": ", t.as_str(), ",\n"]);
            push_str(&mut out, line.as_str());
            k += 1;
        }
        assert(fields@.subrange(0, fields@.len() as int) =~= fields@);
        push_str(&mut out, "};\n\n");
        out
    }

    /// An enum declaration.
    fn enum_text(name: &String, variants: &Vec<String>, exported: bool) -> (r: String)
        ensures
            r@ == program::z_pub(exported) + "const "@ + name@ + " = enum {\n"@ + program::z_variants(variants@) + "};\n\n"@,
    {
        proof {
            reveal_with_fuel(crate::strs::concat_all, 5);
            reveal_strlit("");
        }
        let mut out = join_all(vec![if exported { "pub " } else { "" }, "const ", name.as_str(), " = enum {\n"]);
        let ghost base = out@;
        let mut k: usize = 0;
        while k < variants.len()
            invariant
                k <= variants@.len(),
                out@ == base + program::z_variants(variants@.subrange(0, k as int)),
            decreases variants@.len() - k,
        {
            proof {
                reveal_with_fuel(crate::strs::concat_all, 4);
                assert(variants@.subrange(0, k + 1).drop_last() =~= variants@.subrange(0, k as int));
            }
            let line = join_all(vec!["    ", variants[k].as_str(), ",\n"]);
            push_str(&mut out, line.as_str());
            k += 1;
        }
        assert(variants@.subrange(0, variants@.len() as int) =~= variants@);
        push_str(&mut out, "};\n\n");
        out
    }

    /// The structs, enums and functions, in declaration order.
    #[verifier::rlimit(40)]
    fn decls(&mut self, program: &Program) -> (r: String)
        ensures
            z_keeps(*old(self), *final(self)),
            r@ == program::z_decls(old(self).ctx(), old(self).catch_err_vars.names(), program@).0,
            final(self).catch_err_vars.names() == program::z_decls(old(self).ctx(), old(self).catch_err_vars.names(), program@).1,
    {
        let ghost p = program@;
        let ghost c = self.ctx();
        let ghost st = self.catch_err_vars.names();
        let mut out = String::new();
        let mut i: usize = 0;
        while i < program.len()
            invariant
                i <= program@.len(),
                p == program@,
                z_keeps(*old(self), *self),
                c == old(self).ctx(),
                st == old(self).catch_err_vars.names(),
                out@ == program::z_decls(c, st, p.subrange(0, i as int)).0,
                self.catch_err_vars.names() == program::z_decls(c, st, p.subrange(0, i as int)).1,
            decreases program@.len() - i,
        {
            assert(p.subrange(0, i + 1).drop_last() =~= p.subrange(0, i as int));
            assert(p.subrange(0, i + 1).last() == p[i as int]);
            match &program[i] {
                TopLevel::StructDecl { name, fields, exported } => {
                    let t = Self::struct_text(name, fields, *exported);
                    push_str(&mut out, t.as_str());
                },
                TopLevel::EnumDecl { name, variants, exported } => {
                    let t = Self::enum_text(name, variants, *exported);
                    push_str(&mut out, t.as_str());
                },
                TopLevel::FnDecl(f) => {
                    let s = self.gen_fn(f);
                    push_str(&mut out, s.as_str());
                    push_str(&mut out, "\n");
                },
                // ConstDecl and Stmt were already collected in pass 2
                _ => {},
            }
            i += 1;
        }
        assert(p.subrange(0, p.len() as int) =~= p);
        out
    }

    /// The implicit main holding the top-level code, if there is any.
    fn implicit_main(&mut self, body: &Vec<BodyItem>, Ghost(items): Ghost<Seq<TopLevel>>) -> (r: String)
        requires
            body@.len() == items.len(),
            forall|k: int| 0 <= k < items.len() ==> program::z_body_item_is(body@[k], #[trigger] items[k]),
        ensures
            z_keeps(*old(self), *final(self)),
            ({
                let c = old(self).ctx();
                let t = program::z_main_text(c, old(self).catch_err_vars.names(), items);
                &&& r@ == if items.len() > 0 {
                    "pub fn main() !void {\n"@ + "    try __zyre_runtime.Output.init();\n"@
                        + "    defer __zyre_runtime.Output.restore();\n"@
                        + program::z_arena(exists|k: int| 0 <= k < items.len() && program::z_item_alloc(c, #[trigger] items[k]))
                        + t.0 + "}\n"@
                } else {
                    Seq::empty()
                }
                &&& final(self).catch_err_vars.names() == if items.len() > 0 { t.1 } else { old(self).catch_err_vars.names() }
            }),
    {
        let ghost c = self.ctx();
        let ghost st = self.catch_err_vars.names();
        let mut out = String::new();
        if body.len() > 0 {
            let needs_alloc = self.body_uses_allocator(body, Ghost(items));
            push_str(&mut out, "pub fn main() !void {\n");
            push_str(&mut out, "    try __zyre_runtime.Output.init();\n");
            push_str(&mut out, "    defer __zyre_runtime.Output.restore();\n");
            let setup = Self::gen_arena_setup(needs_alloc);
            push_str(&mut out, setup.as_str());
            let ghost base = out@;
            let mut i: usize = 0;
            while i < body.len()
                invariant
                    i <= body@.len(),
                    body@.len() == items.len(),
                    forall|k: int| 0 <= k < items.len() ==> program::z_body_item_is(body@[k], #[trigger] items[k]),
                    z_keeps(*old(self), *self),
                    c == old(self).ctx(),
                    st == old(self).catch_err_vars.names(),
                    out@ == base + program::z_main_text(c, st, items.subrange(0, i as int)).0,
                    self.catch_err_vars.names() == program::z_main_text(c, st, items.subrange(0, i as int)).1,
                decreases body@.len() - i,
            {
                assert(items.subrange(0, i + 1).drop_last() =~= items.subrange(0, i as int));
                assert(items.subrange(0, i + 1).last() == items[i as int]);
                assert(program::z_body_item_is(body@[i as int], items[i as int]));
                match &body[i] {
                    BodyItem::Const(name, value) => {
                        let v = self.gen_expr(value);
                        proof {
                            reveal_with_fuel(crate::strs::concat_all, 6);
                        }
                        let line = join_all(vec!["    const ", name.as_str(), " = ", v.as_str(), ";\n"]);
                        push_str(&mut out, line.as_str());
                    },
                    BodyItem::Stmt(s) => {
                        let line = self.gen_stmt(s, 1);
                        push_str(&mut out, line.as_str());
                    },
                }
                i += 1;
            }
            assert(items.subrange(0, items.len() as int) =~= items);
            push_str(&mut out, "}\n");
        }
        out
    }

    /// The Zig module of a program. A back end that generated before starts
    /// from the aliases, allocating functions and `catch` variables it holds
    /// (`zig_program_from`); a fresh one gives `zig_program`. It is left
    /// holding the program's aliases and allocating functions.
    pub fn gen_program(&mut self, program: &Program) -> (r: String)
        ensures
            ({
                let ia0 = ia_view(old(self).import_aliases);
                let al0 = al_view(old(self).aliases);
                let c = program::z_ctx_from(ia0, al0, old(self).allocating_fns.names(), program@);
                &&& r@ == program::zig_program_from(ia0, al0, old(self).allocating_fns.names(),
                    old(self).catch_err_vars.names(), program@)
                &&& ia_view(final(self).import_aliases) == c.ia
                &&& al_view(final(self).aliases) == c.al
                &&& final(self).allocating_fns.names() == c.alloc
                &&& views(final(self).imports@) == views(old(self).imports@)
                    + program::zpass1_from(ia0, al0, program@).imports
            }),
            program::z_fresh(*old(self)) ==> r@ == program::zig_program(program@),
    {
        let ghost fresh = program::z_fresh(*self);
        let ghost p = program@;
        let ghost ia0 = ia_view(self.import_aliases);
        let ghost al0 = al_view(self.aliases);
        let ghost alloc0 = self.allocating_fns.names();
        let ghost st0 = self.catch_err_vars.names();
        proof {
            if fresh {
                assert(ia0 =~= Map::empty());
                assert(al0 =~= Map::empty());
                assert(alloc0 =~= Set::empty());
                assert(st0 =~= Set::empty());
            }
        }
        // Pass 1: collect import names and aliases (must run before allocating_fns detection)
        let (import_names, user_imports) = self.first_pass(program);
        proof {
            if fresh {
                assert(self.allocating_fns.names() =~= Set::empty());
                assert(self.catch_err_vars.names() =~= Set::empty());
            }
        }
        // Detect allocating_fns after alias collection (to correctly detect readTextFile via aliases)
        self.allocating_fns = self.collect_allocating_fns(program);
        let ghost c = self.ctx();
        let ghost imports1 = self.imports@;
        // Hoisting: collect export const and their dependencies
        let hoisted = Self::collect_hoisted(program);
        // Pass 2: collect the statements of the implicit main
        let body = self.main_items(program, &import_names, &hoisted);
        let ghost items = program::z_main_items(import_names.names(), al_view(self.aliases), hoisted.names(), p);
        // implicit main uses std.heap, so std is required
        let needs_std = self.program_uses_std(program) || body.len() > 0;
        let mut out = Self::header(needs_std, &user_imports);
        let s = self.hoisted_consts(program, &hoisted, &import_names);
        push_str(&mut out, s.as_str());
        let s = self.decls(program);
        push_str(&mut out, s.as_str());
        let s = self.implicit_main(&body, Ghost(items));
        push_str(&mut out, s.as_str());
        proof {
            assert(c == program::z_ctx_from(ia0, al0, alloc0, p));
            reveal_strlit("");
            assert(out@ =~= program::zig_program_from(ia0, al0, alloc0, st0, p));
        }
        out
    }

    pub(crate) fn gen_type(ty: &TypeExpr) -> (r: String)
        ensures
            r@ == spec_gen_type(*ty),
        decreases ty,
    {
        match ty {
            TypeExpr::Name(name) => {
                if str_eq(name.as_str(), "string") {
                    to_string("[]const u8")
                } else {
                    name.clone()
                }
            },
            TypeExpr::Array(inner, n) => {
                let d = u64_to_string(*n);
                let t = Self::gen_type(inner);
                let r = join_all(vec!["[", d.as_str(), "]", t.as_str()]);
                proof {
                    reveal_with_fuel(crate::strs::concat_all, 5);
                }
                r
            },
            TypeExpr::Optional(inner) => {
                let t = Self::gen_type(inner);
                cat2("?", t.as_str())
            },
            TypeExpr::ErrorUnion(None, inner) => {
                let t = Self::gen_type(inner);
                cat2("!", t.as_str())
            },
            TypeExpr::ErrorUnion(Some(e), inner) => {
                let a = Self::gen_type(e);
                let b = Self::gen_type(inner);
                cat3(a.as_str(), "!", b.as_str())
            },
        }
    }

    fn gen_fn(&mut self, f: &FnDecl) -> (r: String)
        ensures
            z_keeps(*old(self), *final(self)),
            r@ == zfn(old(self).ctx(), old(self).catch_err_vars.names(), *f).0,
            final(self).catch_err_vars.names() == zfn(old(self).ctx(), old(self).catch_err_vars.names(), *f).1,
    {
        let ghost c = self.ctx();
        let ghost st = self.catch_err_vars.names();
        let mut params: Vec<String> = Vec::new();
        let needs_alloc = self.allocating_fns.contains(f.name.as_str());
        if needs_alloc {
            params.push(to_string("__zyre_allocator: std.mem.Allocator"));
        }
        let ghost lead = views(params@);
        let ghost ps = Seq::new(f.params@.len(), |i: int| text::z_param(f.params@[i]));
        let mut k: usize = 0;
        while k < f.params.len()
            invariant
                k <= f.params@.len(),
                ps == Seq::new(f.params@.len(), |i: int| text::z_param(f.params@[i])),
                views(params@) == lead + ps.subrange(0, k as int),
            decreases f.params@.len() - k,
        {
            let t = Self::gen_type(&f.params[k].1);
            let one = join_all(vec![f.params[k].0.as_str(), ": ", t.as_str()]);
            proof {
                reveal_with_fuel(crate::strs::concat_all, 4);
            }
            assert(one@ =~= text::z_param(f.params@[k as int]));
            let ghost before = params@;
            params.push(one);
            assert(views(params@) =~= views(before).push(one@));
            assert(lead + ps.subrange(0, k + 1) =~= lead + ps.subrange(0, k as int) + seq![ps[k as int]]);
            k += 1;
        }
        proof {
            reveal_strlit("__zyre_allocator: std.mem.Allocator");
            assert(ps.subrange(0, f.params@.len() as int) =~= ps);
            assert(views(params@) =~= text::z_params(c.alloc.contains(f.name@), f.params@));
        }
        let params_str = crate::strs::join_strings(&params, ", ");
        let ret = Self::gen_type(&f.ret);
        // "main" is reserved for the implicit entry point in Zig; mangle user-defined fn main
        let zig_name = if str_eq(f.name.as_str(), "main") { "__zyre_fn_main" } else { f.name.as_str() };
        proof {
            reveal_with_fuel(crate::strs::concat_all, 9);
            reveal_strlit("pub ");
            reveal_strlit("");
        }
        let head = join_all(vec![
            if f.exported { "pub " } else { "" }, "fn ", zig_name, "(", params_str.as_str(), ") ",
            ret.as_str(), " {\n",
        ]);
        let b = self.gen_block(&f.body, 1);
        let mut out = head;
        push_str(&mut out, b.as_str());
        push_str(&mut out, "}\n");
        assert(out@ =~= zfn(c, st, *f).0);
        out
    }

    fn gen_arena_setup(needs_alloc: bool) -> (r: String)
        ensures
            r@ == "    var __zyre_arena = std.heap.ArenaAllocator.init(std.heap.page_allocator);\n"@
                + "    defer __zyre_arena.deinit();\n"@
                + "    const __zyre_allocator = __zyre_arena.allocator();\n"@
                + (if needs_alloc { Seq::empty() } else { "    _ = __zyre_allocator;\n"@ }) + "\n"@,
    {
        let mut s = String::new();
        push_str(&mut s, "    var __zyre_arena = std.heap.ArenaAllocator.init(std.heap.page_allocator);\n");
        push_str(&mut s, "    defer __zyre_arena.deinit();\n");
        push_str(&mut s, "    const __zyre_allocator = __zyre_arena.allocator();\n");
        let ghost base = s@;
        if !needs_alloc {
            push_str(&mut s, "    _ = __zyre_allocator;\n");
        }
        push_str(&mut s, "\n");
        proof {
            if needs_alloc {
                assert(base + Seq::<char>::empty() =~= base);
            }
        }
        s
    }

    fn indent(level: usize) -> (r: String)
        ensures
            r@ == spec_indent(level as nat),
    {
        let mut s = String::new();
        let mut i: usize = 0;
        while i < level
            invariant
                i <= level,
                s@ == spec_indent(i as nat),
            decreases level - i,
        {
            push_str(&mut s, "    ");
            i += 1;
        }
        s
    }

    fn gen_type_annotation(ty: &Option<TypeExpr>) -> (r: String)
        ensures
            r@ == match *ty {
                Some(t) => ": "@ + spec_gen_type(t),
                None => Seq::empty(),
            },
    {
        match ty {
            Some(t) => {
                let g = Self::gen_type(t);
                cat2(": ", g.as_str())
            },
            None => String::new(),
        }
    }

    #[verifier::loop_isolation(false)]
    fn gen_cond_block(&mut self, keyword: &str, cond: &Expr, body: &Vec<Stmt>, level: usize,
        Ghost(parent): Ghost<&Stmt>) -> (r: String)
        requires
            decreases_to!(*parent => *cond),
            decreases_to!(*parent => *body),
            level < usize::MAX,
        ensures
            z_keeps(*old(self), *final(self)),
            ({
                let x = zx(old(self).ctx(), old(self).catch_err_vars.names(), *cond);
                let b = zss(old(self).ctx(), x.1, body@, level + 1);
                &&& r@ == spec_indent(level as nat) + keyword@ + " ("@ + x.0 + ") {\n"@ + b.0
                    + spec_indent(level as nat) + "}\n"@
                &&& final(self).catch_err_vars.names() == b.1
            }),
        decreases parent, 4int,
    {
        let ind = Self::indent(level);
        let cond_s = self.gen_expr(cond);
        let head = join_all(vec![ind.as_str(), keyword, " (", cond_s.as_str(), ") {\n"]);
        let b = self.gen_block(body, level + 1);
        let close = cat2(ind.as_str(), "}\n");
        let mut out = head;
        push_str(&mut out, b.as_str());
        push_str(&mut out, close.as_str());
        proof {
            reveal_with_fuel(crate::strs::concat_all, 6);
        }
        out
    }

    #[verifier::loop_isolation(false)]
    #[verifier::rlimit(30)]
    pub(crate) fn gen_stmt(&mut self, stmt: &Stmt, level: usize) -> (r: String)
        ensures
            z_keeps(*old(self), *final(self)),
            r@ == zs(old(self).ctx(), old(self).catch_err_vars.names(), *stmt, level as int).0,
            final(self).catch_err_vars.names() == zs(old(self).ctx(), old(self).catch_err_vars.names(), *stmt, level as int).1,
        decreases stmt, 5int,
    {
        let ghost c = self.ctx();
        let ghost st = self.catch_err_vars.names();
        let level = if level < usize::MAX - 1 { level } else { usize::MAX - 2 };
        let ind = Self::indent(level);
        proof {
            reveal_with_fuel(crate::strs::concat_all, 8);
        }
        match &stmt.kind {
            StmtKind::ConstDecl { name, ty, value } => {
                let a = Self::gen_type_annotation(ty);
                let v = self.gen_expr(value);
                let out = join_all(vec![ind.as_str(), "const ", name.as_str(), a.as_str(), " = ", v.as_str(), ";\n"]);
                assert(out@ =~= zs(c, st, *stmt, level as int).0);
                out
            },
            StmtKind::LetDecl { name, ty, value } => {
                let a = Self::gen_type_annotation(ty);
                let v = self.gen_expr(value);
                let out = join_all(vec![ind.as_str(), "var ", name.as_str(), a.as_str(), " = ", v.as_str(), ";\n"]);
                assert(out@ =~= zs(c, st, *stmt, level as int).0);
                out
            },
            StmtKind::Return(None) => cat2(ind.as_str(), "return;\n"),
            StmtKind::Return(Some(e)) => {
                let v = self.gen_expr(e);
                let out = join_all(vec![ind.as_str(), "return ", v.as_str(), ";\n"]);
                assert(out@ =~= zs(c, st, *stmt, level as int).0);
                out
            },
            StmtKind::Break => cat2(ind.as_str(), "break;\n"),
            StmtKind::Continue => cat2(ind.as_str(), "continue;\n"),
            StmtKind::If { cond, body, else_body } => {
                let s = self.gen_cond_block("if", cond, body, level, Ghost(stmt));
                proof {
                    reveal_strlit("if");
                }
                match else_body {
                    Some(else_stmts) => {
                        // remove the trailing newline of the if block
                        let v = crate::strs::chars_of(s.as_str());
                        let mut t = String::new();
                        let mut k: usize = 0;
                        while v.len() > 0 && k < v.len() - 1
                            invariant
                                k <= v@.len(),
                                v@ == s@,
                                v@.len() > 0 ==> k <= v@.len() - 1,
                                t@ == s@.subrange(0, k as int),
                            decreases v@.len() - k,
                        {
                            crate::strs::push_char(&mut t, v[k]);
                            k += 1;
                            assert(t@ =~= s@.subrange(0, k as int));
                        }
                        assert(t@ =~= s@.drop_last());
                        push_str(&mut t, " else {\n");
                        let e = self.gen_block(else_stmts, level + 1);
                        push_str(&mut t, e.as_str());
                        let close = cat2(ind.as_str(), "}\n");
                        push_str(&mut t, close.as_str());
                        assert(t@ =~= zs(c, st, *stmt, level as int).0);
                        t
                    },
                    None => {
                        assert(s@ =~= zs(c, st, *stmt, level as int).0);
                        s
                    },
                }
            },
            StmtKind::While { cond, body } => {
                let s = self.gen_cond_block("while", cond, body, level, Ghost(stmt));
                proof {
                    reveal_strlit("while");
                }
                assert(s@ =~= zs(c, st, *stmt, level as int).0);
                s
            },
            StmtKind::ExprStmt(e) => {
                let s = self.gen_expr(e);
                // switch as a statement does not take a trailing semicolon in Zig
                if matches!(&e.kind, ExprKind::Switch { .. }) {
                    let out = join_all(vec![ind.as_str(), s.as_str(), "\n"]);
                    assert(out@ =~= zs(c, st, *stmt, level as int).0);
                    out
                } else {
                    let out = join_all(vec![ind.as_str(), s.as_str(), ";\n"]);
                    assert(out@ =~= zs(c, st, *stmt, level as int).0);
                    out
                }
            },
        }
    }

    #[verifier::loop_isolation(false)]
    pub(crate) fn gen_args(&mut self, args: &Vec<Expr>) -> (r: Vec<String>)
        ensures
            z_keeps(*old(self), *final(self)),
            views(r@) == zxs(old(self).ctx(), old(self).catch_err_vars.names(), args@).0,
            final(self).catch_err_vars.names() == zxs(old(self).ctx(), old(self).catch_err_vars.names(), args@).1,
        decreases args, 1int,
    {
        let ghost c = self.ctx();
        let ghost st = self.catch_err_vars.names();
        let mut out: Vec<String> = Vec::new();
        let mut i: usize = 0;
        while i < args.len()
            invariant
                i <= args@.len(),
                z_keeps(*old(self), *self),
                c == old(self).ctx(),
                views(out@) == zxs(c, st, args@.subrange(0, i as int)).0,
                self.catch_err_vars.names() == zxs(c, st, args@.subrange(0, i as int)).1,
            decreases args@.len() - i,
        {
            assert(decreases_to!(*args => args[i as int]));
            let ghost before = out@;
            let x = self.gen_expr(&args[i]);
            out.push(x);
            proof {
                let u = args@.subrange(0, i + 1);
                assert(u.subrange(0, u.len() - 1) =~= args@.subrange(0, i as int));
                assert(u[u.len() - 1] == args@[i as int]);
                assert(views(out@) =~= views(before).push(out@.last()@));
            }
            i += 1;
        }
        assert(args@.subrange(0, args@.len() as int) =~= args@);
        out
    }

    /// The statements of a block at `level`, one after another.
    #[verifier::loop_isolation(false)]
    pub(crate) fn gen_block(&mut self, stmts: &Vec<Stmt>, level: usize) -> (r: String)
        ensures
            z_keeps(*old(self), *final(self)),
            r@ == zss(old(self).ctx(), old(self).catch_err_vars.names(), stmts@, level as int).0,
            final(self).catch_err_vars.names() == zss(old(self).ctx(), old(self).catch_err_vars.names(), stmts@, level as int).1,
        decreases stmts, 1int,
    {
        let ghost c = self.ctx();
        let ghost st = self.catch_err_vars.names();
        let mut out = String::new();
        let mut k: usize = 0;
        while k < stmts.len()
            invariant
                k <= stmts@.len(),
                z_keeps(*old(self), *self),
                c == old(self).ctx(),
                out@ == zss(c, st, stmts@.subrange(0, k as int), level as int).0,
                self.catch_err_vars.names() == zss(c, st, stmts@.subrange(0, k as int), level as int).1,
            decreases stmts@.len() - k,
        {
            assert(decreases_to!(*stmts => stmts[k as int]));
            let s = self.gen_stmt(&stmts[k], level);
            push_str(&mut out, s.as_str());
            proof {
                let u = stmts@.subrange(0, k + 1);
                assert(u.subrange(0, u.len() - 1) =~= stmts@.subrange(0, k as int));
                assert(u[u.len() - 1] == stmts@[k as int]);
            }
            k += 1;
        }
        assert(stmts@.subrange(0, stmts@.len() as int) =~= stmts@);
        out
    }

    /// One arm of a switch.
    pub(crate) fn gen_arm(&mut self, arm: &SwitchArm) -> (r: String)
        ensures
            z_keeps(*old(self), *final(self)),
            r@ == zarm(old(self).ctx(), old(self).catch_err_vars.names(), *arm).0,
            final(self).catch_err_vars.names() == zarm(old(self).ctx(), old(self).catch_err_vars.names(), *arm).1,
        decreases arm, 1int,
    {
        proof {
            reveal_with_fuel(crate::strs::concat_all, 4);
            reveal_strlit("else");
        }
        let pat = match &arm.pattern {
            SwitchPattern::Ident(s) => cat2(".", s.as_str()),
            SwitchPattern::Int(n) => i64_to_string(*n),
            SwitchPattern::Bool(b) => to_string(if *b { "true" } else { "false" }),
            SwitchPattern::Else => to_string("else"),
        };
        let body = match &arm.body {
            SwitchBody::Expr(e) => {
                let s = self.gen_expr(e);
                cat3(" => ", s.as_str(), ",\n")
            },
            SwitchBody::Block(stmts) => {
                let b = self.gen_block(stmts, 2);
                cat3(" => {\n", b.as_str(), "    },\n")
            },
        };
        join_all(vec!["    ", pat.as_str(), body.as_str()])
    }

    #[verifier::loop_isolation(false)]
    pub(crate) fn gen_expr(&mut self, expr: &Expr) -> (r: String)
        ensures
            z_keeps(*old(self), *final(self)),
            r@ == zx(old(self).ctx(), old(self).catch_err_vars.names(), *expr).0,
            final(self).catch_err_vars.names() == zx(old(self).ctx(), old(self).catch_err_vars.names(), *expr).1,
        decreases expr, 5int,
    {
        let ghost c = self.ctx();
        let ghost st = self.catch_err_vars.names();
        proof {
            reveal_with_fuel(crate::strs::concat_all, 9);
        }
        match &expr.kind {
            ExprKind::Var(name) => name.clone(),
            ExprKind::Str(s) => cat3("\"", s.as_str(), "\""),
            ExprKind::Int(n) => i64_to_string(*n),
            ExprKind::Float(f) => {
                if float_text_ok(f.as_str()) {
                    float_plain_text(f.as_str())
                } else {
                    f.clone()
                }
            },
            ExprKind::Bool(b) => to_string(if *b { "true" } else { "false" }),
            ExprKind::Import(m) => cat3("@import(\"", m.as_str(), "\")"),
            ExprKind::MemberAccess { obj, prop } => {
                let o = self.gen_expr(obj);
                cat3(o.as_str(), ".", prop.as_str())
            },
            ExprKind::Call { callee, args } => self.gen_call(callee, args, Ghost(expr)),
            ExprKind::BinOp { op, lhs, rhs } => {
                let l = self.gen_expr(lhs);
                let r = self.gen_expr(rhs);
                match op {
                    // Zig requires @rem for signed integer remainder (% only works on unsigned)
                    BinOp::Mod => {
                        let out = join_all(vec!["@rem(", l.as_str(), ", ", r.as_str(), ")"]);
                        assert(out@ =~= zx(c, st, *expr).0);
                        out
                    },
                    _ => {
                        let op_str = zig_binop(*op);
                        let out = join_all(vec!["(", l.as_str(), " ", op_str, " ", r.as_str(), ")"]);
                        assert(out@ =~= zx(c, st, *expr).0);
                        out
                    },
                }
            },
            ExprKind::UnOp { op, expr: inner } => {
                let op_str = match op {
                    UnOp::Neg => "-",
                    UnOp::Not => "!",
                };
                let e = self.gen_expr(inner);
                let out = join_all(vec!["(", op_str, e.as_str(), ")"]);
                proof {
                    reveal_strlit("-");
                    reveal_strlit("!");
                }
                assert(out@ =~= zx(c, st, *expr).0);
                out
            },
            ExprKind::ArrayLiteral(elems) => {
                let items = self.gen_args(elems);
                let joined = crate::strs::join_strings(&items, ", ");
                cat3(".{", joined.as_str(), "}")
            },
            ExprKind::Index { obj, idx } => {
                let o = self.gen_expr(obj);
                let i = self.gen_expr(idx);
                let out = join_all(vec![o.as_str(), "[", i.as_str(), "]"]);
                assert(out@ =~= zx(c, st, *expr).0);
                out
            },
            ExprKind::Propagate(e) => {
                let s = self.gen_expr(e);
                cat3("(try ", s.as_str(), ")")
            },
            ExprKind::Catch { expr: inner, err_name, body } => {
                let uses_err = Self::stmts_reference_var(body, err_name.as_str());
                let capture = if uses_err {
                    self.catch_err_vars.insert(err_name.clone());
                    cat3(" |", err_name.as_str(), "|")
                } else {
                    String::new()
                };
                let expr_s = self.gen_expr(inner);
                let head = join_all(vec![expr_s.as_str(), " catch", capture.as_str(), " {\n"]);
                let b = self.gen_block(body, 1);
                if uses_err {
                    self.catch_err_vars.remove(err_name.as_str());
                }
                let mut out = head;
                push_str(&mut out, b.as_str());
                push_str(&mut out, "}");
                assert(out@ =~= zx(c, st, *expr).0);
                out
            },
            ExprKind::Switch { expr: subject, arms } => {
                let expr_s = self.gen_expr(subject);
                let mut out = cat3("switch (", expr_s.as_str(), ") {\n");
                let ghost head = out@;
                let ghost st1 = self.catch_err_vars.names();
                let mut k: usize = 0;
                while k < arms.len()
                    invariant
                        k <= arms@.len(),
                        z_keeps(*old(self), *self),
                        c == old(self).ctx(),
                        out@ == head + zarms(c, st1, arms@.subrange(0, k as int)).0,
                        self.catch_err_vars.names() == zarms(c, st1, arms@.subrange(0, k as int)).1,
                    decreases arms@.len() - k,
                {
                    assert(decreases_to!(*arms => arms[k as int]));
                    let line = self.gen_arm(&arms[k]);
                    push_str(&mut out, line.as_str());
                    proof {
                        let u = arms@.subrange(0, k + 1);
                        assert(u.subrange(0, u.len() - 1) =~= arms@.subrange(0, k as int));
                        assert(u[u.len() - 1] == arms@[k as int]);
                        assert(out@ =~= head + zarms(c, st1, u).0);
                    }
                    k += 1;
                }
                assert(arms@.subrange(0, arms@.len() as int) =~= arms@);
                push_str(&mut out, "}");
                assert(out@ =~= zx(c, st, *expr).0);
                out
            },
            ExprKind::If { cond, then_, else_ } => {
                let x = self.gen_expr(cond);
                let t = self.gen_expr(then_);
                let e = self.gen_expr(else_);
                let out = join_all(vec!["if (", x.as_str(), ") ", t.as_str(), " else ", e.as_str()]);
                assert(out@ =~= zx(c, st, *expr).0);
                out
            },
        }
    }

    /// A call: to std, through an alias of a std namespace, or to a user function.
    #[verifier::loop_isolation(false)]
    fn gen_call(&mut self, callee: &Expr, args: &Vec<Expr>, Ghost(parent): Ghost<&Expr>) -> (r: String)
        requires
            parent.kind matches ExprKind::Call { callee: cl, args: a } && *cl == *callee && a == *args,
            decreases_to!(*parent => *callee),
            decreases_to!(*parent => *args),
        ensures
            z_keeps(*old(self), *final(self)),
            r@ == zx(old(self).ctx(), old(self).catch_err_vars.names(), *parent).0,
            final(self).catch_err_vars.names() == zx(old(self).ctx(), old(self).catch_err_vars.names(), *parent).1,
        decreases parent, 4int,
    {
        let ghost c = self.ctx();
        let ghost st = self.catch_err_vars.names();
        proof {
            reveal_strlit("std");
            reveal_strlit("");
            reveal_strlit("main");
            assert(""@ =~= Seq::<char>::empty());
        }
        if let ExprKind::MemberAccess { obj, prop } = &callee.kind {
            if let ExprKind::Var(module) = &obj.kind {
                if self.is_std_module(module.as_str()) {
                    return self.gen_std_call(prop.as_str(), args);
                }
            }
            if let ExprKind::MemberAccess { obj: inner_obj, prop: inner_prop } = &obj.kind {
                if let ExprKind::Var(module) = &inner_obj.kind {
                    if self.is_std_module(module.as_str()) {
                        return self.gen_std_ns_call(inner_prop.as_str(), prop.as_str(), args);
                    }
                }
            }
            if let ExprKind::Var(alias) = &obj.kind {
                let a: Option<(String, String)> = match self.aliases.get(alias.as_str()) {
                    Some(p) => Some((p.0.clone(), p.1.clone())),
                    None => None,
                };
                if let Some((module, ns)) = a {
                    if str_eq(module.as_str(), "std") && !str_eq(ns.as_str(), "") {
                        return self.gen_std_ns_call(ns.as_str(), prop.as_str(), args);
                    }
                }
            }
        }
        if let ExprKind::Var(name) = &callee.kind {
            let a: Option<(String, String)> = match self.aliases.get(name.as_str()) {
                Some(p) => Some((p.0.clone(), p.1.clone())),
                None => None,
            };
            if let Some((module, fn_name)) = a {
                if str_eq(module.as_str(), "std") {
                    return self.gen_std_call(fn_name.as_str(), args);
                }
            }
        }
        // Mangle calls to user-defined "main" to match the renamed fn
        let is_main = match &callee.kind {
            ExprKind::Var(n) => str_eq(n.as_str(), "main"),
            _ => false,
        };
        let callee_s = if is_main {
            to_string("__zyre_fn_main")
        } else {
            self.gen_expr(callee)
        };
        let mut args_str = self.gen_args(args);
        // Insert __zyre_allocator as the first argument when calling an allocating fn
        if self.is_allocating_call(callee) {
            let ghost before = args_str@;
            args_str.insert(0, to_string("__zyre_allocator"));
            proof {
                reveal_strlit("__zyre_allocator");
                assert(views(args_str@) =~= seq!["__zyre_allocator"@] + views(before));
            }
        }
        let joined = crate::strs::join_strings(&args_str, ", ");
        let out = join_all(vec![callee_s.as_str(), "(", joined.as_str(), ")"]);
        proof {
            reveal_with_fuel(crate::strs::concat_all, 5);
        }
        assert(out@ =~= zx(c, st, *parent).0);
        out
    }

    /// A variable named `var` is read somewhere in the statements.
    #[verifier::loop_isolation(false)]
    pub(crate) fn stmts_reference_var(stmts: &Vec<Stmt>, var: &str) -> (r: bool)
        ensures
            r == exists|i: int| 0 <= i < stmts@.len() && spec_stmt_refs(#[trigger] stmts@[i], var@),
        decreases stmts,
    {
        let mut i: usize = 0;
        while i < stmts.len()
            invariant
                i <= stmts@.len(),
                forall|j: int| 0 <= j < i ==> !spec_stmt_refs(#[trigger] stmts@[j], var@),
            decreases stmts@.len() - i,
        {
            assert(decreases_to!(*stmts => stmts[i as int]));
            if Self::stmt_references_var(&stmts[i], var) {
                return true;
            }
            i += 1;
        }
        false
    }

    fn stmt_references_var(stmt: &Stmt, var: &str) -> (r: bool)
        ensures
            r == spec_stmt_refs(*stmt, var@),
        decreases stmt,
    {
        match &stmt.kind {
            StmtKind::ConstDecl { value, .. } => Self::expr_references_var(value, var),
            StmtKind::LetDecl { value, .. } => Self::expr_references_var(value, var),
            StmtKind::Return(Some(e)) => Self::expr_references_var(e, var),
            StmtKind::If { cond, body, else_body } => {
                Self::expr_references_var(cond, var) || Self::stmts_reference_var(body, var) || match else_body {
                    Some(s) => Self::stmts_reference_var(s, var),
                    None => false,
                }
            },
            StmtKind::While { cond, body } => {
                Self::expr_references_var(cond, var) || Self::stmts_reference_var(body, var)
            },
            StmtKind::ExprStmt(e) => Self::expr_references_var(e, var),
            _ => false,
        }
    }

    #[verifier::loop_isolation(false)]
    fn expr_references_var(expr: &Expr, var: &str) -> (r: bool)
        ensures
            r == spec_expr_refs(*expr, var@),
        decreases expr,
    {
        match &expr.kind {
            ExprKind::Var(name) => str_eq(name.as_str(), var),
            ExprKind::Call { callee, args } => {
                if Self::expr_references_var(callee, var) {
                    return true;
                }
                let mut i: usize = 0;
                while i < args.len()
                    invariant
                        i <= args@.len(),
                        forall|j: int| 0 <= j < i ==> !spec_expr_refs(#[trigger] args@[j], var@),
                    decreases args@.len() - i,
                {
                    assert(decreases_to!(*args => args[i as int]));
                    if Self::expr_references_var(&args[i], var) {
                        return true;
                    }
                    i += 1;
                }
                false
            },
            ExprKind::MemberAccess { obj, .. } => Self::expr_references_var(obj, var),
            ExprKind::BinOp { lhs, rhs, .. } => {
                Self::expr_references_var(lhs, var) || Self::expr_references_var(rhs, var)
            },
            ExprKind::UnOp { expr, .. } => Self::expr_references_var(expr, var),
            ExprKind::Propagate(e) => Self::expr_references_var(e, var),
            ExprKind::Catch { expr, body, .. } => {
                Self::expr_references_var(expr, var) || Self::stmts_reference_var(body, var)
            },
            ExprKind::Switch { expr, arms } => {
                if Self::expr_references_var(expr, var) {
                    return true;
                }
                let mut i: usize = 0;
                while i < arms.len()
                    invariant
                        i <= arms@.len(),
                        forall|j: int| 0 <= j < i ==> !(match (#[trigger] arms@[j]).body {
                            SwitchBody::Expr(x) => spec_expr_refs(x, var@),
                            SwitchBody::Block(stmts) => exists|k: int| 0 <= k < stmts@.len()
                                && spec_stmt_refs(#[trigger] stmts@[k], var@),
                        }),
                    decreases arms@.len() - i,
                {
                    assert(decreases_to!(*arms => arms[i as int]));
                    let hit = match &arms[i].body {
                        SwitchBody::Expr(x) => Self::expr_references_var(x, var),
                        SwitchBody::Block(stmts) => Self::stmts_reference_var(stmts, var),
                    };
                    if hit {
                        return true;
                    }
                    i += 1;
                }
                false
            },
            ExprKind::ArrayLiteral(elems) => {
                let mut i: usize = 0;
                while i < elems.len()
                    invariant
                        i <= elems@.len(),
                        forall|j: int| 0 <= j < i ==> !spec_expr_refs(#[trigger] elems@[j], var@),
                    decreases elems@.len() - i,
                {
                    assert(decreases_to!(*elems => elems[i as int]));
                    if Self::expr_references_var(&elems[i], var) {
                        return true;
                    }
                    i += 1;
                }
                false
            },
            ExprKind::Index { obj, idx } => {
                Self::expr_references_var(obj, var) || Self::expr_references_var(idx, var)
            },
            ExprKind::If { cond, then_, else_ } => {
                Self::expr_references_var(cond, var) || Self::expr_references_var(then_, var)
                    || Self::expr_references_var(else_, var)
            },
            _ => false,
        }
    }
}

/// Zig spelling of a binary operator other than `%`.
pub fn zig_binop(op: BinOp) -> (r: &'static str)
    ensures
        r@ == text::z_binop(op),
{
    proof {
        reveal_strlit("+");
        reveal_strlit("-");
        reveal_strlit("*");
        reveal_strlit("/");
        reveal_strlit("%");
        reveal_strlit("==");
        reveal_strlit("!=");
        reveal_strlit("<");
        reveal_strlit(">");
        reveal_strlit("<=");
        reveal_strlit(">=");
        reveal_strlit("and");
        reveal_strlit("or");
    }
    match op {
        BinOp::Add => "+",
        BinOp::Sub => "-",
        BinOp::Mul => "*",
        BinOp::Div => "/",
        BinOp::Mod => "%",
        BinOp::Eq => "==",
        BinOp::NotEq => "!=",
        BinOp::Lt => "<",
        BinOp::Gt => ">",
        BinOp::LtEq => "<=",
        BinOp::GtEq => ">=",
        BinOp::And => "and",
        BinOp::Or => "or",
    }
}

/// A variable named `var` is read in `e`.
pub open spec fn spec_expr_refs(e: Expr, var: Seq<char>) -> bool
    decreases e,
{
    match e.kind {
        ExprKind::Var(name) => name@ == var,
        ExprKind::Call { callee, args } => spec_expr_refs(*callee, var)
            || exists|i: int| 0 <= i < args@.len() && spec_expr_refs(#[trigger] args@[i], var),
        ExprKind::MemberAccess { obj, .. } => spec_expr_refs(*obj, var),
        ExprKind::BinOp { lhs, rhs, .. } => spec_expr_refs(*lhs, var) || spec_expr_refs(*rhs, var),
        ExprKind::UnOp { expr, .. } => spec_expr_refs(*expr, var),
        ExprKind::Propagate(x) => spec_expr_refs(*x, var),
        ExprKind::Catch { expr, body, .. } => spec_expr_refs(*expr, var)
            || exists|i: int| 0 <= i < body@.len() && spec_stmt_refs(#[trigger] body@[i], var),
        ExprKind::Switch { expr, arms } => spec_expr_refs(*expr, var)
            || exists|i: int| 0 <= i < arms@.len() && match (#[trigger] arms@[i]).body {
                SwitchBody::Expr(x) => spec_expr_refs(x, var),
                SwitchBody::Block(stmts) => exists|j: int| 0 <= j < stmts@.len()
                    && spec_stmt_refs(#[trigger] stmts@[j], var),
            },
        ExprKind::ArrayLiteral(elems) => exists|i: int| 0 <= i < elems@.len()
            && spec_expr_refs(#[trigger] elems@[i], var),
        ExprKind::Index { obj, idx } => spec_expr_refs(*obj, var) || spec_expr_refs(*idx, var),
        ExprKind::If { cond, then_, else_ } => spec_expr_refs(*cond, var)
            || spec_expr_refs(*then_, var) || spec_expr_refs(*else_, var),
        _ => false,
    }
}

/// A variable named `var` is read in statement `s`.
pub open spec fn spec_stmt_refs(s: Stmt, var: Seq<char>) -> bool
    decreases s,
{
    match s.kind {
        StmtKind::ConstDecl { value, .. } => spec_expr_refs(value, var),
        StmtKind::LetDecl { value, .. } => spec_expr_refs(value, var),
        StmtKind::Return(Some(e)) => spec_expr_refs(e, var),
        StmtKind::If { cond, body, else_body } => spec_expr_refs(cond, var)
            || (exists|i: int| 0 <= i < body@.len() && spec_stmt_refs(#[trigger] body@[i], var))
            || match else_body {
                Some(eb) => exists|i: int| 0 <= i < eb@.len() && spec_stmt_refs(#[trigger] eb@[i], var),
                None => false,
            },
        StmtKind::While { cond, body } => spec_expr_refs(cond, var)
            || exists|i: int| 0 <= i < body@.len() && spec_stmt_refs(#[trigger] body@[i], var),
        StmtKind::ExprStmt(e) => spec_expr_refs(e, var),
        _ => false,
    }
}

impl Backend for ZigBackend {
    fn generate(&mut self, program: &Program) -> (r: String)
        ensures
            r@ == program::zig_program_from(ia_view(old(self).import_aliases), al_view(old(self).aliases),
                old(self).allocating_fns.names(), old(self).catch_err_vars.names(), program@),
            program::z_fresh(*old(self)) ==> r@ == program::zig_program(program@),
    {
        self.gen_program(program)
    }
}

} // verus!
