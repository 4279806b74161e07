//! Calls into the std namespaces, and where an allocator is needed.
use vstd::prelude::*;
use crate::codegen::zig::ZigBackend;
use crate::parser::{Expr, ExprKind, Stmt, StmtKind, SwitchBody};
use crate::strs::{join_all, str_eq, to_string};
use super::text::{ZCtx, z_keeps, z_ns_call, z_print_call, z_std_call, zx, zxs};

pub mod fs;
pub use fs::z_fs_alloc;

verus! {

/// The callee is a variable naming a function that needs an allocator.
pub open spec fn z_alloc_call(c: ZCtx, callee: Expr) -> bool {
    match callee.kind {
        ExprKind::Var(name) => c.alloc.contains(name@),
        _ => false,
    }
}

pub open spec fn z_expr_alloc(c: ZCtx, e: Expr) -> bool
    decreases e,
{
    z_fs_alloc(c, e) || match e.kind {
        ExprKind::Call { callee, args } => z_alloc_call(c, *callee)
            || z_expr_alloc(c, *callee)
            || exists|i: int| 0 <= i < args@.len() && z_expr_alloc(c, #[trigger] args@[i]),
        ExprKind::MemberAccess { obj, .. } => z_expr_alloc(c, *obj),
        ExprKind::BinOp { lhs, rhs, .. } => z_expr_alloc(c, *lhs)
            || z_expr_alloc(c, *rhs),
        ExprKind::UnOp { expr, .. } => z_expr_alloc(c, *expr),
        ExprKind::Propagate(x) => z_expr_alloc(c, *x),
        ExprKind::Catch { expr, body, .. } => z_expr_alloc(c, *expr)
            || exists|i: int| 0 <= i < body@.len() && z_stmt_alloc(c, #[trigger] body@[i]),
        ExprKind::Switch { expr, arms } => z_expr_alloc(c, *expr)
            || exists|i: int| 0 <= i < arms@.len() && match (#[trigger] arms@[i]).body {
                SwitchBody::Expr(x) => z_expr_alloc(c, x),
                SwitchBody::Block(stmts) => exists|j: int| 0 <= j < stmts@.len()
                    && z_stmt_alloc(c, #[trigger] stmts@[j]),
            },
        ExprKind::ArrayLiteral(elems) => exists|i: int| 0 <= i < elems@.len()
            && z_expr_alloc(c, #[trigger] elems@[i]),
        ExprKind::Index { obj, idx } => z_expr_alloc(c, *obj)
            || z_expr_alloc(c, *idx),
        ExprKind::If { cond, then_, else_ } => z_expr_alloc(c, *cond)
            || z_expr_alloc(c, *then_) || z_expr_alloc(c, *else_),
        _ => false,
    }
}

pub open spec fn z_stmt_alloc(c: ZCtx, s: Stmt) -> bool
    decreases s,
{
    match s.kind {
        StmtKind::ConstDecl { value, .. } => z_expr_alloc(c, value),
        StmtKind::LetDecl { value, .. } => z_expr_alloc(c, value),
        StmtKind::Return(Some(e)) => z_expr_alloc(c, e),
        StmtKind::If { cond, body, else_body } => z_expr_alloc(c, cond)
            || (exists|i: int| 0 <= i < body@.len() && z_stmt_alloc(c, #[trigger] body@[i]))
            || match else_body {
                Some(eb) => exists|i: int| 0 <= i < eb@.len() && z_stmt_alloc(c, #[trigger] eb@[i]),
                None => false,
            },
        StmtKind::While { cond, body } => z_expr_alloc(c, cond)
            || exists|i: int| 0 <= i < body@.len() && z_stmt_alloc(c, #[trigger] body@[i]),
        StmtKind::ExprStmt(e) => z_expr_alloc(c, e),
        _ => false,
    }
}

pub open spec fn z_stmts_alloc(c: ZCtx, s: Seq<Stmt>) -> bool {
    exists|i: int| 0 <= i < s.len() && z_stmt_alloc(c, #[trigger] s[i])
}

impl ZigBackend {
    pub(crate) fn gen_print_call(&mut self, args: &Vec<Expr>) -> (r: String)
        ensures
            z_keeps(*old(self), *final(self)),
            ({
                let st = old(self).catch_err_vars.names();
                let first = if args@.len() > 0 { zx(old(self).ctx(), st, args@[0]) } else { (Seq::empty(), st) };
                &&& r@ == z_print_call(st, args@, first).0
                &&& final(self).catch_err_vars.names() == z_print_call(st, args@, first).1
            }),
        decreases args, 2int,
    {
        proof {
            reveal_with_fuel(crate::strs::concat_all, 4);
        }
        if args.len() > 0 {
            let arg = &args[0];
            assert(decreases_to!(*args => args[0]));
            // Error variables bound in a catch block are wrapped with @errorName
            let arg_s = match &arg.kind {
                ExprKind::Var(name) => {
                    if self.catch_err_vars.contains(name.as_str()) {
                        join_all(vec!["@errorName(", name.as_str(), ")"])
                    } else {
                        self.gen_expr(arg)
                    }
                },
                _ => self.gen_expr(arg),
            };
            join_all(vec!["__zyre_std_debug.print(", arg_s.as_str(), ")"])
        } else {
            to_string("__zyre_std_debug.print(\"\")")
        }
    }

    pub(crate) fn gen_std_call(&mut self, fn_name: &str, args: &Vec<Expr>) -> (r: String)
        ensures
            z_keeps(*old(self), *final(self)),
            r@ == z_std_call(fn_name@, zxs(old(self).ctx(), old(self).catch_err_vars.names(), args@)).0,
            final(self).catch_err_vars.names() == zxs(old(self).ctx(), old(self).catch_err_vars.names(), args@).1,
        decreases args, 2int,
    {
        let a = self.gen_args(args);
        let joined = crate::strs::join_strings(&a, ", ");
        let r = join_all(vec!["std.", fn_name, "(", joined.as_str(), ")"]);
        proof {
            reveal_with_fuel(crate::strs::concat_all, 6);
        }
        r
    }

    pub(crate) fn gen_std_ns_call(&mut self, ns: &str, fn_name: &str, args: &Vec<Expr>) -> (r: String)
        ensures
            z_keeps(*old(self), *final(self)),
            ({
                let st = old(self).catch_err_vars.names();
                let all = zxs(old(self).ctx(), st, args@);
                let first = if args@.len() > 0 { zx(old(self).ctx(), st, args@[0]) } else { (Seq::empty(), st) };
                &&& r@ == z_ns_call(st, ns@, fn_name@, args@, all, first).0
                &&& final(self).catch_err_vars.names() == z_ns_call(st, ns@, fn_name@, args@, all, first).1
            }),
        decreases args, 3int,
    {
        proof {
            reveal_strlit("debug");
            reveal_strlit("print");
            reveal_strlit("fs");
            reveal_with_fuel(crate::strs::concat_all, 8);
        }
        if str_eq(ns, "debug") {
            if str_eq(fn_name, "print") {
                self.gen_print_call(args)
            } else {
                let a = self.gen_args(args);
                let joined = crate::strs::join_strings(&a, ", ");
                join_all(vec!["std.debug.", fn_name, "(", joined.as_str(), ")"])
            }
        } else if str_eq(ns, "fs") {
            self.gen_fs_call(fn_name, args)
        } else {
            let a = self.gen_args(args);
            let joined = crate::strs::join_strings(&a, ", ");
            join_all(vec!["std.", ns, ".", fn_name, "(", joined.as_str(), ")"])
        }
    }

    /// Whether any statement needs an allocator.
    #[verifier::loop_isolation(false)]
    pub(crate) fn uses_allocator(&self, stmts: &Vec<Stmt>) -> (r: bool)
        ensures
            r == z_stmts_alloc(self.ctx(), stmts@),
        decreases stmts,
    {
        let mut i: usize = 0;
        while i < stmts.len()
            invariant
                i <= stmts@.len(),
                forall|j: int| 0 <= j < i ==> !z_stmt_alloc(self.ctx(), #[trigger] stmts@[j]),
            decreases stmts@.len() - i,
        {
            assert(decreases_to!(*stmts => stmts[i as int]));
            if self.stmt_uses_allocator(&stmts[i]) {
                return true;
            }
            i += 1;
        }
        false
    }

    pub(crate) fn stmt_uses_allocator(&self, stmt: &Stmt) -> (r: bool)
        ensures
            r == z_stmt_alloc(self.ctx(), *stmt),
        decreases stmt,
    {
        match &stmt.kind {
            StmtKind::ConstDecl { value, .. } => self.expr_uses_allocator(value),
            StmtKind::LetDecl { value, .. } => self.expr_uses_allocator(value),
            StmtKind::Return(Some(e)) => self.expr_uses_allocator(e),
            StmtKind::If { cond, body, else_body } => {
                self.expr_uses_allocator(cond) || self.uses_allocator(body) || match else_body {
                    Some(s) => self.uses_allocator(s),
                    None => false,
                }
            },
            StmtKind::While { cond, body } => self.expr_uses_allocator(cond) || self.uses_allocator(body),
            StmtKind::ExprStmt(e) => self.expr_uses_allocator(e),
            _ => false,
        }
    }

    pub(crate) fn is_allocating_call(&self, callee: &Expr) -> (r: bool)
        ensures
            r == z_alloc_call(self.ctx(), *callee),
    {
        if let ExprKind::Var(name) = &callee.kind {
            self.allocating_fns.contains(name.as_str())
        } else {
            false
        }
    }

    #[verifier::loop_isolation(false)]
    pub(crate) fn expr_uses_allocator(&self, expr: &Expr) -> (r: bool)
        ensures
            r == z_expr_alloc(self.ctx(), *expr),
        decreases expr,
    {
        // Query each namespace module
        if self.fs_expr_uses_allocator(expr) {
            return true;
        }
        match &expr.kind {
            ExprKind::Call { callee, args } => {
                // Calling a user function that transitively needs an allocator
                if self.is_allocating_call(callee) {
                    return true;
                }
                if self.expr_uses_allocator(callee) {
                    return true;
                }
                let mut i: usize = 0;
                while i < args.len()
                    invariant
                        i <= args@.len(),
                        forall|j: int| 0 <= j < i ==> !z_expr_alloc(self.ctx(), #[trigger] args@[j]),
                    decreases args@.len() - i,
                {
                    assert(decreases_to!(*args => args[i as int]));
                    if self.expr_uses_allocator(&args[i]) {
                        return true;
                    }
                    i += 1;
                }
                false
            },
            ExprKind::MemberAccess { obj, .. } => self.expr_uses_allocator(obj),
            ExprKind::BinOp { lhs, rhs, .. } => self.expr_uses_allocator(lhs) || self.expr_uses_allocator(rhs),
            ExprKind::UnOp { expr, .. } => self.expr_uses_allocator(expr),
            ExprKind::Propagate(x) => self.expr_uses_allocator(x),
            ExprKind::Catch { expr, body, .. } => self.expr_uses_allocator(expr) || self.uses_allocator(body),
            ExprKind::Switch { expr, arms } => {
                if self.expr_uses_allocator(expr) {
                    return true;
                }
                let mut i: usize = 0;
                while i < arms.len()
                    invariant
                        i <= arms@.len(),
                        forall|j: int| 0 <= j < i ==> !(match (#[trigger] arms@[j]).body {
                            SwitchBody::Expr(x) => z_expr_alloc(self.ctx(), x),
                            SwitchBody::Block(stmts) => exists|k: int| 0 <= k < stmts@.len()
                                && z_stmt_alloc(self.ctx(), #[trigger] stmts@[k]),
                        }),
                    decreases arms@.len() - i,
                {
                    assert(decreases_to!(*arms => arms[i as int]));
                    let hit = match &arms[i].body {
                        SwitchBody::Expr(x) => self.expr_uses_allocator(x),
                        SwitchBody::Block(stmts) => self.uses_allocator(stmts),
                    };
                    if hit {
                        return true;
                    }
                    i += 1;
                }
                false
            },
            ExprKind::ArrayLiteral(elems) => {
                let mut i: usize = 0;
                while i < elems.len()
                    invariant
                        i <= elems@.len(),
                        forall|j: int| 0 <= j < i ==> !z_expr_alloc(self.ctx(), #[trigger] elems@[j]),
                    decreases elems@.len() - i,
                {
                    assert(decreases_to!(*elems => elems[i as int]));
                    if self.expr_uses_allocator(&elems[i]) {
                        return true;
                    }
                    i += 1;
                }
                false
            },
            ExprKind::Index { obj, idx } => self.expr_uses_allocator(obj) || self.expr_uses_allocator(idx),
            ExprKind::If { cond, then_, else_ } => {
                self.expr_uses_allocator(cond) || self.expr_uses_allocator(then_)
                    || self.expr_uses_allocator(else_)
            },
            _ => false,
        }
    }
}

} // verus!
