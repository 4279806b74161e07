//! Usage analysis: allocating functions and use of std.
use vstd::prelude::*;
use super::text::{z_alias, z_resolve, ZCtx};
use super::ZigBackend;
use crate::parser::{Expr, ExprKind, FnDecl, Program, Stmt, StmtKind, SwitchBody, TopLevel};
use crate::symtab::{StrMap, StrSet};

verus! {

/// The callee `m.f` or `m.ns.f` is reached through the std module.
pub open spec fn z_std_callee(c: ZCtx, callee: Expr) -> bool {
    match callee.kind {
        ExprKind::MemberAccess { obj, .. } => match obj.kind {
            ExprKind::Var(m) => z_resolve(c, m@) == "std"@ || match z_alias(c, m@) {
                Some(p) => p.0 == "std"@,
                None => false,
            },
            ExprKind::MemberAccess { obj: inner, .. } => match inner.kind {
                ExprKind::Var(m) => z_resolve(c, m@) == "std"@,
                _ => false,
            },
            _ => false,
        },
        _ => false,
    }
}

pub open spec fn z_expr_std(c: ZCtx, e: Expr) -> bool
    decreases e,
{
    match e.kind {
        ExprKind::Call { callee, args } => z_std_callee(c, *callee)
            || z_expr_std(c, *callee)
            || exists|i: int| 0 <= i < args@.len() && z_expr_std(c, #[trigger] args@[i]),
        ExprKind::MemberAccess { obj, .. } => z_expr_std(c, *obj),
        ExprKind::BinOp { lhs, rhs, .. } => z_expr_std(c, *lhs) || z_expr_std(c, *rhs),
        ExprKind::UnOp { expr, .. } => z_expr_std(c, *expr),
        ExprKind::Propagate(x) => z_expr_std(c, *x),
        ExprKind::Catch { expr, body, .. } => z_expr_std(c, *expr)
            || exists|i: int| 0 <= i < body@.len() && z_stmt_std(c, #[trigger] body@[i]),
        ExprKind::Switch { expr, arms } => z_expr_std(c, *expr)
            || exists|i: int| 0 <= i < arms@.len() && match (#[trigger] arms@[i]).body {
                SwitchBody::Expr(x) => z_expr_std(c, x),
                SwitchBody::Block(stmts) => exists|j: int| 0 <= j < stmts@.len()
                    && z_stmt_std(c, #[trigger] stmts@[j]),
            },
        ExprKind::ArrayLiteral(elems) => exists|i: int| 0 <= i < elems@.len()
            && z_expr_std(c, #[trigger] elems@[i]),
        ExprKind::Index { obj, idx } => z_expr_std(c, *obj) || z_expr_std(c, *idx),
        ExprKind::If { cond, then_, else_ } => z_expr_std(c, *cond)
            || z_expr_std(c, *then_) || z_expr_std(c, *else_),
        _ => false,
    }
}

pub open spec fn z_stmt_std(c: ZCtx, s: Stmt) -> bool
    decreases s,
{
    match s.kind {
        StmtKind::ConstDecl { value, .. } => z_expr_std(c, value),
        StmtKind::LetDecl { value, .. } => z_expr_std(c, value),
        StmtKind::Return(Some(e)) => z_expr_std(c, e),
        StmtKind::If { cond, body, else_body } => z_expr_std(c, cond)
            || (exists|i: int| 0 <= i < body@.len() && z_stmt_std(c, #[trigger] body@[i]))
            || match else_body {
                Some(eb) => exists|i: int| 0 <= i < eb@.len() && z_stmt_std(c, #[trigger] eb@[i]),
                None => false,
            },
        StmtKind::While { cond, body } => z_expr_std(c, cond)
            || exists|i: int| 0 <= i < body@.len() && z_stmt_std(c, #[trigger] body@[i]),
        StmtKind::ExprStmt(e) => z_expr_std(c, e),
        _ => false,
    }
}

pub open spec fn z_stmts_std(c: ZCtx, s: Seq<Stmt>) -> bool {
    exists|i: int| 0 <= i < s.len() && z_stmt_std(c, #[trigger] s[i])
}

/// std is used somewhere in the program.
pub open spec fn z_program_std(c: ZCtx, p: Seq<TopLevel>) -> bool {
    exists|i: int| 0 <= i < p.len() && match #[trigger] p[i] {
        TopLevel::FnDecl(f) => z_stmts_std(c, f.body@),
        TopLevel::Stmt(s) => z_stmt_std(c, s),
        TopLevel::ConstDecl { value, .. } => z_expr_std(c, value),
        _ => false,
    }
}

/// A call `name(...)` with `name` in `targets` occurs in `e`.
pub open spec fn z_expr_calls(targets: Set<Seq<char>>, e: Expr) -> bool
    decreases e,
{
    match e.kind {
        ExprKind::Call { callee, args } => (match callee.kind {
            ExprKind::Var(name) => targets.contains(name@),
            _ => false,
        }) || z_expr_calls(targets, *callee)
            || exists|i: int| 0 <= i < args@.len() && z_expr_calls(targets, #[trigger] args@[i]),
        ExprKind::MemberAccess { obj, .. } => z_expr_calls(targets, *obj),
        ExprKind::BinOp { lhs, rhs, .. } => z_expr_calls(targets, *lhs)
            || z_expr_calls(targets, *rhs),
        ExprKind::UnOp { expr, .. } => z_expr_calls(targets, *expr),
        ExprKind::Propagate(x) => z_expr_calls(targets, *x),
        ExprKind::Catch { expr, body, .. } => z_expr_calls(targets, *expr)
            || exists|i: int| 0 <= i < body@.len() && z_stmt_calls(targets, #[trigger] body@[i]),
        ExprKind::Switch { expr, arms } => z_expr_calls(targets, *expr)
            || exists|i: int| 0 <= i < arms@.len() && match (#[trigger] arms@[i]).body {
                SwitchBody::Expr(x) => z_expr_calls(targets, x),
                SwitchBody::Block(stmts) => exists|j: int| 0 <= j < stmts@.len()
                    && z_stmt_calls(targets, #[trigger] stmts@[j]),
            },
        ExprKind::If { cond, then_, else_ } => z_expr_calls(targets, *cond)
            || z_expr_calls(targets, *then_) || z_expr_calls(targets, *else_),
        ExprKind::ArrayLiteral(es) => exists|i: int| 0 <= i < es@.len() && z_expr_calls(targets, #[trigger] es@[i]),
        ExprKind::Index { obj, idx } => z_expr_calls(targets, *obj) || z_expr_calls(targets, *idx),
        _ => false,
    }
}

pub open spec fn z_stmt_calls(targets: Set<Seq<char>>, s: Stmt) -> bool
    decreases s,
{
    match s.kind {
        StmtKind::ConstDecl { value, .. } => z_expr_calls(targets, value),
        StmtKind::LetDecl { value, .. } => z_expr_calls(targets, value),
        StmtKind::Return(Some(e)) => z_expr_calls(targets, e),
        StmtKind::ExprStmt(e) => z_expr_calls(targets, e),
        StmtKind::If { cond, body, else_body } => z_expr_calls(targets, cond)
            || (exists|i: int| 0 <= i < body@.len() && z_stmt_calls(targets, #[trigger] body@[i]))
            || match else_body {
                Some(eb) => exists|i: int| 0 <= i < eb@.len()
                    && z_stmt_calls(targets, #[trigger] eb@[i]),
                None => false,
            },
        StmtKind::While { cond, body } => z_expr_calls(targets, cond)
            || exists|i: int| 0 <= i < body@.len() && z_stmt_calls(targets, #[trigger] body@[i]),
        _ => false,
    }
}

/// A call into a smaller set of functions is a call into a larger one.
pub proof fn lemma_expr_calls_mono(a: Set<Seq<char>>, b: Set<Seq<char>>, e: Expr)
    requires
        a.subset_of(b),
        z_expr_calls(a, e),
    ensures
        z_expr_calls(b, e),
    decreases e,
{
    match e.kind {
        ExprKind::Call { callee, args } => {
            if z_expr_calls(a, *callee) {
                lemma_expr_calls_mono(a, b, *callee);
            } else if exists|i: int| 0 <= i < args@.len() && z_expr_calls(a, #[trigger] args@[i]) {
                let i = choose|i: int| 0 <= i < args@.len() && z_expr_calls(a, #[trigger] args@[i]);
                lemma_expr_calls_mono(a, b, args@[i]);
            }
        },
        ExprKind::MemberAccess { obj, .. } => lemma_expr_calls_mono(a, b, *obj),
        ExprKind::BinOp { lhs, rhs, .. } => {
            if z_expr_calls(a, *lhs) {
                lemma_expr_calls_mono(a, b, *lhs);
            } else {
                lemma_expr_calls_mono(a, b, *rhs);
            }
        },
        ExprKind::UnOp { expr, .. } => lemma_expr_calls_mono(a, b, *expr),
        ExprKind::Propagate(x) => lemma_expr_calls_mono(a, b, *x),
        ExprKind::Catch { expr, body, .. } => {
            if z_expr_calls(a, *expr) {
                lemma_expr_calls_mono(a, b, *expr);
            } else {
                let i = choose|i: int| 0 <= i < body@.len() && z_stmt_calls(a, #[trigger] body@[i]);
                lemma_stmt_calls_mono(a, b, body@[i]);
            }
        },
        ExprKind::Switch { expr, arms } => {
            if z_expr_calls(a, *expr) {
                lemma_expr_calls_mono(a, b, *expr);
            } else {
                let i = choose|i: int| 0 <= i < arms@.len() && match (#[trigger] arms@[i]).body {
                    SwitchBody::Expr(x) => z_expr_calls(a, x),
                    SwitchBody::Block(stmts) => exists|j: int| 0 <= j < stmts@.len()
                        && z_stmt_calls(a, #[trigger] stmts@[j]),
                };
                assert(decreases_to!(e => arms@[i]));
                match arms@[i].body {
                    SwitchBody::Expr(x) => lemma_expr_calls_mono(a, b, x),
                    SwitchBody::Block(stmts) => {
                        let j = choose|j: int| 0 <= j < stmts@.len() && z_stmt_calls(a, #[trigger] stmts@[j]);
                        lemma_stmt_calls_mono(a, b, stmts@[j]);
                    },
                }
            }
        },
        ExprKind::If { cond, then_, else_ } => {
            if z_expr_calls(a, *cond) {
                lemma_expr_calls_mono(a, b, *cond);
            } else if z_expr_calls(a, *then_) {
                lemma_expr_calls_mono(a, b, *then_);
            } else {
                lemma_expr_calls_mono(a, b, *else_);
            }
        },
        ExprKind::ArrayLiteral(es) => {
            let i = choose|i: int| 0 <= i < es@.len() && z_expr_calls(a, #[trigger] es@[i]);
            lemma_expr_calls_mono(a, b, es@[i]);
        },
        ExprKind::Index { obj, idx } => {
            if z_expr_calls(a, *obj) {
                lemma_expr_calls_mono(a, b, *obj);
            } else {
                lemma_expr_calls_mono(a, b, *idx);
            }
        },
        _ => {},
    }
}

/// A statement's calls into a smaller set of functions are calls into a larger one.
pub proof fn lemma_stmt_calls_mono(a: Set<Seq<char>>, b: Set<Seq<char>>, s: Stmt)
    requires
        a.subset_of(b),
        z_stmt_calls(a, s),
    ensures
        z_stmt_calls(b, s),
    decreases s,
{
    match s.kind {
        StmtKind::ConstDecl { value, .. } => lemma_expr_calls_mono(a, b, value),
        StmtKind::LetDecl { value, .. } => lemma_expr_calls_mono(a, b, value),
        StmtKind::Return(Some(e)) => lemma_expr_calls_mono(a, b, e),
        StmtKind::ExprStmt(e) => lemma_expr_calls_mono(a, b, e),
        StmtKind::If { cond, body, else_body } => {
            if z_expr_calls(a, cond) {
                lemma_expr_calls_mono(a, b, cond);
            } else if exists|i: int| 0 <= i < body@.len() && z_stmt_calls(a, #[trigger] body@[i]) {
                let i = choose|i: int| 0 <= i < body@.len() && z_stmt_calls(a, #[trigger] body@[i]);
                lemma_stmt_calls_mono(a, b, body@[i]);
            } else {
                match else_body {
                    Some(eb) => {
                        let i = choose|i: int| 0 <= i < eb@.len() && z_stmt_calls(a, #[trigger] eb@[i]);
                        lemma_stmt_calls_mono(a, b, eb@[i]);
                    },
                    None => {},
                }
            }
        },
        StmtKind::While { cond, body } => {
            if z_expr_calls(a, cond) {
                lemma_expr_calls_mono(a, b, cond);
            } else {
                let i = choose|i: int| 0 <= i < body@.len() && z_stmt_calls(a, #[trigger] body@[i]);
                lemma_stmt_calls_mono(a, b, body@[i]);
            }
        },
        _ => {},
    }
}

impl ZigBackend {
    // ---------------------------------------------------------------------
    // Executable checks

    /// Whether any statement of `stmts` calls one of `targets`.
    #[verifier::loop_isolation(false)]
    pub(crate) fn stmts_call_any(stmts: &Vec<Stmt>, targets: &StrSet) -> (r: bool)
        ensures
            r == exists|i: int| 0 <= i < stmts@.len() && z_stmt_calls(targets.names(), #[trigger] stmts@[i]),
        decreases stmts,
    {
        let mut i: usize = 0;
        while i < stmts.len()
            invariant
                i <= stmts@.len(),
                forall|j: int| 0 <= j < i ==> !z_stmt_calls(targets.names(), #[trigger] stmts@[j]),
            decreases stmts@.len() - i,
        {
            assert(decreases_to!(*stmts => stmts[i as int]));
            if Self::stmt_calls_any(&stmts[i], targets) {
                return true;
            }
            i += 1;
        }
        false
    }

    fn stmt_calls_any(stmt: &Stmt, targets: &StrSet) -> (r: bool)
        ensures
            r == z_stmt_calls(targets.names(), *stmt),
        decreases stmt,
    {
        match &stmt.kind {
            StmtKind::ConstDecl { value, .. } => Self::expr_calls_any(value, targets),
            StmtKind::LetDecl { value, .. } => Self::expr_calls_any(value, targets),
            StmtKind::Return(Some(e)) => Self::expr_calls_any(e, targets),
            StmtKind::ExprStmt(e) => Self::expr_calls_any(e, targets),
            StmtKind::If { cond, body, else_body } => {
                Self::expr_calls_any(cond, targets) || Self::stmts_call_any(body, targets) || match else_body {
                    Some(s) => Self::stmts_call_any(s, targets),
                    None => false,
                }
            },
            StmtKind::While { cond, body } => {
                Self::expr_calls_any(cond, targets) || Self::stmts_call_any(body, targets)
            },
            _ => false,
        }
    }

    #[verifier::loop_isolation(false)]
    pub(crate) fn expr_calls_any(expr: &Expr, targets: &StrSet) -> (r: bool)
        ensures
            r == z_expr_calls(targets.names(), *expr),
        decreases expr,
    {
        match &expr.kind {
            ExprKind::Call { callee, args } => {
                if let ExprKind::Var(name) = &callee.kind {
                    if targets.contains(name.as_str()) {
                        return true;
                    }
                }
                if Self::expr_calls_any(callee, targets) {
                    return true;
                }
                let mut i: usize = 0;
                while i < args.len()
                    invariant
                        i <= args@.len(),
                        forall|j: int| 0 <= j < i ==> !z_expr_calls(targets.names(), #[trigger] args@[j]),
                    decreases args@.len() - i,
                {
                    assert(decreases_to!(*args => args[i as int]));
                    if Self::expr_calls_any(&args[i], targets) {
                        return true;
                    }
                    i += 1;
                }
                false
            },
            ExprKind::MemberAccess { obj, .. } => Self::expr_calls_any(obj, targets),
            ExprKind::BinOp { lhs, rhs, .. } => {
                Self::expr_calls_any(lhs, targets) || Self::expr_calls_any(rhs, targets)
            },
            ExprKind::UnOp { expr, .. } => Self::expr_calls_any(expr, targets),
            ExprKind::Propagate(x) => Self::expr_calls_any(x, targets),
            ExprKind::Catch { expr, body, .. } => {
                Self::expr_calls_any(expr, targets) || Self::stmts_call_any(body, targets)
            },
            ExprKind::Switch { expr, arms } => {
                if Self::expr_calls_any(expr, targets) {
                    return true;
                }
                let mut i: usize = 0;
                while i < arms.len()
                    invariant
                        i <= arms@.len(),
                        forall|j: int| 0 <= j < i ==> !(match (#[trigger] arms@[j]).body {
                            SwitchBody::Expr(x) => z_expr_calls(targets.names(), x),
                            SwitchBody::Block(stmts) => exists|k: int| 0 <= k < stmts@.len()
                                && z_stmt_calls(targets.names(), #[trigger] stmts@[k]),
                        }),
                    decreases arms@.len() - i,
                {
                    assert(decreases_to!(*arms => arms[i as int]));
                    let hit = match &arms[i].body {
                        SwitchBody::Expr(x) => Self::expr_calls_any(x, targets),
                        SwitchBody::Block(stmts) => Self::stmts_call_any(stmts, targets),
                    };
                    if hit {
                        return true;
                    }
                    i += 1;
                }
                false
            },
            ExprKind::If { cond, then_, else_ } => {
                Self::expr_calls_any(cond, targets) || Self::expr_calls_any(then_, targets)
                    || Self::expr_calls_any(else_, targets)
            },
            ExprKind::ArrayLiteral(es) => {
                let mut i: usize = 0;
                while i < es.len()
                    invariant
                        i <= es@.len(),
                        forall|j: int| 0 <= j < i ==> !z_expr_calls(targets.names(), #[trigger] es@[j]),
                    decreases es@.len() - i,
                {
                    assert(decreases_to!(*es => es[i as int]));
                    if Self::expr_calls_any(&es[i], targets) {
                        return true;
                    }
                    i += 1;
                }
                false
            },
            ExprKind::Index { obj, idx } => {
                Self::expr_calls_any(obj, targets) || Self::expr_calls_any(idx, targets)
            },
            _ => false,
        }
    }

    /// Checks whether std is used anywhere in the program.
    pub(crate) fn program_uses_std(&self, program: &Program) -> (r: bool)
        ensures
            r == z_program_std(self.ctx(), program@),
    {
        let mut i: usize = 0;
        while i < program.len()
            invariant
                i <= program@.len(),
                forall|j: int| 0 <= j < i ==> !(match #[trigger] program@[j] {
                    TopLevel::FnDecl(f) => z_stmts_std(self.ctx(), f.body@),
                    TopLevel::Stmt(s) => z_stmt_std(self.ctx(), s),
                    TopLevel::ConstDecl { value, .. } => z_expr_std(self.ctx(), value),
                    _ => false,
                }),
            decreases program@.len() - i,
        {
            let hit = match &program[i] {
                TopLevel::FnDecl(f) => self.stmts_use_std(&f.body),
                TopLevel::Stmt(s) => self.stmt_uses_std(s),
                TopLevel::ConstDecl { value, .. } => self.expr_uses_std(value),
                _ => false,
            };
            if hit {
                return true;
            }
            i += 1;
        }
        false
    }

    #[verifier::loop_isolation(false)]
    pub(crate) fn stmts_use_std(&self, stmts: &Vec<Stmt>) -> (r: bool)
        ensures
            r == z_stmts_std(self.ctx(), stmts@),
        decreases stmts,
    {
        let mut i: usize = 0;
        while i < stmts.len()
            invariant
                i <= stmts@.len(),
                forall|j: int| 0 <= j < i ==> !z_stmt_std(self.ctx(), #[trigger] stmts@[j]),
            decreases stmts@.len() - i,
        {
            assert(decreases_to!(*stmts => stmts[i as int]));
            if self.stmt_uses_std(&stmts[i]) {
                return true;
            }
            i += 1;
        }
        false
    }

    fn stmt_uses_std(&self, stmt: &Stmt) -> (r: bool)
        ensures
            r == z_stmt_std(self.ctx(), *stmt),
        decreases stmt,
    {
        match &stmt.kind {
            StmtKind::ConstDecl { value, .. } => self.expr_uses_std(value),
            StmtKind::LetDecl { value, .. } => self.expr_uses_std(value),
            StmtKind::Return(Some(e)) => self.expr_uses_std(e),
            StmtKind::If { cond, body, else_body } => {
                self.expr_uses_std(cond) || self.stmts_use_std(body) || match else_body {
                    Some(s) => self.stmts_use_std(s),
                    None => false,
                }
            },
            StmtKind::While { cond, body } => self.expr_uses_std(cond) || self.stmts_use_std(body),
            StmtKind::ExprStmt(e) => self.expr_uses_std(e),
            _ => false,
        }
    }

    fn std_callee(&self, callee: &Expr) -> (r: bool)
        ensures
            r == z_std_callee(self.ctx(), *callee),
    {
        if let ExprKind::MemberAccess { obj, .. } = &callee.kind {
            if let ExprKind::Var(m) = &obj.kind {
                if self.is_std_module(m.as_str()) {
                    return true;
                }
                return match self.aliases.get(m.as_str()) {
                    Some(p) => crate::strs::str_eq(p.0.as_str(), "std"),
                    None => false,
                };
            }
            if let ExprKind::MemberAccess { obj: inner, .. } = &obj.kind {
                if let ExprKind::Var(m) = &inner.kind {
                    return self.is_std_module(m.as_str());
                }
            }
        }
        false
    }

    #[verifier::loop_isolation(false)]
    pub(crate) fn expr_uses_std(&self, expr: &Expr) -> (r: bool)
        ensures
            r == z_expr_std(self.ctx(), *expr),
        decreases expr,
    {
        match &expr.kind {
            ExprKind::Call { callee, args } => {
                if self.std_callee(callee) {
                    return true;
                }
                if self.expr_uses_std(callee) {
                    return true;
                }
                let mut i: usize = 0;
                while i < args.len()
                    invariant
                        i <= args@.len(),
                        forall|j: int| 0 <= j < i ==> !z_expr_std(self.ctx(), #[trigger] args@[j]),
                    decreases args@.len() - i,
                {
                    assert(decreases_to!(*args => args[i as int]));
                    if self.expr_uses_std(&args[i]) {
                        return true;
                    }
                    i += 1;
                }
                false
            },
            ExprKind::MemberAccess { obj, .. } => self.expr_uses_std(obj),
            ExprKind::BinOp { lhs, rhs, .. } => self.expr_uses_std(lhs) || self.expr_uses_std(rhs),
            ExprKind::UnOp { expr, .. } => self.expr_uses_std(expr),
            ExprKind::Propagate(x) => self.expr_uses_std(x),
            ExprKind::Catch { expr, body, .. } => self.expr_uses_std(expr) || self.stmts_use_std(body),
            ExprKind::Switch { expr, arms } => {
                if self.expr_uses_std(expr) {
                    return true;
                }
                let mut i: usize = 0;
                while i < arms.len()
                    invariant
                        i <= arms@.len(),
                        forall|j: int| 0 <= j < i ==> !(match (#[trigger] arms@[j]).body {
                            SwitchBody::Expr(x) => z_expr_std(self.ctx(), x),
                            SwitchBody::Block(stmts) => exists|k: int| 0 <= k < stmts@.len()
                                && z_stmt_std(self.ctx(), #[trigger] stmts@[k]),
                        }),
                    decreases arms@.len() - i,
                {
                    assert(decreases_to!(*arms => arms[i as int]));
                    let hit = match &arms[i].body {
                        SwitchBody::Expr(x) => self.expr_uses_std(x),
                        SwitchBody::Block(stmts) => self.stmts_use_std(stmts),
                    };
                    if hit {
                        return true;
                    }
                    i += 1;
                }
                false
            },
            ExprKind::ArrayLiteral(elems) => {
                let mut i: usize = 0;
                while i < elems.len()
                    invariant
                        i <= elems@.len(),
                        forall|j: int| 0 <= j < i ==> !z_expr_std(self.ctx(), #[trigger] elems@[j]),
                    decreases elems@.len() - i,
                {
                    assert(decreases_to!(*elems => elems[i as int]));
                    if self.expr_uses_std(&elems[i]) {
                        return true;
                    }
                    i += 1;
                }
                false
            },
            ExprKind::Index { obj, idx } => self.expr_uses_std(obj) || self.expr_uses_std(idx),
            ExprKind::If { cond, then_, else_ } => {
                self.expr_uses_std(cond) || self.expr_uses_std(then_) || self.expr_uses_std(else_)
            },
            _ => false,
        }
    }
}

} // verus!
