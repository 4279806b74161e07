//! std.fs calls.
use vstd::prelude::*;
use crate::codegen::zig::ZigBackend;
use crate::parser::{Expr, ExprKind};
use crate::strs::{join_all, join_spec, str_eq, to_string};
use crate::codegen::zig::text::{z_alias, z_resolve, ZCtx, z_keeps, z_ns_call, zx, zxs};

verus! {

/// `std.fs.readTextFile(...)`, directly or through an alias of `std.fs`.
pub open spec fn z_fs_alloc(c: ZCtx, e: Expr) -> bool {
    match e.kind {
        ExprKind::Call { callee, .. } => match callee.kind {
            ExprKind::MemberAccess { obj, prop } => prop@ == "readTextFile"@ && match obj.kind {
                ExprKind::MemberAccess { obj: inner, prop: ns } => ns@ == "fs"@ && match inner.kind {
                    ExprKind::Var(module) => z_resolve(c, module@) == "std"@,
                    _ => false,
                },
                ExprKind::Var(alias) => match z_alias(c, alias@) {
                    Some(p) => p.0 == "std"@ && p.1 == "fs"@,
                    None => false,
                },
                _ => false,
            },
            _ => false,
        },
        _ => false,
    }
}

impl ZigBackend {
    pub(crate) fn gen_fs_call(&mut self, fn_name: &str, args: &Vec<Expr>) -> (r: String)
        ensures
            z_keeps(*old(self), *final(self)),
            ({
                let st = old(self).catch_err_vars.names();
                let all = zxs(old(self).ctx(), st, args@);
                let first = if args@.len() > 0 { zx(old(self).ctx(), st, args@[0]) } else { (Seq::empty(), st) };
                &&& r@ == z_ns_call(st, "fs"@, fn_name@, args@, all, first).0
                &&& final(self).catch_err_vars.names() == z_ns_call(st, "fs"@, fn_name@, args@, all, first).1
            }),
        decreases args, 2int,
    {
        proof {
            reveal_strlit("readTextFile");
            reveal_strlit("fs");
            reveal_strlit("debug");
            reveal_with_fuel(crate::strs::concat_all, 6);
        }
        let ghost st = self.catch_err_vars.names();
        let ghost c = self.ctx();
        assert("fs"@.len() != "debug"@.len());
        if str_eq(fn_name, "readTextFile") {
            if args.len() > 0 {
                assert(decreases_to!(*args => args[0]));
                let a = self.gen_expr(&args[0]);
                let r = join_all(vec![
                    "std.fs.cwd().readFileAlloc(__zyre_allocator, ", a.as_str(),
                    ", std.math.maxInt(usize))",
                ]);
                r
            } else {
                to_string("std.fs.cwd().readFileAlloc(__zyre_allocator, \"\", std.math.maxInt(usize))")
            }
        } else {
            let a = self.gen_args(args);
            let joined = crate::strs::join_strings(&a, ", ");
            let r = join_all(vec!["std.fs.", fn_name, "(", joined.as_str(), ")"]);
            r
        }
    }

    pub(crate) fn fs_expr_uses_allocator(&self, expr: &Expr) -> (r: bool)
        ensures
            r == z_fs_alloc(self.ctx(), *expr),
    {
        if let ExprKind::Call { callee, .. } = &expr.kind {
            if let ExprKind::MemberAccess { obj, prop } = &callee.kind {
                // std.fs.readTextFile(...)
                if let ExprKind::MemberAccess { obj: inner, prop: ns } = &obj.kind {
                    if let ExprKind::Var(module) = &inner.kind {
                        if self.is_std_module(module.as_str()) && str_eq(ns.as_str(), "fs")
                            && str_eq(prop.as_str(), "readTextFile") {
                            return true;
                        }
                    }
                }
                // Via alias: const fs = std.fs; fs.readTextFile(...)
                if let ExprKind::Var(alias) = &obj.kind {
                    if let Some(p) = self.aliases.get(alias.as_str()) {
                        if str_eq(p.0.as_str(), "std") && str_eq(p.1.as_str(), "fs")
                            && str_eq(prop.as_str(), "readTextFile") {
                            return true;
                        }
                    }
                }
            }
        }
        false
    }
}

} // verus!
