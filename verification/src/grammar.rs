//! The grammar of the language, as specifications: the syntax tree with its
//! names as text, and what the parser makes of a token stream.
//!
//! Each `g_*` function takes the tokens and a parse state (position and
//! errors so far) and gives what was parsed and the state after it. The
//! checks that the position moved, on the recursive calls, always hold on a
//! stream that ends with `EOF`; they make the recursion evidently finite.
use vstd::prelude::*;
use crate::lexer::{spec_tok_code, tokv, Span, SpecTok, Token};
use crate::parser::{
    BinOp, Expr, ExprKind, FnDecl, ParseError, Stmt, StmtKind, StructField, SwitchArm, SwitchBody,
    SwitchPattern, TopLevel, TypeExpr, UnOp,
};
use crate::strs::{float_point, int_dec, str_debug};

verus! {

// -------------------------------------------------------------------------
// The syntax tree, names as text

pub enum TypeV {
    Name(Seq<char>),
    Array(Box<TypeV>, u64),
    Optional(Box<TypeV>),
    ErrorUnion(Option<Box<TypeV>>, Box<TypeV>),
}

pub enum PatternV {
    Ident(Seq<char>),
    Int(i64),
    Bool(bool),
    Else,
}

pub enum ExprKindV {
    Import(Seq<char>),
    Var(Seq<char>),
    Str(Seq<char>),
    Int(i64),
    Float(Seq<char>),
    Bool(bool),
    MemberAccess { obj: Box<ExprV>, prop: Seq<char> },
    Call { callee: Box<ExprV>, args: Seq<ExprV> },
    BinOp { op: BinOp, lhs: Box<ExprV>, rhs: Box<ExprV> },
    UnOp { op: UnOp, expr: Box<ExprV> },
    Propagate(Box<ExprV>),
    Catch { expr: Box<ExprV>, err_name: Seq<char>, body: Seq<StmtV> },
    Switch { expr: Box<ExprV>, arms: Seq<ArmV> },
    ArrayLiteral(Seq<ExprV>),
    Index { obj: Box<ExprV>, idx: Box<ExprV> },
    If { cond: Box<ExprV>, then_: Box<ExprV>, else_: Box<ExprV> },
}

pub struct ExprV {
    pub kind: ExprKindV,
    pub span: Span,
}

pub enum BodyV {
    Expr(ExprV),
    Block(Seq<StmtV>),
}

pub struct ArmV {
    pub pattern: PatternV,
    pub body: BodyV,
}

pub enum StmtKindV {
    ConstDecl { name: Seq<char>, ty: Option<TypeV>, value: ExprV },
    LetDecl { name: Seq<char>, ty: Option<TypeV>, value: ExprV },
    Return(Option<ExprV>),
    If { cond: ExprV, body: Seq<StmtV>, else_body: Option<Seq<StmtV>> },
    While { cond: ExprV, body: Seq<StmtV> },
    Break,
    Continue,
    ExprStmt(ExprV),
}

pub struct StmtV {
    pub kind: StmtKindV,
    pub span: Span,
}

pub enum TopLevelV {
    ConstDecl { name: Seq<char>, name_span: Span, value: ExprV, exported: bool },
    FnDecl { name: Seq<char>, params: Seq<(Seq<char>, TypeV)>, ret: TypeV, body: Seq<StmtV>, exported: bool },
    StructDecl { name: Seq<char>, fields: Seq<(Seq<char>, TypeV)>, exported: bool },
    EnumDecl { name: Seq<char>, variants: Seq<Seq<char>>, exported: bool },
    Stmt(StmtV),
}

pub open spec fn type_v(t: TypeExpr) -> TypeV
    decreases t,
{
    match t {
        TypeExpr::Name(n) => TypeV::Name(n@),
        TypeExpr::Array(inner, n) => TypeV::Array(Box::new(type_v(*inner)), n),
        TypeExpr::Optional(inner) => TypeV::Optional(Box::new(type_v(*inner))),
        TypeExpr::ErrorUnion(None, inner) => TypeV::ErrorUnion(None, Box::new(type_v(*inner))),
        TypeExpr::ErrorUnion(Some(e), inner) => TypeV::ErrorUnion(Some(Box::new(type_v(*e))), Box::new(type_v(*inner))),
    }
}

pub open spec fn pattern_v(p: SwitchPattern) -> PatternV {
    match p {
        SwitchPattern::Ident(s) => PatternV::Ident(s@),
        SwitchPattern::Int(n) => PatternV::Int(n),
        SwitchPattern::Bool(b) => PatternV::Bool(b),
        SwitchPattern::Else => PatternV::Else,
    }
}

pub open spec fn expr_v(e: Expr) -> ExprV
    decreases e,
{
    let kind = match e.kind {
        ExprKind::Import(m) => ExprKindV::Import(m@),
        ExprKind::Var(n) => ExprKindV::Var(n@),
        ExprKind::Str(s) => ExprKindV::Str(s@),
        ExprKind::Int(n) => ExprKindV::Int(n),
        ExprKind::Float(f) => ExprKindV::Float(f@),
        ExprKind::Bool(b) => ExprKindV::Bool(b),
        ExprKind::MemberAccess { obj, prop } => ExprKindV::MemberAccess { obj: Box::new(expr_v(*obj)), prop: prop@ },
        ExprKind::Call { callee, args } => ExprKindV::Call { callee: Box::new(expr_v(*callee)), args: exprs_v(args@) },
        ExprKind::BinOp { op, lhs, rhs } => ExprKindV::BinOp {
            op,
            lhs: Box::new(expr_v(*lhs)),
            rhs: Box::new(expr_v(*rhs)),
        },
        ExprKind::UnOp { op, expr } => ExprKindV::UnOp { op, expr: Box::new(expr_v(*expr)) },
        ExprKind::Propagate(x) => ExprKindV::Propagate(Box::new(expr_v(*x))),
        ExprKind::Catch { expr, err_name, body } => ExprKindV::Catch {
            expr: Box::new(expr_v(*expr)),
            err_name: err_name@,
            body: stmts_v(body@),
        },
        ExprKind::Switch { expr, arms } => ExprKindV::Switch { expr: Box::new(expr_v(*expr)), arms: arms_v(arms@) },
        ExprKind::ArrayLiteral(elems) => ExprKindV::ArrayLiteral(exprs_v(elems@)),
        ExprKind::Index { obj, idx } => ExprKindV::Index { obj: Box::new(expr_v(*obj)), idx: Box::new(expr_v(*idx)) },
        ExprKind::If { cond, then_, else_ } => ExprKindV::If {
            cond: Box::new(expr_v(*cond)),
            then_: Box::new(expr_v(*then_)),
            else_: Box::new(expr_v(*else_)),
        },
    };
    ExprV { kind, span: e.span }
}

pub open spec fn exprs_v(es: Seq<Expr>) -> Seq<ExprV>
    decreases es,
{
    if es.len() == 0 {
        Seq::empty()
    } else {
        exprs_v(es.subrange(0, es.len() - 1)).push(expr_v(es[es.len() - 1]))
    }
}

pub open spec fn arm_v(a: SwitchArm) -> ArmV
    decreases a,
{
    ArmV {
        pattern: pattern_v(a.pattern),
        body: match a.body {
            SwitchBody::Expr(x) => BodyV::Expr(expr_v(x)),
            SwitchBody::Block(ss) => BodyV::Block(stmts_v(ss@)),
        },
    }
}

pub open spec fn arms_v(arms: Seq<SwitchArm>) -> Seq<ArmV>
    decreases arms,
{
    if arms.len() == 0 {
        Seq::empty()
    } else {
        arms_v(arms.subrange(0, arms.len() - 1)).push(arm_v(arms[arms.len() - 1]))
    }
}

pub open spec fn stmt_v(s: Stmt) -> StmtV
    decreases s,
{
    let kind = match s.kind {
        StmtKind::ConstDecl { name, ty, value } => StmtKindV::ConstDecl {
            name: name@,
            ty: match ty { Some(t) => Some(type_v(t)), None => None },
            value: expr_v(value),
        },
        StmtKind::LetDecl { name, ty, value } => StmtKindV::LetDecl {
            name: name@,
            ty: match ty { Some(t) => Some(type_v(t)), None => None },
            value: expr_v(value),
        },
        StmtKind::Return(e) => StmtKindV::Return(match e { Some(x) => Some(expr_v(x)), None => None }),
        StmtKind::If { cond, body, else_body } => StmtKindV::If {
            cond: expr_v(cond),
            body: stmts_v(body@),
            else_body: match else_body { Some(eb) => Some(stmts_v(eb@)), None => None },
        },
        StmtKind::While { cond, body } => StmtKindV::While { cond: expr_v(cond), body: stmts_v(body@) },
        StmtKind::Break => StmtKindV::Break,
        StmtKind::Continue => StmtKindV::Continue,
        StmtKind::ExprStmt(e) => StmtKindV::ExprStmt(expr_v(e)),
    };
    StmtV { kind, span: s.span }
}

pub open spec fn stmts_v(ss: Seq<Stmt>) -> Seq<StmtV>
    decreases ss,
{
    if ss.len() == 0 {
        Seq::empty()
    } else {
        stmts_v(ss.subrange(0, ss.len() - 1)).push(stmt_v(ss[ss.len() - 1]))
    }
}

pub open spec fn field_v(f: StructField) -> (Seq<char>, TypeV) {
    (f.name@, type_v(f.ty))
}

pub open spec fn param_v(p: (String, TypeExpr)) -> (Seq<char>, TypeV) {
    (p.0@, type_v(p.1))
}

pub open spec fn top_v(t: TopLevel) -> TopLevelV {
    match t {
        TopLevel::ConstDecl { name, name_span, value, exported } => TopLevelV::ConstDecl {
            name: name@,
            name_span,
            value: expr_v(value),
            exported,
        },
        TopLevel::FnDecl(f) => TopLevelV::FnDecl {
            name: f.name@,
            params: f.params@.map_values(|p: (String, TypeExpr)| param_v(p)),
            ret: type_v(f.ret),
            body: stmts_v(f.body@),
            exported: f.exported,
        },
        TopLevel::StructDecl { name, fields, exported } => TopLevelV::StructDecl {
            name: name@,
            fields: fields@.map_values(|f: StructField| field_v(f)),
            exported,
        },
        TopLevel::EnumDecl { name, variants, exported } => TopLevelV::EnumDecl {
            name: name@,
            variants: variants@.map_values(|v: String| v@),
            exported,
        },
        TopLevel::Stmt(s) => TopLevelV::Stmt(stmt_v(s)),
    }
}

pub open spec fn tops_v(p: Seq<TopLevel>) -> Seq<TopLevelV> {
    p.map_values(|t: TopLevel| top_v(t))
}

pub proof fn lemma_exprs_v_push(es: Seq<Expr>, e: Expr)
    ensures
        exprs_v(es.push(e)) == exprs_v(es).push(expr_v(e)),
{
    assert(es.push(e).subrange(0, es.len() as int) =~= es);
}

pub proof fn lemma_stmts_v_push(ss: Seq<Stmt>, s: Stmt)
    ensures
        stmts_v(ss.push(s)) == stmts_v(ss).push(stmt_v(s)),
{
    assert(ss.push(s).subrange(0, ss.len() as int) =~= ss);
}

pub proof fn lemma_arms_v_push(arms: Seq<SwitchArm>, a: SwitchArm)
    ensures
        arms_v(arms.push(a)) == arms_v(arms).push(arm_v(a)),
{
    assert(arms.push(a).subrange(0, arms.len() as int) =~= arms);
}

// -------------------------------------------------------------------------
// Tokens in messages

/// The `Debug` form of a token: the variant's name, with its payload in brackets.
pub open spec fn tok_debug(t: SpecTok) -> Seq<char> {
    match t {
        SpecTok::Ident(s) => "Ident("@ + str_debug(s) + ")"@,
        SpecTok::Str(s) => "Str("@ + str_debug(s) + ")"@,
        SpecTok::Float(s) => "Float("@ + (if s.len() > 0 && s[0] != '.' { float_point(s) } else { s }) + ")"@,
        SpecTok::Other(k) => tok_debug_other(k),
    }
}

/// The `Debug` form of a token without text.
pub open spec fn tok_debug_other(t: Token) -> Seq<char> {
    match t {
        Token::Const => "Const"@,
        Token::Let => "Let"@,
        Token::Fn => "Fn"@,
        Token::Export => "Export"@,
        Token::Import => "Import"@,
        Token::Return => "Return"@,
        Token::If => "If"@,
        Token::While => "While"@,
        Token::Break => "Break"@,
        Token::Continue => "Continue"@,
        Token::Switch => "Switch"@,
        Token::Catch => "Catch"@,
        Token::Else => "Else"@,
        Token::Then => "Then"@,
        Token::Void => "Void"@,
        Token::Ident(s) => "Ident("@ + str_debug(s@) + ")"@,
        Token::Str(s) => "Str("@ + str_debug(s@) + ")"@,
        Token::Int(n) => "Int("@ + int_dec(n as int) + ")"@,
        Token::Float(s) => "Float("@ + (if s@.len() > 0 && s@[0] != '.' { float_point(s@) } else { s@ }) + ")"@,
        Token::True => "True"@,
        Token::False => "False"@,
        Token::Eq => "Eq"@,
        Token::EqEq => "EqEq"@,
        Token::NotEq => "NotEq"@,
        Token::Lt => "Lt"@,
        Token::Gt => "Gt"@,
        Token::LtEq => "LtEq"@,
        Token::GtEq => "GtEq"@,
        Token::Plus => "Plus"@,
        Token::Minus => "Minus"@,
        Token::Star => "Star"@,
        Token::Slash => "Slash"@,
        Token::Percent => "Percent"@,
        Token::And => "And"@,
        Token::Or => "Or"@,
        Token::Bang => "Bang"@,
        Token::Question => "Question"@,
        Token::FatArrow => "FatArrow"@,
        Token::LParen => "LParen"@,
        Token::RParen => "RParen"@,
        Token::LBrace => "LBrace"@,
        Token::RBrace => "RBrace"@,
        Token::LBracket => "LBracket"@,
        Token::RBracket => "RBracket"@,
        Token::Colon => "Colon"@,
        Token::Semi => "Semi"@,
        Token::AutoSemi => "AutoSemi"@,
        Token::Dot => "Dot"@,
        Token::Comma => "Comma"@,
        Token::EOF => "EOF"@,
    }
}

/// How a token is named in error messages.
pub open spec fn tok_display(t: SpecTok) -> Seq<char> {
    match t {
        SpecTok::Ident(s) => "`"@ + s + "`"@,
        SpecTok::Other(Token::Semi) => "`;`"@,
        SpecTok::Other(Token::LParen) => "`(`"@,
        SpecTok::Other(Token::RParen) => "`)`"@,
        SpecTok::Other(Token::LBrace) => "`{`"@,
        SpecTok::Other(Token::RBrace) => "`}`"@,
        SpecTok::Other(Token::LBracket) => "`[`"@,
        SpecTok::Other(Token::RBracket) => "`]`"@,
        SpecTok::Other(Token::Eq) => "`=`"@,
        SpecTok::Other(Token::Colon) => "`:`"@,
        SpecTok::Other(Token::Comma) => "`,`"@,
        SpecTok::Other(Token::FatArrow) => "`=>`"@,
        SpecTok::Other(Token::Ident(s)) => "`"@ + s@ + "`"@,
        SpecTok::Other(Token::EOF) => "end of file"@,
        other => "`"@ + tok_debug(other) + "`"@,
    }
}

/// A token's view has the token's kind code.
pub proof fn lemma_stok_code(t: Token)
    ensures
        stok_code(tokv(t)) == spec_tok_code(t),
{
}

/// The kind code of a token, as `spec_tok_code` numbers it.
pub open spec fn stok_code(t: SpecTok) -> u8 {
    match t {
        SpecTok::Ident(_) => 15,
        SpecTok::Str(_) => 16,
        SpecTok::Float(_) => 18,
        SpecTok::Other(k) => spec_tok_code(k),
    }
}

// -------------------------------------------------------------------------
// Parse states

/// Where the parser is, and the errors (message, span) it reported so far.
pub struct PSt {
    pub pos: int,
    pub errs: Seq<(Seq<char>, Span)>,
}

/// The errors as (message, span).
pub open spec fn errs_v(es: Seq<ParseError>) -> Seq<(Seq<char>, Span)> {
    es.map_values(|e: ParseError| (e.message@, e.span))
}

pub open spec fn g_tok(ts: Seq<(SpecTok, Span)>, s: PSt) -> SpecTok {
    ts[s.pos].0
}

pub open spec fn g_span(ts: Seq<(SpecTok, Span)>, s: PSt) -> Span {
    ts[s.pos].1
}

/// The current token is of the kind of `t` (payloads aside).
pub open spec fn g_is(ts: Seq<(SpecTok, Span)>, s: PSt, t: Token) -> bool {
    stok_code(g_tok(ts, s)) == spec_tok_code(t)
}

/// The current token is `;` (written or inserted at a line end).
pub open spec fn g_is_semi(ts: Seq<(SpecTok, Span)>, s: PSt) -> bool {
    g_tok(ts, s) == SpecTok::Other(Token::Semi) || g_tok(ts, s) == SpecTok::Other(Token::AutoSemi)
}

/// Move to the next token; the last one (`EOF`) is never passed.
pub open spec fn g_adv(ts: Seq<(SpecTok, Span)>, s: PSt) -> PSt {
    if s.pos < ts.len() - 1 { PSt { pos: s.pos + 1, errs: s.errs } } else { s }
}

/// Report `msg` at the current token.
pub open spec fn g_err(ts: Seq<(SpecTok, Span)>, s: PSt, msg: Seq<char>) -> PSt {
    PSt { pos: s.pos, errs: s.errs.push((msg, g_span(ts, s))) }
}

/// Consume a token of the kind of `t`, or report what was found instead.
pub open spec fn g_expect(ts: Seq<(SpecTok, Span)>, s: PSt, t: Token) -> PSt {
    if g_is(ts, s, t) {
        g_adv(ts, s)
    } else {
        g_err(ts, s, "Expected "@ + tok_display(tokv(t)) + ", got "@ + tok_display(g_tok(ts, s)))
    }
}

/// An identifier and its span, or `<error>` and a report.
pub open spec fn g_ident(ts: Seq<(SpecTok, Span)>, s: PSt) -> (Seq<char>, Span, PSt) {
    match g_tok(ts, s) {
        SpecTok::Ident(n) => (n, g_span(ts, s), g_adv(ts, s)),
        t => ("<error>"@, g_span(ts, s), g_err(ts, s, "Expected identifier, got "@ + tok_display(t))),
    }
}

/// Consume a `;` if there is one.
pub open spec fn g_semi(ts: Seq<(SpecTok, Span)>, s: PSt) -> PSt {
    if g_is_semi(ts, s) { g_adv(ts, s) } else { s }
}

/// Consume a `,` if there is one.
pub open spec fn g_comma(ts: Seq<(SpecTok, Span)>, s: PSt) -> PSt {
    if g_is(ts, s, Token::Comma) { g_adv(ts, s) } else { s }
}

/// The end of the previous token (0 at the start).
pub open spec fn g_prev_end(ts: Seq<(SpecTok, Span)>, s: PSt) -> usize {
    if s.pos > 0 { ts[s.pos - 1].1.1 } else { 0 }
}

/// `b` is past `a`, and still on a token.
pub open spec fn g_moved(ts: Seq<(SpecTok, Span)>, a: PSt, b: PSt) -> bool {
    a.pos < b.pos < ts.len()
}

/// `b` is not before `a`, and still on a token.
pub open spec fn g_kept(ts: Seq<(SpecTok, Span)>, a: PSt, b: PSt) -> bool {
    a.pos <= b.pos < ts.len()
}

/// Skip `;` tokens.
pub open spec fn g_skip_semis(ts: Seq<(SpecTok, Span)>, s: PSt) -> PSt
    decreases ts.len() - s.pos,
{
    if g_is_semi(ts, s) && g_moved(ts, s, g_adv(ts, s)) {
        g_skip_semis(ts, g_adv(ts, s))
    } else if g_is_semi(ts, s) {
        g_adv(ts, s)
    } else {
        s
    }
}

// -------------------------------------------------------------------------
// Types

/// `?T`, `!T`, `N[k]`, `N!T`, `N`, `void`.
pub open spec fn g_type(ts: Seq<(SpecTok, Span)>, s: PSt) -> (TypeV, PSt)
    decreases ts.len() - s.pos,
{
    let s1 = g_adv(ts, s);
    match g_tok(ts, s) {
        SpecTok::Other(Token::Question) => if g_moved(ts, s, s1) {
            let (t, s2) = g_type(ts, s1);
            (TypeV::Optional(Box::new(t)), s2)
        } else {
            (TypeV::Name("<error>"@), s1)
        },
        SpecTok::Other(Token::Bang) => if g_moved(ts, s, s1) {
            let (t, s2) = g_type(ts, s1);
            (TypeV::ErrorUnion(None, Box::new(t)), s2)
        } else {
            (TypeV::Name("<error>"@), s1)
        },
        SpecTok::Ident(name) => if g_is(ts, s1, Token::LBracket) {
            let s2 = g_adv(ts, s1);
            let (n, s3) = match g_tok(ts, s2) {
                SpecTok::Other(Token::Int(k)) => (k as u64, g_adv(ts, s2)),
                t => (0u64, g_err(ts, s2, "Expected array size, got "@ + tok_display(t))),
            };
            (TypeV::Array(Box::new(TypeV::Name(name)), n), g_expect(ts, s3, Token::RBracket))
        } else if g_is(ts, s1, Token::Bang) {
            let s2 = g_adv(ts, s1);
            if g_moved(ts, s, s2) {
                let (t, s3) = g_type(ts, s2);
                (TypeV::ErrorUnion(Some(Box::new(TypeV::Name(name))), Box::new(t)), s3)
            } else {
                (TypeV::Name("<error>"@), s2)
            }
        } else {
            (TypeV::Name(name), s1)
        },
        SpecTok::Other(Token::Void) => (TypeV::Name("void"@), s1),
        t => (TypeV::Name("<error>"@), g_err(ts, s, "Expected type, got "@ + tok_display(t))),
    }
}

// -------------------------------------------------------------------------
// Expressions and statements

/// The operator of a comparison token.
pub open spec fn g_comparison_op(t: SpecTok) -> Option<BinOp> {
    match t {
        SpecTok::Other(Token::EqEq) => Some(BinOp::Eq),
        SpecTok::Other(Token::NotEq) => Some(BinOp::NotEq),
        SpecTok::Other(Token::Lt) => Some(BinOp::Lt),
        SpecTok::Other(Token::Gt) => Some(BinOp::Gt),
        SpecTok::Other(Token::LtEq) => Some(BinOp::LtEq),
        SpecTok::Other(Token::GtEq) => Some(BinOp::GtEq),
        _ => None,
    }
}

/// The operator of `+` or `-`.
pub open spec fn g_add_op(t: SpecTok) -> Option<BinOp> {
    match t {
        SpecTok::Other(Token::Plus) => Some(BinOp::Add),
        SpecTok::Other(Token::Minus) => Some(BinOp::Sub),
        _ => None,
    }
}

/// The operator of `*`, `/` or `%`.
pub open spec fn g_mul_op(t: SpecTok) -> Option<BinOp> {
    match t {
        SpecTok::Other(Token::Star) => Some(BinOp::Mul),
        SpecTok::Other(Token::Slash) => Some(BinOp::Div),
        SpecTok::Other(Token::Percent) => Some(BinOp::Mod),
        _ => None,
    }
}

/// `lhs op rhs`, spanning both.
pub open spec fn g_bin(op: BinOp, lhs: ExprV, rhs: ExprV) -> ExprV {
    ExprV { kind: ExprKindV::BinOp { op, lhs: Box::new(lhs), rhs: Box::new(rhs) }, span: (lhs.span.0, rhs.span.1) }
}

/// The statements of a block, up to `}` or the end.
pub open spec fn g_block(ts: Seq<(SpecTok, Span)>, s: PSt) -> (Seq<StmtV>, PSt)
    decreases ts.len() - s.pos, 22int,
{
    if g_is(ts, s, Token::RBrace) || g_is(ts, s, Token::EOF) {
        (Seq::empty(), s)
    } else {
        let s1 = g_skip_semis(ts, s);
        if g_is(ts, s1, Token::RBrace) || g_is(ts, s1, Token::EOF) || !g_kept(ts, s, s1) {
            (Seq::empty(), s1)
        } else {
            let (st, s2) = g_stmt(ts, s1);
            if g_moved(ts, s, s2) {
                let (rest, s3) = g_block(ts, s2);
                (seq![st] + rest, s3)
            } else {
                (seq![st], s2)
            }
        }
    }
}

/// A statement.
pub open spec fn g_stmt(ts: Seq<(SpecTok, Span)>, s: PSt) -> (StmtV, PSt)
    decreases ts.len() - s.pos, 21int,
{
    let span = g_span(ts, s);
    let s1 = g_adv(ts, s);
    let err = (StmtV { kind: StmtKindV::Break, span }, s1);
    if g_is(ts, s, Token::Const) || g_is(ts, s, Token::Let) {
        let (name, _, s2) = g_ident(ts, s1);
        let (ty, s3) = if g_is(ts, s2, Token::Colon) {
            let (t, s3) = g_type(ts, g_adv(ts, s2));
            (Some(t), s3)
        } else {
            (None, s2)
        };
        let s4 = g_expect(ts, s3, Token::Eq);
        if g_moved(ts, s, s4) {
            let (value, s5) = g_expr(ts, s4);
            let kind = if g_is(ts, s, Token::Const) {
                StmtKindV::ConstDecl { name, ty, value }
            } else {
                StmtKindV::LetDecl { name, ty, value }
            };
            (StmtV { kind, span }, g_semi(ts, s5))
        } else {
            err
        }
    } else if g_is(ts, s, Token::Return) {
        if g_is_semi(ts, s1) || g_is(ts, s1, Token::RBrace) || g_is(ts, s1, Token::EOF) {
            (StmtV { kind: StmtKindV::Return(None), span }, g_semi(ts, s1))
        } else if g_moved(ts, s, s1) {
            let (e, s2) = g_expr(ts, s1);
            (StmtV { kind: StmtKindV::Return(Some(e)), span }, g_semi(ts, s2))
        } else {
            err
        }
    } else if g_is(ts, s, Token::If) {
        if g_moved(ts, s, s1) {
            let (cond, s2) = g_expr(ts, s1);
            let s3 = g_expect(ts, s2, Token::LBrace);
            if g_moved(ts, s, s3) {
                let (body, s4) = g_block(ts, s3);
                let s5 = g_expect(ts, s4, Token::RBrace);
                if g_is(ts, s5, Token::Else) {
                    let s7 = g_expect(ts, g_adv(ts, s5), Token::LBrace);
                    if g_moved(ts, s, s7) {
                        let (eb, s8) = g_block(ts, s7);
                        (StmtV { kind: StmtKindV::If { cond, body, else_body: Some(eb) }, span },
                            g_expect(ts, s8, Token::RBrace))
                    } else {
                        err
                    }
                } else {
                    (StmtV { kind: StmtKindV::If { cond, body, else_body: None }, span }, s5)
                }
            } else {
                err
            }
        } else {
            err
        }
    } else if g_is(ts, s, Token::While) {
        if g_moved(ts, s, s1) {
            let (cond, s2) = g_expr(ts, s1);
            let s3 = g_expect(ts, s2, Token::LBrace);
            if g_moved(ts, s, s3) {
                let (body, s4) = g_block(ts, s3);
                (StmtV { kind: StmtKindV::While { cond, body }, span }, g_expect(ts, s4, Token::RBrace))
            } else {
                err
            }
        } else {
            err
        }
    } else if g_is(ts, s, Token::Break) {
        (StmtV { kind: StmtKindV::Break, span }, g_semi(ts, s1))
    } else if g_is(ts, s, Token::Continue) {
        (StmtV { kind: StmtKindV::Continue, span }, g_semi(ts, s1))
    } else {
        let (e, s2) = g_expr(ts, s);
        (StmtV { kind: StmtKindV::ExprStmt(e), span }, g_semi(ts, s2))
    }
}

/// An expression.
pub open spec fn g_expr(ts: Seq<(SpecTok, Span)>, s: PSt) -> (ExprV, PSt)
    decreases ts.len() - s.pos, 18int,
{
    g_or(ts, s)
}

/// `a or b or ...`, grouped to the left.
pub open spec fn g_or(ts: Seq<(SpecTok, Span)>, s: PSt) -> (ExprV, PSt)
    decreases ts.len() - s.pos, 17int,
{
    let (lhs, s1) = g_and(ts, s);
    if g_kept(ts, s, s1) { g_or_rest(ts, s1, lhs) } else { (lhs, s1) }
}

pub open spec fn g_or_rest(ts: Seq<(SpecTok, Span)>, s: PSt, lhs: ExprV) -> (ExprV, PSt)
    decreases ts.len() - s.pos, 16int,
{
    let s1 = g_adv(ts, s);
    if g_is(ts, s, Token::Or) && g_moved(ts, s, s1) {
        let (rhs, s2) = g_and(ts, s1);
        if g_moved(ts, s, s2) { g_or_rest(ts, s2, g_bin(BinOp::Or, lhs, rhs)) } else { (g_bin(BinOp::Or, lhs, rhs), s2) }
    } else {
        (lhs, s)
    }
}

/// `a and b and ...`, grouped to the left.
pub open spec fn g_and(ts: Seq<(SpecTok, Span)>, s: PSt) -> (ExprV, PSt)
    decreases ts.len() - s.pos, 15int,
{
    let (lhs, s1) = g_cmp(ts, s);
    if g_kept(ts, s, s1) { g_and_rest(ts, s1, lhs) } else { (lhs, s1) }
}

pub open spec fn g_and_rest(ts: Seq<(SpecTok, Span)>, s: PSt, lhs: ExprV) -> (ExprV, PSt)
    decreases ts.len() - s.pos, 14int,
{
    let s1 = g_adv(ts, s);
    if g_is(ts, s, Token::And) && g_moved(ts, s, s1) {
        let (rhs, s2) = g_cmp(ts, s1);
        if g_moved(ts, s, s2) { g_and_rest(ts, s2, g_bin(BinOp::And, lhs, rhs)) } else { (g_bin(BinOp::And, lhs, rhs), s2) }
    } else {
        (lhs, s)
    }
}

/// `a`, or one comparison `a < b` (comparisons do not chain).
pub open spec fn g_cmp(ts: Seq<(SpecTok, Span)>, s: PSt) -> (ExprV, PSt)
    decreases ts.len() - s.pos, 13int,
{
    let (lhs, s1) = g_add(ts, s);
    let s2 = g_adv(ts, s1);
    match g_comparison_op(g_tok(ts, s1)) {
        Some(op) => if g_moved(ts, s, s2) {
            let (rhs, s3) = g_add(ts, s2);
            (g_bin(op, lhs, rhs), s3)
        } else {
            (lhs, s1)
        },
        None => (lhs, s1),
    }
}

/// `a + b - ...`, grouped to the left.
pub open spec fn g_add(ts: Seq<(SpecTok, Span)>, s: PSt) -> (ExprV, PSt)
    decreases ts.len() - s.pos, 12int,
{
    let (lhs, s1) = g_mul(ts, s);
    if g_kept(ts, s, s1) { g_add_rest(ts, s1, lhs) } else { (lhs, s1) }
}

pub open spec fn g_add_rest(ts: Seq<(SpecTok, Span)>, s: PSt, lhs: ExprV) -> (ExprV, PSt)
    decreases ts.len() - s.pos, 11int,
{
    let s1 = g_adv(ts, s);
    match g_add_op(g_tok(ts, s)) {
        Some(op) => if g_moved(ts, s, s1) {
            let (rhs, s2) = g_mul(ts, s1);
            if g_moved(ts, s, s2) { g_add_rest(ts, s2, g_bin(op, lhs, rhs)) } else { (g_bin(op, lhs, rhs), s2) }
        } else {
            (lhs, s)
        },
        None => (lhs, s),
    }
}

/// `a * b / ...`, grouped to the left.
pub open spec fn g_mul(ts: Seq<(SpecTok, Span)>, s: PSt) -> (ExprV, PSt)
    decreases ts.len() - s.pos, 10int,
{
    let (lhs, s1) = g_unary(ts, s);
    if g_kept(ts, s, s1) { g_mul_rest(ts, s1, lhs) } else { (lhs, s1) }
}

pub open spec fn g_mul_rest(ts: Seq<(SpecTok, Span)>, s: PSt, lhs: ExprV) -> (ExprV, PSt)
    decreases ts.len() - s.pos, 9int,
{
    let s1 = g_adv(ts, s);
    match g_mul_op(g_tok(ts, s)) {
        Some(op) => if g_moved(ts, s, s1) {
            let (rhs, s2) = g_unary(ts, s1);
            if g_moved(ts, s, s2) { g_mul_rest(ts, s2, g_bin(op, lhs, rhs)) } else { (g_bin(op, lhs, rhs), s2) }
        } else {
            (lhs, s)
        },
        None => (lhs, s),
    }
}

/// `!a`, `-a`, or a postfix expression.
pub open spec fn g_unary(ts: Seq<(SpecTok, Span)>, s: PSt) -> (ExprV, PSt)
    decreases ts.len() - s.pos, 8int,
{
    let s1 = g_adv(ts, s);
    if (g_is(ts, s, Token::Bang) || g_is(ts, s, Token::Minus)) && g_moved(ts, s, s1) {
        let op = if g_is(ts, s, Token::Bang) { UnOp::Not } else { UnOp::Neg };
        let (e, s2) = g_unary(ts, s1);
        (ExprV { kind: ExprKindV::UnOp { op, expr: Box::new(e) }, span: (g_span(ts, s).0, e.span.1) }, s2)
    } else if g_is(ts, s, Token::Bang) || g_is(ts, s, Token::Minus) {
        (ExprV { kind: ExprKindV::Int(0), span: g_span(ts, s) }, s1)
    } else {
        g_postfix(ts, s)
    }
}

/// A primary expression followed by member accesses, calls, indexing, `?` and `catch`.
pub open spec fn g_postfix(ts: Seq<(SpecTok, Span)>, s: PSt) -> (ExprV, PSt)
    decreases ts.len() - s.pos, 7int,
{
    let (e, s1) = g_primary(ts, s);
    if g_kept(ts, s, s1) { g_postfix_rest(ts, s1, e) } else { (e, s1) }
}

pub open spec fn g_postfix_rest(ts: Seq<(SpecTok, Span)>, s: PSt, e: ExprV) -> (ExprV, PSt)
    decreases ts.len() - s.pos, 6int,
{
    let start = e.span.0;
    let s1 = g_adv(ts, s);
    if !g_moved(ts, s, s1) {
        (e, s)
    } else if g_is(ts, s, Token::Dot) {
        let (prop, _, s2) = g_ident(ts, s1);
        let x = ExprV { kind: ExprKindV::MemberAccess { obj: Box::new(e), prop }, span: (start, g_prev_end(ts, s2)) };
        if g_moved(ts, s, s2) { g_postfix_rest(ts, s2, x) } else { (x, s2) }
    } else if g_is(ts, s, Token::LParen) {
        let (args, s2) = g_args(ts, s1);
        let s3 = g_expect(ts, s2, Token::RParen);
        let x = ExprV { kind: ExprKindV::Call { callee: Box::new(e), args }, span: (start, g_prev_end(ts, s3)) };
        if g_moved(ts, s, s3) { g_postfix_rest(ts, s3, x) } else { (x, s3) }
    } else if g_is(ts, s, Token::LBracket) {
        let (idx, s2) = g_expr(ts, s1);
        let s3 = g_expect(ts, s2, Token::RBracket);
        let x = ExprV { kind: ExprKindV::Index { obj: Box::new(e), idx: Box::new(idx) }, span: (start, g_prev_end(ts, s3)) };
        if g_moved(ts, s, s3) { g_postfix_rest(ts, s3, x) } else { (x, s3) }
    } else if g_is(ts, s, Token::Question) {
        let x = ExprV { kind: ExprKindV::Propagate(Box::new(e)), span: (start, g_prev_end(ts, s1)) };
        g_postfix_rest(ts, s1, x)
    } else if g_is(ts, s, Token::Catch) {
        let (err_name, _, s2) = g_ident(ts, s1);
        let s3 = g_expect(ts, s2, Token::LBrace);
        if g_moved(ts, s, s3) {
            let (body, s4) = g_block(ts, s3);
            let s5 = g_expect(ts, s4, Token::RBrace);
            let x = ExprV { kind: ExprKindV::Catch { expr: Box::new(e), err_name, body }, span: (start, g_prev_end(ts, s5)) };
            if g_moved(ts, s, s5) { g_postfix_rest(ts, s5, x) } else { (x, s5) }
        } else {
            (e, s3)
        }
    } else {
        (e, s)
    }
}

/// Comma-separated expressions up to `)`.
pub open spec fn g_args(ts: Seq<(SpecTok, Span)>, s: PSt) -> (Seq<ExprV>, PSt)
    decreases ts.len() - s.pos, 20int,
{
    if g_is(ts, s, Token::RParen) {
        (Seq::empty(), s)
    } else {
        let (a, s1) = g_expr(ts, s);
        let s2 = g_comma(ts, s1);
        if g_moved(ts, s, s2) {
            let (rest, s3) = g_args(ts, s2);
            (seq![a] + rest, s3)
        } else {
            (seq![a], s2)
        }
    }
}

/// Comma-separated expressions up to `]`.
pub open spec fn g_elems(ts: Seq<(SpecTok, Span)>, s: PSt) -> (Seq<ExprV>, PSt)
    decreases ts.len() - s.pos, 20int,
{
    if g_is(ts, s, Token::RBracket) {
        (Seq::empty(), s)
    } else {
        let (a, s1) = g_expr(ts, s);
        let s2 = g_comma(ts, s1);
        if g_moved(ts, s, s2) {
            let (rest, s3) = g_elems(ts, s2);
            (seq![a] + rest, s3)
        } else {
            (seq![a], s2)
        }
    }
}

/// A switch pattern; anything else is reported and read as `else`.
pub open spec fn g_pattern(ts: Seq<(SpecTok, Span)>, s: PSt) -> (PatternV, PSt) {
    match g_tok(ts, s) {
        SpecTok::Other(Token::Else) => (PatternV::Else, g_adv(ts, s)),
        SpecTok::Ident(n) => (PatternV::Ident(n), g_adv(ts, s)),
        SpecTok::Other(Token::Int(n)) => (PatternV::Int(n), g_adv(ts, s)),
        SpecTok::Other(Token::True) => (PatternV::Bool(true), g_adv(ts, s)),
        SpecTok::Other(Token::False) => (PatternV::Bool(false), g_adv(ts, s)),
        t => (PatternV::Else, g_adv(ts, g_err(ts, s, "Unexpected switch pattern: "@ + tok_display(t)))),
    }
}

/// Switch arms up to `}`.
pub open spec fn g_arms(ts: Seq<(SpecTok, Span)>, s: PSt) -> (Seq<ArmV>, PSt)
    decreases ts.len() - s.pos, 20int,
{
    if g_is(ts, s, Token::RBrace) {
        (Seq::empty(), s)
    } else {
        let (pattern, s1) = g_pattern(ts, s);
        let s2 = g_expect(ts, s1, Token::FatArrow);
        let s3 = g_adv(ts, s2);
        let (arm, s6) = if g_is(ts, s2, Token::LBrace) {
            if g_moved(ts, s, s3) {
                let (b, s4) = g_block(ts, s3);
                let s5 = g_expect(ts, s4, Token::RBrace);
                (ArmV { pattern, body: BodyV::Block(b) }, g_comma(ts, s5))
            } else {
                (ArmV { pattern, body: BodyV::Block(Seq::empty()) }, s3)
            }
        } else if g_kept(ts, s, s2) {
            let (x, s4) = g_expr(ts, s2);
            (ArmV { pattern, body: BodyV::Expr(x) }, g_comma(ts, s4))
        } else {
            (ArmV { pattern, body: BodyV::Block(Seq::empty()) }, s2)
        };
        if g_moved(ts, s, s6) {
            let (rest, s7) = g_arms(ts, s6);
            (seq![arm] + rest, s7)
        } else {
            (seq![arm], s6)
        }
    }
}

/// `switch x { arms }`, at the `switch`.
pub open spec fn g_switch(ts: Seq<(SpecTok, Span)>, s: PSt) -> (ExprV, PSt)
    decreases ts.len() - s.pos, 4int,
{
    let span = g_span(ts, s);
    let s1 = g_adv(ts, s);
    let err = (ExprV { kind: ExprKindV::Int(0), span }, s1);
    if g_moved(ts, s, s1) {
        let (x, s2) = g_expr(ts, s1);
        let s3 = g_expect(ts, s2, Token::LBrace);
        if g_moved(ts, s, s3) {
            let (arms, s4) = g_arms(ts, s3);
            let s5 = g_expect(ts, s4, Token::RBrace);
            (ExprV { kind: ExprKindV::Switch { expr: Box::new(x), arms }, span: (span.0, g_prev_end(ts, s5)) }, s5)
        } else {
            err
        }
    } else {
        err
    }
}

/// `if c then a else b`, at the `if`.
pub open spec fn g_if(ts: Seq<(SpecTok, Span)>, s: PSt) -> (ExprV, PSt)
    decreases ts.len() - s.pos, 4int,
{
    let span = g_span(ts, s);
    let s1 = g_adv(ts, s);
    let err = (ExprV { kind: ExprKindV::Int(0), span }, s1);
    if g_moved(ts, s, s1) {
        let (cond, s2) = g_expr(ts, s1);
        let s3 = g_expect(ts, s2, Token::Then);
        if g_moved(ts, s, s3) {
            let (then_, s4) = g_expr(ts, s3);
            let s5 = g_expect(ts, s4, Token::Else);
            if g_moved(ts, s, s5) {
                let (else_, s6) = g_expr(ts, s5);
                (ExprV {
                    kind: ExprKindV::If { cond: Box::new(cond), then_: Box::new(then_), else_: Box::new(else_) },
                    span: (span.0, g_prev_end(ts, s6)),
                }, s6)
            } else {
                err
            }
        } else {
            err
        }
    } else {
        err
    }
}

/// `import("m")`, at the `import`.
pub open spec fn g_import(ts: Seq<(SpecTok, Span)>, s: PSt) -> (ExprV, PSt) {
    let s2 = g_expect(ts, g_adv(ts, s), Token::LParen);
    let s3 = g_adv(ts, s2);
    let (module, s4) = match g_tok(ts, s2) {
        SpecTok::Str(m) => (m, s3),
        t => (Seq::empty(), g_err(ts, s3, "Expected string in import(), got "@ + tok_display(t))),
    };
    let s5 = g_expect(ts, s4, Token::RParen);
    (ExprV { kind: ExprKindV::Import(module), span: (g_span(ts, s).0, g_prev_end(ts, s5)) }, s5)
}

/// A name or a literal; anything else is reported and read as `0`.
pub open spec fn g_atom(ts: Seq<(SpecTok, Span)>, s: PSt) -> (ExprV, PSt) {
    let span = g_span(ts, s);
    let s1 = g_adv(ts, s);
    match g_tok(ts, s) {
        SpecTok::Ident(n) => (ExprV { kind: ExprKindV::Var(n), span }, s1),
        SpecTok::Str(x) => (ExprV { kind: ExprKindV::Str(x), span }, s1),
        SpecTok::Other(Token::Int(n)) => (ExprV { kind: ExprKindV::Int(n), span }, s1),
        SpecTok::Float(f) => (ExprV { kind: ExprKindV::Float(f), span }, s1),
        SpecTok::Other(Token::True) => (ExprV { kind: ExprKindV::Bool(true), span }, s1),
        SpecTok::Other(Token::False) => (ExprV { kind: ExprKindV::Bool(false), span }, s1),
        t => (ExprV { kind: ExprKindV::Int(0), span }, g_adv(ts, g_err(ts, s, "Unexpected token: "@ + tok_display(t)))),
    }
}

/// A primary expression: switch, if-then-else, import, array literal,
/// parenthesised expression, name or literal.
pub open spec fn g_primary(ts: Seq<(SpecTok, Span)>, s: PSt) -> (ExprV, PSt)
    decreases ts.len() - s.pos, 5int,
{
    let span = g_span(ts, s);
    let s1 = g_adv(ts, s);
    let err = (ExprV { kind: ExprKindV::Int(0), span }, s1);
    if g_is(ts, s, Token::Switch) {
        g_switch(ts, s)
    } else if g_is(ts, s, Token::If) {
        g_if(ts, s)
    } else if g_is(ts, s, Token::Import) {
        g_import(ts, s)
    } else if g_is(ts, s, Token::LBracket) {
        if g_moved(ts, s, s1) {
            let (elems, s2) = g_elems(ts, s1);
            let s3 = g_expect(ts, s2, Token::RBracket);
            (ExprV { kind: ExprKindV::ArrayLiteral(elems), span: (span.0, g_prev_end(ts, s3)) }, s3)
        } else {
            err
        }
    } else if g_is(ts, s, Token::LParen) {
        if g_moved(ts, s, s1) {
            let (e, s2) = g_expr(ts, s1);
            (e, g_expect(ts, s2, Token::RParen))
        } else {
            err
        }
    } else {
        g_atom(ts, s)
    }
}

// -------------------------------------------------------------------------
// Top-level items

/// `name: T` fields up to `}`.
pub open spec fn g_fields(ts: Seq<(SpecTok, Span)>, s: PSt) -> (Seq<(Seq<char>, TypeV)>, PSt)
    decreases ts.len() - s.pos,
{
    if g_is(ts, s, Token::RBrace) {
        (Seq::empty(), s)
    } else {
        let (name, _, s1) = g_ident(ts, s);
        let (ty, s3) = g_type(ts, g_expect(ts, s1, Token::Colon));
        let s4 = g_comma(ts, s3);
        if g_moved(ts, s, s4) {
            let (rest, s5) = g_fields(ts, s4);
            (seq![(name, ty)] + rest, s5)
        } else {
            (seq![(name, ty)], s4)
        }
    }
}

/// `name: T` parameters up to `)`.
pub open spec fn g_params(ts: Seq<(SpecTok, Span)>, s: PSt) -> (Seq<(Seq<char>, TypeV)>, PSt)
    decreases ts.len() - s.pos,
{
    if g_is(ts, s, Token::RParen) {
        (Seq::empty(), s)
    } else {
        let (name, _, s1) = g_ident(ts, s);
        let (ty, s3) = g_type(ts, g_expect(ts, s1, Token::Colon));
        let s4 = g_comma(ts, s3);
        if g_moved(ts, s, s4) {
            let (rest, s5) = g_params(ts, s4);
            (seq![(name, ty)] + rest, s5)
        } else {
            (seq![(name, ty)], s4)
        }
    }
}

/// Enum variant names up to `}`.
pub open spec fn g_variants(ts: Seq<(SpecTok, Span)>, s: PSt) -> (Seq<Seq<char>>, PSt)
    decreases ts.len() - s.pos,
{
    if g_is(ts, s, Token::RBrace) {
        (Seq::empty(), s)
    } else {
        let (name, _, s1) = g_ident(ts, s);
        let s2 = g_comma(ts, s1);
        if g_moved(ts, s, s2) {
            let (rest, s3) = g_variants(ts, s2);
            (seq![name] + rest, s3)
        } else {
            (seq![name], s2)
        }
    }
}

/// After `const NAME =`: 1 for `struct`, 2 for `enum`, 0 otherwise.
pub open spec fn g_const_kind(t: SpecTok) -> u8 {
    match t {
        SpecTok::Ident(kw) => if kw == "struct"@ { 1 } else if kw == "enum"@ { 2 } else { 0 },
        _ => 0,
    }
}

/// A top-level item: a const, struct or enum declaration, a function, or a statement.
pub open spec fn g_toplevel(ts: Seq<(SpecTok, Span)>, s: PSt) -> (TopLevelV, PSt) {
    let exported = g_is(ts, s, Token::Export);
    let s0 = if exported { g_adv(ts, s) } else { s };
    if g_is(ts, s0, Token::Const) {
        let (name, name_span, s2) = g_ident(ts, g_adv(ts, s0));
        let s3 = g_expect(ts, s2, Token::Eq);
        let kind = g_const_kind(g_tok(ts, s3));
        if kind == 1 {
            let (fields, s6) = g_fields(ts, g_expect(ts, g_adv(ts, s3), Token::LBrace));
            (TopLevelV::StructDecl { name, fields, exported }, g_semi(ts, g_expect(ts, s6, Token::RBrace)))
        } else if kind == 2 {
            let (variants, s6) = g_variants(ts, g_expect(ts, g_adv(ts, s3), Token::LBrace));
            (TopLevelV::EnumDecl { name, variants, exported }, g_semi(ts, g_expect(ts, s6, Token::RBrace)))
        } else {
            let (value, s4) = g_expr(ts, s3);
            (TopLevelV::ConstDecl { name, name_span, value, exported }, g_semi(ts, s4))
        }
    } else if g_is(ts, s0, Token::Fn) {
        let (name, _, s2) = g_ident(ts, g_adv(ts, s0));
        let (params, s4) = g_params(ts, g_expect(ts, s2, Token::LParen));
        let (ret, s7) = g_type(ts, g_expect(ts, g_expect(ts, s4, Token::RParen), Token::Colon));
        let (body, s9) = g_block(ts, g_expect(ts, s7, Token::LBrace));
        (TopLevelV::FnDecl { name, params, ret, body, exported }, g_expect(ts, s9, Token::RBrace))
    } else {
        let (st, s1) = g_stmt(ts, s0);
        (TopLevelV::Stmt(st), s1)
    }
}

/// The end of the last token before `k` that is not a `;` (0 if there is none).
pub open spec fn g_content_end(ts: Seq<(SpecTok, Span)>, k: int) -> usize
    decreases k,
{
    if k > 0 && (ts[k - 1].0 == SpecTok::Other(Token::Semi) || ts[k - 1].0 == SpecTok::Other(Token::AutoSemi)) {
        g_content_end(ts, k - 1)
    } else if k > 0 {
        ts[k - 1].1.1
    } else {
        0
    }
}

/// The items up to the end, each with the source range between the previous
/// item's content and the item's first token.
pub open spec fn g_program(ts: Seq<(SpecTok, Span)>, s: PSt) -> (Seq<TopLevelV>, Seq<Span>, PSt)
    decreases ts.len() - s.pos,
{
    if g_is(ts, s, Token::EOF) {
        (Seq::empty(), Seq::empty(), s)
    } else {
        let s1 = g_skip_semis(ts, s);
        if g_is(ts, s1, Token::EOF) || !g_kept(ts, s, s1) {
            (Seq::empty(), Seq::empty(), s1)
        } else {
            let gap = (g_content_end(ts, s1.pos), g_span(ts, s1).0);
            let (item, s2) = g_toplevel(ts, s1);
            if g_moved(ts, s, s2) {
                let (rest, gaps, s3) = g_program(ts, s2);
                (seq![item] + rest, seq![gap] + gaps, s3)
            } else {
                (seq![item], seq![gap], s2)
            }
        }
    }
}

/// What the parser makes of a token stream: the items, their gaps, and the
/// errors reported.
pub open spec fn g_parse(ts: Seq<(SpecTok, Span)>) -> (Seq<TopLevelV>, Seq<Span>, PSt) {
    g_program(ts, PSt { pos: 0, errs: Seq::empty() })
}

} // verus!
