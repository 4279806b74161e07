//! Source formatter: prints a program in the canonical layout.
use vstd::prelude::*;
use crate::lexer::Span;
use vstd::string::StringSliceAdditionalSpecFns;
use crate::parser::{
    BinOp, Expr, ExprKind, FnDecl, Program, Stmt, StmtKind, SwitchArm, SwitchBody, SwitchPattern,
    TopLevel, TypeExpr, UnOp,
};
use crate::parser::StructField;
use crate::grammar::{g_add_op, g_comparison_op, g_mul_op};
use crate::lexer::{keyword, pair_tok, single_tok, SpecTok, Token};
use crate::strs::{
    cat2, cat3, escape_spec, escape_str, float_point, float_point_text, float_text_ok, i64_to_string,
    int_dec, is_suffix, join_all, join_spec, join_strings, push_char, push_str, to_string, trim_start,
    u64_to_string, views, ws_start,
};

verus! {


/// The source spelling of a type expression.
pub open spec fn spec_fmt_type(ty: TypeExpr) -> Seq<char>
    decreases ty,
{
    match ty {
        TypeExpr::Name(s) => s@,
        TypeExpr::Array(inner, n) => spec_fmt_type(*inner) + "["@ + int_dec(n as int) + "]"@,
        TypeExpr::Optional(inner) => "?"@ + spec_fmt_type(*inner),
        TypeExpr::ErrorUnion(None, t) => "!"@ + spec_fmt_type(*t),
        TypeExpr::ErrorUnion(Some(e), t) => spec_fmt_type(*e) + "!"@ + spec_fmt_type(*t),
    }
}

/// Binding strength of a binary operator (higher binds tighter).
pub open spec fn spec_precedence(op: BinOp) -> u8 {
    match op {
        BinOp::Or => 1,
        BinOp::And => 2,
        BinOp::Eq | BinOp::NotEq | BinOp::Lt | BinOp::Gt | BinOp::LtEq | BinOp::GtEq => 3,
        BinOp::Add | BinOp::Sub => 4,
        BinOp::Mul | BinOp::Div | BinOp::Mod => 5,
    }
}

pub fn fmt_type(ty: &TypeExpr) -> (r: String)
    ensures
        r@ == spec_fmt_type(*ty),
    decreases ty,
{
    match ty {
        TypeExpr::Name(s) => s.clone(),
        TypeExpr::Array(inner, n) => {
            let t = fmt_type(inner);
            let d = u64_to_string(*n);
            let r = join_all(vec![t.as_str(), "[", d.as_str(), "]"]);
            proof {
                reveal_with_fuel(crate::strs::concat_all, 5);
            }
            r
        },
        TypeExpr::Optional(inner) => {
            let t = fmt_type(inner);
            cat2("?", t.as_str())
        },
        TypeExpr::ErrorUnion(None, t) => {
            let t = fmt_type(t);
            cat2("!", t.as_str())
        },
        TypeExpr::ErrorUnion(Some(e), t) => {
            let a = fmt_type(e);
            let b = fmt_type(t);
            cat3(a.as_str(), "!", b.as_str())
        },
    }
}

/// The source spelling of a binary operator.
pub fn binop_str(op: BinOp) -> (r: &'static str)
    ensures
        r@ == spec_binop_str(op),
{
    match op {
        BinOp::Add => "+",
        BinOp::Sub => "-",
        BinOp::Mul => "*",
        BinOp::Div => "/",
        BinOp::Mod => "%",
        BinOp::Eq => "==",
        BinOp::NotEq => "!=",
        BinOp::Lt => "<",
        BinOp::Gt => ">",
        BinOp::LtEq => "<=",
        BinOp::GtEq => ">=",
        BinOp::And => "and",
        BinOp::Or => "or",
    }
}

pub open spec fn spec_binop_str(op: BinOp) -> Seq<char> {
    match op {
        BinOp::Add => "+"@,
        BinOp::Sub => "-"@,
        BinOp::Mul => "*"@,
        BinOp::Div => "/"@,
        BinOp::Mod => "%"@,
        BinOp::Eq => "=="@,
        BinOp::NotEq => "!="@,
        BinOp::Lt => "<"@,
        BinOp::Gt => ">"@,
        BinOp::LtEq => "<="@,
        BinOp::GtEq => ">="@,
        BinOp::And => "and"@,
        BinOp::Or => "or"@,
    }
}

pub fn precedence(op: BinOp) -> (r: u8)
    ensures
        r == spec_precedence(op),
{
    match op {
        BinOp::Or => 1,
        BinOp::And => 2,
        BinOp::Eq | BinOp::NotEq | BinOp::Lt | BinOp::Gt | BinOp::LtEq | BinOp::GtEq => 3,
        BinOp::Add | BinOp::Sub => 4,
        BinOp::Mul | BinOp::Div | BinOp::Mod => 5,
    }
}


// ---------------------------------------------------------------------------
// The canonical layout, as text

/// `l + 1`, saturating at the largest `usize`.
pub open spec fn deeper(l: int) -> int {
    if l < usize::MAX { l + 1 } else { l }
}

/// `level` levels of four-space indentation.
pub open spec fn indent_spec(level: nat) -> Seq<char>
    decreases level,
{
    if level == 0 {
        Seq::empty()
    } else {
        indent_spec((level - 1) as nat) + "    "@
    }
}

/// A line at indentation `level`.
pub open spec fn line_spec(level: int, s: Seq<char>) -> Seq<char> {
    indent_spec(level as nat) + s + seq!['\n']
}

/// `s` without leading whitespace.
pub open spec fn trim_start_spec(s: Seq<char>) -> Seq<char> {
    s.subrange(ws_start(s, 0), s.len() as int)
}

/// The source text of a literal float.
pub open spec fn float_spec(f: Seq<char>) -> Seq<char> {
    if f.len() > 0 && f[0] != '.' { float_point(f) } else { f }
}

/// A boolean's text.
pub open spec fn bool_spec(b: bool) -> Seq<char> {
    if b { "true"@ } else { "false"@ }
}

/// The left operand's text, bracketed when it binds more loosely than `op`.
pub open spec fn left_operand(op: BinOp, child: Expr, s: Seq<char>) -> Seq<char> {
    match child.kind {
        ExprKind::BinOp { op: inner, .. } => if spec_precedence(inner) < spec_precedence(op) {
            "("@ + s + ")"@
        } else {
            s
        },
        _ => s,
    }
}

/// The right operand's text, bracketed when it binds no tighter than `op`.
pub open spec fn right_operand(op: BinOp, child: Expr, s: Seq<char>) -> Seq<char> {
    match child.kind {
        ExprKind::BinOp { op: inner, .. } => if spec_precedence(inner) <= spec_precedence(op) {
            "("@ + s + ")"@
        } else {
            s
        },
        _ => s,
    }
}

/// A unary operand's text, bracketed when it is a binary operation.
pub open spec fn unary_operand(child: Expr, s: Seq<char>) -> Seq<char> {
    match child.kind {
        ExprKind::BinOp { .. } => "("@ + s + ")"@,
        _ => s,
    }
}

/// A switch pattern's text.
pub open spec fn pattern_spec(p: SwitchPattern) -> Seq<char> {
    match p {
        SwitchPattern::Ident(n) => n@,
        SwitchPattern::Int(n) => int_dec(n as int),
        SwitchPattern::Bool(b) => bool_spec(b),
        SwitchPattern::Else => "else"@,
    }
}

/// The canonical text of an expression that stands at indentation `l`.
pub open spec fn fmt_expr_spec(e: Expr, l: int) -> Seq<char>
    decreases e,
{
    match e.kind {
        ExprKind::Import(path) => "import(\""@ + path@ + "\")"@,
        ExprKind::Var(s) => s@,
        ExprKind::Str(s) => "\""@ + escape_spec(s@) + "\""@,
        ExprKind::Int(n) => int_dec(n as int),
        ExprKind::Float(f) => float_spec(f@),
        ExprKind::Bool(b) => bool_spec(b),
        ExprKind::MemberAccess { obj, prop } => fmt_expr_spec(*obj, l) + "."@ + prop@,
        ExprKind::Call { callee, args } => fmt_expr_spec(*callee, l) + "("@
            + join_spec(fmt_exprs_spec(args@, l), ", "@) + ")"@,
        ExprKind::Index { obj, idx } => fmt_expr_spec(*obj, l) + "["@ + fmt_expr_spec(*idx, l) + "]"@,
        ExprKind::Propagate(x) => fmt_expr_spec(*x, l) + "?"@,
        ExprKind::Catch { expr, err_name, body } => fmt_expr_spec(*expr, l) + " catch "@ + err_name@ + " {"@
            + seq!['\n'] + fmt_nested_spec(body@, deeper(l)) + indent_spec(l as nat) + seq!['}'],
        ExprKind::Switch { expr, arms } => "switch "@ + fmt_expr_spec(*expr, l) + " {\n"@
            + fmt_arms_spec(arms@, deeper(l)) + indent_spec(l as nat) + seq!['}'],
        ExprKind::ArrayLiteral(elems) => "["@ + join_spec(fmt_exprs_spec(elems@, l), ", "@) + "]"@,
        ExprKind::BinOp { op, lhs, rhs } => left_operand(op, *lhs, fmt_expr_spec(*lhs, l)) + " "@
            + spec_binop_str(op) + " "@ + right_operand(op, *rhs, fmt_expr_spec(*rhs, l)),
        ExprKind::UnOp { op, expr } => match op {
            UnOp::Neg => "-"@ + unary_operand(*expr, fmt_expr_spec(*expr, l)),
            UnOp::Not => "!"@ + unary_operand(*expr, fmt_expr_spec(*expr, l)),
        },
        ExprKind::If { cond, then_, else_ } => "if "@ + fmt_expr_spec(*cond, l) + " then "@
            + fmt_expr_spec(*then_, l) + " else "@ + fmt_expr_spec(*else_, l),
    }
}

/// The texts of a list of expressions at indentation `l`.
pub open spec fn fmt_exprs_spec(es: Seq<Expr>, l: int) -> Seq<Seq<char>>
    decreases es,
{
    if es.len() == 0 {
        Seq::empty()
    } else {
        fmt_exprs_spec(es.subrange(0, es.len() - 1), l).push(fmt_expr_spec(es[es.len() - 1], l))
    }
}

/// Statements nested in an expression at indentation `l`: each statement's
/// text at `l` with its leading whitespace replaced by the indentation of `l`.
pub open spec fn fmt_nested_spec(ss: Seq<Stmt>, l: int) -> Seq<char>
    decreases ss,
{
    if ss.len() == 0 {
        Seq::empty()
    } else {
        fmt_nested_spec(ss.subrange(0, ss.len() - 1), l) + indent_spec(l as nat)
            + trim_start_spec(fmt_stmt_spec(ss[ss.len() - 1], l))
    }
}

/// A switch arm at indentation `l`.
pub open spec fn fmt_arm_spec(arm: SwitchArm, l: int) -> Seq<char>
    decreases arm,
{
    match arm.body {
        SwitchBody::Expr(x) => indent_spec(l as nat) + pattern_spec(arm.pattern) + " => "@ + fmt_expr_spec(x, l)
            + ",\n"@,
        SwitchBody::Block(stmts) => indent_spec(l as nat) + pattern_spec(arm.pattern) + " => {\n"@
            + fmt_nested_spec(stmts@, deeper(l)) + indent_spec(l as nat) + "},\n"@,
    }
}

/// Switch arms at indentation `l`.
pub open spec fn fmt_arms_spec(arms: Seq<SwitchArm>, l: int) -> Seq<char>
    decreases arms,
{
    if arms.len() == 0 {
        Seq::empty()
    } else {
        fmt_arms_spec(arms.subrange(0, arms.len() - 1), l) + fmt_arm_spec(arms[arms.len() - 1], l)
    }
}

/// The declared type of a binding, `: T`, or nothing.
pub open spec fn annot_spec(ty: Option<TypeExpr>) -> Seq<char> {
    match ty {
        Some(t) => ": "@ + spec_fmt_type(t),
        None => Seq::empty(),
    }
}

/// The canonical lines of a statement at indentation `l`.
pub open spec fn fmt_stmt_spec(s: Stmt, l: int) -> Seq<char>
    decreases s,
{
    match s.kind {
        StmtKind::ConstDecl { name, ty, value } => line_spec(l, "const "@ + name@ + annot_spec(ty) + " = "@
            + fmt_expr_spec(value, l)),
        StmtKind::LetDecl { name, ty, value } => line_spec(l, "let "@ + name@ + annot_spec(ty) + " = "@
            + fmt_expr_spec(value, l)),
        StmtKind::Return(None) => line_spec(l, "return"@),
        StmtKind::Return(Some(e)) => line_spec(l, "return "@ + fmt_expr_spec(e, l)),
        StmtKind::If { cond, body, else_body } => line_spec(l, "if "@ + fmt_expr_spec(cond, l) + " {"@)
            + fmt_block_spec(body@, deeper(l)) + match else_body {
                Some(eb) => line_spec(l, "} else {"@) + fmt_block_spec(eb@, deeper(l)) + line_spec(l, "}"@),
                None => line_spec(l, "}"@),
            },
        StmtKind::While { cond, body } => line_spec(l, "while "@ + fmt_expr_spec(cond, l) + " {"@)
            + fmt_block_spec(body@, deeper(l)) + line_spec(l, "}"@),
        StmtKind::Break => line_spec(l, "break"@),
        StmtKind::Continue => line_spec(l, "continue"@),
        StmtKind::ExprStmt(e) => line_spec(l, fmt_expr_spec(e, l)),
    }
}

/// The lines of statements at indentation `l`.
pub open spec fn fmt_block_spec(ss: Seq<Stmt>, l: int) -> Seq<char>
    decreases ss,
{
    if ss.len() == 0 {
        Seq::empty()
    } else {
        fmt_block_spec(ss.subrange(0, ss.len() - 1), l) + fmt_stmt_spec(ss[ss.len() - 1], l)
    }
}

/// `export ` for an exported item.
pub open spec fn export_spec(exported: bool) -> Seq<char> {
    if exported { "export "@ } else { Seq::empty() }
}

/// A parameter's text: `name: T`.
pub open spec fn param_spec(p: (String, TypeExpr)) -> Seq<char> {
    p.0@ + ": "@ + spec_fmt_type(p.1)
}

/// The parameters' texts.
pub open spec fn params_spec(ps: Seq<(String, TypeExpr)>) -> Seq<Seq<char>> {
    Seq::new(ps.len(), |i: int| param_spec(ps[i]))
}

/// The field lines of a struct.
pub open spec fn fields_spec(fs: Seq<StructField>) -> Seq<char>
    decreases fs.len(),
{
    if fs.len() == 0 {
        Seq::empty()
    } else {
        fields_spec(fs.drop_last()) + line_spec(1, fs.last().name@ + ": "@ + spec_fmt_type(fs.last().ty) + ","@)
    }
}

/// The variant lines of an enum.
pub open spec fn variants_spec(vs: Seq<String>) -> Seq<char>
    decreases vs.len(),
{
    if vs.len() == 0 {
        Seq::empty()
    } else {
        variants_spec(vs.drop_last()) + line_spec(1, vs.last()@ + ","@)
    }
}

/// The canonical lines of a top-level item.
pub open spec fn fmt_toplevel_spec(item: TopLevel) -> Seq<char> {
    match item {
        TopLevel::ConstDecl { name, value, exported, .. } => line_spec(0, export_spec(exported) + "const "@ + name@
            + " = "@ + fmt_expr_spec(value, 0)),
        TopLevel::FnDecl(f) => line_spec(0, export_spec(f.exported) + "fn "@ + f.name@ + "("@
            + join_spec(params_spec(f.params@), ", "@) + "): "@ + spec_fmt_type(f.ret) + " {"@)
            + fmt_block_spec(f.body@, 1) + line_spec(0, "}"@),
        TopLevel::StructDecl { name, fields, exported } => line_spec(0, export_spec(exported) + "const "@ + name@
            + " = struct {"@) + fields_spec(fields@) + line_spec(0, "};"@),
        TopLevel::EnumDecl { name, variants, exported } => line_spec(0, export_spec(exported) + "const "@ + name@
            + " = enum {"@) + variants_spec(variants@) + line_spec(0, "};"@),
        TopLevel::Stmt(st) => fmt_stmt_spec(st, 0),
    }
}

/// Functions, structs and enums are blocks: a blank line separates them from their neighbours.
pub open spec fn is_block_item(item: TopLevel) -> bool {
    item is FnDecl || item is StructDecl || item is EnumDecl
}

/// The first `n` items in the canonical layout, with a blank line before
/// an item that is or follows a block, or that had one before it in the source.
pub open spec fn fmt_items_spec(p: Seq<TopLevel>, blanks: Seq<bool>, n: int) -> Seq<char>
    decreases n,
{
    if n <= 0 {
        Seq::empty()
    } else {
        let i = n - 1;
        let sep = i > 0 && (is_block_item(p[i]) || is_block_item(p[i - 1]) || (i < blanks.len() && blanks[i]));
        fmt_items_spec(p, blanks, i) + (if sep { seq!['\n'] } else { Seq::empty() }) + fmt_toplevel_spec(p[i])
    }
}

/// A program in the canonical layout, ending with a newline.
pub open spec fn format_spec(p: Seq<TopLevel>, blanks: Seq<bool>) -> Seq<char> {
    let text = fmt_items_spec(p, blanks, p.len() as int);
    if is_suffix(seq!['\n'], text) { text } else { text.push('\n') }
}

/// The binary operation `lhs op rhs`.
pub open spec fn bin_expr(op: BinOp, lhs: Expr, rhs: Expr, span: Span) -> Expr {
    Expr { kind: ExprKind::BinOp { op, lhs: Box::new(lhs), rhs: Box::new(rhs) }, span }
}

/// The token the lexer makes of an operator's spelling `w` standing alone:
/// a keyword for a word, `/` for a lone slash, a one-character operator, or
/// one of `= ! < >` with the character after it.
pub open spec fn operator_token(w: Seq<char>) -> Option<SpecTok> {
    if w.len() == 0 {
        None
    } else if is_ident_start_ascii(w[0]) {
        Some(keyword(w))
    } else if w == seq!['/'] {
        Some(SpecTok::Other(Token::Slash))
    } else if w[0] == '=' || w[0] == '!' || w[0] == '<' || w[0] == '>' {
        let (t, n) = pair_tok(w[0], if w.len() > 1 { Some(w[1]) } else { None });
        if n == w.len() { Some(SpecTok::Other(t)) } else { None }
    } else if w.len() == 1 && single_tok(w[0]) is Some {
        Some(SpecTok::Other(single_tok(w[0])->0))
    } else {
        None
    }
}

/// A lower-case ASCII letter, with which every operator word begins.
pub open spec fn is_ident_start_ascii(c: char) -> bool {
    'a' <= c && c <= 'z'
}

/// The binary operator the grammar reads from token `t`, if any.
pub open spec fn grammar_operator(t: SpecTok) -> Option<BinOp> {
    if t == SpecTok::Other(Token::Or) {
        Some(BinOp::Or)
    } else if t == SpecTok::Other(Token::And) {
        Some(BinOp::And)
    } else if g_comparison_op(t) is Some {
        g_comparison_op(t)
    } else if g_add_op(t) is Some {
        g_add_op(t)
    } else {
        g_mul_op(t)
    }
}

/// Law: the formatter spells every binary operator so that the lexer and
/// the grammar read the spelling back as that same operator.
pub proof fn lemma_operator_spelling_reads_back(op: BinOp)
    ensures
        operator_token(spec_binop_str(op)) matches Some(t) && grammar_operator(t) == Some(op),
{
    reveal_strlit("+");
    reveal_strlit("-");
    reveal_strlit("*");
    reveal_strlit("/");
    reveal_strlit("%");
    reveal_strlit("==");
    reveal_strlit("!=");
    reveal_strlit("<");
    reveal_strlit(">");
    reveal_strlit("<=");
    reveal_strlit(">=");
    reveal_strlit("and");
    reveal_strlit("or");
    crate::lexer::lemma_logical_keywords();
    match op {
        BinOp::Div => assert(spec_binop_str(op) =~= seq!['/']),
        _ => {},
    }
}

/// Law: the text of `lhs op rhs` is the operands' texts around ` op `; a
/// right operand that is an operation binding no tighter than `op` (which
/// the left-associative parser would otherwise regroup) is in brackets, as
/// is a left operand binding more loosely; other operands are bare.
pub proof fn lemma_operand_brackets(op: BinOp, lhs: Expr, rhs: Expr, span: Span, l: int)
    ensures
        ({
            let e = fmt_expr_spec(bin_expr(op, lhs, rhs, span), l);
            let a = fmt_expr_spec(lhs, l);
            let b = fmt_expr_spec(rhs, l);
            let left_loose = lhs.kind matches ExprKind::BinOp { op: o, .. } && spec_precedence(o) < spec_precedence(op);
            let right_loose = rhs.kind matches ExprKind::BinOp { op: o, .. } && spec_precedence(o) <= spec_precedence(op);
            e == (if left_loose { "("@ + a + ")"@ } else { a }) + " "@ + spec_binop_str(op) + " "@
                + (if right_loose { "("@ + b + ")"@ } else { b })
        }),
{
}

/// Law: formatting keeps grouping visible. For two operators of the same
/// precedence, `x o1 (y o2 z)` and `(x o1 y) o2 z` are formatted differently,
/// whatever `x`, `y` and `z` are.
#[verifier::rlimit(80)]
#[verifier::spinoff_prover]
pub proof fn lemma_grouping_distinct(o1: BinOp, o2: BinOp, x: Expr, y: Expr, z: Expr,
    s1: Span, s2: Span, s3: Span, s4: Span, l: int)
    requires
        spec_precedence(o1) == spec_precedence(o2),
    ensures
        fmt_expr_spec(bin_expr(o1, x, bin_expr(o2, y, z, s1), s2), l)
            != fmt_expr_spec(bin_expr(o2, bin_expr(o1, x, y, s3), z, s4), l),
{
    let inner1 = bin_expr(o2, y, z, s1);
    let inner2 = bin_expr(o1, x, y, s3);
    let t1 = fmt_expr_spec(bin_expr(o1, x, inner1, s2), l);
    let t2 = fmt_expr_spec(bin_expr(o2, inner2, z, s4), l);
    let xx = fmt_expr_spec(x, l);
    let yy = fmt_expr_spec(y, l);
    let zz = fmt_expr_spec(z, l);
    let lx = left_operand(o1, x, xx);
    let ly = left_operand(o2, y, yy);
    let ry = right_operand(o1, y, yy);
    let rz = right_operand(o2, z, zz);
    let i1 = fmt_expr_spec(inner1, l);
    let i2 = fmt_expr_spec(inner2, l);
    assert(i1 == ly + " "@ + spec_binop_str(o2) + " "@ + rz);
    assert(i2 == lx + " "@ + spec_binop_str(o1) + " "@ + ry);
    let pre = lx + " "@ + spec_binop_str(o1) + " "@;
    let m = " "@ + spec_binop_str(o2) + " "@ + rz;
    assert(t1 == lx + " "@ + spec_binop_str(o1) + " "@ + ("("@ + i1 + ")"@));
    assert(t2 == i2 + " "@ + spec_binop_str(o2) + " "@ + rz);
    assert(t1 =~= pre + "("@ + ly + m + ")"@);
    assert(t2 =~= pre + ry + m);
    reveal_strlit("(");
    reveal_strlit(")");
    reveal_strlit(" ");
    if ly == ry {
        assert(t1.len() == t2.len() + 2);
    } else {
        // `y` binds as tightly as the operators: bare on the left, bracketed on the right
        assert(ry == "("@ + yy + ")"@);
        assert(ly == yy);
        let k: int = pre.len() as int + 1 + yy.len() as int;
        assert(t1[k] == ' ');
        assert(t2[k] == ')');
    }
}

// ---------------------------------------------------------------------------
// The formatter

struct Formatter {
    buf: String,
}

/// `level` levels of four-space indentation.
fn indent_str(level: usize) -> (r: String)
    ensures
        r@ == indent_spec(level as nat),
{
    let mut s = String::new();
    let mut i: usize = 0;
    while i < level
        invariant
            i <= level,
            s@ == indent_spec(i as nat),
        decreases level - i,
    {
        push_str(&mut s, "    ");
        i += 1;
    }
    s
}

/// `s` as a line at indentation `level`.
fn line_text(level: usize, s: &str) -> (r: String)
    ensures
        r@ == line_spec(level as int, s@),
{
    let mut r = indent_str(level);
    push_str(&mut r, s);
    push_char(&mut r, '\n');
    r
}

/// One level deeper, saturating at the largest `usize`.
fn deeper_level(level: usize) -> (r: usize)
    ensures
        r == deeper(level as int),
{
    if level < usize::MAX { level + 1 } else { level }
}

/// The text of a boolean.
fn bool_text(b: bool) -> (r: String)
    ensures
        r@ == bool_spec(b),
{
    to_string(if b { "true" } else { "false" })
}

impl Formatter {
    fn new() -> (r: Self)
        ensures
            r.buf@.len() == 0,
    {
        Self { buf: String::new() }
    }

    fn format_program(&mut self, program: &Program, blanks: &Vec<bool>)
        ensures
            final(self).buf@ == old(self).buf@ + fmt_items_spec(program@, blanks@, program@.len() as int),
    {
        let ghost start = self.buf@;
        let mut prev_was_block = false;
        let mut i: usize = 0;
        while i < program.len()
            invariant
                i <= program@.len(),
                i > 0 ==> prev_was_block == is_block_item(program@[i - 1]),
                self.buf@ == start + fmt_items_spec(program@, blanks@, i as int),
            decreases program@.len() - i,
        {
            let item = &program[i];
            let is_block = matches!(item, TopLevel::FnDecl(_) | TopLevel::StructDecl { .. } | TopLevel::EnumDecl { .. });
            let blank_before = i < blanks.len() && blanks[i];
            if i > 0 && (is_block || prev_was_block || blank_before) {
                push_char(&mut self.buf, '\n');
            }
            let t = Self::fmt_toplevel(item);
            push_str(&mut self.buf, t.as_str());
            proof {
                assert(self.buf@ =~= start + fmt_items_spec(program@, blanks@, i + 1));
            }
            prev_was_block = is_block;
            i += 1;
        }
    }

    fn fmt_toplevel(item: &TopLevel) -> (r: String)
        ensures
            r@ == fmt_toplevel_spec(*item),
    {
        proof {
            reveal_with_fuel(crate::strs::concat_all, 9);
            reveal_strlit("export ");
            reveal_strlit("");
        }
        match item {
            TopLevel::ConstDecl { name, value, exported, .. } => {
                let val = Self::fmt_expr(value, 0);
                let l = join_all(vec![if *exported { "export " } else { "" }, "const ", name.as_str(), " = ", val.as_str()]);
                let r = line_text(0, l.as_str());
                assert(r@ =~= fmt_toplevel_spec(*item));
                r
            },
            TopLevel::FnDecl(f) => Self::fmt_fn(f),
            TopLevel::StructDecl { name, fields, exported } => {
                let l = join_all(vec![if *exported { "export " } else { "" }, "const ", name.as_str(), " = struct {"]);
                let mut out = line_text(0, l.as_str());
                let ghost head = out@;
                let mut k: usize = 0;
                while k < fields.len()
                    invariant
                        k <= fields@.len(),
                        out@ == head + fields_spec(fields@.subrange(0, k as int)),
                    decreases fields@.len() - k,
                {
                    let ty = fmt_type(&fields[k].ty);
                    let fl = join_all(vec![fields[k].name.as_str(), ": ", ty.as_str(), ","]);
                    let line = line_text(1, fl.as_str());
                    push_str(&mut out, line.as_str());
                    proof {
                        reveal_with_fuel(crate::strs::concat_all, 5);
                        let u = fields@.subrange(0, k + 1);
                        assert(u.drop_last() =~= fields@.subrange(0, k as int));
                        assert(u.last() == fields@[k as int]);
                        assert(out@ =~= head + fields_spec(u));
                    }
                    k += 1;
                }
                assert(fields@.subrange(0, fields@.len() as int) =~= fields@);
                let close = line_text(0, "};");
                push_str(&mut out, close.as_str());
                assert(out@ =~= fmt_toplevel_spec(*item));
                out
            },
            TopLevel::EnumDecl { name, variants, exported } => {
                let l = join_all(vec![if *exported { "export " } else { "" }, "const ", name.as_str(), " = enum {"]);
                let mut out = line_text(0, l.as_str());
                let ghost head = out@;
                let mut k: usize = 0;
                while k < variants.len()
                    invariant
                        k <= variants@.len(),
                        out@ == head + variants_spec(variants@.subrange(0, k as int)),
                    decreases variants@.len() - k,
                {
                    let vl = cat2(variants[k].as_str(), ",");
                    let line = line_text(1, vl.as_str());
                    push_str(&mut out, line.as_str());
                    proof {
                        let u = variants@.subrange(0, k + 1);
                        assert(u.drop_last() =~= variants@.subrange(0, k as int));
                        assert(u.last() == variants@[k as int]);
                        assert(out@ =~= head + variants_spec(u));
                    }
                    k += 1;
                }
                assert(variants@.subrange(0, variants@.len() as int) =~= variants@);
                let close = line_text(0, "};");
                push_str(&mut out, close.as_str());
                assert(out@ =~= fmt_toplevel_spec(*item));
                out
            },
            TopLevel::Stmt(stmt) => Self::fmt_stmt(stmt, 0),
        }
    }

    fn fmt_fn(f: &FnDecl) -> (r: String)
        ensures
            r@ == fmt_toplevel_spec(TopLevel::FnDecl(*f)),
    {
        let mut params: Vec<String> = Vec::new();
        let ghost ps = params_spec(f.params@);
        let mut k: usize = 0;
        while k < f.params.len()
            invariant
                k <= f.params@.len(),
                ps == params_spec(f.params@),
                views(params@) == ps.subrange(0, k as int),
            decreases f.params@.len() - k,
        {
            let t = fmt_type(&f.params[k].1);
            let one = join_all(vec![f.params[k].0.as_str(), ": ", t.as_str()]);
            proof {
                reveal_with_fuel(crate::strs::concat_all, 4);
            }
            assert(one@ =~= param_spec(f.params@[k as int]));
            let ghost before = params@;
            params.push(one);
            assert(views(params@) =~= views(before).push(one@));
            assert(ps.subrange(0, k + 1) =~= ps.subrange(0, k as int).push(ps[k as int]));
            k += 1;
        }
        assert(ps.subrange(0, f.params@.len() as int) =~= ps);
        let ret = fmt_type(&f.ret);
        let p = join_strings(&params, ", ");
        proof {
            reveal_with_fuel(crate::strs::concat_all, 9);
            reveal_strlit("export ");
            reveal_strlit("");
        }
        let l = join_all(vec![
            if f.exported { "export " } else { "" }, "fn ", f.name.as_str(), "(", p.as_str(), "): ",
            ret.as_str(), " {",
        ]);
        let mut out = line_text(0, l.as_str());
        let b = Self::fmt_block(&f.body, 1);
        push_str(&mut out, b.as_str());
        let close = line_text(0, "}");
        push_str(&mut out, close.as_str());
        assert(out@ =~= fmt_toplevel_spec(TopLevel::FnDecl(*f)));
        out
    }

    #[verifier::loop_isolation(false)]
    fn fmt_block(stmts: &Vec<Stmt>, level: usize) -> (r: String)
        ensures
            r@ == fmt_block_spec(stmts@, level as int),
        decreases stmts, 2int,
    {
        let mut out = String::new();
        let mut k: usize = 0;
        while k < stmts.len()
            invariant
                k <= stmts@.len(),
                out@ == fmt_block_spec(stmts@.subrange(0, k as int), level as int),
            decreases stmts@.len() - k,
        {
            assert(decreases_to!(*stmts => stmts[k as int]));
            let s = Self::fmt_stmt(&stmts[k], level);
            push_str(&mut out, s.as_str());
            proof {
                let u = stmts@.subrange(0, k + 1);
                assert(u.subrange(0, u.len() - 1) =~= stmts@.subrange(0, k as int));
                assert(u[u.len() - 1] == stmts@[k as int]);
            }
            k += 1;
        }
        assert(stmts@.subrange(0, stmts@.len() as int) =~= stmts@);
        out
    }

    /// Statements nested in an expression: each at `level`, with its leading
    /// whitespace replaced by the indentation of `level`.
    #[verifier::loop_isolation(false)]
    fn fmt_nested(stmts: &Vec<Stmt>, level: usize) -> (r: String)
        ensures
            r@ == fmt_nested_spec(stmts@, level as int),
        decreases stmts, 2int,
    {
        let mut out = String::new();
        let mut k: usize = 0;
        while k < stmts.len()
            invariant
                k <= stmts@.len(),
                out@ == fmt_nested_spec(stmts@.subrange(0, k as int), level as int),
            decreases stmts@.len() - k,
        {
            assert(decreases_to!(*stmts => stmts[k as int]));
            let ind = indent_str(level);
            push_str(&mut out, ind.as_str());
            let st = Self::fmt_stmt(&stmts[k], level);
            let t = trim_start(st.as_str());
            push_str(&mut out, t.as_str());
            proof {
                let u = stmts@.subrange(0, k + 1);
                assert(u.subrange(0, u.len() - 1) =~= stmts@.subrange(0, k as int));
                assert(u[u.len() - 1] == stmts@[k as int]);
                assert(out@ =~= fmt_nested_spec(u, level as int));
            }
            k += 1;
        }
        assert(stmts@.subrange(0, stmts@.len() as int) =~= stmts@);
        out
    }

    #[verifier::loop_isolation(false)]
    fn fmt_stmt(stmt: &Stmt, level: usize) -> (r: String)
        ensures
            r@ == fmt_stmt_spec(*stmt, level as int),
        decreases stmt, 3int,
    {
        let inner = deeper_level(level);
        proof {
            reveal_with_fuel(crate::strs::concat_all, 7);
        }
        match &stmt.kind {
            StmtKind::ConstDecl { name, ty, value } | StmtKind::LetDecl { name, ty, value } => {
                let kw = if matches!(&stmt.kind, StmtKind::ConstDecl { .. }) { "const " } else { "let " };
                let val = Self::fmt_expr(value, level);
                let l = match ty {
                    Some(t) => {
                        let ts = fmt_type(t);
                        join_all(vec![kw, name.as_str(), ": ", ts.as_str(), " = ", val.as_str()])
                    },
                    None => join_all(vec![kw, name.as_str(), " = ", val.as_str()]),
                };
                let r = line_text(level, l.as_str());
                assert(r@ =~= fmt_stmt_spec(*stmt, level as int));
                r
            },
            StmtKind::Return(None) => line_text(level, "return"),
            StmtKind::Return(Some(e)) => {
                let val = Self::fmt_expr(e, level);
                let l = cat2("return ", val.as_str());
                line_text(level, l.as_str())
            },
            StmtKind::If { cond, body, else_body } => {
                let c = Self::fmt_expr(cond, level);
                let l = cat3("if ", c.as_str(), " {");
                let mut out = line_text(level, l.as_str());
                let b = Self::fmt_block(body, inner);
                push_str(&mut out, b.as_str());
                match else_body {
                    Some(else_stmts) => {
                        let m = line_text(level, "} else {");
                        push_str(&mut out, m.as_str());
                        let e = Self::fmt_block(else_stmts, inner);
                        push_str(&mut out, e.as_str());
                        let close = line_text(level, "}");
                        push_str(&mut out, close.as_str());
                    },
                    None => {
                        let close = line_text(level, "}");
                        push_str(&mut out, close.as_str());
                    },
                }
                assert(out@ =~= fmt_stmt_spec(*stmt, level as int));
                out
            },
            StmtKind::While { cond, body } => {
                let c = Self::fmt_expr(cond, level);
                let l = cat3("while ", c.as_str(), " {");
                let mut out = line_text(level, l.as_str());
                let b = Self::fmt_block(body, inner);
                push_str(&mut out, b.as_str());
                let close = line_text(level, "}");
                push_str(&mut out, close.as_str());
                assert(out@ =~= fmt_stmt_spec(*stmt, level as int));
                out
            },
            StmtKind::Break => line_text(level, "break"),
            StmtKind::Continue => line_text(level, "continue"),
            StmtKind::ExprStmt(e) => {
                let val = Self::fmt_expr(e, level);
                line_text(level, val.as_str())
            },
        }
    }

    /// Formats each expression of a list.
    #[verifier::loop_isolation(false)]
    fn fmt_exprs(es: &Vec<Expr>, level: usize) -> (r: Vec<String>)
        ensures
            views(r@) == fmt_exprs_spec(es@, level as int),
        decreases es, 2int,
    {
        let mut out: Vec<String> = Vec::new();
        let mut k: usize = 0;
        while k < es.len()
            invariant
                k <= es@.len(),
                views(out@) == fmt_exprs_spec(es@.subrange(0, k as int), level as int),
            decreases es@.len() - k,
        {
            assert(decreases_to!(*es => es[k as int]));
            let ghost before = out@;
            out.push(Self::fmt_expr(&es[k], level));
            proof {
                let u = es@.subrange(0, k + 1);
                assert(u.subrange(0, u.len() - 1) =~= es@.subrange(0, k as int));
                assert(u[u.len() - 1] == es@[k as int]);
                assert(views(out@) =~= views(before).push(out@.last()@));
            }
            k += 1;
        }
        assert(es@.subrange(0, es@.len() as int) =~= es@);
        out
    }

    #[verifier::loop_isolation(false)]
    fn fmt_expr(expr: &Expr, level: usize) -> (r: String)
        ensures
            r@ == fmt_expr_spec(*expr, level as int),
        decreases expr, 3int,
    {
        proof {
            reveal_with_fuel(crate::strs::concat_all, 7);
        }
        match &expr.kind {
            ExprKind::Import(path) => cat3("import(\"", path.as_str(), "\")"),
            ExprKind::Var(s) => s.clone(),
            ExprKind::Str(s) => {
                let e = escape_str(s.as_str());
                cat3("\"", e.as_str(), "\"")
            },
            ExprKind::Int(n) => i64_to_string(*n),
            ExprKind::Float(f) => {
                if float_text_ok(f.as_str()) {
                    float_point_text(f.as_str())
                } else {
                    f.clone()
                }
            },
            ExprKind::Bool(b) => bool_text(*b),
            ExprKind::MemberAccess { obj, prop } => {
                let o = Self::fmt_expr(obj, level);
                cat3(o.as_str(), ".", prop.as_str())
            },
            ExprKind::Call { callee, args } => {
                let c = Self::fmt_expr(callee, level);
                let a = Self::fmt_exprs(args, level);
                let j = join_strings(&a, ", ");
                let r = join_all(vec![c.as_str(), "(", j.as_str(), ")"]);
                assert(r@ =~= fmt_expr_spec(*expr, level as int));
                r
            },
            ExprKind::Index { obj, idx } => {
                let o = Self::fmt_expr(obj, level);
                let i = Self::fmt_expr(idx, level);
                let r = join_all(vec![o.as_str(), "[", i.as_str(), "]"]);
                assert(r@ =~= fmt_expr_spec(*expr, level as int));
                r
            },
            ExprKind::Propagate(e) => {
                let s = Self::fmt_expr(e, level);
                cat2(s.as_str(), "?")
            },
            ExprKind::Catch { expr: inner, err_name, body } => {
                let e = Self::fmt_expr(inner, level);
                let mut s = join_all(vec![e.as_str(), " catch ", err_name.as_str(), " {"]);
                push_char(&mut s, '\n');
                let b = Self::fmt_nested(body, deeper_level(level));
                push_str(&mut s, b.as_str());
                let ind = indent_str(level);
                push_str(&mut s, ind.as_str());
                push_char(&mut s, '}');
                assert(s@ =~= fmt_expr_spec(*expr, level as int));
                s
            },
            ExprKind::Switch { expr: subject, arms } => {
                let e = Self::fmt_expr(subject, level);
                let mut s = cat3("switch ", e.as_str(), " {\n");
                let ghost head = s@;
                let inner = deeper_level(level);
                let mut k: usize = 0;
                while k < arms.len()
                    invariant
                        k <= arms@.len(),
                        s@ == head + fmt_arms_spec(arms@.subrange(0, k as int), inner as int),
                    decreases arms@.len() - k,
                {
                    assert(decreases_to!(*arms => arms[k as int]));
                    let a = Self::fmt_arm(&arms[k], inner);
                    push_str(&mut s, a.as_str());
                    proof {
                        let u = arms@.subrange(0, k + 1);
                        assert(u.subrange(0, u.len() - 1) =~= arms@.subrange(0, k as int));
                        assert(u[u.len() - 1] == arms@[k as int]);
                        assert(s@ =~= head + fmt_arms_spec(u, inner as int));
                    }
                    k += 1;
                }
                assert(arms@.subrange(0, arms@.len() as int) =~= arms@);
                let ind = indent_str(level);
                push_str(&mut s, ind.as_str());
                push_char(&mut s, '}');
                assert(s@ =~= fmt_expr_spec(*expr, level as int));
                s
            },
            ExprKind::ArrayLiteral(elems) => {
                let e = Self::fmt_exprs(elems, level);
                let j = join_strings(&e, ", ");
                cat3("[", j.as_str(), "]")
            },
            ExprKind::BinOp { op, lhs, rhs } => {
                let ls = Self::fmt_expr(lhs, level);
                let rs = Self::fmt_expr(rhs, level);
                let l = Self::left_side(*op, lhs, ls);
                let r = Self::right_side(*op, rhs, rs);
                let out = join_all(vec![l.as_str(), " ", binop_str(*op), " ", r.as_str()]);
                assert(out@ =~= fmt_expr_spec(*expr, level as int));
                out
            },
            ExprKind::UnOp { op, expr: inner } => {
                let v = Self::fmt_expr(inner, level);
                let s = Self::unary_side(inner, v);
                match op {
                    UnOp::Neg => cat2("-", s.as_str()),
                    UnOp::Not => cat2("!", s.as_str()),
                }
            },
            ExprKind::If { cond, then_, else_ } => {
                let c = Self::fmt_expr(cond, level);
                let t = Self::fmt_expr(then_, level);
                let e = Self::fmt_expr(else_, level);
                let out = join_all(vec!["if ", c.as_str(), " then ", t.as_str(), " else ", e.as_str()]);
                assert(out@ =~= fmt_expr_spec(*expr, level as int));
                out
            },
        }
    }

    /// The left operand of a binary operator, bracketed when it binds more loosely.
    fn left_side(parent: BinOp, child: &Expr, s: String) -> (r: String)
        ensures
            r@ == left_operand(parent, *child, s@),
    {
        if let ExprKind::BinOp { op, .. } = &child.kind {
            if precedence(*op) < precedence(parent) {
                return cat3("(", s.as_str(), ")");
            }
        }
        s
    }

    /// The right operand of a binary operator, bracketed when it binds no tighter.
    fn right_side(parent: BinOp, child: &Expr, s: String) -> (r: String)
        ensures
            r@ == right_operand(parent, *child, s@),
    {
        if let ExprKind::BinOp { op, .. } = &child.kind {
            if precedence(*op) <= precedence(parent) {
                return cat3("(", s.as_str(), ")");
            }
        }
        s
    }

    /// A unary operand, bracketed when it is a binary operation.
    fn unary_side(child: &Expr, s: String) -> (r: String)
        ensures
            r@ == unary_operand(*child, s@),
    {
        if matches!(child.kind, ExprKind::BinOp { .. }) {
            cat3("(", s.as_str(), ")")
        } else {
            s
        }
    }

    /// One switch arm at `level`.
    fn fmt_arm(arm: &SwitchArm, level: usize) -> (r: String)
        ensures
            r@ == fmt_arm_spec(*arm, level as int),
        decreases arm,
    {
        proof {
            reveal_with_fuel(crate::strs::concat_all, 5);
            reveal_strlit("else");
        }
        let pat = match &arm.pattern {
            SwitchPattern::Ident(n) => n.clone(),
            SwitchPattern::Int(n) => i64_to_string(*n),
            SwitchPattern::Bool(b) => bool_text(*b),
            SwitchPattern::Else => to_string("else"),
        };
        let ind = indent_str(level);
        match &arm.body {
            SwitchBody::Expr(x) => {
                let val = Self::fmt_expr(x, level);
                let mut s = ind;
                let l = join_all(vec![pat.as_str(), " => ", val.as_str(), ",\n"]);
                push_str(&mut s, l.as_str());
                assert(s@ =~= fmt_arm_spec(*arm, level as int));
                s
            },
            SwitchBody::Block(stmts) => {
                let mut s = ind;
                let l = cat2(pat.as_str(), " => {\n");
                push_str(&mut s, l.as_str());
                let b = Self::fmt_nested(stmts, deeper_level(level));
                push_str(&mut s, b.as_str());
                let ind2 = indent_str(level);
                push_str(&mut s, ind2.as_str());
                push_str(&mut s, "},\n");
                assert(s@ =~= fmt_arm_spec(*arm, level as int));
                s
            },
        }
    }
}

/// A program in the canonical layout. `blanks[i]` keeps a blank line before
/// item `i` (see `blank_lines`).
pub fn format_program(program: &Program, blanks: &Vec<bool>) -> (r: String)
    ensures
        r@ == format_spec(program@, blanks@),
{
    let mut f = Formatter::new();
    f.format_program(program, blanks);
    let ends = crate::strs::str_ends_with(f.buf.as_str(), "\n");
    proof {
        reveal_strlit("\n");
        assert("\n"@ =~= seq!['\n']);
        assert(f.buf@ =~= fmt_items_spec(program@, blanks@, program@.len() as int));
    }
    if !ends {
        push_char(&mut f.buf, '\n');
    }
    f.buf
}

/// Whitespace that may stand on a blank line besides its newline.
pub open spec fn is_line_space(c: u8) -> bool {
    c == 32u8 || c == 9u8 || c == 13u8
}

/// Whether `bytes[a..b]` holds a blank line: two newlines with only spaces,
/// tabs and carriage returns between them.
pub open spec fn has_blank_line(bytes: Seq<u8>, a: int, b: int) -> bool {
    exists|i: int, j: int|
        #![trigger bytes[i], bytes[j]]
        a <= i < j < b && bytes[i] == 10u8 && bytes[j] == 10u8
            && forall|m: int| i < m < j ==> is_line_space(#[trigger] bytes[m])
}

/// Whether some newline in `bytes[a..k]` is followed only by line space up to `k`.
pub open spec fn open_newline(bytes: Seq<u8>, a: int, k: int) -> bool {
    exists|i: int|
        a <= i < k && #[trigger] bytes[i] == 10u8
            && forall|m: int| i < m < k ==> is_line_space(#[trigger] bytes[m])
}

/// The end of the gap clamped to the source length.
pub open spec fn gap_end(gap: Span, n: int) -> int {
    if (gap.1 as int) < n { gap.1 as int } else { n }
}

/// For each item's gap (from `parse`), whether a blank line separates it
/// from the previous item in `source`.
pub fn blank_lines(source: &str, gaps: &Vec<Span>) -> (r: Vec<bool>)
    ensures
        r@.len() == gaps@.len(),
        forall|g: int|
            0 <= g < gaps@.len() ==> #[trigger] r@[g] == has_blank_line(
                source.spec_bytes(),
                gaps@[g].0 as int,
                gap_end(gaps@[g], source.spec_bytes().len() as int),
            ),
{
    let bytes = source.as_bytes();
    let n = bytes.len();
    let mut out: Vec<bool> = Vec::new();
    let mut g: usize = 0;
    while g < gaps.len()
        invariant
            g <= gaps@.len(),
            out@.len() == g,
            n == bytes@.len(),
            bytes@ == source.spec_bytes(),
            forall|h: int|
                0 <= h < g ==> #[trigger] out@[h] == has_blank_line(
                    bytes@,
                    gaps@[h].0 as int,
                    gap_end(gaps@[h], n as int),
                ),
        decreases gaps@.len() - g,
    {
        let a = gaps[g].0;
        let b = if gaps[g].1 < n { gaps[g].1 } else { n };
        let mut seen_newline = false;
        let mut found = false;
        let mut k = a;
        while k < b
            invariant
                a <= k,
                b <= n,
                a <= b ==> k <= b,
                a > b ==> k == a,
                n == bytes@.len(),
                seen_newline == open_newline(bytes@, a as int, k as int),
                found == has_blank_line(bytes@, a as int, k as int),
            decreases b - k,
        {
            let c = bytes[k];
            proof {
                let bs = bytes@;
                let ai = a as int;
                let ki = k as int;
                if c == 10u8 {
                    if open_newline(bs, ai, ki) {
                        let i = choose|i: int|
                            ai <= i < ki && #[trigger] bs[i] == 10u8
                                && forall|m: int| i < m < ki ==> is_line_space(#[trigger] bs[m]);
                        assert(bs[i] == 10u8 && bs[ki] == 10u8);
                    }
                    if has_blank_line(bs, ai, ki + 1) && !has_blank_line(bs, ai, ki) {
                        let (i, j) = choose|i: int, j: int|
                            #![trigger bs[i], bs[j]]
                            ai <= i < j < ki + 1 && bs[i] == 10u8 && bs[j] == 10u8
                                && forall|m: int| i < m < j ==> is_line_space(#[trigger] bs[m]);
                        assert(j == ki);
                        assert(bs[i] == 10u8);
                    }
                    assert(bs[ki] == 10u8);
                    assert(open_newline(bs, ai, ki + 1));
                } else if is_line_space(c) {
                    if open_newline(bs, ai, ki) {
                        let i = choose|i: int|
                            ai <= i < ki && #[trigger] bs[i] == 10u8
                                && forall|m: int| i < m < ki ==> is_line_space(#[trigger] bs[m]);
                        assert(bs[i] == 10u8);
                        assert(open_newline(bs, ai, ki + 1));
                    }
                    if open_newline(bs, ai, ki + 1) {
                        let i = choose|i: int|
                            ai <= i < ki + 1 && #[trigger] bs[i] == 10u8
                                && forall|m: int| i < m < ki + 1 ==> is_line_space(#[trigger] bs[m]);
                        assert(bs[i] == 10u8);
                        assert(open_newline(bs, ai, ki));
                    }
                    if has_blank_line(bs, ai, ki + 1) {
                        let (i, j) = choose|i: int, j: int|
                            #![trigger bs[i], bs[j]]
                            ai <= i < j < ki + 1 && bs[i] == 10u8 && bs[j] == 10u8
                                && forall|m: int| i < m < j ==> is_line_space(#[trigger] bs[m]);
                        assert(j != ki);
                        assert(has_blank_line(bs, ai, ki));
                    }
                } else {
                    if open_newline(bs, ai, ki + 1) {
                        let i = choose|i: int|
                            ai <= i < ki + 1 && #[trigger] bs[i] == 10u8
                                && forall|m: int| i < m < ki + 1 ==> is_line_space(#[trigger] bs[m]);
                        if i < ki {
                            assert(is_line_space(bs[ki]));
                        }
                    }
                    if has_blank_line(bs, ai, ki + 1) {
                        let (i, j) = choose|i: int, j: int|
                            #![trigger bs[i], bs[j]]
                            ai <= i < j < ki + 1 && bs[i] == 10u8 && bs[j] == 10u8
                                && forall|m: int| i < m < j ==> is_line_space(#[trigger] bs[m]);
                        assert(j != ki);
                        assert(has_blank_line(bs, ai, ki));
                    }
                }
            }
            if c == 10u8 {
                if seen_newline {
                    found = true;
                }
                seen_newline = true;
            } else if c == 32u8 || c == 9u8 || c == 13u8 {
            } else {
                seen_newline = false;
            }
            k += 1;
        }
        proof {
            if !(a < b) {
                assert(!has_blank_line(bytes@, a as int, b as int));
            }
            assert(found == has_blank_line(bytes@, a as int, b as int));
        }
        out.push(found);
        g += 1;
    }
    out
}

} // verus!
