//! Recursive-descent parser from tokens to the syntax tree.
use vstd::prelude::*;
use crate::grammar::{
    ExprKindV, ExprV,
    arm_v, arms_v, errs_v, expr_v, exprs_v, field_v, g_add, g_add_op, g_add_rest, g_and, g_and_rest, g_args,
    g_arms, g_block, g_cmp, g_comparison_op, g_const_kind, g_content_end, g_elems, g_err, g_expect, g_expr, g_fields,
    g_ident, g_is, g_mul, g_mul_op, g_mul_rest, g_or, g_or_rest, g_params, g_parse, g_pattern, g_postfix,
    g_postfix_rest, g_prev_end, g_primary, g_program, g_semi, g_skip_semis, g_span, g_stmt, g_toplevel, g_type,
    g_unary, g_variants, lemma_arms_v_push, lemma_exprs_v_push, lemma_stmts_v_push, param_v, pattern_v,
    stmt_v, stmts_v, tok_debug, tok_display, top_v, tops_v, type_v, PSt,
};
use crate::lexer::{Span, Token, tok_code, spec_tok_code, tokv, toks_view};
use crate::strs::{cat2, cat3, debug_str, float_point_text, float_text_ok, i64_to_string, push_str, to_string};

verus! {

#[derive(Debug)]
pub struct ParseError {
    pub message: String,
    pub span: Span,
}

// --- Type expressions ---

#[derive(Debug)]
pub enum TypeExpr {
    /// i32, f64, string, bool, void, user-defined types
    Name(String),
    /// T[N]
    Array(Box<TypeExpr>, u64),
    /// ?T
    Optional(Box<TypeExpr>),
    /// E!T or !T
    ErrorUnion(Option<Box<TypeExpr>>, Box<TypeExpr>),
}

// --- Expressions ---

#[derive(Debug)]
pub enum ExprKind {
    Import(String),
    Var(String),
    Str(String),
    Int(i64),
    /// A floating-point literal, as written in the source.
    Float(String),
    Bool(bool),
    MemberAccess { obj: Box<Expr>, prop: String },
    Call { callee: Box<Expr>, args: Vec<Expr> },
    BinOp { op: BinOp, lhs: Box<Expr>, rhs: Box<Expr> },
    UnOp { op: UnOp, expr: Box<Expr> },
    /// expr? (error propagation)
    Propagate(Box<Expr>),
    Catch { expr: Box<Expr>, err_name: String, body: Vec<Stmt> },
    Switch { expr: Box<Expr>, arms: Vec<SwitchArm> },
    /// [1, 2, 3] array literal
    ArrayLiteral(Vec<Expr>),
    /// arr[i] index expression
    Index { obj: Box<Expr>, idx: Box<Expr> },
    /// if c then a else b
    If { cond: Box<Expr>, then_: Box<Expr>, else_: Box<Expr> },
}

#[derive(Debug)]
pub struct Expr {
    pub kind: ExprKind,
    pub span: Span,
}

#[derive(Debug, Clone, Copy, PartialEq, Eq)]
pub enum BinOp {
    Add,
    Sub,
    Mul,
    Div,
    Mod,
    Eq,
    NotEq,
    Lt,
    Gt,
    LtEq,
    GtEq,
    And,
    Or,
}

#[derive(Debug, Clone, Copy, PartialEq, Eq)]
pub enum UnOp {
    Neg,
    Not,
}

#[derive(Debug)]
pub struct SwitchArm {
    pub pattern: SwitchPattern,
    pub body: SwitchBody,
}

#[derive(Debug)]
pub enum SwitchPattern {
    Ident(String),
    Int(i64),
    Bool(bool),
    Else,
}

#[derive(Debug)]
pub enum SwitchBody {
    Expr(Expr),
    Block(Vec<Stmt>),
}

// --- Statements ---

#[derive(Debug)]
pub enum StmtKind {
    ConstDecl { name: String, ty: Option<TypeExpr>, value: Expr },
    LetDecl { name: String, ty: Option<TypeExpr>, value: Expr },
    Return(Option<Expr>),
    If { cond: Expr, body: Vec<Stmt>, else_body: Option<Vec<Stmt>> },
    While { cond: Expr, body: Vec<Stmt> },
    Break,
    Continue,
    ExprStmt(Expr),
}

#[derive(Debug)]
pub struct Stmt {
    pub kind: StmtKind,
    pub span: Span,
}

// --- Top-level items ---

#[derive(Debug)]
pub struct StructField {
    pub name: String,
    pub ty: TypeExpr,
}

#[derive(Debug)]
pub struct FnDecl {
    pub name: String,
    pub params: Vec<(String, TypeExpr)>,
    pub ret: TypeExpr,
    pub body: Vec<Stmt>,
    pub exported: bool,
}

#[derive(Debug)]
pub enum TopLevel {
    ConstDecl { name: String, name_span: Span, value: Expr, exported: bool },
    FnDecl(FnDecl),
    StructDecl { name: String, fields: Vec<StructField>, exported: bool },
    EnumDecl { name: String, variants: Vec<String>, exported: bool },
    /// top-level statement (implicitly placed in main)
    Stmt(Stmt),
}

pub type Program = Vec<TopLevel>;

/// How a token is named in error messages.
pub fn token_display(tok: &Token) -> (r: String)
    ensures
        r@ == tok_display(tokv(*tok)),
{
    match tok {
        Token::Semi => to_string("`;`"),
        Token::LParen => to_string("`(`"),
        Token::RParen => to_string("`)`"),
        Token::LBrace => to_string("`{`"),
        Token::RBrace => to_string("`}`"),
        Token::LBracket => to_string("`[`"),
        Token::RBracket => to_string("`]`"),
        Token::Eq => to_string("`=`"),
        Token::Colon => to_string("`:`"),
        Token::Comma => to_string("`,`"),
        Token::FatArrow => to_string("`=>`"),
        Token::Ident(s) => cat3("`", s.as_str(), "`"),
        Token::EOF => to_string("end of file"),
        other => {
            let d = token_debug(other);
            cat3("`", d.as_str(), "`")
        },
    }
}

/// The `Debug` form of a token: the variant name, with its payload in brackets.
fn token_debug(tok: &Token) -> (r: String)
    ensures
        r@ == tok_debug(tokv(*tok)),
{
    match tok {
        Token::Const => to_string("Const"),
        Token::Let => to_string("Let"),
        Token::Fn => to_string("Fn"),
        Token::Export => to_string("Export"),
        Token::Import => to_string("Import"),
        Token::Return => to_string("Return"),
        Token::If => to_string("If"),
        Token::While => to_string("While"),
        Token::Break => to_string("Break"),
        Token::Continue => to_string("Continue"),
        Token::Switch => to_string("Switch"),
        Token::Catch => to_string("Catch"),
        Token::Else => to_string("Else"),
        Token::Then => to_string("Then"),
        Token::Void => to_string("Void"),
        Token::Ident(s) => {
            let d = debug_str(s.as_str());
            cat3("Ident(", d.as_str(), ")")
        },
        Token::Str(s) => {
            let d = debug_str(s.as_str());
            cat3("Str(", d.as_str(), ")")
        },
        Token::Int(n) => {
            let d = i64_to_string(*n);
            cat3("Int(", d.as_str(), ")")
        },
        Token::Float(s) => {
            let d = if float_text_ok(s.as_str()) {
                float_point_text(s.as_str())
            } else {
                to_string(s.as_str())
            };
            cat3("Float(", d.as_str(), ")")
        },
        Token::True => to_string("True"),
        Token::False => to_string("False"),
        Token::Eq => to_string("Eq"),
        Token::EqEq => to_string("EqEq"),
        Token::NotEq => to_string("NotEq"),
        Token::Lt => to_string("Lt"),
        Token::Gt => to_string("Gt"),
        Token::LtEq => to_string("LtEq"),
        Token::GtEq => to_string("GtEq"),
        Token::Plus => to_string("Plus"),
        Token::Minus => to_string("Minus"),
        Token::Star => to_string("Star"),
        Token::Slash => to_string("Slash"),
        Token::Percent => to_string("Percent"),
        Token::And => to_string("And"),
        Token::Or => to_string("Or"),
        Token::Bang => to_string("Bang"),
        Token::Question => to_string("Question"),
        Token::FatArrow => to_string("FatArrow"),
        Token::LParen => to_string("LParen"),
        Token::RParen => to_string("RParen"),
        Token::LBrace => to_string("LBrace"),
        Token::RBrace => to_string("RBrace"),
        Token::LBracket => to_string("LBracket"),
        Token::RBracket => to_string("RBracket"),
        Token::Colon => to_string("Colon"),
        Token::Semi => to_string("Semi"),
        Token::AutoSemi => to_string("AutoSemi"),
        Token::Dot => to_string("Dot"),
        Token::Comma => to_string("Comma"),
        Token::EOF => to_string("EOF"),
    }
}


// --- Parser ---

pub struct Parser {
    tokens: Vec<(Token, Span)>,
    pos: usize,
    pub errors: Vec<ParseError>,
}

/// The token stream is non-empty and ends with `EOF` (as `tokenize` makes it).
pub open spec fn ends_with_eof(tokens: Seq<(Token, Span)>) -> bool {
    tokens.len() > 0 && tokens.last().0 is EOF
}

/// `sp` is the span of one of the tokens.
pub open spec fn is_token_span(tokens: Seq<(Token, Span)>, sp: Span) -> bool {
    exists|k: int| 0 <= k < tokens.len() && tokens[k].1 == sp
}

/// Every error points at one of the tokens.
pub open spec fn errors_at_tokens(tokens: Seq<(Token, Span)>, errors: Seq<ParseError>) -> bool {
    forall|i: int| 0 <= i < errors.len() ==> is_token_span(tokens, #[trigger] errors[i].span)
}

impl Parser {
    pub closed spec fn wf(&self) -> bool {
        &&& ends_with_eof(self.tokens@)
        &&& self.pos < self.tokens@.len()
        &&& errors_at_tokens(self.tokens@, self.errors@)
    }

    pub closed spec fn errors_spec(&self) -> Seq<ParseError> {
        self.errors@
    }

    /// The errors reported so far (the public `errors` field).
    pub fn errors(&self) -> (r: &Vec<ParseError>)
        ensures
            r@ == self.errors_spec(),
    {
        &self.errors
    }

    pub closed spec fn tokens_spec(&self) -> Seq<(Token, Span)> {
        self.tokens@
    }

    /// The position and the errors so far.
    pub closed spec fn st(&self) -> PSt {
        PSt { pos: self.pos as int, errs: errs_v(self.errors@) }
    }

    pub closed spec fn at_eof(&self) -> bool {
        self.tokens@[self.pos as int].0 is EOF
    }

    /// `b` follows `a`: same tokens, position not moved back, still well formed.
    pub closed spec fn step(a: &Parser, b: &Parser) -> bool {
        &&& b.wf()
        &&& b.tokens@ == a.tokens@
        &&& a.pos <= b.pos
    }

    /// `b` consumed at least one token unless `a` was at the end.
    pub closed spec fn progressed(a: &Parser, b: &Parser) -> bool {
        !a.at_eof() ==> a.pos < b.pos
    }

    /// A parser at the start of `tokens`, which must end with `EOF` (see `parse`).
    pub fn new(tokens: Vec<(Token, Span)>) -> (r: Self)
        requires
            ends_with_eof(tokens@),
        ensures
            r.wf(),
            r.tokens_spec() == tokens@,
            r.st() == (PSt { pos: 0, errs: Seq::empty() }),
            r.errors_spec().len() == 0,
    {
        let r = Parser { tokens, pos: 0, errors: Vec::new() };
        assert(errs_v(r.errors@) =~= Seq::empty());
        r
    }

    fn error(&mut self, msg: String)
        requires
            old(self).wf(),
        ensures
            Self::step(old(self), final(self)),
            final(self).pos == old(self).pos,
            final(self).st() == g_err(toks_view(old(self).tokens@), old(self).st(), msg@),
    {
        let span = self.tokens[self.pos].1;
        let ghost before = self.errors@;
        let ghost m = msg@;
        self.errors.push(ParseError { message: msg, span });
        assert(errs_v(self.errors@) =~= errs_v(before).push((m, span)));
        assert forall|i: int| 0 <= i < self.errors@.len() implies
            is_token_span(self.tokens@, #[trigger] self.errors@[i].span) by {
            if i < before.len() {
                assert(self.errors@[i] == before[i]);
            } else {
                assert(self.tokens@[self.pos as int].1 == span);
            }
        }
    }

    fn peek(&self) -> (r: &Token)
        requires
            self.wf(),
        ensures
            *r == self.tokens@[self.pos as int].0,
            (*r is EOF) == self.at_eof(),
    {
        &self.tokens[self.pos].0
    }

    fn peek_is(&self, t: &Token) -> (r: bool)
        requires
            self.wf(),
        ensures
            r == g_is(toks_view(self.tokens@), self.st(), *t),
            r ==> (self.at_eof() <==> (*t is EOF)),
            (self.at_eof() && (*t is EOF)) ==> r,
    {
        proof {
            crate::grammar::lemma_stok_code(self.tokens@[self.pos as int].0);
        }
        tok_code(self.peek()) == tok_code(t)
    }

    fn peek_span(&self) -> (r: Span)
        requires
            self.wf(),
        ensures
            r == g_span(toks_view(self.tokens@), self.st()),
    {
        self.tokens[self.pos].1
    }

    fn prev_end(&self) -> (r: usize)
        requires
            self.wf(),
        ensures
            r == g_prev_end(toks_view(self.tokens@), self.st()),
    {
        if self.pos > 0 {
            self.tokens[self.pos - 1].1.1
        } else {
            0
        }
    }

    fn advance(&mut self)
        requires
            old(self).wf(),
        ensures
            Self::step(old(self), final(self)),
            Self::progressed(old(self), final(self)),
            final(self).errors@ == old(self).errors@,
            final(self).st() == crate::grammar::g_adv(toks_view(old(self).tokens@), old(self).st()),
    {
        if self.pos < self.tokens.len() - 1 {
            self.pos += 1;
        }
    }

    fn expect_ident_spanned(&mut self) -> (r: (String, Span))
        requires
            old(self).wf(),
        ensures
            Self::step(old(self), final(self)),
            (r.0@, r.1, final(self).st()) == g_ident(toks_view(old(self).tokens@), old(self).st()),
    {
        let span = self.tokens[self.pos].1;
        match self.peek() {
            Token::Ident(s) => {
                let name = to_string(s.as_str());
                self.advance();
                (name, span)
            },
            tok => {
                let d = token_display(tok);
                self.error(cat2("Expected identifier, got ", d.as_str()));
                (to_string("<error>"), span)
            },
        }
    }

    fn expect_ident(&mut self) -> (r: String)
        requires
            old(self).wf(),
        ensures
            Self::step(old(self), final(self)),
            r@ == g_ident(toks_view(old(self).tokens@), old(self).st()).0,
            final(self).st() == g_ident(toks_view(old(self).tokens@), old(self).st()).2,
    {
        self.expect_ident_spanned().0
    }

    fn expect(&mut self, expected: Token)
        requires
            old(self).wf(),
        ensures
            Self::step(old(self), final(self)),
            final(self).st() == g_expect(toks_view(old(self).tokens@), old(self).st(), expected),
    {
        if self.peek_is(&expected) {
            self.advance();
        } else {
            let e = token_display(&expected);
            let g = token_display(self.peek());
            let mut msg = cat3("Expected ", e.as_str(), ", got ");
            push_str(&mut msg, g.as_str());
            self.error(msg);
        }
    }

    /// Consume `;` if present; does not error if absent.
    fn eat_semi(&mut self)
        requires
            old(self).wf(),
        ensures
            Self::step(old(self), final(self)),
            final(self).st() == g_semi(toks_view(old(self).tokens@), old(self).st()),
    {
        if matches!(self.peek(), Token::Semi | Token::AutoSemi) {
            self.advance();
        }
    }

    /// Consume `,` if present.
    fn eat_comma(&mut self)
        requires
            old(self).wf(),
        ensures
            Self::step(old(self), final(self)),
            final(self).st() == crate::grammar::g_comma(toks_view(old(self).tokens@), old(self).st()),
    {
        if self.peek_is(&Token::Comma) {
            self.advance();
        }
    }

    /// Skip `;` tokens.
    fn skip_semis(&mut self)
        requires
            old(self).wf(),
        ensures
            Self::step(old(self), final(self)),
            final(self).st() == g_skip_semis(toks_view(old(self).tokens@), old(self).st()),
    {
        while matches!(self.peek(), Token::Semi | Token::AutoSemi)
            invariant
                Self::step(old(self), self),
                g_skip_semis(toks_view(self.tokens@), self.st()) == g_skip_semis(toks_view(old(self).tokens@), old(self).st()),
            decreases self.tokens@.len() - self.pos,
        {
            self.advance();
        }
    }

    // --- Type parsing ---

    fn parse_type(&mut self) -> (r: TypeExpr)
        requires
            old(self).wf(),
        ensures
            Self::step(old(self), final(self)),
            (type_v(r), final(self).st()) == g_type(toks_view(old(self).tokens@), old(self).st()),
        decreases old(self).tokens@.len() - old(self).pos,
    {
        proof {
            reveal_with_fuel(type_v, 2);
        }
        match self.peek() {
            Token::Question => {
                self.advance();
                let inner = self.parse_type();
                TypeExpr::Optional(Box::new(inner))
            },
            Token::Bang => {
                self.advance();
                let inner = self.parse_type();
                TypeExpr::ErrorUnion(None, Box::new(inner))
            },
            Token::Ident(name) => {
                let name = to_string(name.as_str());
                self.advance();
                if self.peek_is(&Token::LBracket) {
                    self.advance();
                    let n: u64 = match self.peek() {
                        Token::Int(n) => {
                            let n = *n as u64;
                            self.advance();
                            n
                        },
                        tok => {
                            let d = token_display(tok);
                            self.error(cat2("Expected array size, got ", d.as_str()));
                            0
                        },
                    };
                    self.expect(Token::RBracket);
                    TypeExpr::Array(Box::new(TypeExpr::Name(name)), n)
                } else if self.peek_is(&Token::Bang) {
                    self.advance();
                    let inner = self.parse_type();
                    TypeExpr::ErrorUnion(Some(Box::new(TypeExpr::Name(name))), Box::new(inner))
                } else {
                    TypeExpr::Name(name)
                }
            },
            Token::Void => {
                self.advance();
                TypeExpr::Name(to_string("void"))
            },
            tok => {
                let d = token_display(tok);
                self.error(cat2("Expected type, got ", d.as_str()));
                TypeExpr::Name(to_string("<error>"))
            },
        }
    }

    // --- Program ---

    /// The program.
    pub fn parse_program(&mut self) -> (r: Program)
        requires
            old(self).wf(),
        ensures
            Self::step(old(self), final(self)),
            tops_v(r@) == g_program(toks_view(old(self).tokens_spec()), old(self).st()).0,
            final(self).st() == g_program(toks_view(old(self).tokens_spec()), old(self).st()).2,
    {
        self.parse_program_gaps().0
    }

    /// End of the last token before the current one that is not a `;`
    /// (0 when there is none).
    fn last_content_end(&self) -> (r: usize)
        requires
            self.wf(),
        ensures
            r == g_content_end(toks_view(self.tokens@), self.pos as int),
    {
        let mut k = self.pos;
        while k > 0 && matches!(self.tokens[k - 1].0, Token::Semi | Token::AutoSemi)
            invariant
                k <= self.pos < self.tokens@.len(),
                g_content_end(toks_view(self.tokens@), k as int) == g_content_end(toks_view(self.tokens@), self.pos as int),
            decreases k,
        {
            k -= 1;
        }
        if k > 0 {
            self.tokens[k - 1].1.1
        } else {
            0
        }
    }

    /// The program, and for each item the source range between the end of
    /// the previous item's content and the item's first token.
    #[verifier::rlimit(40)]
    pub fn parse_program_gaps(&mut self) -> (r: (Program, Vec<Span>))
        requires
            old(self).wf(),
        ensures
            Self::step(old(self), final(self)),
            (tops_v(r.0@), r.1@, final(self).st()) == g_program(toks_view(old(self).tokens_spec()), old(self).st()),
            errors_at_tokens(final(self).tokens_spec(), final(self).errors_spec()),
    {
        let ghost ts = toks_view(self.tokens@);
        let ghost goal = g_program(ts, self.st());
        let mut items: Vec<TopLevel> = Vec::new();
        let mut gaps: Vec<Span> = Vec::new();
        loop
            invariant_except_break
                goal == (tops_v(items@) + g_program(ts, self.st()).0, gaps@ + g_program(ts, self.st()).1,
                    g_program(ts, self.st()).2),
            invariant
                Self::step(old(self), self),
                ts == toks_view(self.tokens@),
                goal == g_program(toks_view(old(self).tokens@), old(self).st()),
            ensures
                goal == (tops_v(items@), gaps@, self.st()),
            decreases self.tokens@.len() - self.pos,
        {
            if self.peek_is(&Token::EOF) {
                assert(tops_v(items@) + Seq::empty() =~= tops_v(items@));
                assert(gaps@ + Seq::<Span>::empty() =~= gaps@);
                break;
            }
            let ghost s0 = self.st();
            // Skip stray `;` at the top level
            self.skip_semis();
            if self.peek_is(&Token::EOF) {
                assert(tops_v(items@) + Seq::empty() =~= tops_v(items@));
                assert(gaps@ + Seq::<Span>::empty() =~= gaps@);
                break;
            }
            let gap = (self.last_content_end(), self.peek_span().0);
            let item = self.parse_toplevel();
            let ghost before = items@;
            items.push(item);
            gaps.push(gap);
            proof {
                let rest = g_program(ts, self.st());
                assert(tops_v(items@) =~= tops_v(before).push(top_v(item)));
                assert(tops_v(items@) + rest.0 =~= tops_v(before) + (seq![top_v(item)] + rest.0));
                assert(gaps@ + rest.1 =~= gaps@.drop_last() + (seq![gap] + rest.1));
            }
        }
        (items, gaps)
    }

    /// Fields up to `}`.
    fn parse_fields(&mut self) -> (r: Vec<StructField>)
        requires
            old(self).wf(),
        ensures
            Self::step(old(self), final(self)),
            (r@.map_values(|f: StructField| field_v(f)), final(self).st()) == g_fields(toks_view(old(self).tokens@), old(self).st()),
    {
        let ghost ts = toks_view(self.tokens@);
        let ghost goal = g_fields(ts, self.st());
        let mut fields: Vec<StructField> = Vec::new();
        loop
            invariant_except_break
                goal == (fields@.map_values(|f: StructField| field_v(f)) + g_fields(ts, self.st()).0,
                    g_fields(ts, self.st()).1),
            invariant
                Self::step(old(self), self),
                ts == toks_view(self.tokens@),
                goal == g_fields(toks_view(old(self).tokens@), old(self).st()),
            ensures
                goal == (fields@.map_values(|f: StructField| field_v(f)), self.st()),
            decreases self.tokens@.len() - self.pos,
        {
            let ghost vs = fields@.map_values(|f: StructField| field_v(f));
            if self.peek_is(&Token::RBrace) {
                assert(vs + Seq::empty() =~= vs);
                break;
            }
            let p0 = self.pos;
            let ghost s0 = self.st();
            let fname = self.expect_ident();
            self.expect(Token::Colon);
            let fty = self.parse_type();
            fields.push(StructField { name: fname, ty: fty });
            let ghost f = fields@.last();
            self.eat_comma();
            assert(fields@.map_values(|f: StructField| field_v(f)) =~= vs.push(field_v(f)));
            if self.pos == p0 {
                break;
            }
            assert(vs.push(field_v(f)) + g_fields(ts, self.st()).0 =~= vs + (seq![field_v(f)] + g_fields(ts, self.st()).0));
        }
        fields
    }

    /// Parameters up to `)`.
    fn parse_params(&mut self) -> (r: Vec<(String, TypeExpr)>)
        requires
            old(self).wf(),
        ensures
            Self::step(old(self), final(self)),
            (r@.map_values(|p: (String, TypeExpr)| param_v(p)), final(self).st()) == g_params(toks_view(old(self).tokens@), old(self).st()),
    {
        let ghost ts = toks_view(self.tokens@);
        let ghost goal = g_params(ts, self.st());
        let mut params: Vec<(String, TypeExpr)> = Vec::new();
        loop
            invariant_except_break
                goal == (params@.map_values(|p: (String, TypeExpr)| param_v(p)) + g_params(ts, self.st()).0,
                    g_params(ts, self.st()).1),
            invariant
                Self::step(old(self), self),
                ts == toks_view(self.tokens@),
                goal == g_params(toks_view(old(self).tokens@), old(self).st()),
            ensures
                goal == (params@.map_values(|p: (String, TypeExpr)| param_v(p)), self.st()),
            decreases self.tokens@.len() - self.pos,
        {
            let ghost vs = params@.map_values(|p: (String, TypeExpr)| param_v(p));
            if self.peek_is(&Token::RParen) {
                assert(vs + Seq::empty() =~= vs);
                break;
            }
            let p0 = self.pos;
            let pname = self.expect_ident();
            self.expect(Token::Colon);
            let pty = self.parse_type();
            params.push((pname, pty));
            let ghost f = params@.last();
            self.eat_comma();
            assert(params@.map_values(|p: (String, TypeExpr)| param_v(p)) =~= vs.push(param_v(f)));
            if self.pos == p0 {
                break;
            }
            assert(vs.push(param_v(f)) + g_params(ts, self.st()).0 =~= vs + (seq![param_v(f)] + g_params(ts, self.st()).0));
        }
        params
    }

    /// Variant names up to `}`.
    fn parse_variants(&mut self) -> (r: Vec<String>)
        requires
            old(self).wf(),
        ensures
            Self::step(old(self), final(self)),
            (r@.map_values(|v: String| v@), final(self).st()) == g_variants(toks_view(old(self).tokens@), old(self).st()),
    {
        let ghost ts = toks_view(self.tokens@);
        let ghost goal = g_variants(ts, self.st());
        let mut variants: Vec<String> = Vec::new();
        loop
            invariant_except_break
                goal == (variants@.map_values(|v: String| v@) + g_variants(ts, self.st()).0, g_variants(ts, self.st()).1),
            invariant
                Self::step(old(self), self),
                ts == toks_view(self.tokens@),
                goal == g_variants(toks_view(old(self).tokens@), old(self).st()),
            ensures
                goal == (variants@.map_values(|v: String| v@), self.st()),
            decreases self.tokens@.len() - self.pos,
        {
            let ghost vs = variants@.map_values(|v: String| v@);
            if self.peek_is(&Token::RBrace) {
                assert(vs + Seq::empty() =~= vs);
                break;
            }
            let p0 = self.pos;
            variants.push(self.expect_ident());
            let ghost f = variants@.last();
            self.eat_comma();
            assert(variants@.map_values(|v: String| v@) =~= vs.push(f@));
            if self.pos == p0 {
                break;
            }
            assert(vs.push(f@) + g_variants(ts, self.st()).0 =~= vs + (seq![f@] + g_variants(ts, self.st()).0));
        }
        variants
    }

    fn parse_toplevel(&mut self) -> (r: TopLevel)
        requires
            old(self).wf(),
        ensures
            Self::step(old(self), final(self)),
            Self::progressed(old(self), final(self)),
            (top_v(r), final(self).st()) == g_toplevel(toks_view(old(self).tokens@), old(self).st()),
    {
        let exported = if self.peek_is(&Token::Export) {
            self.advance();
            true
        } else {
            false
        };
        if self.peek_is(&Token::Const) {
            self.advance();
            let (name, name_span) = self.expect_ident_spanned();
            self.expect(Token::Eq);
            let kind = self.const_kind();
            if kind == 1 {
                self.advance();
                self.expect(Token::LBrace);
                let fields = self.parse_fields();
                self.expect(Token::RBrace);
                self.eat_semi();
                TopLevel::StructDecl { name, fields, exported }
            } else if kind == 2 {
                self.advance();
                self.expect(Token::LBrace);
                let variants = self.parse_variants();
                self.expect(Token::RBrace);
                self.eat_semi();
                TopLevel::EnumDecl { name, variants, exported }
            } else {
                let value = self.parse_expr();
                self.eat_semi();
                TopLevel::ConstDecl { name, name_span, value, exported }
            }
        } else if self.peek_is(&Token::Fn) {
            self.advance();
            let name = self.expect_ident();
            self.expect(Token::LParen);
            let params = self.parse_params();
            self.expect(Token::RParen);
            self.expect(Token::Colon);
            let ret = self.parse_type();
            self.expect(Token::LBrace);
            let body = self.parse_block();
            self.expect(Token::RBrace);
            TopLevel::FnDecl(FnDecl { name, params, ret, body, exported })
        } else {
            TopLevel::Stmt(self.parse_stmt())
        }
    }

    /// After `const NAME =`: 1 for `struct`, 2 for `enum`, 0 otherwise.
    fn const_kind(&self) -> (r: u8)
        requires
            self.wf(),
        ensures
            r == g_const_kind(tokv(self.tokens@[self.pos as int].0)),
    {
        proof {
            reveal_strlit("struct");
            reveal_strlit("enum");
        }
        match self.peek() {
            Token::Ident(kw) => {
                if crate::strs::str_eq(kw.as_str(), "struct") {
                    1
                } else if crate::strs::str_eq(kw.as_str(), "enum") {
                    2
                } else {
                    0
                }
            },
            _ => 0,
        }
    }

    // --- Block parsing ---

    fn parse_block(&mut self) -> (r: Vec<Stmt>)
        requires
            old(self).wf(),
        ensures
            Self::step(old(self), final(self)),
            (stmts_v(r@), final(self).st()) == g_block(toks_view(old(self).tokens@), old(self).st()),
        decreases old(self).tokens@.len() - old(self).pos, 12int,
    {
        let ghost ts = toks_view(self.tokens@);
        let ghost goal = g_block(ts, self.st());
        let mut stmts: Vec<Stmt> = Vec::new();
        loop
            invariant_except_break
                goal == (stmts_v(stmts@) + g_block(ts, self.st()).0, g_block(ts, self.st()).1),
            invariant
                Self::step(old(self), self),
                ts == toks_view(self.tokens@),
                goal == g_block(toks_view(old(self).tokens@), old(self).st()),
            ensures
                goal == (stmts_v(stmts@), self.st()),
            decreases self.tokens@.len() - self.pos,
        {
            if self.peek_is(&Token::RBrace) || self.peek_is(&Token::EOF) {
                assert(stmts_v(stmts@) + Seq::empty() =~= stmts_v(stmts@));
                break;
            }
            let ghost s0 = self.st();
            self.skip_semis();
            if self.peek_is(&Token::RBrace) || self.peek_is(&Token::EOF) {
                assert(stmts_v(stmts@) + Seq::empty() =~= stmts_v(stmts@));
                break;
            }
            let st = self.parse_stmt();
            let ghost before = stmts@;
            stmts.push(st);
            proof {
                lemma_stmts_v_push(before, st);
                let rest = g_block(ts, self.st());
                assert(stmts_v(before).push(stmt_v(st)) + rest.0 =~= stmts_v(before) + (seq![stmt_v(st)] + rest.0));
            }
        }
        stmts
    }

    // --- Statements ---

    #[verifier::rlimit(60)]
    fn parse_stmt(&mut self) -> (r: Stmt)
        requires
            old(self).wf(),
        ensures
            Self::step(old(self), final(self)),
            Self::progressed(old(self), final(self)),
            (stmt_v(r), final(self).st()) == g_stmt(toks_view(old(self).tokens@), old(self).st()),
        decreases old(self).tokens@.len() - old(self).pos, 11int,
    {
        let span = self.peek_span();
        if self.peek_is(&Token::Const) || self.peek_is(&Token::Let) {
            let is_const = self.peek_is(&Token::Const);
            self.advance();
            let name = self.expect_ident();
            let ty = if self.peek_is(&Token::Colon) {
                self.advance();
                Some(self.parse_type())
            } else {
                None
            };
            self.expect(Token::Eq);
            let value = self.parse_expr();
            self.eat_semi();
            if is_const {
                Stmt { kind: StmtKind::ConstDecl { name, ty, value }, span }
            } else {
                Stmt { kind: StmtKind::LetDecl { name, ty, value }, span }
            }
        } else if self.peek_is(&Token::Return) {
            self.advance();
            // RBrace and EOF terminate return even without a semicolon
            if matches!(self.peek(), Token::Semi | Token::AutoSemi | Token::RBrace | Token::EOF) {
                self.eat_semi();
                Stmt { kind: StmtKind::Return(None), span }
            } else {
                let expr = self.parse_expr();
                self.eat_semi();
                Stmt { kind: StmtKind::Return(Some(expr)), span }
            }
        } else if self.peek_is(&Token::If) {
            self.advance();
            let cond = self.parse_expr();
            self.expect(Token::LBrace);
            let body = self.parse_block();
            self.expect(Token::RBrace);
            let else_body = if self.peek_is(&Token::Else) {
                self.advance();
                self.expect(Token::LBrace);
                let b = self.parse_block();
                self.expect(Token::RBrace);
                Some(b)
            } else {
                None
            };
            Stmt { kind: StmtKind::If { cond, body, else_body }, span }
        } else if self.peek_is(&Token::While) {
            self.advance();
            let cond = self.parse_expr();
            self.expect(Token::LBrace);
            let body = self.parse_block();
            self.expect(Token::RBrace);
            Stmt { kind: StmtKind::While { cond, body }, span }
        } else if self.peek_is(&Token::Break) {
            self.advance();
            self.eat_semi();
            Stmt { kind: StmtKind::Break, span }
        } else if self.peek_is(&Token::Continue) {
            self.advance();
            self.eat_semi();
            Stmt { kind: StmtKind::Continue, span }
        } else {
            let expr = self.parse_expr();
            self.eat_semi();
            Stmt { kind: StmtKind::ExprStmt(expr), span }
        }
    }

    // --- Expressions ---

    fn parse_expr(&mut self) -> (r: Expr)
        requires
            old(self).wf(),
        ensures
            Self::step(old(self), final(self)),
            Self::progressed(old(self), final(self)),
            (expr_v(r), final(self).st()) == g_expr(toks_view(old(self).tokens@), old(self).st()),
        decreases old(self).tokens@.len() - old(self).pos, 10int,
    {
        self.parse_or()
    }

    fn parse_or(&mut self) -> (r: Expr)
        requires
            old(self).wf(),
        ensures
            Self::step(old(self), final(self)),
            Self::progressed(old(self), final(self)),
            (expr_v(r), final(self).st()) == g_or(toks_view(old(self).tokens@), old(self).st()),
        decreases old(self).tokens@.len() - old(self).pos, 9int,
    {
        let ghost ts = toks_view(self.tokens@);
        let ghost goal = g_or(ts, self.st());
        let mut lhs = self.parse_and();
        while self.peek_is(&Token::Or)
            invariant
                Self::step(old(self), self),
                Self::progressed(old(self), self),
                ts == toks_view(self.tokens@),
                goal == g_or(toks_view(old(self).tokens@), old(self).st()),
                g_or_rest(ts, self.st(), expr_v(lhs)) == goal,
            decreases self.tokens@.len() - self.pos,
        {
            self.advance();
            let rhs = self.parse_and();
            let span = (lhs.span.0, rhs.span.1);
            lhs = Expr { kind: ExprKind::BinOp { op: BinOp::Or, lhs: Box::new(lhs), rhs: Box::new(rhs) }, span };
        }
        lhs
    }

    fn parse_and(&mut self) -> (r: Expr)
        requires
            old(self).wf(),
        ensures
            Self::step(old(self), final(self)),
            Self::progressed(old(self), final(self)),
            (expr_v(r), final(self).st()) == g_and(toks_view(old(self).tokens@), old(self).st()),
        decreases old(self).tokens@.len() - old(self).pos, 8int,
    {
        let ghost ts = toks_view(self.tokens@);
        let ghost goal = g_and(ts, self.st());
        let mut lhs = self.parse_cmp();
        while self.peek_is(&Token::And)
            invariant
                Self::step(old(self), self),
                Self::progressed(old(self), self),
                ts == toks_view(self.tokens@),
                goal == g_and(toks_view(old(self).tokens@), old(self).st()),
                g_and_rest(ts, self.st(), expr_v(lhs)) == goal,
            decreases self.tokens@.len() - self.pos,
        {
            self.advance();
            let rhs = self.parse_cmp();
            let span = (lhs.span.0, rhs.span.1);
            lhs = Expr { kind: ExprKind::BinOp { op: BinOp::And, lhs: Box::new(lhs), rhs: Box::new(rhs) }, span };
        }
        lhs
    }

    fn comparison_op(&self) -> (r: Option<BinOp>)
        requires
            self.wf(),
        ensures
            r is Some ==> !self.at_eof(),
            r == g_comparison_op(tokv(self.tokens@[self.pos as int].0)),
    {
        match self.peek() {
            Token::EqEq => Some(BinOp::Eq),
            Token::NotEq => Some(BinOp::NotEq),
            Token::Lt => Some(BinOp::Lt),
            Token::Gt => Some(BinOp::Gt),
            Token::LtEq => Some(BinOp::LtEq),
            Token::GtEq => Some(BinOp::GtEq),
            _ => None,
        }
    }

    fn parse_cmp(&mut self) -> (r: Expr)
        requires
            old(self).wf(),
        ensures
            Self::step(old(self), final(self)),
            Self::progressed(old(self), final(self)),
            (expr_v(r), final(self).st()) == g_cmp(toks_view(old(self).tokens@), old(self).st()),
        decreases old(self).tokens@.len() - old(self).pos, 7int,
    {
        let lhs = self.parse_add();
        let op = match self.comparison_op() {
            Some(op) => op,
            None => {
                return lhs;
            },
        };
        self.advance();
        let rhs = self.parse_add();
        let span = (lhs.span.0, rhs.span.1);
        Expr { kind: ExprKind::BinOp { op, lhs: Box::new(lhs), rhs: Box::new(rhs) }, span }
    }

    fn add_op(&self) -> (r: Option<BinOp>)
        requires
            self.wf(),
        ensures
            r is Some ==> !self.at_eof(),
            r == g_add_op(tokv(self.tokens@[self.pos as int].0)),
    {
        match self.peek() {
            Token::Plus => Some(BinOp::Add),
            Token::Minus => Some(BinOp::Sub),
            _ => None,
        }
    }

    #[verifier::rlimit(80)]
    #[verifier::spinoff_prover]
    fn parse_add(&mut self) -> (r: Expr)
        requires
            old(self).wf(),
        ensures
            Self::step(old(self), final(self)),
            Self::progressed(old(self), final(self)),
            (expr_v(r), final(self).st()) == g_add(toks_view(old(self).tokens@), old(self).st()),
        decreases old(self).tokens@.len() - old(self).pos, 6int,
    {
        let ghost ts = toks_view(self.tokens@);
        let ghost goal = g_add(ts, self.st());
        let mut lhs = self.parse_mul();
        loop
            invariant
                Self::step(old(self), self),
                Self::progressed(old(self), self),
                ts == toks_view(self.tokens@),
                goal == g_add(toks_view(old(self).tokens@), old(self).st()),
                g_add_rest(ts, self.st(), expr_v(lhs)) == goal,
            ensures
                (expr_v(lhs), self.st()) == goal,
            decreases self.tokens@.len() - self.pos,
        {
            let op = match self.add_op() {
                Some(op) => op,
                None => {
                    break;
                },
            };
            self.advance();
            let rhs = self.parse_mul();
            let span = (lhs.span.0, rhs.span.1);
            lhs = Expr { kind: ExprKind::BinOp { op, lhs: Box::new(lhs), rhs: Box::new(rhs) }, span };
        }
        lhs
    }

    fn mul_op(&self) -> (r: Option<BinOp>)
        requires
            self.wf(),
        ensures
            r is Some ==> !self.at_eof(),
            r == g_mul_op(tokv(self.tokens@[self.pos as int].0)),
    {
        match self.peek() {
            Token::Star => Some(BinOp::Mul),
            Token::Slash => Some(BinOp::Div),
            Token::Percent => Some(BinOp::Mod),
            _ => None,
        }
    }

    #[verifier::rlimit(80)]
    #[verifier::spinoff_prover]
    fn parse_mul(&mut self) -> (r: Expr)
        requires
            old(self).wf(),
        ensures
            Self::step(old(self), final(self)),
            Self::progressed(old(self), final(self)),
            (expr_v(r), final(self).st()) == g_mul(toks_view(old(self).tokens@), old(self).st()),
        decreases old(self).tokens@.len() - old(self).pos, 5int,
    {
        let ghost ts = toks_view(self.tokens@);
        let ghost goal = g_mul(ts, self.st());
        let mut lhs = self.parse_unary();
        loop
            invariant
                Self::step(old(self), self),
                Self::progressed(old(self), self),
                ts == toks_view(self.tokens@),
                goal == g_mul(toks_view(old(self).tokens@), old(self).st()),
                g_mul_rest(ts, self.st(), expr_v(lhs)) == goal,
            ensures
                (expr_v(lhs), self.st()) == goal,
            decreases self.tokens@.len() - self.pos,
        {
            let op = match self.mul_op() {
                Some(op) => op,
                None => {
                    break;
                },
            };
            self.advance();
            let rhs = self.parse_unary();
            let span = (lhs.span.0, rhs.span.1);
            lhs = Expr { kind: ExprKind::BinOp { op, lhs: Box::new(lhs), rhs: Box::new(rhs) }, span };
        }
        lhs
    }

    fn parse_unary(&mut self) -> (r: Expr)
        requires
            old(self).wf(),
        ensures
            Self::step(old(self), final(self)),
            Self::progressed(old(self), final(self)),
            (expr_v(r), final(self).st()) == g_unary(toks_view(old(self).tokens@), old(self).st()),
        decreases old(self).tokens@.len() - old(self).pos, 4int,
    {
        if self.peek_is(&Token::Bang) || self.peek_is(&Token::Minus) {
            let op = if self.peek_is(&Token::Bang) { UnOp::Not } else { UnOp::Neg };
            let span_start = self.peek_span().0;
            self.advance();
            let expr = self.parse_unary();
            let span = (span_start, expr.span.1);
            Expr { kind: ExprKind::UnOp { op, expr: Box::new(expr) }, span }
        } else {
            self.parse_postfix()
        }
    }

    /// Comma-separated arguments up to `)`.
    fn parse_args(&mut self) -> (r: Vec<Expr>)
        requires
            old(self).wf(),
        ensures
            Self::step(old(self), final(self)),
            (exprs_v(r@), final(self).st()) == g_args(toks_view(old(self).tokens@), old(self).st()),
        decreases old(self).tokens@.len() - old(self).pos, 11int,
    {
        let ghost ts = toks_view(self.tokens@);
        let ghost goal = g_args(ts, self.st());
        let mut args: Vec<Expr> = Vec::new();
        loop
            invariant_except_break
                goal == (exprs_v(args@) + g_args(ts, self.st()).0, g_args(ts, self.st()).1),
            invariant
                Self::step(old(self), self),
                ts == toks_view(self.tokens@),
                goal == g_args(toks_view(old(self).tokens@), old(self).st()),
            ensures
                goal == (exprs_v(args@), self.st()),
            decreases self.tokens@.len() - self.pos,
        {
            if self.peek_is(&Token::RParen) {
                assert(exprs_v(args@) + Seq::empty() =~= exprs_v(args@));
                break;
            }
            let p0 = self.pos;
            let a = self.parse_expr();
            let ghost before = args@;
            let ghost av = expr_v(a);
            args.push(a);
            proof {
                lemma_exprs_v_push(before, args@.last());
                assert(args@ =~= before.push(args@.last()));
            }
            self.eat_comma();
            if self.pos == p0 {
                break;
            }
            assert(exprs_v(before).push(av) + g_args(ts, self.st()).0 =~= exprs_v(before) + (seq![av] + g_args(ts, self.st()).0));
        }
        args
    }

    /// Comma-separated elements up to `]`.
    fn parse_elems(&mut self) -> (r: Vec<Expr>)
        requires
            old(self).wf(),
        ensures
            Self::step(old(self), final(self)),
            (exprs_v(r@), final(self).st()) == g_elems(toks_view(old(self).tokens@), old(self).st()),
        decreases old(self).tokens@.len() - old(self).pos, 11int,
    {
        let ghost ts = toks_view(self.tokens@);
        let ghost goal = g_elems(ts, self.st());
        let mut elems: Vec<Expr> = Vec::new();
        loop
            invariant_except_break
                goal == (exprs_v(elems@) + g_elems(ts, self.st()).0, g_elems(ts, self.st()).1),
            invariant
                Self::step(old(self), self),
                ts == toks_view(self.tokens@),
                goal == g_elems(toks_view(old(self).tokens@), old(self).st()),
            ensures
                goal == (exprs_v(elems@), self.st()),
            decreases self.tokens@.len() - self.pos,
        {
            if self.peek_is(&Token::RBracket) {
                assert(exprs_v(elems@) + Seq::empty() =~= exprs_v(elems@));
                break;
            }
            let p0 = self.pos;
            let a = self.parse_expr();
            let ghost before = elems@;
            let ghost av = expr_v(a);
            elems.push(a);
            proof {
                lemma_exprs_v_push(before, elems@.last());
                assert(elems@ =~= before.push(elems@.last()));
            }
            self.eat_comma();
            if self.pos == p0 {
                break;
            }
            assert(exprs_v(before).push(av) + g_elems(ts, self.st()).0 =~= exprs_v(before) + (seq![av] + g_elems(ts, self.st()).0));
        }
        elems
    }

    #[verifier::rlimit(60)]
    fn parse_postfix(&mut self) -> (r: Expr)
        requires
            old(self).wf(),
        ensures
            Self::step(old(self), final(self)),
            Self::progressed(old(self), final(self)),
            (expr_v(r), final(self).st()) == g_postfix(toks_view(old(self).tokens@), old(self).st()),
        decreases old(self).tokens@.len() - old(self).pos, 3int,
    {
        let ghost ts = toks_view(self.tokens@);
        let ghost goal = g_postfix(ts, self.st());
        let mut expr = self.parse_primary();
        loop
            invariant
                Self::step(old(self), self),
                Self::progressed(old(self), self),
                ts == toks_view(self.tokens@),
                goal == g_postfix(toks_view(old(self).tokens@), old(self).st()),
                g_postfix_rest(ts, self.st(), expr_v(expr)) == goal,
            ensures
                (expr_v(expr), self.st()) == goal,
            decreases self.tokens@.len() - self.pos,
        {
            let span_start = expr.span.0;
            if self.peek_is(&Token::Dot) {
                self.advance();
                let prop = self.expect_ident();
                let span = (span_start, self.prev_end());
                expr = Expr { kind: ExprKind::MemberAccess { obj: Box::new(expr), prop }, span };
            } else if self.peek_is(&Token::LParen) {
                self.advance();
                let args = self.parse_args();
                self.expect(Token::RParen);
                let span = (span_start, self.prev_end());
                expr = Expr { kind: ExprKind::Call { callee: Box::new(expr), args }, span };
            } else if self.peek_is(&Token::LBracket) {
                self.advance();
                let idx = self.parse_expr();
                self.expect(Token::RBracket);
                let span = (span_start, self.prev_end());
                expr = Expr { kind: ExprKind::Index { obj: Box::new(expr), idx: Box::new(idx) }, span };
            } else if self.peek_is(&Token::Question) {
                self.advance();
                let span = (span_start, self.prev_end());
                expr = Expr { kind: ExprKind::Propagate(Box::new(expr)), span };
            } else if self.peek_is(&Token::Catch) {
                self.advance();
                let err_name = self.expect_ident();
                self.expect(Token::LBrace);
                let body = self.parse_block();
                self.expect(Token::RBrace);
                let span = (span_start, self.prev_end());
                expr = Expr { kind: ExprKind::Catch { expr: Box::new(expr), err_name, body }, span };
            } else {
                break;
            }
        }
        expr
    }

    fn parse_switch_pattern(&mut self) -> (r: SwitchPattern)
        requires
            old(self).wf(),
        ensures
            Self::step(old(self), final(self)),
            Self::progressed(old(self), final(self)),
            (pattern_v(r), final(self).st()) == g_pattern(toks_view(old(self).tokens@), old(self).st()),
    {
        let pattern = match self.peek() {
            Token::Else => SwitchPattern::Else,
            Token::Ident(s) => SwitchPattern::Ident(to_string(s.as_str())),
            Token::Int(n) => SwitchPattern::Int(*n),
            Token::True => SwitchPattern::Bool(true),
            Token::False => SwitchPattern::Bool(false),
            tok => {
                let d = token_display(tok);
                self.error(cat2("Unexpected switch pattern: ", d.as_str()));
                SwitchPattern::Else
            },
        };
        self.advance();
        pattern
    }

    /// Switch arms up to `}`.
    fn parse_arms(&mut self) -> (r: Vec<SwitchArm>)
        requires
            old(self).wf(),
        ensures
            Self::step(old(self), final(self)),
            (arms_v(r@), final(self).st()) == g_arms(toks_view(old(self).tokens@), old(self).st()),
        decreases old(self).tokens@.len() - old(self).pos, 11int,
    {
        let ghost ts = toks_view(self.tokens@);
        let ghost goal = g_arms(ts, self.st());
        let mut arms: Vec<SwitchArm> = Vec::new();
        loop
            invariant_except_break
                goal == (arms_v(arms@) + g_arms(ts, self.st()).0, g_arms(ts, self.st()).1),
            invariant
                Self::step(old(self), self),
                ts == toks_view(self.tokens@),
                goal == g_arms(toks_view(old(self).tokens@), old(self).st()),
            ensures
                goal == (arms_v(arms@), self.st()),
            decreases self.tokens@.len() - self.pos,
        {
            if self.peek_is(&Token::RBrace) {
                assert(arms_v(arms@) + Seq::empty() =~= arms_v(arms@));
                break;
            }
            let p0 = self.pos;
            let pattern = self.parse_switch_pattern();
            self.expect(Token::FatArrow);
            let body = if self.peek_is(&Token::LBrace) {
                self.advance();
                let stmts = self.parse_block();
                self.expect(Token::RBrace);
                self.eat_comma();
                SwitchBody::Block(stmts)
            } else {
                let e = self.parse_expr();
                self.eat_comma();
                SwitchBody::Expr(e)
            };
            let ghost before = arms@;
            arms.push(SwitchArm { pattern, body });
            let ghost av = arm_v(arms@.last());
            proof {
                lemma_arms_v_push(before, arms@.last());
                assert(arms@ =~= before.push(arms@.last()));
            }
            if self.pos == p0 {
                break;
            }
            assert(arms_v(before).push(av) + g_arms(ts, self.st()).0 =~= arms_v(before) + (seq![av] + g_arms(ts, self.st()).0));
        }
        arms
    }

    /// `switch x { arms }`, at the `switch`.
    #[verifier::rlimit(100)]
    #[verifier::spinoff_prover]
    fn parse_switch(&mut self) -> (r: Expr)
        requires
            old(self).wf(),
            !old(self).at_eof(),
        ensures
            Self::step(old(self), final(self)),
            Self::progressed(old(self), final(self)),
            (expr_v(r), final(self).st()) == crate::grammar::g_switch(toks_view(old(self).tokens@), old(self).st()),
        decreases old(self).tokens@.len() - old(self).pos, 1int,
    {
        let ghost ts = toks_view(self.tokens@);
        let ghost s0 = self.st();
        let span_start = self.peek_span().0;
        self.advance();
        let ghost s1 = self.st();
        let expr = self.parse_expr();
        let ghost x = expr_v(expr);
        let ghost s2 = self.st();
        self.expect(Token::LBrace);
        let ghost s3 = self.st();
        let arms = self.parse_arms();
        let ghost a = arms_v(arms@);
        let ghost s4 = self.st();
        self.expect(Token::RBrace);
        let ghost s5 = self.st();
        let span = (span_start, self.prev_end());
        let r = Expr { kind: ExprKind::Switch { expr: Box::new(expr), arms }, span };
        proof {
            assert(crate::grammar::g_moved(ts, s0, s1));
            assert((x, s2) == g_expr(ts, s1));
            assert(crate::grammar::g_moved(ts, s0, s3));
            assert((a, s4) == g_arms(ts, s3));
            assert(expr_v(r) == ExprV { kind: ExprKindV::Switch { expr: Box::new(x), arms: a }, span });
        }
        r
    }

    /// `if c then a else b`, at the `if`.
    fn parse_if_expr(&mut self) -> (r: Expr)
        requires
            old(self).wf(),
            !old(self).at_eof(),
        ensures
            Self::step(old(self), final(self)),
            Self::progressed(old(self), final(self)),
            (expr_v(r), final(self).st()) == crate::grammar::g_if(toks_view(old(self).tokens@), old(self).st()),
        decreases old(self).tokens@.len() - old(self).pos, 1int,
    {
        let span_start = self.peek_span().0;
        self.advance();
        let cond = self.parse_expr();
        self.expect(Token::Then);
        let then_ = self.parse_expr();
        self.expect(Token::Else);
        let else_ = self.parse_expr();
        let span = (span_start, self.prev_end());
        Expr { kind: ExprKind::If { cond: Box::new(cond), then_: Box::new(then_), else_: Box::new(else_) }, span }
    }

    /// `import("m")`, at the `import`.
    fn parse_import(&mut self) -> (r: Expr)
        requires
            old(self).wf(),
            !old(self).at_eof(),
        ensures
            Self::step(old(self), final(self)),
            Self::progressed(old(self), final(self)),
            (expr_v(r), final(self).st()) == crate::grammar::g_import(toks_view(old(self).tokens@), old(self).st()),
    {
        let span_start = self.peek_span().0;
        self.advance();
        self.expect(Token::LParen);
        let (module, bad) = match self.peek() {
            Token::Str(s) => (to_string(s.as_str()), None),
            tok => (String::new(), Some(token_display(tok))),
        };
        self.advance();
        if let Some(d) = bad {
            self.error(cat2("Expected string in import(), got ", d.as_str()));
        }
        self.expect(Token::RParen);
        let span = (span_start, self.prev_end());
        Expr { kind: ExprKind::Import(module), span }
    }

    /// A name or a literal; anything else is reported and read as `0`.
    fn parse_atom(&mut self) -> (r: Expr)
        requires
            old(self).wf(),
        ensures
            Self::step(old(self), final(self)),
            Self::progressed(old(self), final(self)),
            (expr_v(r), final(self).st()) == crate::grammar::g_atom(toks_view(old(self).tokens@), old(self).st()),
    {
        let span = self.peek_span();
        let kind = match self.peek() {
            Token::Ident(name) => Some(ExprKind::Var(to_string(name.as_str()))),
            Token::Str(s) => Some(ExprKind::Str(to_string(s.as_str()))),
            Token::Int(n) => Some(ExprKind::Int(*n)),
            Token::Float(f) => Some(ExprKind::Float(to_string(f.as_str()))),
            Token::True => Some(ExprKind::Bool(true)),
            Token::False => Some(ExprKind::Bool(false)),
            _ => None,
        };
        match kind {
            Some(k) => {
                self.advance();
                Expr { kind: k, span }
            },
            None => {
                let d = token_display(self.peek());
                self.error(cat2("Unexpected token: ", d.as_str()));
                self.advance();
                Expr { kind: ExprKind::Int(0), span }
            },
        }
    }

    fn parse_primary(&mut self) -> (r: Expr)
        requires
            old(self).wf(),
        ensures
            Self::step(old(self), final(self)),
            Self::progressed(old(self), final(self)),
            (expr_v(r), final(self).st()) == g_primary(toks_view(old(self).tokens@), old(self).st()),
        decreases old(self).tokens@.len() - old(self).pos, 2int,
    {
        let span = self.peek_span();
        let span_start = span.0;
        if self.peek_is(&Token::Switch) {
            self.parse_switch()
        } else if self.peek_is(&Token::If) {
            self.parse_if_expr()
        } else if self.peek_is(&Token::Import) {
            self.parse_import()
        } else if self.peek_is(&Token::LBracket) {
            self.advance();
            let elems = self.parse_elems();
            self.expect(Token::RBracket);
            let span = (span_start, self.prev_end());
            Expr { kind: ExprKind::ArrayLiteral(elems), span }
        } else if self.peek_is(&Token::LParen) {
            self.advance();
            let e = self.parse_expr();
            self.expect(Token::RParen);
            e
        } else {
            self.parse_atom()
        }
    }
}

/// Parses a token stream: the program, the syntax errors, and for each
/// top-level item the source range that separates it from the previous
/// item's content (see `fmt::blank_lines`). The stream's last token must be
/// `EOF`, as `tokenize` gives it (earlier `EOF` tokens are allowed). A stream
/// with no `EOF` is not accepted, since parsing it would not end; nor is one
/// whose only `EOF` tokens come before its last token.
pub fn parse(tokens: Vec<(Token, Span)>) -> (r: (Program, Vec<ParseError>, Vec<Span>))
    requires
        ends_with_eof(tokens@),
    ensures
        (tops_v(r.0@), r.2@, errs_v(r.1@)) == (g_parse(toks_view(tokens@)).0, g_parse(toks_view(tokens@)).1,
            g_parse(toks_view(tokens@)).2.errs),
        errors_at_tokens(tokens@, r.1@),
{
    let ghost ts = tokens@;
    let mut p = Parser::new(tokens);
    let (program, gaps) = p.parse_program_gaps();
    (program, p.errors, gaps)
}

} // verus!
