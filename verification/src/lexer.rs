//! Lexer: source text to tokens with byte spans, with Go-style automatic
//! semicolons after lines that can end a statement.
use vstd::prelude::*;
use crate::strs::{
    byte_off, char_is_alphabetic, char_is_alphanumeric, char_width, chars_of,
    lemma_byte_off_mono, push_char, str_eq, unicode_alphabetic, unicode_alphanumeric,
};

verus! {

#[derive(Debug, Clone, PartialEq)]
pub enum Token {
    // Keywords
    Const,
    Let,
    Fn,
    Export,
    Import,
    Return,
    If,
    While,
    Break,
    Continue,
    Switch,
    Catch,
    Else,
    Then,
    // Type keywords
    Void,
    // Literals
    Ident(String),
    Str(String),
    Int(i64),
    /// A floating-point literal, kept as its source text (digits, one `.`, digits).
    Float(String),
    True,
    False,
    // Operators
    Eq,
    EqEq,
    NotEq,
    Lt,
    Gt,
    LtEq,
    GtEq,
    Plus,
    Minus,
    Star,
    Slash,
    Percent,
    And,
    Or,
    Bang,
    Question,
    FatArrow,
    // Delimiters
    LParen,
    RParen,
    LBrace,
    RBrace,
    LBracket,
    RBracket,
    Colon,
    Semi,
    AutoSemi,
    Dot,
    Comma,
    EOF,
}

/// Byte offset range (start, end) within the source string.
pub type Span = (usize, usize);

/// Mathematical form of a token: text payloads as character sequences,
/// every other token (integers included) as itself.
pub enum SpecTok {
    Ident(Seq<char>),
    Str(Seq<char>),
    Float(Seq<char>),
    Other(Token),
}

pub open spec fn tokv(t: Token) -> SpecTok {
    match t {
        Token::Ident(s) => SpecTok::Ident(s@),
        Token::Str(s) => SpecTok::Str(s@),
        Token::Float(s) => SpecTok::Float(s@),
        other => SpecTok::Other(other),
    }
}

/// View of a token stream.
pub open spec fn toks_view(v: Seq<(Token, Span)>) -> Seq<(SpecTok, Span)> {
    v.map_values(|p: (Token, Span)| (tokv(p.0), p.1))
}

/// Tokens after which a newline inserts an automatic `;`.
pub open spec fn spec_can_end(t: SpecTok) -> bool {
    match t {
        SpecTok::Ident(_) | SpecTok::Str(_) | SpecTok::Float(_) => true,
        SpecTok::Other(tok) => matches!(tok,
            Token::Int(_) | Token::True | Token::False | Token::RParen | Token::RBracket
            | Token::RBrace | Token::Question | Token::Break | Token::Continue | Token::Return),
    }
}

/// Tokens before which an automatic `;` is dropped.
pub open spec fn spec_no_semi_before(t: SpecTok) -> bool {
    match t {
        SpecTok::Other(tok) => matches!(tok,
            Token::RParen | Token::RBracket | Token::RBrace | Token::Comma | Token::Colon
            | Token::Dot | Token::EOF),
        _ => false,
    }
}

/// Tokens that trigger automatic `;` insertion before a newline (Go-style).
fn can_end_stmt(tok: &Token) -> (r: bool)
    ensures
        r == spec_can_end(tokv(*tok)),
{
    matches!(tok,
        Token::Ident(_) | Token::Int(_) | Token::Float(_) | Token::Str(_) | Token::True
        | Token::False | Token::RParen | Token::RBracket | Token::RBrace | Token::Question
        | Token::Break | Token::Continue | Token::Return)
}

/// Tokens that suppress an automatic `;` inserted just before them.
fn no_semi_before(tok: &Token) -> (r: bool)
    ensures
        r == spec_no_semi_before(tokv(*tok)),
{
    matches!(tok,
        Token::RParen | Token::RBracket | Token::RBrace | Token::Comma | Token::Colon
        | Token::Dot | Token::EOF)
}


/// A copy of a token.
pub fn tok_clone(t: &Token) -> (r: Token)
    ensures
        r == *t,
{
    match t {
        Token::Const => Token::Const,
        Token::Let => Token::Let,
        Token::Fn => Token::Fn,
        Token::Export => Token::Export,
        Token::Import => Token::Import,
        Token::Return => Token::Return,
        Token::If => Token::If,
        Token::While => Token::While,
        Token::Break => Token::Break,
        Token::Continue => Token::Continue,
        Token::Switch => Token::Switch,
        Token::Catch => Token::Catch,
        Token::Else => Token::Else,
        Token::Then => Token::Then,
        Token::Void => Token::Void,
        Token::Ident(s) => Token::Ident(s.clone()),
        Token::Str(s) => Token::Str(s.clone()),
        Token::Int(n) => Token::Int(*n),
        Token::Float(s) => Token::Float(s.clone()),
        Token::True => Token::True,
        Token::False => Token::False,
        Token::Eq => Token::Eq,
        Token::EqEq => Token::EqEq,
        Token::NotEq => Token::NotEq,
        Token::Lt => Token::Lt,
        Token::Gt => Token::Gt,
        Token::LtEq => Token::LtEq,
        Token::GtEq => Token::GtEq,
        Token::Plus => Token::Plus,
        Token::Minus => Token::Minus,
        Token::Star => Token::Star,
        Token::Slash => Token::Slash,
        Token::Percent => Token::Percent,
        Token::And => Token::And,
        Token::Or => Token::Or,
        Token::Bang => Token::Bang,
        Token::Question => Token::Question,
        Token::FatArrow => Token::FatArrow,
        Token::LParen => Token::LParen,
        Token::RParen => Token::RParen,
        Token::LBrace => Token::LBrace,
        Token::RBrace => Token::RBrace,
        Token::LBracket => Token::LBracket,
        Token::RBracket => Token::RBracket,
        Token::Colon => Token::Colon,
        Token::Semi => Token::Semi,
        Token::AutoSemi => Token::AutoSemi,
        Token::Dot => Token::Dot,
        Token::Comma => Token::Comma,
        Token::EOF => Token::EOF,
    }
}


/// Number of the token's variant (its kind, payload aside).
pub fn tok_code(t: &Token) -> (r: u8)
    ensures
        r == spec_tok_code(*t),
{
    match t {
        Token::Const => 0,
        Token::Let => 1,
        Token::Fn => 2,
        Token::Export => 3,
        Token::Import => 4,
        Token::Return => 5,
        Token::If => 6,
        Token::While => 7,
        Token::Break => 8,
        Token::Continue => 9,
        Token::Switch => 10,
        Token::Catch => 11,
        Token::Else => 12,
        Token::Then => 13,
        Token::Void => 14,
        Token::Ident(_) => 15,
        Token::Str(_) => 16,
        Token::Int(_) => 17,
        Token::Float(_) => 18,
        Token::True => 19,
        Token::False => 20,
        Token::Eq => 21,
        Token::EqEq => 22,
        Token::NotEq => 23,
        Token::Lt => 24,
        Token::Gt => 25,
        Token::LtEq => 26,
        Token::GtEq => 27,
        Token::Plus => 28,
        Token::Minus => 29,
        Token::Star => 30,
        Token::Slash => 31,
        Token::Percent => 32,
        Token::And => 33,
        Token::Or => 34,
        Token::Bang => 35,
        Token::Question => 36,
        Token::FatArrow => 37,
        Token::LParen => 38,
        Token::RParen => 39,
        Token::LBrace => 40,
        Token::RBrace => 41,
        Token::LBracket => 42,
        Token::RBracket => 43,
        Token::Colon => 44,
        Token::Semi => 45,
        Token::AutoSemi => 46,
        Token::Dot => 47,
        Token::Comma => 48,
        Token::EOF => 49,
    }
}

pub open spec fn spec_tok_code(t: Token) -> u8 {
    match t {
        Token::Const => 0,
        Token::Let => 1,
        Token::Fn => 2,
        Token::Export => 3,
        Token::Import => 4,
        Token::Return => 5,
        Token::If => 6,
        Token::While => 7,
        Token::Break => 8,
        Token::Continue => 9,
        Token::Switch => 10,
        Token::Catch => 11,
        Token::Else => 12,
        Token::Then => 13,
        Token::Void => 14,
        Token::Ident(_) => 15,
        Token::Str(_) => 16,
        Token::Int(_) => 17,
        Token::Float(_) => 18,
        Token::True => 19,
        Token::False => 20,
        Token::Eq => 21,
        Token::EqEq => 22,
        Token::NotEq => 23,
        Token::Lt => 24,
        Token::Gt => 25,
        Token::LtEq => 26,
        Token::GtEq => 27,
        Token::Plus => 28,
        Token::Minus => 29,
        Token::Star => 30,
        Token::Slash => 31,
        Token::Percent => 32,
        Token::And => 33,
        Token::Or => 34,
        Token::Bang => 35,
        Token::Question => 36,
        Token::FatArrow => 37,
        Token::LParen => 38,
        Token::RParen => 39,
        Token::LBrace => 40,
        Token::RBrace => 41,
        Token::LBracket => 42,
        Token::RBracket => 43,
        Token::Colon => 44,
        Token::Semi => 45,
        Token::AutoSemi => 46,
        Token::Dot => 47,
        Token::Comma => 48,
        Token::EOF => 49,
    }
}

// ---------------------------------------------------------------------------
// Specification of the scanner

pub open spec fn is_digit(c: char) -> bool {
    '0' <= c && c <= '9'
}

pub open spec fn is_ident_start(c: char) -> bool {
    unicode_alphabetic(c) || c == '_'
}

pub open spec fn is_ident_char(c: char) -> bool {
    unicode_alphanumeric(c) || c == '_'
}

/// Byte offset of character index `i`, as a span component.
pub open spec fn bo(s: Seq<char>, i: int) -> usize {
    byte_off(s, i) as usize
}

/// The source's UTF-8 length fits in `usize`.
pub open spec fn fits(s: Seq<char>) -> bool {
    byte_off(s, s.len() as int) <= usize::MAX
}

/// Index just past a `//` comment body starting at `j` (the newline is consumed).
pub open spec fn skip_line(s: Seq<char>, j: int) -> int
    decreases s.len() - j,
{
    if j < 0 || j >= s.len() {
        s.len() as int
    } else if s[j] == '\n' {
        j + 1
    } else {
        skip_line(s, j + 1)
    }
}

/// Index of the closing `"` at or after `j`, or the end of the source.
pub open spec fn str_close(s: Seq<char>, j: int) -> int
    decreases s.len() - j,
{
    if j < 0 || j >= s.len() {
        s.len() as int
    } else if s[j] == '"' {
        j
    } else {
        str_close(s, j + 1)
    }
}

/// End of an identifier whose remaining characters start at `j`.
pub open spec fn ident_end(s: Seq<char>, j: int) -> int
    decreases s.len() - j,
{
    if j < 0 || j >= s.len() {
        s.len() as int
    } else if is_ident_char(s[j]) {
        ident_end(s, j + 1)
    } else {
        j
    }
}

/// End of a numeric literal continuing at `j`, and whether it holds a `.`.
pub open spec fn num_end(s: Seq<char>, j: int, dot: bool) -> (int, bool)
    decreases s.len() - j,
{
    if j < 0 || j >= s.len() {
        (s.len() as int, dot)
    } else if is_digit(s[j]) {
        num_end(s, j + 1, dot)
    } else if s[j] == '.' && !dot {
        num_end(s, j + 1, true)
    } else {
        (j, dot)
    }
}

/// Value of the decimal digits `s[i..j]`.
pub open spec fn dec_val(s: Seq<char>, i: int, j: int) -> int
    decreases j - i,
{
    if j <= i {
        0
    } else {
        dec_val(s, i, j - 1) * 10 + ((s[j - 1] as u32) - ('0' as u32))
    }
}

/// Keyword (or identifier) token for a word.
pub open spec fn keyword(w: Seq<char>) -> SpecTok {
    if w == "const"@ { SpecTok::Other(Token::Const) }
    else if w == "let"@ { SpecTok::Other(Token::Let) }
    else if w == "fn"@ { SpecTok::Other(Token::Fn) }
    else if w == "export"@ { SpecTok::Other(Token::Export) }
    else if w == "import"@ { SpecTok::Other(Token::Import) }
    else if w == "return"@ { SpecTok::Other(Token::Return) }
    else if w == "if"@ { SpecTok::Other(Token::If) }
    else if w == "while"@ { SpecTok::Other(Token::While) }
    else if w == "break"@ { SpecTok::Other(Token::Break) }
    else if w == "continue"@ { SpecTok::Other(Token::Continue) }
    else if w == "switch"@ { SpecTok::Other(Token::Switch) }
    else if w == "catch"@ { SpecTok::Other(Token::Catch) }
    else if w == "else"@ { SpecTok::Other(Token::Else) }
    else if w == "then"@ { SpecTok::Other(Token::Then) }
    else if w == "and"@ { SpecTok::Other(Token::And) }
    else if w == "or"@ { SpecTok::Other(Token::Or) }
    else if w == "void"@ { SpecTok::Other(Token::Void) }
    else if w == "true"@ { SpecTok::Other(Token::True) }
    else if w == "false"@ { SpecTok::Other(Token::False) }
    else { SpecTok::Ident(w) }
}

/// Token of a one-character operator or delimiter (other than `/ = ! < > "`).
pub open spec fn single_tok(c: char) -> Option<Token> {
    if c == '+' { Some(Token::Plus) }
    else if c == '-' { Some(Token::Minus) }
    else if c == '*' { Some(Token::Star) }
    else if c == '%' { Some(Token::Percent) }
    else if c == '.' { Some(Token::Dot) }
    else if c == ',' { Some(Token::Comma) }
    else if c == '(' { Some(Token::LParen) }
    else if c == ')' { Some(Token::RParen) }
    else if c == '{' { Some(Token::LBrace) }
    else if c == '}' { Some(Token::RBrace) }
    else if c == '[' { Some(Token::LBracket) }
    else if c == ']' { Some(Token::RBracket) }
    else if c == ':' { Some(Token::Colon) }
    else if c == ';' { Some(Token::Semi) }
    else if c == '?' { Some(Token::Question) }
    else { None }
}

/// One- or two-character operator starting with `c` (one of `= ! < >`),
/// given the next character: the token and its length.
pub open spec fn pair_tok(c: char, next: Option<char>) -> (Token, int) {
    if c == '=' {
        if next == Some('=') { (Token::EqEq, 2) }
        else if next == Some('>') { (Token::FatArrow, 2) }
        else { (Token::Eq, 1) }
    } else if c == '!' {
        if next == Some('=') { (Token::NotEq, 2) } else { (Token::Bang, 1) }
    } else if c == '<' {
        if next == Some('=') { (Token::LtEq, 2) } else { (Token::Lt, 1) }
    } else {
        if next == Some('=') { (Token::GtEq, 2) } else { (Token::Gt, 1) }
    }
}

pub open spec fn add_tok(s: Seq<char>, acc: Seq<(SpecTok, Span)>, t: SpecTok, i: int, j: int)
    -> Seq<(SpecTok, Span)>
{
    acc.push((t, (bo(s, i), bo(s, j))))
}

/// The raw scanner from character index `i`, with the tokens so far in `acc`.
/// `None` when an integer literal does not fit in `i64`.
pub open spec fn lex_from(s: Seq<char>, i: int, acc: Seq<(SpecTok, Span)>)
    -> Option<Seq<(SpecTok, Span)>>
    decreases s.len() - i,
{
    if i < 0 || i >= s.len() {
        Some(add_tok(s, acc, SpecTok::Other(Token::EOF), s.len() as int, s.len() as int))
    } else {
        let c = s[i];
        if c == '\r' || c == ' ' || c == '\t' {
            lex_from(s, i + 1, acc)
        } else if c == '\n' {
            if acc.len() > 0 && spec_can_end(acc.last().0) {
                lex_from(s, i + 1, add_tok(s, acc, SpecTok::Other(Token::AutoSemi), i, i + 1))
            } else {
                lex_from(s, i + 1, acc)
            }
        } else if c == '/' {
            if i + 1 < s.len() && s[i + 1] == '/' {
                proof {
                    lemma_skip_line(s, i + 2);
                }
                lex_from(s, skip_line(s, i + 2), acc)
            } else {
                lex_from(s, i + 1, add_tok(s, acc, SpecTok::Other(Token::Slash), i, i + 1))
            }
        } else if c == '=' || c == '!' || c == '<' || c == '>' {
            let next = if i + 1 < s.len() { Some(s[i + 1]) } else { None };
            let (t, n) = pair_tok(c, next);
            lex_from(s, i + n, add_tok(s, acc, SpecTok::Other(t), i, i + n))
        } else if single_tok(c) is Some {
            lex_from(s, i + 1, add_tok(s, acc, SpecTok::Other(single_tok(c)->0), i, i + 1))
        } else if c == '"' {
            let k = str_close(s, i + 1);
            let e = if k < s.len() { k + 1 } else { k };
            proof {
                lemma_str_close(s, i + 1);
            }
            lex_from(s, e, add_tok(s, acc, SpecTok::Str(s.subrange(i + 1, k)), i, e))
        } else if is_digit(c) {
            let (e, is_float) = num_end(s, i, false);
            proof {
                lemma_num_end(s, i, false);
            }
            if is_float {
                lex_from(s, e, add_tok(s, acc, SpecTok::Float(s.subrange(i, e)), i, e))
            } else if dec_val(s, i, e) <= i64::MAX {
                lex_from(s, e, add_tok(s, acc, SpecTok::Other(Token::Int(dec_val(s, i, e) as i64)), i, e))
            } else {
                None
            }
        } else if is_ident_start(c) {
            let e = ident_end(s, i + 1);
            proof {
                lemma_ident_end(s, i + 1);
            }
            lex_from(s, e, add_tok(s, acc, keyword(s.subrange(i, e)), i, e))
        } else {
            lex_from(s, i + 1, acc)
        }
    }
}

pub proof fn lemma_skip_line(s: Seq<char>, j: int)
    requires
        0 <= j,
    ensures
        j <= skip_line(s, j) <= s.len() || (j > s.len() && skip_line(s, j) == s.len()),
    decreases s.len() - j,
{
    if j < s.len() && s[j] != '\n' {
        lemma_skip_line(s, j + 1);
    }
}

pub proof fn lemma_str_close(s: Seq<char>, j: int)
    requires
        0 <= j,
    ensures
        j <= str_close(s, j) <= s.len() || (j > s.len() && str_close(s, j) == s.len()),
        str_close(s, j) < s.len() ==> s[str_close(s, j)] == '"',
        forall|k: int| j <= k < str_close(s, j) ==> s[k] != '"',
    decreases s.len() - j,
{
    if j < s.len() && s[j] != '"' {
        lemma_str_close(s, j + 1);
    }
}

pub proof fn lemma_ident_end(s: Seq<char>, j: int)
    requires
        0 <= j,
    ensures
        j <= ident_end(s, j) <= s.len() || (j > s.len() && ident_end(s, j) == s.len()),
    decreases s.len() - j,
{
    if j < s.len() && is_ident_char(s[j]) {
        lemma_ident_end(s, j + 1);
    }
}

pub proof fn lemma_num_end(s: Seq<char>, j: int, dot: bool)
    requires
        0 <= j <= s.len(),
    ensures
        j <= num_end(s, j, dot).0 <= s.len(),
        j < s.len() && is_digit(s[j]) ==> j < num_end(s, j, dot).0,
        !num_end(s, j, dot).1 ==> !dot && forall|k: int| j <= k < num_end(s, j, dot).0 ==> is_digit(#[trigger] s[k]),
    decreases s.len() - j,
{
    if j < s.len() && (is_digit(s[j]) || (s[j] == '.' && !dot)) {
        lemma_num_end(s, j + 1, if is_digit(s[j]) { dot } else { true });
    }
}


/// The raw scanner always finishes with the `EOF` token.
proof fn lemma_lex_from_eof(s: Seq<char>, i: int, acc: Seq<(SpecTok, Span)>)
    ensures
        lex_from(s, i, acc) matches Some(r) ==> r.len() > 0 && r.last().0 == SpecTok::Other(Token::EOF),
    decreases s.len() - i,
{
    if i < 0 || i >= s.len() {
    } else {
        let c = s[i];
        if c == '\r' || c == ' ' || c == '\t' {
            lemma_lex_from_eof(s, i + 1, acc);
        } else if c == '\n' {
            if acc.len() > 0 && spec_can_end(acc.last().0) {
                lemma_lex_from_eof(s, i + 1, add_tok(s, acc, SpecTok::Other(Token::AutoSemi), i, i + 1));
            } else {
                lemma_lex_from_eof(s, i + 1, acc);
            }
        } else if c == '/' {
            if i + 1 < s.len() && s[i + 1] == '/' {
                lemma_skip_line(s, i + 2);
                lemma_lex_from_eof(s, skip_line(s, i + 2), acc);
            } else {
                lemma_lex_from_eof(s, i + 1, add_tok(s, acc, SpecTok::Other(Token::Slash), i, i + 1));
            }
        } else if c == '=' || c == '!' || c == '<' || c == '>' {
            let next = if i + 1 < s.len() { Some(s[i + 1]) } else { None };
            let (t, n) = pair_tok(c, next);
            lemma_lex_from_eof(s, i + n, add_tok(s, acc, SpecTok::Other(t), i, i + n));
        } else if single_tok(c) is Some {
            lemma_lex_from_eof(s, i + 1, add_tok(s, acc, SpecTok::Other(single_tok(c)->0), i, i + 1));
        } else if c == '"' {
            let k = str_close(s, i + 1);
            let e = if k < s.len() { k + 1 } else { k };
            lemma_str_close(s, i + 1);
            lemma_lex_from_eof(s, e, add_tok(s, acc, SpecTok::Str(s.subrange(i + 1, k)), i, e));
        } else if is_digit(c) {
            let (e, is_float) = num_end(s, i, false);
            lemma_num_end(s, i, false);
            if is_float {
                lemma_lex_from_eof(s, e, add_tok(s, acc, SpecTok::Float(s.subrange(i, e)), i, e));
            } else if dec_val(s, i, e) <= i64::MAX {
                lemma_lex_from_eof(s, e, add_tok(s, acc, SpecTok::Other(Token::Int(dec_val(s, i, e) as i64)), i, e));
            }
        } else if is_ident_start(c) {
            let e = ident_end(s, i + 1);
            lemma_ident_end(s, i + 1);
            lemma_lex_from_eof(s, e, add_tok(s, acc, keyword(s.subrange(i, e)), i, e));
        } else {
            lemma_lex_from_eof(s, i + 1, acc);
        }
    }
}

/// Law: the token stream of an accepted source is non-empty and ends with `EOF`.
pub proof fn lemma_tokenize_ends_with_eof(s: Seq<char>)
    requires
        lex_ok(s),
    ensures
        spec_tokenize(s).len() > 0,
        spec_tokenize(s).last().0 == SpecTok::Other(Token::EOF),
{
    lemma_lex_from_eof(s, 0, Seq::empty());
    let t = spec_raw(s)->0;
    let n = t.len() as int;
    assert(resolve(t, n) == resolve(t, n - 1) + resolve_one(t, n - 1));
    assert(resolve_one(t, n - 1) == seq![t[n - 1]]);
}

/// Law: a line break ends a statement after exactly these tokens: an
/// identifier, a literal (string, number, `true`, `false`), a closing `)`,
/// `]` or `}`, the `?` of error propagation, and `break`, `continue`, `return`.
pub proof fn lemma_statement_enders(t: SpecTok)
    ensures
        spec_can_end(t) <==> (
            t is Ident || t is Str || t is Float
            || (t matches SpecTok::Other(Token::Int(_)))
            || t == SpecTok::Other(Token::True) || t == SpecTok::Other(Token::False)
            || t == SpecTok::Other(Token::RParen) || t == SpecTok::Other(Token::RBracket)
            || t == SpecTok::Other(Token::RBrace) || t == SpecTok::Other(Token::Question)
            || t == SpecTok::Other(Token::Break) || t == SpecTok::Other(Token::Continue)
            || t == SpecTok::Other(Token::Return)),
{
}

/// Law: the words `and` and `or` are read as the operator tokens `and` and `or`.
pub proof fn lemma_logical_keywords()
    ensures
        keyword("and"@) == SpecTok::Other(Token::And),
        keyword("or"@) == SpecTok::Other(Token::Or),
{
    reveal_strlit("and");
    reveal_strlit("or");
    reveal_strlit("const");
    reveal_strlit("let");
    reveal_strlit("fn");
    reveal_strlit("export");
    reveal_strlit("import");
    reveal_strlit("return");
    reveal_strlit("if");
    reveal_strlit("while");
    reveal_strlit("break");
    reveal_strlit("continue");
    reveal_strlit("switch");
    reveal_strlit("catch");
    reveal_strlit("else");
    reveal_strlit("then");
    assert("and"@ != "const"@ && "or"@ != "const"@) by {
        if "const"@.len() == 3 { assert("and"@[0] != "const"@[0] || "and"@[1] != "const"@[1]); }
        if "const"@.len() == 2 { assert("or"@[0] != "const"@[0] || "or"@[1] != "const"@[1]); }
    }
    assert("and"@ != "let"@ && "or"@ != "let"@) by {
        if "let"@.len() == 3 { assert("and"@[0] != "let"@[0] || "and"@[1] != "let"@[1]); }
        if "let"@.len() == 2 { assert("or"@[0] != "let"@[0] || "or"@[1] != "let"@[1]); }
    }
    assert("and"@ != "fn"@ && "or"@ != "fn"@) by {
        if "fn"@.len() == 3 { assert("and"@[0] != "fn"@[0] || "and"@[1] != "fn"@[1]); }
        if "fn"@.len() == 2 { assert("or"@[0] != "fn"@[0] || "or"@[1] != "fn"@[1]); }
    }
    assert("and"@ != "export"@ && "or"@ != "export"@) by {
        if "export"@.len() == 3 { assert("and"@[0] != "export"@[0] || "and"@[1] != "export"@[1]); }
        if "export"@.len() == 2 { assert("or"@[0] != "export"@[0] || "or"@[1] != "export"@[1]); }
    }
    assert("and"@ != "import"@ && "or"@ != "import"@) by {
        if "import"@.len() == 3 { assert("and"@[0] != "import"@[0] || "and"@[1] != "import"@[1]); }
        if "import"@.len() == 2 { assert("or"@[0] != "import"@[0] || "or"@[1] != "import"@[1]); }
    }
    assert("and"@ != "return"@ && "or"@ != "return"@) by {
        if "return"@.len() == 3 { assert("and"@[0] != "return"@[0] || "and"@[1] != "return"@[1]); }
        if "return"@.len() == 2 { assert("or"@[0] != "return"@[0] || "or"@[1] != "return"@[1]); }
    }
    assert("and"@ != "if"@ && "or"@ != "if"@) by {
        if "if"@.len() == 3 { assert("and"@[0] != "if"@[0] || "and"@[1] != "if"@[1]); }
        if "if"@.len() == 2 { assert("or"@[0] != "if"@[0] || "or"@[1] != "if"@[1]); }
    }
    assert("and"@ != "while"@ && "or"@ != "while"@) by {
        if "while"@.len() == 3 { assert("and"@[0] != "while"@[0] || "and"@[1] != "while"@[1]); }
        if "while"@.len() == 2 { assert("or"@[0] != "while"@[0] || "or"@[1] != "while"@[1]); }
    }
    assert("and"@ != "break"@ && "or"@ != "break"@) by {
        if "break"@.len() == 3 { assert("and"@[0] != "break"@[0] || "and"@[1] != "break"@[1]); }
        if "break"@.len() == 2 { assert("or"@[0] != "break"@[0] || "or"@[1] != "break"@[1]); }
    }
    assert("and"@ != "continue"@ && "or"@ != "continue"@) by {
        if "continue"@.len() == 3 { assert("and"@[0] != "continue"@[0] || "and"@[1] != "continue"@[1]); }
        if "continue"@.len() == 2 { assert("or"@[0] != "continue"@[0] || "or"@[1] != "continue"@[1]); }
    }
    assert("and"@ != "switch"@ && "or"@ != "switch"@) by {
        if "switch"@.len() == 3 { assert("and"@[0] != "switch"@[0] || "and"@[1] != "switch"@[1]); }
        if "switch"@.len() == 2 { assert("or"@[0] != "switch"@[0] || "or"@[1] != "switch"@[1]); }
    }
    assert("and"@ != "catch"@ && "or"@ != "catch"@) by {
        if "catch"@.len() == 3 { assert("and"@[0] != "catch"@[0] || "and"@[1] != "catch"@[1]); }
        if "catch"@.len() == 2 { assert("or"@[0] != "catch"@[0] || "or"@[1] != "catch"@[1]); }
    }
    assert("and"@ != "else"@ && "or"@ != "else"@) by {
        if "else"@.len() == 3 { assert("and"@[0] != "else"@[0] || "and"@[1] != "else"@[1]); }
        if "else"@.len() == 2 { assert("or"@[0] != "else"@[0] || "or"@[1] != "else"@[1]); }
    }
    assert("and"@ != "then"@ && "or"@ != "then"@) by {
        if "then"@.len() == 3 { assert("and"@[0] != "then"@[0] || "and"@[1] != "then"@[1]); }
        if "then"@.len() == 2 { assert("or"@[0] != "then"@[0] || "or"@[1] != "then"@[1]); }
    }
}

/// Law: a `?` that ends a line is scanned as the `?` token followed by an
/// automatic `;` at the line break, whatever came before it.
pub proof fn lemma_question_ends_line(s: Seq<char>, i: int, acc: Seq<(SpecTok, Span)>)
    requires
        0 <= i,
        i + 1 < s.len(),
        s[i] == '?',
        s[i + 1] == '\n',
    ensures
        lex_from(s, i, acc) == lex_from(s, i + 2, add_tok(s,
            add_tok(s, acc, SpecTok::Other(Token::Question), i, i + 1),
            SpecTok::Other(Token::AutoSemi), i + 1, i + 2)),
{
    let acc1 = add_tok(s, acc, SpecTok::Other(Token::Question), i, i + 1);
    assert(single_tok('?') == Some(Token::Question));
    assert(lex_from(s, i, acc) == lex_from(s, i + 1, acc1));
    assert(acc1.last().0 == SpecTok::Other(Token::Question));
    assert(spec_can_end(SpecTok::Other(Token::Question)));
}

/// Law: an automatic `;` becomes a `;` of the token stream unless the next
/// token is a closer (`)`, `]`, `}`), `,`, `:`, `.` or the end.
pub proof fn lemma_auto_semi_kept(t: Seq<(SpecTok, Span)>, k: int)
    requires
        0 <= k,
        k + 1 < t.len(),
        t[k].0 == SpecTok::Other(Token::AutoSemi),
        !(t[k + 1].0 == SpecTok::Other(Token::RParen) || t[k + 1].0 == SpecTok::Other(Token::RBracket)
            || t[k + 1].0 == SpecTok::Other(Token::RBrace) || t[k + 1].0 == SpecTok::Other(Token::Comma)
            || t[k + 1].0 == SpecTok::Other(Token::Colon) || t[k + 1].0 == SpecTok::Other(Token::Dot)
            || t[k + 1].0 == SpecTok::Other(Token::EOF)),
    ensures
        resolve(t, k + 1) == resolve(t, k).push((SpecTok::Other(Token::Semi), t[k].1)),
{
    assert(resolve_one(t, k) =~= seq![(SpecTok::Other(Token::Semi), t[k].1)]);
}

/// Law: an automatic `;` just before a closer (`)`, `]`, `}`), `,`, `:`, `.`
/// or the end leaves nothing in the token stream.
pub proof fn lemma_auto_semi_dropped(t: Seq<(SpecTok, Span)>, k: int)
    requires
        0 <= k,
        k < t.len(),
        t[k].0 == SpecTok::Other(Token::AutoSemi),
        k + 1 == t.len() || t[k + 1].0 == SpecTok::Other(Token::RParen)
            || t[k + 1].0 == SpecTok::Other(Token::RBracket) || t[k + 1].0 == SpecTok::Other(Token::RBrace)
            || t[k + 1].0 == SpecTok::Other(Token::Comma) || t[k + 1].0 == SpecTok::Other(Token::Colon)
            || t[k + 1].0 == SpecTok::Other(Token::Dot) || t[k + 1].0 == SpecTok::Other(Token::EOF),
    ensures
        resolve(t, k + 1) == resolve(t, k),
{
    assert(resolve_one(t, k) =~= Seq::<(SpecTok, Span)>::empty());
    assert(resolve(t, k) + Seq::<(SpecTok, Span)>::empty() =~= resolve(t, k));
}

/// Raw tokens of a source text (automatic `;` not yet resolved).
pub open spec fn spec_raw(s: Seq<char>) -> Option<Seq<(SpecTok, Span)>> {
    lex_from(s, 0, Seq::empty())
}

/// The tokenizer accepts the source: every integer literal fits in `i64`.
pub open spec fn lex_ok(s: Seq<char>) -> bool {
    spec_raw(s) is Some
}

/// What raw token `k` becomes: an automatic `;` is dropped before a token
/// that suppresses it and otherwise becomes `;`.
pub open spec fn resolve_one(t: Seq<(SpecTok, Span)>, k: int) -> Seq<(SpecTok, Span)> {
    if t[k].0 == SpecTok::Other(Token::AutoSemi) {
        let next = if k + 1 < t.len() { t[k + 1].0 } else { SpecTok::Other(Token::EOF) };
        if spec_no_semi_before(next) {
            Seq::empty()
        } else {
            seq![(SpecTok::Other(Token::Semi), t[k].1)]
        }
    } else {
        seq![t[k]]
    }
}

/// Resolution of the first `n` raw tokens.
pub open spec fn resolve(t: Seq<(SpecTok, Span)>, n: int) -> Seq<(SpecTok, Span)>
    decreases n,
{
    if n <= 0 {
        Seq::empty()
    } else {
        resolve(t, n - 1) + resolve_one(t, n - 1)
    }
}

/// The token stream of a source text.
pub open spec fn spec_tokenize(s: Seq<char>) -> Seq<(SpecTok, Span)> {
    resolve(spec_raw(s)->0, spec_raw(s)->0.len() as int)
}


// ---------------------------------------------------------------------------
// The scanner

fn is_ascii_digit(c: char) -> (r: bool)
    ensures
        r == is_digit(c),
{
    c >= '0' && c <= '9'
}

fn keyword_tok(w: String) -> (t: Token)
    ensures
        tokv(t) == keyword(w@),
{
    let ws = w.as_str();
    if str_eq(ws, "const") { Token::Const }
    else if str_eq(ws, "let") { Token::Let }
    else if str_eq(ws, "fn") { Token::Fn }
    else if str_eq(ws, "export") { Token::Export }
    else if str_eq(ws, "import") { Token::Import }
    else if str_eq(ws, "return") { Token::Return }
    else if str_eq(ws, "if") { Token::If }
    else if str_eq(ws, "while") { Token::While }
    else if str_eq(ws, "break") { Token::Break }
    else if str_eq(ws, "continue") { Token::Continue }
    else if str_eq(ws, "switch") { Token::Switch }
    else if str_eq(ws, "catch") { Token::Catch }
    else if str_eq(ws, "else") { Token::Else }
    else if str_eq(ws, "then") { Token::Then }
    else if str_eq(ws, "and") { Token::And }
    else if str_eq(ws, "or") { Token::Or }
    else if str_eq(ws, "void") { Token::Void }
    else if str_eq(ws, "true") { Token::True }
    else if str_eq(ws, "false") { Token::False }
    else { Token::Ident(w) }
}

fn single(c: char) -> (r: Option<Token>)
    ensures
        r == single_tok(c),
{
    if c == '+' { Some(Token::Plus) }
    else if c == '-' { Some(Token::Minus) }
    else if c == '*' { Some(Token::Star) }
    else if c == '%' { Some(Token::Percent) }
    else if c == '.' { Some(Token::Dot) }
    else if c == ',' { Some(Token::Comma) }
    else if c == '(' { Some(Token::LParen) }
    else if c == ')' { Some(Token::RParen) }
    else if c == '{' { Some(Token::LBrace) }
    else if c == '}' { Some(Token::RBrace) }
    else if c == '[' { Some(Token::LBracket) }
    else if c == ']' { Some(Token::RBracket) }
    else if c == ':' { Some(Token::Colon) }
    else if c == ';' { Some(Token::Semi) }
    else if c == '?' { Some(Token::Question) }
    else { None }
}

/// Skips a `//` comment body from `j`; returns the index and byte offset after it.
fn scan_comment(chars: &Vec<char>, j: usize, b: usize) -> (r: (usize, usize))
    requires
        j <= chars@.len(),
        b as int == byte_off(chars@, j as int),
        fits(chars@),
    ensures
        r.0 as int == skip_line(chars@, j as int),
        r.1 as int == byte_off(chars@, r.0 as int),
{
    let ghost s = chars@;
    let mut k = j;
    let mut bb = b;
    while k < chars.len()
        invariant
            j <= k <= s.len(),
            chars@ == s,
            bb as int == byte_off(s, k as int),
            skip_line(s, j as int) == skip_line(s, k as int),
            fits(s),
        decreases s.len() - k,
    {
        let c = chars[k];
        let w = char_width(c);
        proof {
            lemma_byte_off_mono(s, k + 1, s.len() as int);
        }
        k += 1;
        bb += w;
        if c == '\n' {
            return (k, bb);
        }
    }
    (k, bb)
}

/// Reads a string literal body from `j`: its text, the index of the closing
/// quote (or the end), and the index and byte offset after the literal.
fn scan_string(chars: &Vec<char>, j: usize, b: usize) -> (r: (String, usize, usize, usize))
    requires
        j <= chars@.len(),
        b as int == byte_off(chars@, j as int),
        fits(chars@),
    ensures
        r.1 as int == str_close(chars@, j as int),
        r.0@ == chars@.subrange(j as int, r.1 as int),
        r.2 as int == (if r.1 < chars@.len() { r.1 + 1 } else { r.1 as int }),
        r.3 as int == byte_off(chars@, r.2 as int),
{
    let ghost s = chars@;
    let mut k = j;
    let mut bb = b;
    let mut text = String::new();
    while k < chars.len() && chars[k] != '"'
        invariant
            j <= k <= s.len(),
            chars@ == s,
            bb as int == byte_off(s, k as int),
            str_close(s, j as int) == str_close(s, k as int),
            text@ == s.subrange(j as int, k as int),
            fits(s),
        decreases s.len() - k,
    {
        let c = chars[k];
        let w = char_width(c);
        proof {
            lemma_byte_off_mono(s, k + 1, s.len() as int);
        }
        push_char(&mut text, c);
        k += 1;
        bb += w;
        assert(text@ =~= s.subrange(j as int, k as int));
    }
    if k < chars.len() {
        proof {
            lemma_byte_off_mono(s, k + 1, s.len() as int);
        }
        (text, k, k + 1, bb + 1)
    } else {
        (text, k, k, bb)
    }
}

/// Reads the rest of an identifier whose first character is at `i`.
fn scan_ident(chars: &Vec<char>, i: usize, b: usize) -> (r: (String, usize, usize))
    requires
        i < chars@.len(),
        b as int == byte_off(chars@, i as int),
        fits(chars@),
    ensures
        r.1 as int == ident_end(chars@, i + 1),
        r.0@ == chars@.subrange(i as int, r.1 as int),
        r.2 as int == byte_off(chars@, r.1 as int),
{
    let ghost s = chars@;
    let n0 = chars.len();
    let mut word = String::new();
    push_char(&mut word, chars[i]);
    proof {
        lemma_byte_off_mono(s, i + 1, s.len() as int);
    }
    let n = chars.len();
    let mut k = i + 1;
    let mut bb = b + char_width(chars[i]);
    assert(word@ =~= s.subrange(i as int, k as int));
    while k < n && (char_is_alphanumeric(chars[k]) || chars[k] == '_')
        invariant
            i + 1 <= k <= s.len(),
            n == s.len(),
            chars@ == s,
            bb as int == byte_off(s, k as int),
            ident_end(s, i + 1) == ident_end(s, k as int),
            word@ == s.subrange(i as int, k as int),
            fits(s),
        decreases s.len() - k,
    {
        let c = chars[k];
        let w = char_width(c);
        proof {
            lemma_byte_off_mono(s, k + 1, s.len() as int);
        }
        push_char(&mut word, c);
        k += 1;
        bb += w;
        assert(word@ =~= s.subrange(i as int, k as int));
    }
    (word, k, bb)
}

/// Finds the end of a numeric literal starting at `i`.
fn scan_number(chars: &Vec<char>, i: usize, b: usize) -> (r: (usize, bool, usize))
    requires
        i < chars@.len(),
        b as int == byte_off(chars@, i as int),
        fits(chars@),
    ensures
        (r.0 as int, r.1) == num_end(chars@, i as int, false),
        r.2 as int == byte_off(chars@, r.0 as int),
{
    let ghost s = chars@;
    let mut k = i;
    let mut bb = b;
    let mut dot = false;
    let n = chars.len();
    while k < n && (is_ascii_digit(chars[k]) || (chars[k] == '.' && !dot))
        invariant
            i <= k <= s.len(),
            n == s.len(),
            chars@ == s,
            bb as int == byte_off(s, k as int),
            num_end(s, i as int, false) == num_end(s, k as int, dot),
            fits(s),
        decreases s.len() - k,
    {
        let c = chars[k];
        if !is_ascii_digit(c) {
            dot = true;
        }
        let w = char_width(c);
        proof {
            lemma_byte_off_mono(s, k + 1, s.len() as int);
        }
        k += 1;
        bb += w;
    }
    (k, dot, bb)
}

pub proof fn lemma_dec_val_nonneg(s: Seq<char>, i: int, k: int)
    requires
        0 <= i <= k <= s.len(),
        forall|m: int| i <= m < k ==> is_digit(#[trigger] s[m]),
    ensures
        0 <= dec_val(s, i, k),
    decreases k - i,
{
    if k > i {
        lemma_dec_val_nonneg(s, i, k - 1);
        assert(is_digit(s[k - 1]));
    }
}

pub proof fn lemma_dec_val_mono(s: Seq<char>, i: int, k: int, e: int)
    requires
        0 <= i <= k <= e <= s.len(),
        forall|m: int| i <= m < e ==> is_digit(#[trigger] s[m]),
    ensures
        0 <= dec_val(s, i, k) <= dec_val(s, i, e),
    decreases e - k,
{
    lemma_dec_val_nonneg(s, i, k);
    if k < e {
        lemma_dec_val_mono(s, i, k, e - 1);
        lemma_dec_val_nonneg(s, i, e - 1);
        assert(is_digit(s[e - 1]));
    }
}

/// Value of the digits `chars[i..e]`, or `None` when it exceeds `i64::MAX`.
fn digits_value(chars: &Vec<char>, i: usize, e: usize) -> (r: Option<i64>)
    requires
        i <= e <= chars@.len(),
        forall|m: int| i <= m < e ==> is_digit(#[trigger] chars@[m]),
    ensures
        r matches Some(v) ==> v as int == dec_val(chars@, i as int, e as int),
        r is None <==> dec_val(chars@, i as int, e as int) > i64::MAX,
{
    let ghost s = chars@;
    let mut k = i;
    let mut val: i64 = 0;
    while k < e
        invariant
            i <= k <= e <= s.len(),
            chars@ == s,
            forall|m: int| i <= m < e ==> is_digit(#[trigger] s[m]),
            val as int == dec_val(s, i as int, k as int),
        decreases e - k,
    {
        let c = chars[k];
        assert(is_digit(s[k as int]));
        let d = (c as u32 - '0' as u32) as i64;
        proof {
            lemma_dec_val_mono(s, i as int, (k + 1) as int, e as int);
        }
        match val.checked_mul(10) {
            None => {
                return None;
            },
            Some(v10) => match v10.checked_add(d) {
                None => {
                    return None;
                },
                Some(v) => {
                    val = v;
                },
            },
        }
        k += 1;
    }
    proof {
        lemma_dec_val_mono(s, i as int, e as int, e as int);
    }
    Some(val)
}

/// Text of `chars[i..e]`.
fn substring(chars: &Vec<char>, i: usize, e: usize) -> (r: String)
    requires
        i <= e <= chars@.len(),
    ensures
        r@ == chars@.subrange(i as int, e as int),
{
    let mut t = String::new();
    let mut k = i;
    while k < e
        invariant
            i <= k <= e <= chars@.len(),
            t@ == chars@.subrange(i as int, k as int),
        decreases e - k,
    {
        push_char(&mut t, chars[k]);
        k += 1;
        assert(t@ =~= chars@.subrange(i as int, k as int));
    }
    t
}

proof fn lemma_push_view(v: Seq<(Token, Span)>, t: Token, sp: Span)
    ensures
        toks_view(v.push((t, sp))) == toks_view(v).push((tokv(t), sp)),
{
    assert(toks_view(v.push((t, sp))) =~= toks_view(v).push((tokv(t), sp)));
}

fn push_token(tokens: &mut Vec<(Token, Span)>, t: Token, a: usize, e: usize)
    ensures
        final(tokens)@ == old(tokens)@.push((t, (a, e))),
        toks_view(final(tokens)@) == toks_view(old(tokens)@).push((tokv(t), (a, e))),
{
    proof {
        lemma_push_view(tokens@, t, (a, e));
    }
    tokens.push((t, (a, e)));
}

/// The raw scanner: `None` exactly when an integer literal overflows `i64`.
fn tokenize_raw(source: &str) -> (r: Option<Vec<(Token, Span)>>)
    requires
        fits(source@),
    ensures
        r is Some <==> spec_raw(source@) is Some,
        r matches Some(v) ==> toks_view(v@) == spec_raw(source@)->0,
{
    let chars = chars_of(source);
    let ghost s = source@;
    let n = chars.len();
    let mut tokens: Vec<(Token, Span)> = Vec::new();
    let mut i: usize = 0;
    let mut b: usize = 0;
    assert(toks_view(tokens@) =~= Seq::<(SpecTok, Span)>::empty());
    while i < n
        invariant
            chars@ == s,
            s == source@,
            n == s.len(),
            i <= n,
            b as int == byte_off(s, i as int),
            fits(s),
            spec_raw(s) == lex_from(s, i as int, toks_view(tokens@)),
        decreases n - i,
    {
        let ghost acc = toks_view(tokens@);
        let c = chars[i];
        let w = char_width(c);
        proof {
            lemma_byte_off_mono(s, i + 1, n as int);
        }
        if c == '\r' || c == ' ' || c == '\t' {
            i += 1;
            b += w;
        } else if c == '\n' {
            if tokens.len() > 0 && can_end_stmt(&tokens[tokens.len() - 1].0) {
                push_token(&mut tokens, Token::AutoSemi, b, b + 1);
            }
            i += 1;
            b += 1;
        } else if c == '/' {
            if i + 1 < n && chars[i + 1] == '/' {
                proof {
                    lemma_byte_off_mono(s, i + 2, n as int);
                }
                let (k, bb) = scan_comment(&chars, i + 2, b + 2);
                proof {
                    lemma_skip_line(s, i + 2);
                }
                i = k;
                b = bb;
            } else {
                push_token(&mut tokens, Token::Slash, b, b + 1);
                i += 1;
                b += 1;
            }
        } else if c == '=' || c == '!' || c == '<' || c == '>' {
            let two = i + 1 < n && (chars[i + 1] == '=' || (c == '=' && chars[i + 1] == '>'));
            if two {
                proof {
                    lemma_byte_off_mono(s, i + 2, n as int);
                }
                let nx = chars[i + 1];
                let t = if c == '=' {
                    if nx == '=' { Token::EqEq } else { Token::FatArrow }
                } else if c == '!' {
                    Token::NotEq
                } else if c == '<' {
                    Token::LtEq
                } else {
                    Token::GtEq
                };
                push_token(&mut tokens, t, b, b + 2);
                i += 2;
                b += 2;
            } else {
                let t = if c == '=' {
                    Token::Eq
                } else if c == '!' {
                    Token::Bang
                } else if c == '<' {
                    Token::Lt
                } else {
                    Token::Gt
                };
                push_token(&mut tokens, t, b, b + 1);
                i += 1;
                b += 1;
            }
        } else if let Some(t) = single(c) {
            push_token(&mut tokens, t, b, b + 1);
            i += 1;
            b += 1;
        } else if c == '"' {
            let (text, _k, e, be) = scan_string(&chars, i + 1, b + 1);
            proof {
                lemma_str_close(s, i + 1);
            }
            push_token(&mut tokens, Token::Str(text), b, be);
            i = e;
            b = be;
        } else if is_ascii_digit(c) {
            let (e, is_float, be) = scan_number(&chars, i, b);
            proof {
                lemma_num_end(s, i as int, false);
            }
            if is_float {
                let text = substring(&chars, i, e);
                push_token(&mut tokens, Token::Float(text), b, be);
            } else {
                match digits_value(&chars, i, e) {
                    None => {
                        assert(lex_from(s, i as int, acc) is None);
                        return None;
                    },
                    Some(v) => {
                        push_token(&mut tokens, Token::Int(v), b, be);
                    },
                }
            }
            i = e;
            b = be;
        } else if char_is_alphabetic(c) || c == '_' {
            let (word, e, be) = scan_ident(&chars, i, b);
            proof {
                lemma_ident_end(s, i + 1);
            }
            let t = keyword_tok(word);
            push_token(&mut tokens, t, b, be);
            i = e;
            b = be;
        } else {
            i += 1;
            b += w;
        }
    }
    push_token(&mut tokens, Token::EOF, b, b);
    Some(tokens)
}

/// Resolves automatic semicolons: dropped before `) ] } , : .` and end of
/// file, and turned into `;` elsewhere. Other tokens are kept as they are.
fn resolve_semis(raw: &Vec<(Token, Span)>) -> (r: Vec<(Token, Span)>)
    ensures
        toks_view(r@) == resolve(toks_view(raw@), raw@.len() as int),
{
    let ghost t = toks_view(raw@);
    let mut result: Vec<(Token, Span)> = Vec::new();
    let mut i: usize = 0;
    assert(toks_view(result@) =~= resolve(t, 0));
    while i < raw.len()
        invariant
            i <= raw@.len(),
            t == toks_view(raw@),
            toks_view(result@) == resolve(t, i as int),
        decreases raw@.len() - i,
    {
        let ghost before = toks_view(result@);
        if matches!(raw[i].0, Token::AutoSemi) {
            let suppress = if i + 1 < raw.len() {
                no_semi_before(&raw[i + 1].0)
            } else {
                true
            };
            if !suppress {
                push_token(&mut result, Token::Semi, raw[i].1.0, raw[i].1.1);
                assert(toks_view(result@) =~= before + resolve_one(t, i as int));
            } else {
                assert(toks_view(result@) =~= before + resolve_one(t, i as int));
            }
        } else {
            let tok = tok_clone(&raw[i].0);
            push_token(&mut result, tok, raw[i].1.0, raw[i].1.1);
            assert(toks_view(result@) =~= before + resolve_one(t, i as int));
        }
        i += 1;
    }
    result
}

/// Tokens of `source`, or `None` when an integer literal does not fit in
/// `i64` (where `tokenize` cannot be called).
pub fn try_tokenize(source: &str) -> (r: Option<Vec<(Token, Span)>>)
    requires
        fits(source@),
    ensures
        r is Some <==> lex_ok(source@),
        r matches Some(v) ==> toks_view(v@) == spec_tokenize(source@),
{
    match tokenize_raw(source) {
        None => None,
        Some(raw) => Some(resolve_semis(&raw)),
    }
}

/// Tokens of `source`, ending with `EOF`.
pub fn tokenize(source: &str) -> (r: Vec<(Token, Span)>)
    requires
        fits(source@),
        lex_ok(source@),
    ensures
        toks_view(r@) == spec_tokenize(source@),
        r@.len() > 0,
        r@.last().0 is EOF,
{
    match try_tokenize(source) {
        Some(v) => {
            proof {
                lemma_tokenize_ends_with_eof(source@);
                let k = v@.len() - 1;
                assert(toks_view(v@)[k] == (tokv(v@[k].0), v@[k].1));
            }
            v
        },
        None => Vec::new(),
    }
}

} // verus!
