//! The parser of the example S-expression language, over the lexer's tokens.
use vstd::prelude::*;

use crate::lexer::{tokenize, LexError, Token};

verus! {

/// An operator of the language.
#[derive(Clone, Copy, Debug, PartialEq, Eq, Structural)]
pub enum Operator {
    Plus,
    Dash,
    Star,
    Slash,
    Eq,
    Dollar,
}

/// An expression of the language; identifiers are their characters.
#[derive(Debug)]
pub enum Expr {
    Int(i64),
    Ident(Vec<char>),
    Operation(Operator, Vec<Expr>),
    Let(Vec<char>, Box<Expr>),
}

/// Why a source could not be parsed.
#[derive(Clone, Copy, Debug, PartialEq, Eq, Structural)]
pub enum ParseError {
    /// The source holds a number that does not fit an `i64`.
    Lex(LexError),
    /// An expression does not begin with `(`.
    ExpectedOpenParen,
    /// An expression ends where an operator or operand should stand, or
    /// holds a parenthesis there.
    ExpectedOperator,
    /// An operation stands as an operand without parentheses.
    NeedsParens,
    /// A `let` stands where no declaration is allowed.
    LetNotAllowed,
    /// A `let` is not followed by an identifier.
    ExpectedIdent,
    /// An expression does not end with `)`.
    ExpectedCloseParen,
}

/// The operator that a token stands for, if any.
pub open spec fn operator_of(t: Token) -> Option<Operator> {
    match t {
        Token::Plus => Some(Operator::Plus),
        Token::Dash => Some(Operator::Dash),
        Token::Star => Some(Operator::Star),
        Token::Slash => Some(Operator::Slash),
        Token::Eq => Some(Operator::Eq),
        Token::Dollar => Some(Operator::Dollar),
        _ => None,
    }
}

/// Where the expression that starts at `pos` ends, or why it cannot be
/// read. An expression is an integer, an identifier, an operator applied to
/// the operands up to the next `)`, or `let` with an identifier and an
/// operand. Where `parens_required`, it stands between `(` and `)`; an
/// operand that begins with `(` is read the same way; an operation must
/// stand in parentheses; `let` only where `allow_decls`.
pub open spec fn expr_end(toks: Seq<Token>, pos: int, allow_decls: bool, parens_required: bool) -> Result<int, ParseError>
    decreases toks.len() - pos, if parens_required { 0nat } else { 1nat },
{
    if pos < 0 || pos > toks.len() {
        Err(ParseError::ExpectedOperator)
    } else if !parens_required && pos < toks.len() && toks[pos] == Token::OpenParen {
        expr_end(toks, pos, allow_decls, true)
    } else if parens_required && (pos >= toks.len() || toks[pos] != Token::OpenParen) {
        Err(ParseError::ExpectedOpenParen)
    } else {
        let p = if parens_required { pos + 1 } else { pos };
        if p >= toks.len() {
            Err(ParseError::ExpectedOperator)
        } else {
            let body: Result<int, ParseError> = match toks[p] {
                Token::Int(_) | Token::Ident(_, _) => Ok(p + 1),
                Token::Let => if !allow_decls {
                    Err(ParseError::LetNotAllowed)
                } else if p + 1 >= toks.len() || !(toks[p + 1] is Ident) {
                    Err(ParseError::ExpectedIdent)
                } else {
                    expr_end(toks, p + 2, false, false)
                },
                Token::OpenParen | Token::CloseParen => Err(ParseError::ExpectedOperator),
                _ => if !parens_required {
                    Err(ParseError::NeedsParens)
                } else {
                    operands_end(toks, p + 1)
                },
            };
            match body {
                Err(e) => Err(e),
                Ok(q) => if !parens_required {
                    Ok(q)
                } else if q < toks.len() && toks[q] == Token::CloseParen {
                    Ok(q + 1)
                } else {
                    Err(ParseError::ExpectedCloseParen)
                },
            }
        }
    }
}

/// Where the operands that start at `pos` end: at the next `)` or at the
/// end of the tokens.
pub open spec fn operands_end(toks: Seq<Token>, pos: int) -> Result<int, ParseError>
    decreases toks.len() - pos, 2nat,
{
    if pos < 0 || pos >= toks.len() || toks[pos] == Token::CloseParen {
        Ok(pos)
    } else {
        match expr_end(toks, pos, false, false) {
            Err(e) => Err(e),
            Ok(q) => if q <= pos || q > toks.len() {
                Err(ParseError::ExpectedOperator)
            } else {
                operands_end(toks, q)
            },
        }
    }
}

/// Whether the top-level expressions from `pos` on can be read.
pub open spec fn program_ok(toks: Seq<Token>, pos: int) -> Result<(), ParseError>
    decreases toks.len() - pos,
{
    if pos < 0 || pos >= toks.len() {
        Ok(())
    } else {
        match expr_end(toks, pos, true, true) {
            Err(e) => Err(e),
            Ok(q) => if q <= pos || q > toks.len() {
                Err(ParseError::ExpectedOperator)
            } else {
                program_ok(toks, q)
            },
        }
    }
}

/// Whether the source `s` parses.
pub open spec fn parses(s: Seq<char>) -> Result<(), ParseError> {
    match crate::lexer::lex_from(s, 0) {
        Err(e) => Err(ParseError::Lex(e)),
        Ok(toks) => program_ok(toks, 0),
    }
}

/// Whether expression `e` is of the kind that its first token `t` begins.
pub open spec fn shape_of(e: Expr, t: Token) -> bool {
    match t {
        Token::Int(v) => e matches Expr::Int(w) && w == v,
        Token::Ident(_, _) => e is Ident,
        Token::Let => e is Let,
        _ => e matches Expr::Operation(op, _) && operator_of(t) == Some(op),
    }
}

/// The characters of `src[a..b]`, or none where the range is not in it.
pub open spec fn ident_text(src: Seq<char>, a: int, b: int) -> Seq<char> {
    if 0 <= a <= b <= src.len() {
        src.subrange(a, b)
    } else {
        Seq::empty()
    }
}

/// Whether `e` is the expression that the tokens from `pos` spell, read as
/// `expr_end` reads it; identifiers take their characters from `src`.
pub open spec fn expr_at(
    e: Expr,
    toks: Seq<Token>,
    src: Seq<char>,
    pos: int,
    allow_decls: bool,
    parens_required: bool,
) -> bool
    decreases e, if parens_required { 0nat } else { 1nat },
{
    if pos < 0 || pos >= toks.len() {
        false
    } else if !parens_required && toks[pos] == Token::OpenParen {
        expr_at(e, toks, src, pos, allow_decls, true)
    } else {
        let p = if parens_required { pos + 1 } else { pos };
        if p >= toks.len() {
            false
        } else {
            match toks[p] {
                Token::Int(v) => e matches Expr::Int(w) && w == v,
                Token::Ident(a, b) => e matches Expr::Ident(n) && n@ == ident_text(
                    src,
                    a as int,
                    b as int,
                ),
                Token::Let => match e {
                    Expr::Let(n, init) => p + 1 < toks.len() && (toks[p + 1] matches Token::Ident(
                        a,
                        b,
                    ) && n@ == ident_text(src, a as int, b as int)) && expr_at(
                        *init,
                        toks,
                        src,
                        p + 2,
                        false,
                        false,
                    ),
                    _ => false,
                },
                _ => match e {
                    Expr::Operation(o, ops) => operator_of(toks[p]) == Some(o) && ops_at(
                        ops@,
                        toks,
                        src,
                        p + 1,
                    ),
                    _ => false,
                },
            }
        }
    }
}

/// Whether `ops` are the operands that the tokens from `pos` spell, up to
/// the next `)` or the end.
pub open spec fn ops_at(ops: Seq<Expr>, toks: Seq<Token>, src: Seq<char>, pos: int) -> bool
    decreases ops, 2nat,
{
    if ops.len() == 0 {
        pos < 0 || pos >= toks.len() || toks[pos] == Token::CloseParen
    } else {
        expr_at(ops[0], toks, src, pos, false, false) && match expr_end(toks, pos, false, false) {
            Ok(q) => ops_at(ops.subrange(1, ops.len() as int), toks, src, q),
            Err(_) => false,
        }
    }
}

/// Whether `es` are the top-level expressions that the tokens from `pos`
/// spell.
pub open spec fn exprs_at(es: Seq<Expr>, toks: Seq<Token>, src: Seq<char>, pos: int) -> bool
    decreases es,
{
    if es.len() == 0 {
        pos >= toks.len()
    } else {
        expr_at(es[0], toks, src, pos, true, true) && match expr_end(toks, pos, true, true) {
            Ok(q) => exprs_at(es.subrange(1, es.len() as int), toks, src, q),
            Err(_) => false,
        }
    }
}

/// A parser over the tokens of one source.
pub struct Parser {
    source: Vec<char>,
    tokens: Vec<Token>,
}

fn operator(t: Token) -> (r: Option<Operator>)
    ensures
        r == operator_of(t),
{
    match t {
        Token::Plus => Some(Operator::Plus),
        Token::Dash => Some(Operator::Dash),
        Token::Star => Some(Operator::Star),
        Token::Slash => Some(Operator::Slash),
        Token::Eq => Some(Operator::Eq),
        Token::Dollar => Some(Operator::Dollar),
        _ => None,
    }
}

impl Parser {
    /// The characters of `source[a..b]`, or nothing where the range is not
    /// in it.
    fn text(&self, a: usize, b: usize) -> (r: Vec<char>)
        ensures
            r@ == ident_text(self.source@, a as int, b as int),
    {
        let mut out: Vec<char> = Vec::new();
        if a <= b && b <= self.source.len() {
            let mut i = a;
            while i < b
                invariant
                    a <= i <= b <= self.source@.len(),
                    out@ == self.source@.subrange(a as int, i as int),
                decreases b - i,
            {
                out.push(self.source[i]);
                i += 1;
                assert(out@ =~= self.source@.subrange(a as int, i as int));
            }
        }
        out
    }

    /// Reads the expression that starts at `pos`; returns it and where it
    /// ends.
    fn parse_expr(&self, pos: usize, allow_decls: bool, parens_required: bool) -> (r: Result<
        (Expr, usize),
        ParseError,
    >)
        requires
            pos <= self.tokens@.len(),
        ensures
            match expr_end(self.tokens@, pos as int, allow_decls, parens_required) {
                Ok(q) => r is Ok && r->Ok_0.1 == q && pos < q <= self.tokens@.len() && expr_at(
                    r->Ok_0.0,
                    self.tokens@,
                    self.source@,
                    pos as int,
                    allow_decls,
                    parens_required,
                ) && shape_of(
                    r->Ok_0.0,
                    self.tokens@[if parens_required || self.tokens@[pos as int] == Token::OpenParen {
                        pos + 1
                    } else {
                        pos as int
                    }],
                ),
                Err(e) => r == Err::<(Expr, usize), ParseError>(e),
            },
        decreases self.tokens@.len() - pos, if parens_required { 0nat } else { 1nat },
    {
        let toks = &self.tokens;
        let len = toks.len();
        if !parens_required && pos < len && toks[pos] == Token::OpenParen {
            return self.parse_expr(pos, allow_decls, true);
        }
        if parens_required && (pos >= len || toks[pos] != Token::OpenParen) {
            return Err(ParseError::ExpectedOpenParen);
        }
        let p = if parens_required {
            pos + 1
        } else {
            pos
        };
        if p >= len {
            return Err(ParseError::ExpectedOperator);
        }
        let (expr, q) = match toks[p] {
            Token::Int(v) => (Expr::Int(v), p + 1),
            Token::Ident(a, b) => (Expr::Ident(self.text(a, b)), p + 1),
            Token::Let => {
                if !allow_decls {
                    return Err(ParseError::LetNotAllowed);
                }
                if p + 1 >= len {
                    return Err(ParseError::ExpectedIdent);
                }
                let (a, b) = match toks[p + 1] {
                    Token::Ident(a, b) => (a, b),
                    _ => {
                        return Err(ParseError::ExpectedIdent);
                    },
                };
                let (init, q) = self.parse_expr(p + 2, false, false)?;
                (Expr::Let(self.text(a, b), Box::new(init)), q)
            },
            Token::OpenParen | Token::CloseParen => {
                return Err(ParseError::ExpectedOperator);
            },
            t => {
                if !parens_required {
                    return Err(ParseError::NeedsParens);
                }
                let op = match operator(t) {
                    Some(op) => op,
                    None => {
                        return Err(ParseError::ExpectedOperator);
                    },
                };
                let (operands, q) = self.parse_operands(p + 1)?;
                (Expr::Operation(op, operands), q)
            },
        };
        if !parens_required {
            return Ok((expr, q));
        }
        if q < len && toks[q] == Token::CloseParen {
            Ok((expr, q + 1))
        } else {
            Err(ParseError::ExpectedCloseParen)
        }
    }

    /// Reads the operands that start at `pos`, up to the next `)` or the end.
    fn parse_operands(&self, pos: usize) -> (r: Result<(Vec<Expr>, usize), ParseError>)
        requires
            pos <= self.tokens@.len(),
        ensures
            match operands_end(self.tokens@, pos as int) {
                Ok(q) => r is Ok && r->Ok_0.1 == q && pos <= q <= self.tokens@.len() && ops_at(
                    r->Ok_0.0@,
                    self.tokens@,
                    self.source@,
                    pos as int,
                ),
                Err(e) => r == Err::<(Vec<Expr>, usize), ParseError>(e),
            },
        decreases self.tokens@.len() - pos, 2nat,
    {
        let toks = &self.tokens;
        let len = toks.len();
        if pos >= len || toks[pos] == Token::CloseParen {
            return Ok((Vec::new(), pos));
        }
        let (first, q) = self.parse_expr(pos, false, false)?;
        let (mut rest, end) = self.parse_operands(q)?;
        let ghost tail = rest@;
        rest.insert(0, first);
        assert(rest@.subrange(1, rest@.len() as int) =~= tail);
        Ok((rest, end))
    }

    /// Reads the top-level expressions from `pos` to the end.
    fn parse_program(&self, pos: usize) -> (r: Result<Vec<Expr>, ParseError>)
        requires
            pos <= self.tokens@.len(),
        ensures
            match program_ok(self.tokens@, pos as int) {
                Ok(()) => r is Ok && exprs_at(r->Ok_0@, self.tokens@, self.source@, pos as int),
                Err(e) => r == Err::<Vec<Expr>, ParseError>(e),
            },
        decreases self.tokens@.len() - pos,
    {
        if pos >= self.tokens.len() {
            return Ok(Vec::new());
        }
        let (first, q) = self.parse_expr(pos, true, true)?;
        let mut rest = self.parse_program(q)?;
        let ghost tail = rest@;
        rest.insert(0, first);
        assert(rest@.subrange(1, rest@.len() as int) =~= tail);
        Ok(rest)
    }

    /// Parses a whole source: a sequence of parenthesised expressions.
    pub fn parse(source: Vec<char>) -> (r: Result<Vec<Expr>, ParseError>)
        ensures
            r is Ok <==> parses(source@) is Ok,
            r is Err ==> r == Err::<Vec<Expr>, ParseError>(parses(source@)->Err_0),
            r is Ok ==> exprs_at(
                r->Ok_0@,
                crate::lexer::lex_from(source@, 0)->Ok_0,
                source@,
                0,
            ),
    {
        let tokens = match tokenize(source.as_slice()) {
            Ok(t) => t,
            Err(e) => {
                return Err(ParseError::Lex(e));
            },
        };
        let ghost toks = tokens@;
        assert(parses(source@) == program_ok(toks, 0));
        let p = Parser { source, tokens };
        p.parse_program(0)
    }
}

} // verus!
